//! Decimal numbers on the wire: reading a time-to-live, writing a length, a
//! count or a number of seconds.

use vstd::prelude::*;
use vstd::std_specs::iter::IteratorSpec;

verus! {

/// Whether `c` is one of the ten ASCII digits.
pub open spec fn is_digit(c: char) -> bool {
    '0' <= c <= '9'
}

/// The number that a digit stands for; zero for any other character.
pub open spec fn digit_value(c: char) -> nat {
    if is_digit(c) {
        (c as u32 - '0' as u32) as nat
    } else {
        0
    }
}

/// The digit that stands for `d`, for `d` below ten.
pub open spec fn digit_char(d: nat) -> char {
    (48 + d) as u8 as char
}

/// Whether every character of `s` is a digit.
pub open spec fn all_digits(s: Seq<char>) -> bool {
    forall|i: int| 0 <= i < s.len() ==> is_digit(#[trigger] s[i])
}

/// The number that a string of digits denotes in base ten, the first digit
/// weighing most.
pub open spec fn decimal_value(s: Seq<char>) -> nat
    decreases s.len(),
{
    if s.len() == 0 {
        0
    } else {
        10 * decimal_value(s.drop_last()) + digit_value(s.last())
    }
}

/// The digits of a number after an optional leading `+`.
pub open spec fn unsigned_digits(s: Seq<char>) -> Seq<char> {
    if s.len() > 0 && s[0] == '+' {
        s.drop_first()
    } else {
        s
    }
}

/// What a word means as an unsigned 64-bit number: an optional `+`, then at
/// least one digit and nothing but digits, denoting a number that fits.
/// Leading zeros are allowed. Every other word means nothing.
pub open spec fn parsed_u64(s: Seq<char>) -> Option<u64> {
    let digits = unsigned_digits(s);
    if digits.len() > 0 && all_digits(digits) && decimal_value(digits) <= u64::MAX {
        Some(decimal_value(digits) as u64)
    } else {
        None
    }
}

/// The shortest decimal writing of `n`: no sign, no leading zero but for
/// zero itself.
pub open spec fn decimal(n: nat) -> Seq<char>
    decreases n,
{
    if n < 10 {
        seq![digit_char(n)]
    } else {
        decimal(n / 10).push(digit_char(n % 10))
    }
}

/// A string of digits denotes at least what any of its prefixes denotes.
pub proof fn lemma_decimal_value_prefix(s: Seq<char>, k: int)
    requires
        0 <= k <= s.len(),
    ensures
        decimal_value(s.take(k)) <= decimal_value(s),
    decreases s.len() - k,
{
    if k == s.len() {
        assert(s.take(k) =~= s);
    } else {
        lemma_decimal_value_prefix(s, k + 1);
        assert(s.take(k + 1).drop_last() =~= s.take(k));
    }
}

/// What is written is read back: the decimal writing of a number is made of
/// digits alone and denotes that number, so a number that fits in 64 bits
/// is what reading its writing gives.
pub proof fn lemma_decimal_is_read_back(n: nat)
    ensures
        decimal(n).len() > 0,
        all_digits(decimal(n)),
        decimal_value(decimal(n)) == n,
        n <= u64::MAX ==> parsed_u64(decimal(n)) == Some(n as u64),
    decreases n,
{
    let s = decimal(n);
    if n < 10 {
        assert(decimal_value(s.drop_last()) == 0);
    } else {
        lemma_decimal_is_read_back(n / 10);
        assert(s.drop_last() =~= decimal(n / 10));
        assert forall|i: int| 0 <= i < s.len() implies is_digit(#[trigger] s[i]) by {
            if i < s.len() - 1 {
                assert(s[i] == decimal(n / 10)[i]);
            }
        }
    }
}

/// Reads a word as an unsigned 64-bit number.
pub fn parse_u64(s: &str) -> (r: Option<u64>)
    ensures
        r == parsed_u64(s@),
{
    let mut value: u64 = 0;
    let mut any_digit = false;
    let mut at_start = true;
    let mut chars = s.chars();
    let ghost mut seen: int = 0;
    let ghost mut sign: int = 0;
    let ghost digits = unsigned_digits(s@);
    loop
        invariant_except_break
            chars.obeys_prophetic_iter_laws(),
            chars.decrease() is Some,
            0 <= seen <= s@.len(),
            chars.remaining() == s@.skip(seen),
            digits == unsigned_digits(s@),
            at_start == (seen == 0),
            sign == 0 || sign == 1,
            sign <= seen,
            sign == 1 <==> (seen > 0 && s@[0] == '+'),
            any_digit == (seen - sign > 0),
            all_digits(digits.take(seen - sign)),
            value == decimal_value(digits.take(seen - sign)),
        ensures
            seen == s@.len(),
            sign == 1 <==> (seen > 0 && s@[0] == '+'),
            sign == 0 || sign == 1,
            any_digit == (seen - sign > 0),
            all_digits(digits.take(seen - sign)),
            value == decimal_value(digits.take(seen - sign)),
        decreases chars.decrease()->0,
    {
        match chars.next() {
            None => {
                break ;
            },
            Some(c) => {
                if at_start && c == '+' {
                    proof {
                        sign = 1;
                    }
                } else if c >= '0' && c <= '9' {
                    let d: u64 = (c as u32 - '0' as u32) as u64;
                    let ghost k = seen - sign;
                    proof {
                        // The digits read so far, and this one, denote ten
                        // times what those before it denote, plus its own
                        // value.
                        assert(digits[k] == c);
                        assert(digits.take(k + 1).drop_last() =~= digits.take(k));
                        assert(decimal_value(digits.take(k + 1)) == 10 * value + d);
                    }
                    if value > (u64::MAX - d) / 10 {
                        proof {
                            lemma_decimal_value_prefix(digits, k + 1);
                        }
                        return None;
                    }
                    value = value * 10 + d;
                    any_digit = true;
                } else {
                    proof {
                        assert(digits[seen - sign] == c);
                    }
                    return None;
                }
                at_start = false;
                proof {
                    seen = seen + 1;
                }
            },
        }
    }
    proof {
        assert(digits.take(seen - sign) =~= digits);
    }
    if any_digit {
        Some(value)
    } else {
        None
    }
}

/// Appends the decimal writing of `n` to `out`.
pub fn push_decimal(out: &mut String, n: u128)
    ensures
        final(out)@ == old(out)@ + decimal(n as nat),
    decreases n,
{
    if n >= 10 {
        push_decimal(out, n / 10);
    }
    let d: u8 = (n % 10) as u8;
    out.push((48u8 + d) as char);
}

/// Writes `n` in decimal.
pub fn to_decimal(n: u128) -> (s: String)
    ensures
        s@ == decimal(n as nat),
{
    let mut s = String::new();
    push_decimal(&mut s, n);
    s
}

} // verus!
