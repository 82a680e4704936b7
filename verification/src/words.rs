//! Splitting a request line into its words.
//!
//! A word is a maximal run of characters that are not whitespace. The words
//! of a line are its runs in order; whitespace before, between and after
//! them is dropped, so a line of whitespace alone has no words.

use vstd::prelude::*;
use vstd::std_specs::iter::IteratorSpec;
use crate::text::{char_is_whitespace, is_whitespace};

verus! {

/// Whether no character of `s` is whitespace.
pub open spec fn no_whitespace(s: Seq<char>) -> bool {
    forall|i: int| 0 <= i < s.len() ==> !is_whitespace(#[trigger] s[i])
}

/// Whether `s` holds nothing but whitespace.
pub open spec fn is_blank(s: Seq<char>) -> bool {
    forall|i: int| 0 <= i < s.len() ==> is_whitespace(#[trigger] s[i])
}

/// Whether `s` can stand as one word: not empty, and free of whitespace.
pub open spec fn is_word(s: Seq<char>) -> bool {
    s.len() > 0 && no_whitespace(s)
}

/// Length of the run of non-whitespace characters at the start of `s`.
pub open spec fn word_len(s: Seq<char>) -> nat
    decreases s.len(),
{
    if s.len() > 0 && !is_whitespace(s[0]) {
        1 + word_len(s.drop_first())
    } else {
        0
    }
}

/// The words of `s`, in order.
pub open spec fn words(s: Seq<char>) -> Seq<Seq<char>>
    decreases s.len(),
    via words_decreases
{
    if s.len() == 0 {
        Seq::empty()
    } else if is_whitespace(s[0]) {
        words(s.drop_first())
    } else {
        seq![s.take(word_len(s) as int)] + words(s.skip(word_len(s) as int))
    }
}

#[via_fn]
proof fn words_decreases(s: Seq<char>) {
    lemma_word_len_bounds(s);
}

/// The first run never reaches past the end, and is not empty where the
/// first character is no whitespace.
pub proof fn lemma_word_len_bounds(s: Seq<char>)
    ensures
        word_len(s) <= s.len(),
        s.len() > 0 && !is_whitespace(s[0]) ==> word_len(s) >= 1,
    decreases s.len(),
{
    if s.len() > 0 && !is_whitespace(s[0]) {
        lemma_word_len_bounds(s.drop_first());
    }
}

/// A word followed by whitespace, or by nothing, is the first run of the
/// whole.
pub proof fn lemma_word_len_of_word(w: Seq<char>, rest: Seq<char>)
    requires
        no_whitespace(w),
        rest.len() == 0 || is_whitespace(rest[0]),
    ensures
        word_len(w + rest) == w.len(),
    decreases w.len(),
{
    if w.len() > 0 {
        assert((w + rest).drop_first() =~= w.drop_first() + rest);
        lemma_word_len_of_word(w.drop_first(), rest);
    }
}

/// A word followed by whitespace, or by nothing, is the first of the words
/// of the whole, and the others are the words of what follows it.
pub proof fn lemma_words_after_word(w: Seq<char>, rest: Seq<char>)
    requires
        is_word(w),
        rest.len() == 0 || is_whitespace(rest[0]),
    ensures
        words(w + rest) == seq![w] + words(rest),
{
    let s = w + rest;
    lemma_word_len_of_word(w, rest);
    assert(s.take(w.len() as int) =~= w);
    assert(s.skip(w.len() as int) =~= rest);
}

/// The first run holds no whitespace.
pub proof fn lemma_first_run_is_free_of_whitespace(s: Seq<char>)
    ensures
        no_whitespace(s.take(word_len(s) as int)),
    decreases s.len(),
{
    lemma_word_len_bounds(s);
    if s.len() > 0 && !is_whitespace(s[0]) {
        let tail = s.drop_first();
        lemma_first_run_is_free_of_whitespace(tail);
        lemma_word_len_bounds(tail);
        let run = s.take(word_len(s) as int);
        assert forall|i: int| 0 <= i < run.len() implies !is_whitespace(#[trigger] run[i]) by {
            if i > 0 {
                assert(run[i] == tail.take(word_len(tail) as int)[i - 1]);
            }
        }
    }
}

/// The first run ends with the line or before a whitespace character.
pub proof fn lemma_first_run_ends(s: Seq<char>)
    ensures
        word_len(s) == s.len() || is_whitespace(s[word_len(s) as int]),
    decreases s.len(),
{
    if s.len() > 0 && !is_whitespace(s[0]) {
        lemma_first_run_ends(s.drop_first());
        lemma_word_len_bounds(s.drop_first());
    }
}

/// Each of the words of a line is a word: not empty, and free of
/// whitespace.
pub proof fn lemma_words_are_words(s: Seq<char>)
    ensures
        forall|i: int| 0 <= i < words(s).len() ==> is_word(#[trigger] words(s)[i]),
    decreases s.len(),
{
    if s.len() == 0 {
    } else if is_whitespace(s[0]) {
        lemma_words_are_words(s.drop_first());
        assert(words(s) == words(s.drop_first()));
    } else {
        lemma_word_len_bounds(s);
        lemma_first_run_is_free_of_whitespace(s);
        let others = words(s.skip(word_len(s) as int));
        lemma_words_are_words(s.skip(word_len(s) as int));
        assert forall|i: int| 0 <= i < words(s).len() implies is_word(#[trigger] words(s)[i]) by {
            if i > 0 {
                assert(words(s)[i] == others[i - 1]);
            }
        }
    }
}

/// A line has no words if and only if it holds nothing but whitespace.
pub proof fn lemma_no_words_iff_blank(s: Seq<char>)
    ensures
        words(s).len() == 0 <==> is_blank(s),
    decreases s.len(),
{
    if s.len() > 0 && is_whitespace(s[0]) {
        let tail = s.drop_first();
        lemma_no_words_iff_blank(tail);
        if is_blank(tail) {
            assert forall|i: int| 0 <= i < s.len() implies is_whitespace(#[trigger] s[i]) by {
                if i > 0 {
                    assert(s[i] == tail[i - 1]);
                }
            }
        } else {
            let i = choose|i: int| 0 <= i < tail.len() && !is_whitespace(#[trigger] tail[i]);
            assert(s[i + 1] == tail[i]);
        }
    }
}

/// Whitespace after a line, such as its line ending, changes nothing in
/// its words.
pub proof fn lemma_words_ignore_trailing_whitespace(s: Seq<char>, tail: Seq<char>)
    requires
        is_blank(tail),
    ensures
        words(s + tail) == words(s),
    decreases s.len(),
{
    let whole = s + tail;
    if s.len() == 0 {
        assert(whole =~= tail);
        lemma_no_words_iff_blank(tail);
    } else if is_whitespace(s[0]) {
        assert(whole.drop_first() =~= s.drop_first() + tail);
        lemma_words_ignore_trailing_whitespace(s.drop_first(), tail);
    } else {
        let n = word_len(s) as int;
        lemma_word_len_bounds(s);
        lemma_first_run_is_free_of_whitespace(s);
        // The first run of the whole is that of the line: it ends before
        // the whitespace that follows it in the line, or with the line.
        assert(whole =~= s.take(n) + (s.skip(n) + tail));
        assert(s.skip(n).len() == 0 || is_whitespace(s.skip(n)[0])) by {
            lemma_first_run_ends(s);
        }
        assert(tail.len() == 0 || is_whitespace(tail[0]));
        lemma_words_after_word(s.take(n), s.skip(n) + tail);
        lemma_words_after_word(s.take(n), s.skip(n));
        assert(s.take(n) + s.skip(n) =~= s);
        lemma_words_ignore_trailing_whitespace(s.skip(n), tail);
    }
}

/// Words written one after another with one space between each two.
pub open spec fn spaced(parts: Seq<Seq<char>>) -> Seq<char>
    decreases parts.len(),
{
    if parts.len() == 0 {
        Seq::empty()
    } else if parts.len() == 1 {
        parts[0]
    } else {
        parts[0] + seq![' '] + spaced(parts.drop_first())
    }
}

/// Splitting undoes writing with spaces: the words of words written with
/// one space between each two are those words.
pub proof fn lemma_words_of_spaced(parts: Seq<Seq<char>>)
    requires
        forall|i: int| 0 <= i < parts.len() ==> is_word(#[trigger] parts[i]),
    ensures
        words(spaced(parts)) == parts,
    decreases parts.len(),
{
    if parts.len() == 1 {
        lemma_words_after_word(parts[0], Seq::empty());
    } else if parts.len() > 1 {
        let tail = parts.drop_first();
        assert forall|i: int| 0 <= i < tail.len() implies is_word(#[trigger] tail[i]) by {
            assert(tail[i] == parts[i + 1]);
        }
        lemma_words_of_spaced(tail);
        let rest = seq![' '] + spaced(tail);
        assert(rest.drop_first() =~= spaced(tail));
        lemma_words_after_word(parts[0], rest);
        assert(parts[0] + rest =~= spaced(parts));
    }
}

/// Splits `line` into its words.
pub fn split_whitespace(line: &str) -> (parts: Vec<String>)
    ensures
        parts.deep_view() == words(line@),
{
    let mut parts: Vec<String> = Vec::new();
    let mut current = String::new();
    let mut chars = line.chars();
    let ghost mut seen: int = 0;
    loop
        invariant_except_break
            chars.obeys_prophetic_iter_laws(),
            chars.decrease() is Some,
            0 <= seen <= line@.len(),
            chars.remaining() == line@.skip(seen),
            no_whitespace(current@),
            words(line@) == parts.deep_view() + words(current@ + line@.skip(seen)),
        ensures
            parts.deep_view() == words(line@),
        decreases chars.decrease()->0,
    {
        let ghost rest = line@.skip(seen);
        match chars.next() {
            None => {
                // The line ends here, and with it the word under way.
                if !current.as_str().is_empty() {
                    proof {
                        lemma_words_after_word(current@, rest);
                    }
                    parts.push(current);
                }
                break ;
            },
            Some(c) => {
                if char_is_whitespace(c) {
                    // Whitespace ends the word under way, if there is one.
                    if !current.as_str().is_empty() {
                        proof {
                            lemma_words_after_word(current@, rest);
                        }
                        parts.push(current);
                        current = String::new();
                    }
                } else {
                    let ghost before = current@;
                    current.push(c);
                    assert(current@ + line@.skip(seen + 1) =~= before + rest);
                }
                proof {
                    seen = seen + 1;
                }
            },
        }
    }
    parts
}

} // verus!
