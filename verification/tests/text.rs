use kvcache::command::{classify, Command};
use kvcache::decimal::{parse_u64, push_decimal, to_decimal};
use kvcache::reply::Reply;
use kvcache::store::TtlResult;
use kvcache::text::{char_is_whitespace, str_eq};
use kvcache::words::split_whitespace;

#[test]
fn whitespace_is_the_unicode_property() {
    for code in 0..=0x10FFFFu32 {
        if let Some(c) = char::from_u32(code) {
            assert_eq!(char_is_whitespace(c), c.is_whitespace(), "U+{:04X}", code);
        }
    }
}

#[test]
fn split_agrees_with_the_standard_library() {
    let lines = [
        "",
        " ",
        "a",
        " a",
        "a ",
        "  a  b  ",
        "SET key 10 value",
        "GET\tkey\r\n",
        "\n",
        "a\u{a0}b\u{2003}c\u{3000}d\u{85}e\u{1680}f\u{2028}g\u{2029}h\u{202f}i\u{205f}j",
        "no\u{200b}break\u{feff}here\u{180e}either",
        "\u{b}vertical\u{c}feed\u{d}",
        "ünï cödé   wörds ",
        "one",
        "   \t\r\n",
    ];
    for line in lines {
        let expected: Vec<String> = line.split_whitespace().map(|w| w.to_string()).collect();
        assert_eq!(split_whitespace(line), expected, "{:?}", line);
    }
}

#[test]
fn split_gives_words_in_order() {
    assert_eq!(split_whitespace("  DEL a  b\tc \n"), vec!["DEL", "a", "b", "c"]);
    assert_eq!(split_whitespace("x"), vec!["x"]);
    assert_eq!(split_whitespace(" \t "), Vec::<String>::new());
    assert_eq!(split_whitespace(&["a", "b", "c"].join(" ")), vec!["a", "b", "c"]);
}

#[test]
fn parse_agrees_with_the_standard_library() {
    let words = [
        "", "0", "7", "007", "+7", "+", "-", "-7", "++7", "+-7", "7+", " 7", "7 ", "1_000", "1e3",
        "0x10", "１２", "٣", "12a", "a12", "18446744073709551615", "18446744073709551616",
        "+18446744073709551615", "018446744073709551615", "99999999999999999999",
        "184467440737095516150", "00000000000000000000000000001", "4294967296", "+0", "-0",
        "1.0", "١", "½",
    ];
    for word in words {
        assert_eq!(parse_u64(word), word.parse::<u64>().ok(), "{:?}", word);
    }
    for n in [0u64, 1, 9, 10, 11, 99, 100, 12345, u32::MAX as u64, u64::MAX - 1, u64::MAX] {
        assert_eq!(parse_u64(&n.to_string()), Some(n));
        assert_eq!(parse_u64(&to_decimal(n as u128)), Some(n));
    }
}

#[test]
fn parse_reads_numbers() {
    assert_eq!(parse_u64("42"), Some(42));
    assert_eq!(parse_u64("+42"), Some(42));
    assert_eq!(parse_u64("0042"), Some(42));
    assert_eq!(parse_u64("18446744073709551615"), Some(u64::MAX));
    assert_eq!(parse_u64("18446744073709551616"), None);
    assert_eq!(parse_u64("-42"), None);
    assert_eq!(parse_u64("4 2"), None);
    assert_eq!(parse_u64(""), None);
    assert_eq!(parse_u64("+"), None);
}

#[test]
fn decimal_agrees_with_the_standard_library() {
    for n in [
        0u128,
        1,
        9,
        10,
        19,
        100,
        101,
        65535,
        1_000_000_007,
        u64::MAX as u128,
        u64::MAX as u128 + 1,
        u128::MAX,
    ] {
        assert_eq!(to_decimal(n), n.to_string());
    }
    let mut line = String::from("n=");
    push_decimal(&mut line, 407);
    push_decimal(&mut line, 0);
    assert_eq!(line, "n=4070");
}

#[test]
fn str_eq_compares_characters() {
    assert!(str_eq("", ""));
    assert!(str_eq("abc", "abc"));
    assert!(str_eq("pässword", "pässword"));
    assert!(!str_eq("abc", "abd"));
    assert!(!str_eq("abc", "ab"));
    assert!(!str_eq("ab", "abc"));
    assert!(!str_eq("", "a"));
    assert!(!str_eq("abc", "ABC"));
    assert!(!str_eq("e\u{301}", "\u{e9}"));
}

#[test]
fn classify_knows_the_seven_commands() {
    assert_eq!(classify("AUTH"), Command::Auth);
    assert_eq!(classify("PING"), Command::Ping);
    assert_eq!(classify("GET"), Command::Get);
    assert_eq!(classify("TTL"), Command::Ttl);
    assert_eq!(classify("SET"), Command::Put);
    assert_eq!(classify("DEL"), Command::Del);
    assert_eq!(classify("QUIT"), Command::Quit);
    for other in ["", "get", "GETS", "GE", "EXIT", "AUTH ", "P1NG", "DELETE"] {
        assert_eq!(classify(other), Command::Unknown, "{:?}", other);
    }
}

#[test]
fn replies_on_the_wire() {
    assert_eq!(Reply::Okay.to_line(), "+OK");
    assert_eq!(Reply::Pong.to_line(), "+PONG");
    assert_eq!(Reply::Value("hello".to_string()).to_line(), "$5\r\nhello");
    assert_eq!(Reply::Value(String::new()).to_line(), "$0\r\n");
    assert_eq!(Reply::Value("日本語".to_string()).to_line(), "$9\r\n日本語");
    assert_eq!(Reply::Value("x".repeat(1234)).to_line(), format!("$1234\r\n{}", "x".repeat(1234)));
    assert_eq!(Reply::Missing.to_line(), "$-1");
    assert_eq!(Reply::Ttl(TtlResult::Absent).to_line(), "-1");
    assert_eq!(Reply::Ttl(TtlResult::NoExpiry).to_line(), "-1");
    assert_eq!(Reply::Ttl(TtlResult::SecondsRemaining(0)).to_line(), "0");
    assert_eq!(Reply::Ttl(TtlResult::SecondsRemaining(10)).to_line(), "10");
    assert_eq!(Reply::Count(0).to_line(), ":0");
    assert_eq!(Reply::Count(12).to_line(), ":12");
    assert_eq!(Reply::NoAuth.to_line(), "-NOAUTH Authentication required.");
    assert_eq!(Reply::InvalidPassword.to_line(), "-ERR invalid password");
    assert_eq!(
        Reply::WrongArity("AUTH".to_string()).to_line(),
        "-ERR wrong number of arguments for 'AUTH'"
    );
    assert_eq!(
        Reply::UnknownCommand("FOO".to_string()).to_line(),
        "-ERR: unknown command 'FOO'"
    );
}
