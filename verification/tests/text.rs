use cosmic_sim::text::{is_whitespace, parse_usize, str_eq, trim, trim_end};

#[test]
fn is_whitespace_agrees_with_std_on_every_char() {
    for u in 0u32..=0x10FFFF {
        if let Some(c) = char::from_u32(u) {
            assert_eq!(is_whitespace(c), c.is_whitespace(), "U+{:04X}", u);
        }
    }
}

#[test]
fn trim_agrees_with_std() {
    for s in ["", "   ", " a ", "\u{3000}x y\u{2028}", "\tab\n\n", "no-trim"] {
        assert_eq!(trim(s), s.trim());
        assert_eq!(trim_end(s), s.trim_end());
    }
}

#[test]
fn trim_is_idempotent() {
    let once = trim("  \u{85}hello world\u{a0} ");
    assert_eq!(trim(&once), once);
    assert_eq!(once, "hello world");
}

#[test]
fn str_eq_compares_characters() {
    assert!(str_eq("companion", "companion"));
    assert!(!str_eq("companion", "Companion"));
    assert!(!str_eq("abc", "abcd"));
    assert!(str_eq("", ""));
}

#[test]
fn parse_usize_agrees_with_std() {
    let cases = [
        "", "0", "7", "42", "+5", "+", "-", "-0", "-5", " 3", "3 ", "1a", "٣", "00012",
        "18446744073709551615", "18446744073709551616", "99999999999999999999999", "+0",
    ];
    for c in cases {
        assert_eq!(parse_usize(c), c.parse::<usize>().ok(), "{:?}", c);
    }
    for n in 0..2000usize {
        assert_eq!(parse_usize(&n.to_string()), Some(n));
    }
}
