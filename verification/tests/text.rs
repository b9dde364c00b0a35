use macro_commands::text::{
    find, is_space_char, normalized, parse_index, push_decimal, same_text, stands_at, trim,
    without_colons,
};

#[test]
fn white_space_is_what_std_calls_white_space() {
    for code in 0u32..=0x10ffff {
        if let Some(c) = char::from_u32(code) {
            assert_eq!(is_space_char(c), c.is_whitespace(), "U+{code:04X}");
        }
    }
}

#[test]
fn trim_matches_std() {
    for text in ["", " ", "a", "  a b  ", "\t\n x\u{a0}\u{3000}", "\u{2003}", "x ", " x", "\u{200b}x\u{200b}"] {
        assert_eq!(trim(text), text.trim());
    }
}

#[test]
fn colons_are_stripped() {
    assert_eq!(normalized(":foo"), "foo");
    assert_eq!(normalized("foo"), "foo");
    assert_eq!(normalized("::foo"), ":foo");
    assert_eq!(normalized(""), "");
    assert_eq!(normalized(":"), "");
    assert_eq!(without_colons(":::foo:"), "foo:");
    assert_eq!(without_colons("foo"), "foo");
    assert_eq!(without_colons("::"), "");
}

#[test]
fn find_gives_first_position_in_characters() {
    assert_eq!(find("a%{b%{c", "%{", 0), Some(1));
    assert_eq!(find("a%{b%{c", "%{", 2), Some(4));
    assert_eq!(find("a%{b%{c", "%{", 5), None);
    assert_eq!(find("a%{b%{c", "%{", 50), None);
    assert_eq!(find("\u{e9}\u{e9}}", "}", 0), Some(2));
    assert_eq!(find("abc", "", 1), Some(1));
    assert_eq!(find("", "x", 0), None);
    assert!(stands_at("%sh{", "%sh{", 0));
    assert!(!stands_at("%sh{", "%sh{", 1));
    assert!(!stands_at("%sh", "%sh{", 0));
}

#[test]
fn same_text_compares_characters() {
    assert!(same_text("", ""));
    assert!(same_text("abc", "abc"));
    assert!(!same_text("abc", "abd"));
    assert!(!same_text("abc", "ab"));
}

#[test]
fn decimal_digits() {
    for n in [0u128, 7, 9, 10, 11, 99, 100, 12345, u64::MAX as u128, u128::MAX] {
        let mut out = String::from("n=");
        push_decimal(&mut out, n);
        assert_eq!(out, format!("n={n}"));
    }
}

#[test]
fn index_parsing() {
    assert_eq!(parse_index("0"), Some(0));
    assert_eq!(parse_index("007"), Some(7));
    assert_eq!(parse_index("18446744073709551615"), Some(u64::MAX));
    assert_eq!(parse_index("18446744073709551616"), None);
    assert_eq!(parse_index("99999999999999999999999"), None);
    assert_eq!(parse_index("184467440737095516150"), None);
    assert_eq!(parse_index(""), None);
    assert_eq!(parse_index("1a"), None);
    assert_eq!(parse_index("+1"), None);
    assert_eq!(parse_index("\u{661}"), None);
}
