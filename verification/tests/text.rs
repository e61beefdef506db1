use darkdesk_api::text::{
    chars_of, join_strings, push_decimal, push_int, str_contains, str_eq, to_hex_lower,
    trim_trailing_nul, trim_whitespace,
};

#[test]
fn decimal_text() {
    let mut s = String::new();
    push_decimal(&mut s, 0);
    assert_eq!(s, "0");
    let mut s = String::from("x");
    push_decimal(&mut s, u64::MAX);
    assert_eq!(s, format!("x{}", u64::MAX));
    for i in [i64::MIN, -10, -1, 0, 7, 10, 76112, i64::MAX] {
        let mut s = String::new();
        push_int(&mut s, i);
        assert_eq!(s, i.to_string());
    }
}

#[test]
fn trimming() {
    assert_eq!(trim_whitespace("  a b \t\n"), "a b");
    assert_eq!(trim_whitespace("\u{3000}x\u{a0}"), "x");
    assert_eq!(trim_whitespace(" \n "), "");
    assert_eq!(trim_whitespace(""), "");
    for s in ["  a b \t\n", "\u{2028}q\u{85}", "\0 a \0"] {
        assert_eq!(trim_whitespace(s), s.trim());
    }
    assert_eq!(trim_trailing_nul("ab\0\0"), "ab");
    assert_eq!(trim_trailing_nul("\0a\0"), "\0a");
    assert_eq!(trim_trailing_nul("\0\0"), "");
}

#[test]
fn search_and_join() {
    assert!(str_contains("a --connect 1 b", "--connect 1"));
    assert!(str_contains("abc", ""));
    assert!(str_contains("", ""));
    assert!(!str_contains("ab", "abc"));
    assert!(!str_contains("aab", "abb"));
    assert!(str_eq("é", "é"));
    assert!(!str_eq("a", "ab"));
    let parts: Vec<String> = vec!["a".into(), "".into(), "c".into()];
    assert_eq!(join_strings(&parts, " "), "a  c");
    assert_eq!(join_strings(&Vec::new(), " "), "");
    assert_eq!(chars_of("héllo"), vec!['h', 'é', 'l', 'l', 'o']);
}

#[test]
fn hex() {
    assert_eq!(to_hex_lower(&[0x00, 0x0f, 0xa0, 0xff]), "000fa0ff");
    assert_eq!(to_hex_lower(&[]), "");
}
