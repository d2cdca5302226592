use switchboard::text::{
    ascii_lowercase, chars_of, decimal_string, hex_string, is_blank, split_chars, str_equal,
    trim,
};

#[test]
fn trims_unicode_whitespace() {
    assert_eq!(trim("  a b \t\n"), "a b");
    assert_eq!(trim("\u{3000}x\u{a0}"), "x");
    assert_eq!(trim(""), "");
    assert_eq!(trim(" \r\n "), "");
    assert_eq!(trim("x"), "x");
    for s in ["  Edge ", "\u{2009}ok\u{205f}", "a\u{200b}"] {
        assert_eq!(trim(s), s.trim());
    }
}

#[test]
fn blank_means_only_whitespace() {
    assert!(is_blank(""));
    assert!(is_blank(" \t\u{85}"));
    assert!(!is_blank(" a "));
}

#[test]
fn exact_comparison() {
    assert!(str_equal("GET", "GET"));
    assert!(!str_equal("GET", "get"));
    assert!(!str_equal("GET", "GETS"));
}

#[test]
fn splitting() {
    assert_eq!(split_chars("a/b/c", '/'), vec!["a", "b", "c"]);
    assert_eq!(split_chars("", ';'), vec![""]);
    assert_eq!(split_chars("a;;", ';'), vec!["a", "", ""]);
}

#[test]
fn number_formats() {
    assert_eq!(decimal_string(0), "0");
    assert_eq!(decimal_string(43200), "43200");
    assert_eq!(decimal_string(u64::MAX), u64::MAX.to_string());
    assert_eq!(hex_string(&[0xbe, 0xef, 0x00, 0x0a]), "beef000a");
    assert_eq!(hex_string(&[]), "");
}

#[test]
fn lowercasing() {
    assert_eq!(ascii_lowercase("01HZX4ABCD"), "01hzx4abcd");
    assert_eq!(ascii_lowercase("Ünï"), "Ünï");
    assert_eq!(chars_of("añb"), vec!['a', 'ñ', 'b']);
}
