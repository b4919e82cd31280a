use flibooks::text::{
    join, keep_non_empty, parse_i32, parse_or_zero, same_text, split_all, split_pieces,
    trim_commas, truncate, white_space, Delimiter,
};

#[test]
fn split_all_keeps_empty_pieces() {
    assert_eq!(split_all("a::b:", Delimiter::Char(':')), vec!["a", "", "b", ""]);
    assert_eq!(split_all("", Delimiter::Char(':')), vec![""]);
}

#[test]
fn split_pieces_drops_empty_pieces_in_order() {
    assert_eq!(split_pieces(":Tolstoy:Lev::", Delimiter::Char(':')), vec!["Tolstoy", "Lev"]);
    assert!(split_pieces("::", Delimiter::Char(':')).is_empty());
}

#[test]
fn whitespace_words() {
    assert_eq!(
        split_pieces("  Dune \t Messiah\u{3000}x ", Delimiter::WhiteSpace),
        vec!["Dune", "Messiah", "x"]
    );
    assert!(white_space('\u{a0}'));
    assert!(!white_space('a'));
}

#[test]
fn keep_non_empty_filters() {
    let v = vec![String::new(), "a".to_string(), String::new(), "b".to_string()];
    assert_eq!(keep_non_empty(v), vec!["a", "b"]);
}

#[test]
fn trim_commas_both_ends() {
    assert_eq!(trim_commas(" ,Tolstoy, Lev ,, "), "Tolstoy, Lev");
    assert_eq!(trim_commas(", ,"), "");
}

#[test]
fn truncate_counts_characters() {
    assert_eq!(truncate("abcdef", 3), "abc\u{2026}");
    assert_eq!(truncate("abc", 3), "abc");
    assert_eq!(truncate("ЖЖЖЖ", 2), "ЖЖ\u{2026}");
}

#[test]
fn parse_i32_like_std() {
    assert_eq!(parse_i32("42"), Some(42));
    assert_eq!(parse_i32("-7"), Some(-7));
    assert_eq!(parse_i32("+7"), Some(7));
    assert_eq!(parse_i32("2147483647"), Some(i32::MAX));
    assert_eq!(parse_i32("-2147483648"), Some(i32::MIN));
    assert_eq!(parse_i32("2147483648"), None);
    assert_eq!(parse_i32("99999999999999999999"), None);
    assert_eq!(parse_i32(""), None);
    assert_eq!(parse_i32("-"), None);
    assert_eq!(parse_i32("1a"), None);
    assert_eq!(parse_i32(" 1"), None);
    for s in ["0", "-0", "007", "123456", "-2147483649", "x", "+"] {
        assert_eq!(parse_i32(s), s.parse::<i32>().ok());
    }
}

#[test]
fn parse_or_zero_falls_back() {
    assert_eq!(parse_or_zero("12"), 12);
    assert_eq!(parse_or_zero("twelve"), 0);
}

#[test]
fn join_with_separator() {
    let parts = vec!["a".to_string(), "b".to_string(), "c".to_string()];
    assert_eq!(join(&parts, ".*"), "a.*b.*c");
    assert_eq!(join(&Vec::new(), ", "), "");
}

#[test]
fn same_text_compares() {
    assert!(same_text("abc", "abc"));
    assert!(!same_text("abc", "abd"));
    assert!(!same_text("abc", "ab"));
}
