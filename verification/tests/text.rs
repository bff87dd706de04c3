use polykit::text::is_blank;

#[test]
fn unicode_whitespace_counts_as_blank() {
    assert!(is_blank(" \t\n\u{85}\u{a0}\u{1680}\u{2000}\u{200a}\u{2028}\u{2029}\u{202f}\u{205f}\u{3000}"));
    assert!(is_blank(""));
    assert!(!is_blank("\u{200b}"));
    assert!(!is_blank(" x "));
}
