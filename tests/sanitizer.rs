use tor_prober::sanitize::{sanitized_entry, MAX_ENTRY_LEN};

#[test]
fn uppercase_ascii_short_lines_are_kept() {
    assert_eq!(sanitized_entry("ABC"), Some("ABC\n".to_string()));
    assert_eq!(sanitized_entry("ABCDEFG"), Some("ABCDEFG\n".to_string()));
    assert_eq!(sanitized_entry(""), Some("\n".to_string()));
    assert_eq!(MAX_ENTRY_LEN, 7);
}

#[test]
fn other_lines_are_dropped() {
    assert_eq!(sanitized_entry("ABCDEFGH"), None);
    assert_eq!(sanitized_entry("abc"), None);
    assert_eq!(sanitized_entry("AbC"), None);
    assert_eq!(sanitized_entry("AB1"), None);
    assert_eq!(sanitized_entry("A B"), None);
    assert_eq!(sanitized_entry("ÄB"), None);
}
