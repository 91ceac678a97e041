use tmux_agent_sidebar::text::{chars_of, lowercase_equals, parse_u64, same_text, strip_prefix, trimmed};

#[test]
fn trimmed_matches_str_trim() {
    for s in ["", "  ", " a ", "\t\nx y\r\n", "\u{3000}z\u{2000}", "\u{200b}k\u{200b}", "\u{85}"] {
        assert_eq!(trimmed(s), s.trim());
    }
}

#[test]
fn strip_prefix_matches_std() {
    for (s, p) in [("--pane=%5", "--pane="), ("--pane", "--pane="), ("", ""), ("é=x", "é=")] {
        assert_eq!(strip_prefix(s, p).as_deref(), s.strip_prefix(p));
    }
}

#[test]
fn same_text_and_lowercase() {
    assert!(same_text("--auto", "--auto"));
    assert!(!same_text("--auto", "--Auto"));
    assert!(lowercase_equals(&chars_of("TrUe"), "true"));
    assert!(!lowercase_equals(&chars_of("TRUEx"), "true"));
    assert!(!lowercase_equals(&chars_of("É"), "é"));
}

#[test]
fn parse_u64_matches_std() {
    for s in ["0", "42", "+1", "+", "-1", "", "18446744073709551615", "18446744073709551616", "99999999999999999999", "1a"] {
        assert_eq!(parse_u64(&chars_of(s)), s.parse::<u64>().ok(), "{s:?}");
    }
}
