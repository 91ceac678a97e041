use tmux_agent_sidebar::cli::rename_session::{
    build_user_payload, find_pane_for_session, is_valid_title, judge_title, parse_args,
    ActivityEntry, PaneActivity, TmuxPane, TmuxSession, TmuxWindow, USER_MESSAGE_CAP,
};

#[test]
fn parse_args_equals_form() {
    let args: Vec<String> = vec!["--session=abc".into(), "--pane=%5".into(), "--auto".into()];
    let p = parse_args(&args);
    assert_eq!(p.session_id.as_deref(), Some("abc"));
    assert_eq!(p.pane.as_deref(), Some("%5"));
    assert!(p.auto);
}

#[test]
fn parse_args_space_form() {
    let args: Vec<String> = vec![
        "--session".into(),
        "abc".into(),
        "--pane".into(),
        "%5".into(),
    ];
    let p = parse_args(&args);
    assert_eq!(p.session_id.as_deref(), Some("abc"));
    assert_eq!(p.pane.as_deref(), Some("%5"));
    assert!(!p.auto);
}

#[test]
fn parse_args_unknown_flags_ignored() {
    let args: Vec<String> = vec!["--unknown".into(), "--session=x".into()];
    let p = parse_args(&args);
    assert_eq!(p.session_id.as_deref(), Some("x"));
}

/// Regression: last_message used to arrive via argv, exposing it to
/// any other user on the host via `ps`. The flag has been removed
/// — argv now only carries control metadata (session_id, pane_id,
/// --auto). The last assistant message is read from `@pane_prompt`
/// inside `build_user_payload` instead.
#[test]
fn parse_args_does_not_accept_last_message_flag() {
    let args: Vec<String> = vec![
        "--session".into(),
        "abc".into(),
        "--last-message".into(),
        "secret".into(),
    ];
    let p = parse_args(&args);
    assert_eq!(p.session_id.as_deref(), Some("abc"));
}

#[test]
fn build_user_payload_fallback_when_no_pane() {
    let out = build_user_payload(None);
    assert!(out.contains("no activity"));
}

#[test]
fn is_valid_title_accepts_well_formed_titles() {
    assert!(is_valid_title("refactor"));
    assert!(is_valid_title("fix-bug"));
    assert!(is_valid_title("日本語"));
    assert!(is_valid_title("api_v2"));
}

#[test]
fn is_valid_title_rejects_empty_and_control_and_pipe() {
    assert!(!is_valid_title(""));
    assert!(!is_valid_title("has\nnewline"));
    assert!(!is_valid_title("has|pipe"));
    assert!(!is_valid_title("has\ttab"));
    assert!(!is_valid_title("bell\x07"));
}

#[test]
fn is_valid_title_rejects_pure_punctuation() {
    assert!(!is_valid_title("---"));
    assert!(!is_valid_title("..."));
    assert!(!is_valid_title("-_-"));
}

#[test]
fn parse_args_later_setting_wins_and_trailing_flag_sets_nothing() {
    let args: Vec<String> = vec![
        "--session=first".into(),
        "--pane".into(),
        "%1".into(),
        "--session".into(),
        "second".into(),
        "--pane".into(),
    ];
    let p = parse_args(&args);
    assert_eq!(p.session_id.as_deref(), Some("second"));
    assert_eq!(p.pane.as_deref(), Some("%1"));
    assert!(!p.auto);
}

#[test]
fn parse_args_space_form_consumes_the_next_argument() {
    let args: Vec<String> = vec!["--session".into(), "--auto".into()];
    let p = parse_args(&args);
    assert_eq!(p.session_id.as_deref(), Some("--auto"));
    assert!(!p.auto);
}

#[test]
fn parse_args_empty_equals_value() {
    let args: Vec<String> = vec!["--session=".into()];
    let p = parse_args(&args);
    assert_eq!(p.session_id.as_deref(), Some(""));
    assert_eq!(p.pane, None);
}

#[test]
fn is_valid_title_rejects_c1_controls_and_carriage_return() {
    assert!(!is_valid_title("ab\u{85}"));
    assert!(!is_valid_title("ab\u{9f}c"));
    assert!(!is_valid_title("a\rb"));
    assert!(!is_valid_title("a\u{7f}"));
    assert!(is_valid_title("x"));
    assert!(is_valid_title("7"));
}

#[test]
fn judge_title_uses_the_given_flags() {
    assert!(judge_title("--", &vec![false, true]));
    assert!(!judge_title("ab", &vec![false, false]));
    assert!(!judge_title("a|", &vec![true, false]));
    assert!(!judge_title("", &vec![]));
}

fn entry(ts: &str, tool: &str, label: &str) -> ActivityEntry {
    ActivityEntry {
        timestamp: ts.to_string(),
        tool: tool.to_string(),
        label: label.to_string(),
    }
}

#[test]
fn build_user_payload_lists_entries_and_message() {
    let pane = PaneActivity {
        entries: vec![entry("10:01", "Edit", "src/main.rs"), entry("10:00", "Bash", "cargo test")],
        pane_prompt: "  Fixed the parser.\n".to_string(),
    };
    let out = build_user_payload(Some(&pane));
    assert_eq!(
        out,
        "Recent activity (newest first):\n- [10:01] Edit src/main.rs\n- [10:00] Bash cargo test\n\nLast assistant message:\nFixed the parser."
    );
}

#[test]
fn build_user_payload_message_only_and_truncated() {
    let long: String = "é".repeat(USER_MESSAGE_CAP + 5);
    let pane = PaneActivity { entries: vec![], pane_prompt: long };
    let out = build_user_payload(Some(&pane));
    let expected = format!("\nLast assistant message:\n{}", "é".repeat(USER_MESSAGE_CAP));
    assert_eq!(out, expected);
}

#[test]
fn build_user_payload_falls_back_when_pane_has_nothing() {
    let pane = PaneActivity { entries: vec![], pane_prompt: " \t\n".to_string() };
    assert_eq!(build_user_payload(Some(&pane)), "(no activity recorded yet)");
}

fn pane(id: &str, session: Option<&str>) -> TmuxPane {
    TmuxPane { pane_id: id.to_string(), session_id: session.map(|s| s.to_string()) }
}

#[test]
fn find_pane_for_session_returns_first_match_in_order() {
    let sessions = vec![
        TmuxSession {
            windows: vec![
                TmuxWindow { panes: vec![pane("%1", None), pane("%2", Some("other"))] },
                TmuxWindow { panes: vec![] },
            ],
        },
        TmuxSession {
            windows: vec![TmuxWindow {
                panes: vec![pane("%3", Some("abc")), pane("%4", Some("abc"))],
            }],
        },
    ];
    assert_eq!(find_pane_for_session(&sessions, "abc").as_deref(), Some("%3"));
    assert_eq!(find_pane_for_session(&sessions, "other").as_deref(), Some("%2"));
    assert_eq!(find_pane_for_session(&sessions, "missing"), None);
    assert_eq!(find_pane_for_session(&vec![], "abc"), None);
}
