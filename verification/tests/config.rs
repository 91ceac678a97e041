use std::collections::HashMap;
use tmux_agent_sidebar::llm::config::{non_empty_str, LlmConfig, DEFAULT_TIMEOUT_MS};

fn opts(pairs: &[(&str, &str)]) -> HashMap<String, String> {
    pairs
        .iter()
        .map(|(k, v)| ((*k).to_string(), (*v).to_string()))
        .collect()
}

fn build(pairs: &[(&str, &str)], api_key: Option<&str>) -> Option<LlmConfig> {
    LlmConfig::from_sources(&opts(pairs), api_key)
}

#[test]
fn returns_none_when_endpoint_missing() {
    assert!(build(&[("@sidebar_llm_model", "llama3.2")], None).is_none());
}

#[test]
fn returns_none_when_model_missing() {
    assert!(
        build(
            &[(
                "@sidebar_llm_endpoint",
                "http://localhost:11434/v1/chat/completions",
            )],
            None,
        )
        .is_none()
    );
}

#[test]
fn returns_none_when_endpoint_is_whitespace() {
    assert!(
        build(
            &[
                ("@sidebar_llm_endpoint", "   "),
                ("@sidebar_llm_model", "llama3.2"),
            ],
            None,
        )
        .is_none()
    );
}

#[test]
fn minimum_config_uses_defaults() {
    let cfg = build(
        &[
            (
                "@sidebar_llm_endpoint",
                "http://localhost:11434/v1/chat/completions",
            ),
            ("@sidebar_llm_model", "llama3.2:3b"),
        ],
        None,
    )
    .unwrap();
    assert_eq!(cfg.endpoint, "http://localhost:11434/v1/chat/completions");
    assert_eq!(cfg.model, "llama3.2:3b");
    assert!(cfg.api_key.is_none());
    assert!(!cfg.auto_rename);
    assert_eq!(cfg.timeout_ms, DEFAULT_TIMEOUT_MS);
}

#[test]
fn full_config_parses_all_fields_with_api_key_from_env() {
    let cfg = build(
        &[
            (
                "@sidebar_llm_endpoint",
                "http://example:8080/v1/chat/completions",
            ),
            ("@sidebar_llm_model", "gpt-4o-mini"),
            ("@sidebar_llm_auto_rename", "on"),
            ("@sidebar_llm_timeout_ms", "5000"),
        ],
        Some("sk-123"),
    )
    .unwrap();
    assert_eq!(cfg.api_key.as_deref(), Some("sk-123"));
    assert!(cfg.auto_rename);
    assert_eq!(cfg.timeout_ms, 5_000);
}

#[test]
fn api_key_ignored_if_set_via_tmux_option() {
    // Tmux options are world-readable to any client of the tmux server,
    // so credentials must not live there. Any value set via that key is
    // silently dropped.
    let cfg = build(
        &[
            (
                "@sidebar_llm_endpoint",
                "http://example:8080/v1/chat/completions",
            ),
            ("@sidebar_llm_model", "m"),
            ("@sidebar_llm_api_key", "sk-should-be-ignored"),
        ],
        None,
    )
    .unwrap();
    assert!(
        cfg.api_key.is_none(),
        "tmux option @sidebar_llm_api_key must be ignored"
    );
}

#[test]
fn empty_env_api_key_is_treated_as_none() {
    let cfg = build(
        &[
            ("@sidebar_llm_endpoint", "http://x/v1/chat/completions"),
            ("@sidebar_llm_model", "m"),
        ],
        Some("   "),
    )
    .unwrap();
    assert!(cfg.api_key.is_none());
}

#[test]
fn auto_rename_accepts_multiple_truthy_values() {
    for truthy in ["on", "true", "1", "ON", "True"] {
        let cfg = build(
            &[
                ("@sidebar_llm_endpoint", "http://x/v1/chat/completions"),
                ("@sidebar_llm_model", "m"),
                ("@sidebar_llm_auto_rename", truthy),
            ],
            None,
        )
        .unwrap();
        assert!(cfg.auto_rename, "expected {truthy:?} to parse as true");
    }
}

#[test]
fn auto_rename_accepts_multiple_falsy_values() {
    for falsy in ["off", "false", "0", "OFF"] {
        let cfg = build(
            &[
                ("@sidebar_llm_endpoint", "http://x/v1/chat/completions"),
                ("@sidebar_llm_model", "m"),
                ("@sidebar_llm_auto_rename", falsy),
            ],
            None,
        )
        .unwrap();
        assert!(!cfg.auto_rename, "expected {falsy:?} to parse as false");
    }
}

#[test]
fn auto_rename_garbage_is_ignored_and_defaults_false() {
    let cfg = build(
        &[
            ("@sidebar_llm_endpoint", "http://x/v1/chat/completions"),
            ("@sidebar_llm_model", "m"),
            ("@sidebar_llm_auto_rename", "maybe"),
        ],
        None,
    )
    .unwrap();
    assert!(!cfg.auto_rename);
}

#[test]
fn timeout_zero_or_garbage_falls_back_to_default() {
    let cfg = build(
        &[
            ("@sidebar_llm_endpoint", "http://x/v1/chat/completions"),
            ("@sidebar_llm_model", "m"),
            ("@sidebar_llm_timeout_ms", "0"),
        ],
        None,
    )
    .unwrap();
    assert_eq!(cfg.timeout_ms, DEFAULT_TIMEOUT_MS);

    let cfg = build(
        &[
            ("@sidebar_llm_endpoint", "http://x/v1/chat/completions"),
            ("@sidebar_llm_model", "m"),
            ("@sidebar_llm_timeout_ms", "abc"),
        ],
        None,
    )
    .unwrap();
    assert_eq!(cfg.timeout_ms, DEFAULT_TIMEOUT_MS);
}

fn timeout_for(raw: &str) -> u64 {
    build(
        &[
            ("@sidebar_llm_endpoint", "e"),
            ("@sidebar_llm_model", "m"),
            ("@sidebar_llm_timeout_ms", raw),
        ],
        None,
    )
    .unwrap()
    .timeout_ms
}

#[test]
fn timeout_is_trimmed_and_parsed_like_str_parse() {
    assert_eq!(timeout_for(" 250 "), 250);
    assert_eq!(timeout_for("+7"), 7);
    assert_eq!(timeout_for("007"), 7);
    assert_eq!(timeout_for("18446744073709551615"), u64::MAX);
    assert_eq!(timeout_for("18446744073709551616"), DEFAULT_TIMEOUT_MS);
    assert_eq!(timeout_for("-5"), DEFAULT_TIMEOUT_MS);
    assert_eq!(timeout_for("+"), DEFAULT_TIMEOUT_MS);
    assert_eq!(timeout_for("1 0"), DEFAULT_TIMEOUT_MS);
    assert_eq!(timeout_for(""), DEFAULT_TIMEOUT_MS);
    for raw in [" 250 ", "+7", "18446744073709551616", "x", "0"] {
        let expected = raw.trim().parse::<u64>().ok().filter(|&ms| ms > 0).unwrap_or(DEFAULT_TIMEOUT_MS);
        assert_eq!(timeout_for(raw), expected);
    }
}

#[test]
fn endpoint_and_model_are_trimmed() {
    let cfg = build(
        &[
            ("@sidebar_llm_endpoint", "\u{3000} http://x \t"),
            ("@sidebar_llm_model", "\u{a0}m\u{2029}"),
            ("@sidebar_llm_auto_rename", "  TRUE\n"),
        ],
        Some(" sk \n"),
    )
    .unwrap();
    assert_eq!(cfg.endpoint, "http://x");
    assert_eq!(cfg.model, "m");
    assert_eq!(cfg.api_key.as_deref(), Some("sk"));
    assert!(cfg.auto_rename);
}

#[test]
fn auto_rename_does_not_fold_non_ascii() {
    let cfg = build(
        &[
            ("@sidebar_llm_endpoint", "e"),
            ("@sidebar_llm_model", "m"),
            ("@sidebar_llm_auto_rename", "ＯＮ"),
        ],
        None,
    )
    .unwrap();
    assert!(!cfg.auto_rename);
}

#[test]
fn non_empty_str_trims_like_str_trim() {
    for raw in ["  a b  ", "\u{85}x\u{205f}", "\u{200b}y", "", " \u{1680} "] {
        let expected = Some(raw.trim()).filter(|s| !s.is_empty()).map(String::from);
        assert_eq!(non_empty_str(Some(raw)), expected);
    }
    assert_eq!(non_empty_str(None), None);
}
