use tmux_agent_sidebar::cli::rename_flow::{
    event_answers, rename_step, RenameEvent, RenameNote, RenameRequest, RenameState, RenameStep,
};
use tmux_agent_sidebar::cli::rename_session::parse_args;
use tmux_agent_sidebar::llm::config::LlmConfig;

fn config() -> LlmConfig {
    LlmConfig {
        endpoint: "http://x".to_string(),
        model: "m".to_string(),
        api_key: None,
        auto_rename: false,
        timeout_ms: 1000,
    }
}

fn start(args: &[&str]) -> RenameStep {
    let argv: Vec<String> = args.iter().map(|a| a.to_string()).collect();
    rename_step(RenameState::Begin { args: parse_args(&argv) }, RenameEvent::Started)
}

fn next(step: RenameStep, event: RenameEvent) -> RenameStep {
    assert!(event_answers(&step.state, &event));
    rename_step(step.state, event)
}

fn exit_code(step: &RenameStep) -> Option<i32> {
    match step.request {
        RenameRequest::Exit { code } => Some(code),
        _ => None,
    }
}

#[test]
fn missing_session_exits_with_2() {
    let s = start(&["--auto"]);
    assert_eq!(exit_code(&s), Some(2));
    assert!(matches!(s.notes.as_slice(), [RenameNote::MissingSession]));
    assert!(matches!(s.state, RenameState::Finished { code: 2 }));
}

#[test]
fn empty_session_is_a_noop() {
    let s = start(&["--session="]);
    assert_eq!(exit_code(&s), Some(0));
    assert!(s.notes.is_empty());
}

#[test]
fn auto_with_stored_name_stops_before_config() {
    let s = start(&["--session=abc", "--auto"]);
    assert!(matches!(&s.request, RenameRequest::ReadStoredName { session_id } if session_id == "abc"));
    let s = next(s, RenameEvent::StoredName { present: true });
    assert_eq!(exit_code(&s), Some(0));
}

#[test]
fn unconfigured_feature_is_a_noop() {
    let s = start(&["--session=abc"]);
    assert!(matches!(s.request, RenameRequest::LoadConfig));
    let s = next(s, RenameEvent::Config { config: None });
    assert_eq!(exit_code(&s), Some(0));
}

#[test]
fn full_run_writes_and_prints_a_valid_name() {
    let s = start(&["--session=abc", "--auto"]);
    let s = next(s, RenameEvent::StoredName { present: false });
    assert!(matches!(s.request, RenameRequest::LoadConfig));
    let s = next(s, RenameEvent::Config { config: Some(config()) });
    assert!(matches!(s.request, RenameRequest::AcquireLock));
    let s = next(s, RenameEvent::Lock { error: Some("denied".to_string()) });
    assert!(matches!(s.notes.as_slice(), [RenameNote::LockUnavailable { error }] if error == "denied"));
    assert!(matches!(&s.request, RenameRequest::ReadStoredName { session_id } if session_id == "abc"));
    let s = next(s, RenameEvent::StoredName { present: false });
    assert!(matches!(&s.request, RenameRequest::FindPane { session_id } if session_id == "abc"));
    let s = next(s, RenameEvent::Pane { pane: Some("%3".to_string()) });
    assert!(matches!(&s.request, RenameRequest::BuildPayload { pane: Some(p) } if p == "%3"));
    let s = next(s, RenameEvent::Payload { payload: "log".to_string() });
    match &s.request {
        RenameRequest::GenerateName { config, payload } => {
            assert_eq!(payload, "log");
            assert_eq!(config.model, "m");
        }
        _ => panic!("expected a naming request"),
    }
    let s = next(s, RenameEvent::Name { result: Ok("refactor".to_string()) });
    assert!(matches!(&s.request, RenameRequest::WriteName { session_id, name } if session_id == "abc" && name == "refactor"));
    let s = next(s, RenameEvent::Written { error: None });
    assert!(matches!(s.notes.as_slice(), [RenameNote::PrintName { name }] if name == "refactor"));
    assert_eq!(exit_code(&s), Some(0));
}

#[test]
fn pane_from_argv_skips_the_search_and_no_recheck_without_auto() {
    let s = start(&["--session", "abc", "--pane", "%5"]);
    let s = next(s, RenameEvent::Config { config: Some(config()) });
    let s = next(s, RenameEvent::Lock { error: None });
    assert!(s.notes.is_empty());
    assert!(matches!(&s.request, RenameRequest::BuildPayload { pane: Some(p) } if p == "%5"));
}

#[test]
fn auto_recheck_after_lock_finds_a_name() {
    let s = start(&["--session=abc", "--auto"]);
    let s = next(s, RenameEvent::StoredName { present: false });
    let s = next(s, RenameEvent::Config { config: Some(config()) });
    let s = next(s, RenameEvent::Lock { error: None });
    let s = next(s, RenameEvent::StoredName { present: true });
    assert_eq!(exit_code(&s), Some(0));
}

fn until_name(result: Result<String, String>) -> RenameStep {
    let s = start(&["--session=abc"]);
    let s = next(s, RenameEvent::Config { config: Some(config()) });
    let s = next(s, RenameEvent::Lock { error: None });
    let s = next(s, RenameEvent::Pane { pane: None });
    let s = next(s, RenameEvent::Payload { payload: "p".to_string() });
    next(s, RenameEvent::Name { result })
}

#[test]
fn invalid_title_is_rejected_with_exit_1() {
    let s = until_name(Ok("has|pipe".to_string()));
    assert_eq!(exit_code(&s), Some(1));
    assert!(matches!(s.notes.as_slice(), [RenameNote::InvalidTitle { name, .. }] if name == "has|pipe"));
    let s = until_name(Ok("---".to_string()));
    assert_eq!(exit_code(&s), Some(1));
}

#[test]
fn llm_failure_exits_with_1() {
    let s = until_name(Err("timeout".to_string()));
    assert_eq!(exit_code(&s), Some(1));
    assert!(matches!(s.notes.as_slice(), [RenameNote::LlmFailed { error, .. }] if error == "timeout"));
}

#[test]
fn write_failure_exits_with_1() {
    let s = until_name(Ok("name".to_string()));
    let s = next(s, RenameEvent::Written { error: Some("disk full".to_string()) });
    assert_eq!(exit_code(&s), Some(1));
    assert!(matches!(s.notes.as_slice(), [RenameNote::WriteFailed { error, .. }] if error == "disk full"));
}

#[test]
fn events_that_answer_nothing_are_told_apart() {
    let s = start(&["--session=abc"]);
    assert!(!event_answers(&s.state, &RenameEvent::Started));
    assert!(event_answers(&s.state, &RenameEvent::Config { config: None }));
    let done = RenameState::Finished { code: 0 };
    assert!(!event_answers(&done, &RenameEvent::Started));
}
