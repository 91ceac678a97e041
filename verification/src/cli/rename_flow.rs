//! The decisions of `rename-session`, as a step function. The command
//! alternates outside work (the name store, tmux, a file lock, the LLM)
//! with decisions; each step takes the state and the answer to the last
//! request, and gives the next state, what to log or print, and the next
//! request. The caller performs the request and feeds the answer back
//! until the request is to exit.
use vstd::prelude::*;

use crate::cli::rename_session::{is_valid_title, valid_title, ParsedArgs};
use crate::llm::config::LlmConfig;

verus! {

/// The instruction that goes with every naming request.
pub const SYSTEM_PROMPT: &'static str = "You are naming a coding session. Read the log and return ONE SHORT WORD (max 16 characters, no whitespace) that captures the topic. Match the user's language. Output ONLY the word — no quotes, no punctuation, no explanation.";

/// Where the command stands, and what it knows.
pub enum RenameState {
    /// Nothing done yet.
    Begin { args: ParsedArgs },
    /// `--auto`: waiting to learn whether the session already has a name.
    AwaitingStoredName { session_id: String, pane: Option<String> },
    /// Waiting for the feature's configuration.
    AwaitingConfig { session_id: String, auto: bool, pane: Option<String> },
    /// Waiting for the lock that serializes concurrent renames.
    AwaitingLock { session_id: String, auto: bool, pane: Option<String>, config: LlmConfig },
    /// `--auto`, lock held: checking again for a name written meanwhile.
    AwaitingRecheck { session_id: String, pane: Option<String>, config: LlmConfig },
    /// Waiting for the pane that runs the session.
    AwaitingPane { session_id: String, config: LlmConfig },
    /// Waiting for the prompt payload.
    AwaitingPayload { session_id: String, config: LlmConfig },
    /// Waiting for the LLM's answer.
    AwaitingName { session_id: String },
    /// Waiting for the name to be stored.
    AwaitingWrite { session_id: String, name: String },
    /// Done, with the process exit code.
    Finished { code: i32 },
}

/// The answer to a request.
pub enum RenameEvent {
    /// The command starts (answers nothing).
    Started,
    /// Whether the store holds a name for the session.
    StoredName { present: bool },
    /// The configuration, when the feature is configured.
    Config { config: Option<LlmConfig> },
    /// The lock: `None` when it is held, else why it could not be taken.
    Lock { error: Option<String> },
    /// The pane that runs the session, if one was found.
    Pane { pane: Option<String> },
    /// The user message for the naming request.
    Payload { payload: String },
    /// The LLM's answer, or the text of its error.
    Name { result: Result<String, String> },
    /// The store write: `None` on success, else the error's text.
    Written { error: Option<String> },
}

/// Outside work for the caller to do next.
pub enum RenameRequest {
    /// Read the stored name of the session (answer: `StoredName`).
    ReadStoredName { session_id: String },
    /// Read the tmux global options and the API key (answer: `Config`).
    LoadConfig,
    /// Take the rename lock and keep it until exit (answer: `Lock`).
    AcquireLock,
    /// Look for the pane that runs the session (answer: `Pane`).
    FindPane { session_id: String },
    /// Build the payload from the pane's activity (answer: `Payload`).
    BuildPayload { pane: Option<String> },
    /// Ask the LLM, with [`SYSTEM_PROMPT`], for a name (answer: `Name`).
    GenerateName { config: LlmConfig, payload: String },
    /// Store the name of the session (answer: `Written`).
    WriteName { session_id: String, name: String },
    /// Exit with the code.
    Exit { code: i32 },
}

/// What the caller logs or prints before it performs the request.
pub enum RenameNote {
    /// No `--session` was given.
    MissingSession,
    /// The lock could not be taken; the command goes on without it.
    LockUnavailable { error: String },
    /// The LLM proposed a title that may not be rendered.
    InvalidTitle { session_id: String, name: String },
    /// The store write failed.
    WriteFailed { session_id: String, error: String },
    /// The LLM call failed.
    LlmFailed { session_id: String, error: String },
    /// The new name, for standard output.
    PrintName { name: String },
}

pub struct RenameStep {
    pub state: RenameState,
    pub notes: Vec<RenameNote>,
    pub request: RenameRequest,
}

/// Whether `event` answers what `state` waits for.
pub open spec fn answers(state: RenameState, event: RenameEvent) -> bool {
    match state {
        RenameState::Begin { .. } => event is Started,
        RenameState::AwaitingStoredName { .. } => event is StoredName,
        RenameState::AwaitingConfig { .. } => event is Config,
        RenameState::AwaitingLock { .. } => event is Lock,
        RenameState::AwaitingRecheck { .. } => event is StoredName,
        RenameState::AwaitingPane { .. } => event is Pane,
        RenameState::AwaitingPayload { .. } => event is Payload,
        RenameState::AwaitingName { .. } => event is Name,
        RenameState::AwaitingWrite { .. } => event is Written,
        RenameState::Finished { .. } => false,
    }
}

pub open spec fn finish(code: i32, notes: Seq<RenameNote>) -> (RenameState, Seq<RenameNote>, RenameRequest) {
    (RenameState::Finished { code }, notes, RenameRequest::Exit { code })
}

/// With the lock decided: use the pane from argv, or look for it.
pub open spec fn resolve_pane(
    session_id: String,
    pane: Option<String>,
    config: LlmConfig,
    notes: Seq<RenameNote>,
) -> (RenameState, Seq<RenameNote>, RenameRequest) {
    match pane {
        Some(p) => (
            RenameState::AwaitingPayload { session_id, config },
            notes,
            RenameRequest::BuildPayload { pane: Some(p) },
        ),
        None => (
            RenameState::AwaitingPane { session_id: session_id, config },
            notes,
            RenameRequest::FindPane { session_id },
        ),
    }
}

/// The next state, the notes and the next request.
pub open spec fn rename_transition(state: RenameState, event: RenameEvent) -> (
    RenameState,
    Seq<RenameNote>,
    RenameRequest,
) {
    match state {
        RenameState::Begin { args } => match args.session_id {
            None => finish(2, seq![RenameNote::MissingSession]),
            Some(session_id) => if session_id@.len() == 0 {
                finish(0, seq![])
            } else if args.auto {
                (
                    RenameState::AwaitingStoredName { session_id, pane: args.pane },
                    seq![],
                    RenameRequest::ReadStoredName { session_id },
                )
            } else {
                (
                    RenameState::AwaitingConfig { session_id, auto: false, pane: args.pane },
                    seq![],
                    RenameRequest::LoadConfig,
                )
            },
        },
        RenameState::AwaitingStoredName { session_id, pane } => match event {
            RenameEvent::StoredName { present } => if present {
                finish(0, seq![])
            } else {
                (
                    RenameState::AwaitingConfig { session_id, auto: true, pane },
                    seq![],
                    RenameRequest::LoadConfig,
                )
            },
            _ => arbitrary(),
        },
        RenameState::AwaitingConfig { session_id, auto, pane } => match event {
            RenameEvent::Config { config } => match config {
                None => finish(0, seq![]),
                Some(config) => (
                    RenameState::AwaitingLock { session_id, auto, pane, config },
                    seq![],
                    RenameRequest::AcquireLock,
                ),
            },
            _ => arbitrary(),
        },
        RenameState::AwaitingLock { session_id, auto, pane, config } => match event {
            RenameEvent::Lock { error } => {
                let notes = match error {
                    Some(e) => seq![RenameNote::LockUnavailable { error: e }],
                    None => seq![],
                };
                if auto {
                    (
                        RenameState::AwaitingRecheck { session_id, pane, config },
                        notes,
                        RenameRequest::ReadStoredName { session_id },
                    )
                } else {
                    resolve_pane(session_id, pane, config, notes)
                }
            },
            _ => arbitrary(),
        },
        RenameState::AwaitingRecheck { session_id, pane, config } => match event {
            RenameEvent::StoredName { present } => if present {
                finish(0, seq![])
            } else {
                resolve_pane(session_id, pane, config, seq![])
            },
            _ => arbitrary(),
        },
        RenameState::AwaitingPane { session_id, config } => match event {
            RenameEvent::Pane { pane } => (
                RenameState::AwaitingPayload { session_id, config },
                seq![],
                RenameRequest::BuildPayload { pane },
            ),
            _ => arbitrary(),
        },
        RenameState::AwaitingPayload { session_id, config } => match event {
            RenameEvent::Payload { payload } => (
                RenameState::AwaitingName { session_id },
                seq![],
                RenameRequest::GenerateName { config, payload },
            ),
            _ => arbitrary(),
        },
        RenameState::AwaitingName { session_id } => match event {
            RenameEvent::Name { result } => match result {
                Ok(name) => if valid_title(name@) {
                    (
                        RenameState::AwaitingWrite { session_id, name },
                        seq![],
                        RenameRequest::WriteName { session_id, name },
                    )
                } else {
                    finish(1, seq![RenameNote::InvalidTitle { session_id, name }])
                },
                Err(error) => finish(1, seq![RenameNote::LlmFailed { session_id, error }]),
            },
            _ => arbitrary(),
        },
        RenameState::AwaitingWrite { session_id, name } => match event {
            RenameEvent::Written { error } => match error {
                Some(error) => finish(1, seq![RenameNote::WriteFailed { session_id, error }]),
                None => finish(0, seq![RenameNote::PrintName { name }]),
            },
            _ => arbitrary(),
        },
        RenameState::Finished { .. } => arbitrary(),
    }
}

/// Whether `event` answers what `state` waits for.
pub fn event_answers(state: &RenameState, event: &RenameEvent) -> (r: bool)
    ensures
        r == answers(*state, *event),
{
    match state {
        RenameState::Begin { .. } => matches!(event, RenameEvent::Started),
        RenameState::AwaitingStoredName { .. } => matches!(event, RenameEvent::StoredName { .. }),
        RenameState::AwaitingConfig { .. } => matches!(event, RenameEvent::Config { .. }),
        RenameState::AwaitingLock { .. } => matches!(event, RenameEvent::Lock { .. }),
        RenameState::AwaitingRecheck { .. } => matches!(event, RenameEvent::StoredName { .. }),
        RenameState::AwaitingPane { .. } => matches!(event, RenameEvent::Pane { .. }),
        RenameState::AwaitingPayload { .. } => matches!(event, RenameEvent::Payload { .. }),
        RenameState::AwaitingName { .. } => matches!(event, RenameEvent::Name { .. }),
        RenameState::AwaitingWrite { .. } => matches!(event, RenameEvent::Written { .. }),
        RenameState::Finished { .. } => false,
    }
}

fn finished(code: i32, notes: Vec<RenameNote>) -> (r: RenameStep)
    ensures
        (r.state, r.notes@, r.request) == finish(code, notes@),
{
    RenameStep { state: RenameState::Finished { code }, notes, request: RenameRequest::Exit { code } }
}

fn resolve_pane_step(
    session_id: String,
    pane: Option<String>,
    config: LlmConfig,
    notes: Vec<RenameNote>,
) -> (r: RenameStep)
    ensures
        (r.state, r.notes@, r.request) == resolve_pane(session_id, pane, config, notes@),
{
    match pane {
        Some(p) => RenameStep {
            state: RenameState::AwaitingPayload { session_id, config },
            notes,
            request: RenameRequest::BuildPayload { pane: Some(p) },
        },
        None => {
            let id = session_id.clone();
            RenameStep {
                state: RenameState::AwaitingPane { session_id, config },
                notes,
                request: RenameRequest::FindPane { session_id: id },
            }
        },
    }
}

/// One decision of `rename-session`.
pub fn rename_step(state: RenameState, event: RenameEvent) -> (r: RenameStep)
    requires
        answers(state, event),
    ensures
        (r.state, r.notes@, r.request) == rename_transition(state, event),
{
    match state {
        RenameState::Begin { args } => match args.session_id {
            None => {
                let mut notes = Vec::new();
                notes.push(RenameNote::MissingSession);
                finished(2, notes)
            },
            Some(session_id) => {
                if session_id.as_str().is_empty() {
                    finished(0, Vec::new())
                } else if args.auto {
                    let id = session_id.clone();
                    RenameStep {
                        state: RenameState::AwaitingStoredName { session_id, pane: args.pane },
                        notes: Vec::new(),
                        request: RenameRequest::ReadStoredName { session_id: id },
                    }
                } else {
                    RenameStep {
                        state: RenameState::AwaitingConfig {
                            session_id,
                            auto: false,
                            pane: args.pane,
                        },
                        notes: Vec::new(),
                        request: RenameRequest::LoadConfig,
                    }
                }
            },
        },
        RenameState::AwaitingStoredName { session_id, pane } => match event {
            RenameEvent::StoredName { present } => {
                if present {
                    finished(0, Vec::new())
                } else {
                    RenameStep {
                        state: RenameState::AwaitingConfig { session_id, auto: true, pane },
                        notes: Vec::new(),
                        request: RenameRequest::LoadConfig,
                    }
                }
            },
            _ => unreached(),
        },
        RenameState::AwaitingConfig { session_id, auto, pane } => match event {
            RenameEvent::Config { config } => match config {
                None => finished(0, Vec::new()),
                Some(config) => RenameStep {
                    state: RenameState::AwaitingLock { session_id, auto, pane, config },
                    notes: Vec::new(),
                    request: RenameRequest::AcquireLock,
                },
            },
            _ => unreached(),
        },
        RenameState::AwaitingLock { session_id, auto, pane, config } => match event {
            RenameEvent::Lock { error } => {
                let mut notes = Vec::new();
                if let Some(e) = error {
                    notes.push(RenameNote::LockUnavailable { error: e });
                }
                if auto {
                    let id = session_id.clone();
                    RenameStep {
                        state: RenameState::AwaitingRecheck { session_id, pane, config },
                        notes,
                        request: RenameRequest::ReadStoredName { session_id: id },
                    }
                } else {
                    resolve_pane_step(session_id, pane, config, notes)
                }
            },
            _ => unreached(),
        },
        RenameState::AwaitingRecheck { session_id, pane, config } => match event {
            RenameEvent::StoredName { present } => {
                if present {
                    finished(0, Vec::new())
                } else {
                    resolve_pane_step(session_id, pane, config, Vec::new())
                }
            },
            _ => unreached(),
        },
        RenameState::AwaitingPane { session_id, config } => match event {
            RenameEvent::Pane { pane } => RenameStep {
                state: RenameState::AwaitingPayload { session_id, config },
                notes: Vec::new(),
                request: RenameRequest::BuildPayload { pane },
            },
            _ => unreached(),
        },
        RenameState::AwaitingPayload { session_id, config } => match event {
            RenameEvent::Payload { payload } => RenameStep {
                state: RenameState::AwaitingName { session_id },
                notes: Vec::new(),
                request: RenameRequest::GenerateName { config, payload },
            },
            _ => unreached(),
        },
        RenameState::AwaitingName { session_id } => match event {
            RenameEvent::Name { result } => match result {
                Ok(name) => {
                    if is_valid_title(name.as_str()) {
                        let id = session_id.clone();
                        let written = name.clone();
                        RenameStep {
                            state: RenameState::AwaitingWrite { session_id, name },
                            notes: Vec::new(),
                            request: RenameRequest::WriteName { session_id: id, name: written },
                        }
                    } else {
                        let mut notes = Vec::new();
                        notes.push(RenameNote::InvalidTitle { session_id, name });
                        finished(1, notes)
                    }
                },
                Err(error) => {
                    let mut notes = Vec::new();
                    notes.push(RenameNote::LlmFailed { session_id, error });
                    finished(1, notes)
                },
            },
            _ => unreached(),
        },
        RenameState::AwaitingWrite { session_id, name } => match event {
            RenameEvent::Written { error } => match error {
                Some(error) => {
                    let mut notes = Vec::new();
                    notes.push(RenameNote::WriteFailed { session_id, error });
                    finished(1, notes)
                },
                None => {
                    let mut notes = Vec::new();
                    notes.push(RenameNote::PrintName { name });
                    finished(0, notes)
                },
            },
            _ => unreached(),
        },
        RenameState::Finished { .. } => unreached(),
    }
}

/// A name is only ever sent to the store when it is a valid title.
pub proof fn lemma_only_valid_titles_written(state: RenameState, event: RenameEvent)
    requires
        answers(state, event),
    ensures
        rename_transition(state, event).2 matches RenameRequest::WriteName { name, .. } ==> valid_title(
            name@,
        ),
{
}

/// With `--auto`, a name already in the store (before or after taking
/// the lock) ends the command with exit code 0, before any LLM call.
pub proof fn lemma_stored_name_ends_auto_run(state: RenameState)
    requires
        state is AwaitingStoredName || state is AwaitingRecheck,
    ensures
        rename_transition(state, RenameEvent::StoredName { present: true }) == finish(0, seq![]),
{
}

/// The command exits with 0 (done, or nothing to do), 1 (the LLM call,
/// the title or the store write failed) or 2 (no `--session`), and it
/// exits exactly when it is finished.
pub proof fn lemma_exit_codes(state: RenameState, event: RenameEvent)
    requires
        answers(state, event),
    ensures
        ({
            let (next, notes, request) = rename_transition(state, event);
            &&& (request matches RenameRequest::Exit { code } ==> (code == 0 || code == 1 || code
                == 2) && next == RenameState::Finished { code })
            &&& (next is Finished ==> request is Exit)
        }),
{
}

/// Without `--session` the command logs the omission and exits with 2; an
/// empty session id is a no-op that exits with 0.
pub proof fn lemma_session_required(args: ParsedArgs)
    ensures
        args.session_id is None ==> rename_transition(RenameState::Begin { args }, RenameEvent::Started)
            == finish(2, seq![RenameNote::MissingSession]),
        args.session_id matches Some(id) && id@.len() == 0 ==> rename_transition(
            RenameState::Begin { args },
            RenameEvent::Started,
        ) == finish(0, seq![]),
{
}

/// When the feature is not configured the command is a no-op that exits
/// with 0.
pub proof fn lemma_unconfigured_is_noop(session_id: String, auto: bool, pane: Option<String>)
    ensures
        rename_transition(
            RenameState::AwaitingConfig { session_id, auto, pane },
            RenameEvent::Config { config: None },
        ) == finish(0, seq![]),
{
}

/// The requests issued when the events are fed in turn from `state`, up
/// to the first event that does not answer the pending request.
pub open spec fn requests_of(state: RenameState, events: Seq<RenameEvent>) -> Seq<RenameRequest>
    decreases events.len(),
{
    if events.len() == 0 || !answers(state, events[0]) {
        Seq::empty()
    } else {
        let t = rename_transition(state, events[0]);
        seq![t.2] + requests_of(t.0, events.drop_first())
    }
}

/// A request respects the pane given on the command line: no search when
/// argv named a pane, and a payload built from that pane.
pub open spec fn uses_argv_pane(request: RenameRequest, argv_pane: Option<String>) -> bool {
    &&& (request is FindPane ==> argv_pane is None)
    &&& (request is BuildPayload && argv_pane is Some ==> request->BuildPayload_pane == argv_pane)
}

/// The pane that a state carries is the one from argv, and a state that
/// waits for a pane search arises only without one.
spec fn carries_argv_pane(state: RenameState, argv_pane: Option<String>) -> bool {
    match state {
        RenameState::Begin { args } => args.pane == argv_pane,
        RenameState::AwaitingStoredName { pane, .. } => pane == argv_pane,
        RenameState::AwaitingConfig { pane, .. } => pane == argv_pane,
        RenameState::AwaitingLock { pane, .. } => pane == argv_pane,
        RenameState::AwaitingRecheck { pane, .. } => pane == argv_pane,
        RenameState::AwaitingPane { .. } => argv_pane is None,
        _ => true,
    }
}

proof fn lemma_step_keeps_argv_pane(state: RenameState, event: RenameEvent, argv_pane: Option<String>)
    requires
        answers(state, event),
        carries_argv_pane(state, argv_pane),
    ensures
        carries_argv_pane(rename_transition(state, event).0, argv_pane),
        uses_argv_pane(rename_transition(state, event).2, argv_pane),
{
}

proof fn lemma_run_keeps_argv_pane(state: RenameState, events: Seq<RenameEvent>, argv_pane: Option<String>)
    requires
        carries_argv_pane(state, argv_pane),
    ensures
        forall|i: int|
            0 <= i < requests_of(state, events).len() ==> uses_argv_pane(
                #[trigger] requests_of(state, events)[i],
                argv_pane,
            ),
    decreases events.len(),
{
    if events.len() > 0 && answers(state, events[0]) {
        let t = rename_transition(state, events[0]);
        lemma_step_keeps_argv_pane(state, events[0], argv_pane);
        lemma_run_keeps_argv_pane(t.0, events.drop_first(), argv_pane);
        let rs = requests_of(state, events);
        assert forall|i: int| 0 <= i < rs.len() implies uses_argv_pane(#[trigger] rs[i], argv_pane) by {
            if i > 0 {
                assert(rs[i] == requests_of(t.0, events.drop_first())[i - 1]);
            }
        }
    }
}

/// Over a whole run of the command, whatever the answers (auto or not,
/// with or without a re-check after the lock): when argv names a pane the
/// command never searches for one and builds its payload from that pane;
/// it searches only when argv names none.
pub proof fn lemma_argv_pane_is_used(args: ParsedArgs, events: Seq<RenameEvent>)
    ensures
        forall|i: int|
            0 <= i < requests_of((RenameState::Begin { args }), events).len() ==> uses_argv_pane(
                #[trigger] requests_of((RenameState::Begin { args }), events)[i],
                args.pane,
            ),
{
    lemma_run_keeps_argv_pane(RenameState::Begin { args }, events, args.pane);
}

/// Once the lock is decided (and, with `--auto`, the re-check found no
/// name), a pane named on the command line goes straight into the payload
/// request.
pub proof fn lemma_argv_pane_goes_to_payload(
    session_id: String,
    auto: bool,
    p: String,
    config: LlmConfig,
)
    ensures
        !auto ==> rename_transition(
            (RenameState::AwaitingLock { session_id, auto, pane: Some(p), config }),
            (RenameEvent::Lock { error: None }),
        ).2 == (RenameRequest::BuildPayload { pane: Some(p) }),
        rename_transition(
            (RenameState::AwaitingRecheck { session_id, pane: Some(p), config }),
            (RenameEvent::StoredName { present: false }),
        ).2 == (RenameRequest::BuildPayload { pane: Some(p) }),
{
}

/// A request that names a session names the one from argv.
pub open spec fn uses_argv_session(request: RenameRequest, argv_session: Option<String>) -> bool {
    &&& (request is ReadStoredName ==> argv_session == Some(request->ReadStoredName_session_id))
    &&& (request is FindPane ==> argv_session == Some(request->FindPane_session_id))
    &&& (request is WriteName ==> argv_session == Some(request->WriteName_session_id))
}

spec fn carries_argv_session(state: RenameState, argv_session: Option<String>) -> bool {
    match state {
        RenameState::Begin { args } => args.session_id == argv_session,
        RenameState::AwaitingStoredName { session_id, .. } => argv_session == Some(session_id),
        RenameState::AwaitingConfig { session_id, .. } => argv_session == Some(session_id),
        RenameState::AwaitingLock { session_id, .. } => argv_session == Some(session_id),
        RenameState::AwaitingRecheck { session_id, .. } => argv_session == Some(session_id),
        RenameState::AwaitingPane { session_id, .. } => argv_session == Some(session_id),
        RenameState::AwaitingPayload { session_id, .. } => argv_session == Some(session_id),
        RenameState::AwaitingName { session_id } => argv_session == Some(session_id),
        RenameState::AwaitingWrite { session_id, .. } => argv_session == Some(session_id),
        RenameState::Finished { .. } => true,
    }
}

proof fn lemma_run_keeps_argv_session(
    state: RenameState,
    events: Seq<RenameEvent>,
    argv_session: Option<String>,
)
    requires
        carries_argv_session(state, argv_session),
    ensures
        forall|i: int|
            0 <= i < requests_of(state, events).len() ==> uses_argv_session(
                #[trigger] requests_of(state, events)[i],
                argv_session,
            ),
    decreases events.len(),
{
    if events.len() > 0 && answers(state, events[0]) {
        let t = rename_transition(state, events[0]);
        assert(carries_argv_session(t.0, argv_session));
        assert(uses_argv_session(t.2, argv_session));
        lemma_run_keeps_argv_session(t.0, events.drop_first(), argv_session);
        let rs = requests_of(state, events);
        assert forall|i: int| 0 <= i < rs.len() implies uses_argv_session(#[trigger] rs[i], argv_session) by {
            if i > 0 {
                assert(rs[i] == requests_of(t.0, events.drop_first())[i - 1]);
            }
        }
    }
}

/// Over a whole run, every store read, pane search and store write is for
/// the session named on the command line.
pub proof fn lemma_argv_session_is_used(args: ParsedArgs, events: Seq<RenameEvent>)
    ensures
        forall|i: int|
            0 <= i < requests_of((RenameState::Begin { args }), events).len() ==> uses_argv_session(
                #[trigger] requests_of((RenameState::Begin { args }), events)[i],
                args.session_id,
            ),
{
    lemma_run_keeps_argv_session(RenameState::Begin { args }, events, args.session_id);
}

/// What a step passes on: the payload goes unchanged to the LLM request,
/// the LLM's answer is the name that is written (or the title reported as
/// invalid, exactly when it is not a valid title), and the name is
/// printed only once the store write succeeded, with exit code 0; every
/// failure note comes with exit code 1, the missing session with 2.
pub proof fn lemma_step_passes_values_on(state: RenameState, event: RenameEvent)
    requires
        answers(state, event),
    ensures
        ({
            let (next, notes, request) = rename_transition(state, event);
            &&& (state is AwaitingPayload ==> request is GenerateName
                && request->GenerateName_payload == event->Payload_payload)
            &&& (state is AwaitingName && event->Name_result is Ok ==> {
                let n = event->Name_result->Ok_0;
                &&& valid_title(n@) ==> request == (RenameRequest::WriteName {
                    session_id: state->AwaitingName_session_id,
                    name: n,
                })
                &&& !valid_title(n@) ==> request == (RenameRequest::Exit { code: 1 }) && notes
                    == seq![RenameNote::InvalidTitle { session_id: state->AwaitingName_session_id, name: n }]
            })
            &&& (forall|k: int|
                0 <= k < notes.len() ==> (#[trigger] notes[k] is InvalidTitle || notes[k] is LlmFailed
                    || notes[k] is WriteFailed) ==> request == (RenameRequest::Exit { code: 1 }))
            &&& (forall|k: int|
                0 <= k < notes.len() ==> #[trigger] notes[k] is MissingSession ==> request == (
                RenameRequest::Exit { code: 2 }))
            &&& (forall|k: int|
                0 <= k < notes.len() ==> #[trigger] notes[k] is PrintName ==> {
                    &&& request == (RenameRequest::Exit { code: 0 })
                    &&& state is AwaitingWrite
                    &&& event == (RenameEvent::Written { error: None })
                    &&& notes[k]->PrintName_name == state->AwaitingWrite_name
                })
        }),
{
}

} // verus!
