//! The `rename-session` command: it asks an LLM for a one-word title of a
//! coding session and stores it. This module holds the command's logic:
//! reading its arguments, judging a proposed title, building the prompt
//! payload, finding the pane of a session, and the sequence of decisions
//! that drives the outside work (store, tmux, lock, LLM) step by step.
use vstd::prelude::*;

use crate::text::{chars_of, opt_string_view, same_text, strip_prefix, trim, trimmed};

verus! {

/// The control metadata that argv carries.
#[derive(Debug)]
pub struct ParsedArgs {
    pub session_id: Option<String>,
    pub pane: Option<String>,
    pub auto: bool,
}

pub struct ParsedArgsView {
    pub session_id: Option<Seq<char>>,
    pub pane: Option<Seq<char>>,
    pub auto: bool,
}

impl View for ParsedArgs {
    type V = ParsedArgsView;

    open spec fn view(&self) -> ParsedArgsView {
        ParsedArgsView {
            session_id: opt_string_view(self.session_id),
            pane: opt_string_view(self.pane),
            auto: self.auto,
        }
    }
}

pub open spec fn args_view(args: Seq<String>) -> Seq<Seq<char>> {
    args.map_values(|a: String| a@)
}

/// The arguments from index `i` on, read into `acc`: `--session=ID` and
/// `--session ID` set the session, `--pane=ID` and `--pane ID` the pane,
/// `--auto` the flag; a later setting replaces an earlier one, a flag
/// that expects a value and ends the list sets nothing, and every other
/// argument is skipped.
pub open spec fn parse_from(args: Seq<Seq<char>>, i: int, acc: ParsedArgsView) -> ParsedArgsView
    decreases args.len() - i,
    when 0 <= i
{
    if i >= args.len() {
        acc
    } else {
        let a = args[i];
        if "--session="@.is_prefix_of(a) {
            parse_from(
                args,
                i + 1,
                ParsedArgsView {
                    session_id: Some(a.skip("--session="@.len() as int)),
                    pane: acc.pane,
                    auto: acc.auto,
                },
            )
        } else if a == "--session"@ {
            if i + 1 < args.len() {
                parse_from(
                    args,
                    i + 2,
                    ParsedArgsView { session_id: Some(args[i + 1]), pane: acc.pane, auto: acc.auto },
                )
            } else {
                acc
            }
        } else if "--pane="@.is_prefix_of(a) {
            parse_from(
                args,
                i + 1,
                ParsedArgsView {
                    session_id: acc.session_id,
                    pane: Some(a.skip("--pane="@.len() as int)),
                    auto: acc.auto,
                },
            )
        } else if a == "--pane"@ {
            if i + 1 < args.len() {
                parse_from(
                    args,
                    i + 2,
                    ParsedArgsView { session_id: acc.session_id, pane: Some(args[i + 1]), auto: acc.auto },
                )
            } else {
                acc
            }
        } else if a == "--auto"@ {
            parse_from(
                args,
                i + 1,
                ParsedArgsView { session_id: acc.session_id, pane: acc.pane, auto: true },
            )
        } else {
            parse_from(args, i + 1, acc)
        }
    }
}

pub open spec fn parse_args_spec(args: Seq<Seq<char>>) -> ParsedArgsView {
    parse_from(args, 0, ParsedArgsView { session_id: None, pane: None, auto: false })
}

/// Reads argv. Only control metadata travels there (session id, pane id,
/// `--auto`): the last assistant message is read from `@pane_prompt`
/// instead, since argv is visible to every user of the host via `ps`.
pub fn parse_args(args: &[String]) -> (r: ParsedArgs)
    ensures
        r@ == parse_args_spec(args_view(args@)),
{
    let ghost av = args_view(args@);
    let mut out = ParsedArgs { session_id: None, pane: None, auto: false };
    let mut i: usize = 0;
    while i < args.len()
        invariant
            av == args_view(args@),
            av.len() == args@.len(),
            i <= args.len(),
            parse_from(av, i as int, out@) == parse_args_spec(av),
        decreases args.len() - i,
    {
        let arg = args[i].as_str();
        assert(arg@ == av[i as int]);
        if let Some(value) = strip_prefix(arg, "--session=") {
            out.session_id = Some(value);
            i = i + 1;
        } else if same_text(arg, "--session") {
            if i + 1 < args.len() {
                out.session_id = Some(args[i + 1].clone());
                assert(args[i + 1 as int]@ == av[i + 1]);
                i = i + 2;
            } else {
                i = args.len();
            }
        } else if let Some(value) = strip_prefix(arg, "--pane=") {
            out.pane = Some(value);
            i = i + 1;
        } else if same_text(arg, "--pane") {
            if i + 1 < args.len() {
                out.pane = Some(args[i + 1].clone());
                assert(args[i + 1 as int]@ == av[i + 1]);
                i = i + 2;
            } else {
                i = args.len();
            }
        } else if same_text(arg, "--auto") {
            out.auto = true;
            i = i + 1;
        } else {
            i = i + 1;
        }
    }
    out
}

/// `v` reached argv as the value of a flag: in the `--flag=v` form, or
/// as the argument after `--flag`.
pub open spec fn passed_as(args: Seq<Seq<char>>, flag: Seq<char>, v: Seq<char>) -> bool {
    exists|i: int|
        0 <= i < args.len() && (#[trigger] args[i] == flag + "="@ + v || (args[i] == flag && i + 1
            < args.len() && args[i + 1] == v))
}

proof fn lemma_parse_from_values(args: Seq<Seq<char>>, i: int, acc: ParsedArgsView)
    requires
        0 <= i,
        acc.session_id matches Some(v) ==> passed_as(args, "--session"@, v),
        acc.pane matches Some(v) ==> passed_as(args, "--pane"@, v),
    ensures
        parse_from(args, i, acc).session_id matches Some(v) ==> passed_as(args, "--session"@, v),
        parse_from(args, i, acc).pane matches Some(v) ==> passed_as(args, "--pane"@, v),
    decreases args.len() - i,
{
    reveal_strlit("--session=");
    reveal_strlit("--session");
    reveal_strlit("--pane=");
    reveal_strlit("--pane");
    reveal_strlit("=");
    if i < args.len() {
        let a = args[i];
        if "--session="@.is_prefix_of(a) {
            let v = a.skip("--session="@.len() as int);
            assert("--session"@ + "="@ =~= "--session="@);
            assert(a =~= "--session="@ + v);
            lemma_parse_from_values(
                args,
                i + 1,
                ParsedArgsView { session_id: Some(v), pane: acc.pane, auto: acc.auto },
            );
        } else if a == "--session"@ {
            if i + 1 < args.len() {
                assert(passed_as(args, "--session"@, args[i + 1]));
                lemma_parse_from_values(
                    args,
                    i + 2,
                    ParsedArgsView { session_id: Some(args[i + 1]), pane: acc.pane, auto: acc.auto },
                );
            }
        } else if "--pane="@.is_prefix_of(a) {
            let v = a.skip("--pane="@.len() as int);
            assert("--pane"@ + "="@ =~= "--pane="@);
            assert(a =~= "--pane="@ + v);
            lemma_parse_from_values(
                args,
                i + 1,
                ParsedArgsView { session_id: acc.session_id, pane: Some(v), auto: acc.auto },
            );
        } else if a == "--pane"@ {
            if i + 1 < args.len() {
                assert(passed_as(args, "--pane"@, args[i + 1]));
                lemma_parse_from_values(
                    args,
                    i + 2,
                    ParsedArgsView { session_id: acc.session_id, pane: Some(args[i + 1]), auto: acc.auto },
                );
            }
        } else if a == "--auto"@ {
            lemma_parse_from_values(
                args,
                i + 1,
                ParsedArgsView { session_id: acc.session_id, pane: acc.pane, auto: true },
            );
        } else {
            lemma_parse_from_values(args, i + 1, acc);
        }
    }
}

/// argv carries only control metadata: the session id and the pane id
/// that parsing yields were each passed as the value of their own flag,
/// so the value of any other flag (such as a former `--last-message`)
/// never surfaces.
pub proof fn lemma_values_come_from_their_flags(args: Seq<Seq<char>>)
    ensures
        parse_args_spec(args).session_id matches Some(v) ==> passed_as(args, "--session"@, v),
        parse_args_spec(args).pane matches Some(v) ==> passed_as(args, "--pane"@, v),
{
    lemma_parse_from_values(args, 0, ParsedArgsView { session_id: None, pane: None, auto: false });
}

/// Unicode general category Cc: U+0000..U+001F and U+007F..U+009F, the
/// characters for which `char::is_control` holds.
pub open spec fn is_control(c: char) -> bool {
    c <= '\u{1f}' || ('\u{7f}' <= c && c <= '\u{9f}')
}

fn control_char(c: char) -> (r: bool)
    ensures
        r == is_control(c),
{
    c <= '\u{1f}' || ('\u{7f}' <= c && c <= '\u{9f}')
}

/// Characters that may not appear in a title: control characters, which
/// would break tmux option storage and the row renderer, and `|`.
pub open spec fn forbidden_in_title(c: char) -> bool {
    is_control(c) || c == '|' || c == '\t' || c == '\n' || c == '\r'
}

/// What `char::is_alphanumeric` returns: whether the character has the
/// Unicode `Alphabetic` or `Numeric` property.
pub uninterp spec fn alphanumeric(c: char) -> bool;

/// `char::is_alphanumeric`. Its result is only named here: the Unicode
/// tables behind it are not stated.
#[verifier::external_body]
fn char_is_alphanumeric(c: char) -> (r: bool)
    ensures
        r == alphanumeric(c),
{
    c.is_alphanumeric()
}

/// A title is acceptable when it is not empty, holds no forbidden
/// character, and holds at least one character flagged in `alnum` (which
/// gives, for each character of `title`, whether it is alphanumeric).
pub open spec fn title_acceptable(title: Seq<char>, alnum: Seq<bool>) -> bool {
    &&& title.len() > 0
    &&& forall|i: int| 0 <= i < title.len() ==> !forbidden_in_title(#[trigger] title[i])
    &&& exists|i: int| 0 <= i < alnum.len() && #[trigger] alnum[i]
}

/// Whether the title may be rendered in the sidebar.
pub open spec fn valid_title(title: Seq<char>) -> bool {
    title_acceptable(title, title.map_values(|c: char| alphanumeric(c)))
}

/// Judges `title` given, for each of its characters, whether it is
/// alphanumeric.
pub fn judge_title(title: &str, alnum: &Vec<bool>) -> (r: bool)
    requires
        alnum@.len() == title@.len(),
    ensures
        r == title_acceptable(title@, alnum@),
{
    let v = chars_of(title);
    if v.len() == 0 {
        return false;
    }
    let mut i: usize = 0;
    while i < v.len()
        invariant
            v@ == title@,
            i <= v.len(),
            forall|j: int| 0 <= j < i ==> !forbidden_in_title(#[trigger] title@[j]),
        decreases v.len() - i,
    {
        let c = v[i];
        if control_char(c) || c == '|' || c == '\t' || c == '\n' || c == '\r' {
            assert(forbidden_in_title(title@[i as int]));
            return false;
        }
        i = i + 1;
    }
    let mut k: usize = 0;
    while k < alnum.len()
        invariant
            k <= alnum.len(),
            title@.len() > 0,
            forall|j: int| 0 <= j < title@.len() ==> !forbidden_in_title(#[trigger] title@[j]),
            forall|j: int| 0 <= j < k ==> !(#[trigger] alnum@[j]),
        decreases alnum.len() - k,
    {
        if alnum[k] {
            return true;
        }
        k = k + 1;
    }
    false
}

/// Reject titles we should never render in the sidebar: empty strings,
/// strings containing ASCII control characters (which would break tmux
/// option storage and the row renderer), or strings that are pure
/// punctuation after stripping.
pub fn is_valid_title(title: &str) -> (r: bool)
    ensures
        r == valid_title(title@),
{
    let v = chars_of(title);
    let mut alnum: Vec<bool> = Vec::new();
    let mut i: usize = 0;
    while i < v.len()
        invariant
            v@ == title@,
            i <= v.len(),
            alnum@.len() == i,
            forall|j: int| 0 <= j < i ==> #[trigger] alnum@[j] == alphanumeric(title@[j]),
        decreases v.len() - i,
    {
        alnum.push(char_is_alphanumeric(v[i]));
        i = i + 1;
    }
    assert(alnum@ =~= title@.map_values(|c: char| alphanumeric(c)));
    judge_title(title, &alnum)
}

/// At most this many characters of the last assistant message go into the
/// prompt payload.
pub const USER_MESSAGE_CAP: usize = 800;

/// How many activity log lines are read for the prompt payload.
pub const ACTIVITY_LINES: usize = 20;

/// One line of a pane's activity log.
#[derive(Debug)]
pub struct ActivityEntry {
    pub timestamp: String,
    pub tool: String,
    pub label: String,
}

/// What is known of the pane that ran the session: its recent activity
/// (newest first) and the `@pane_prompt` option, where the Stop hook
/// stores the last assistant message.
#[derive(Debug)]
pub struct PaneActivity {
    pub entries: Vec<ActivityEntry>,
    pub pane_prompt: String,
}

/// `- [timestamp] tool label` and a line break.
pub open spec fn entry_line(e: ActivityEntry) -> Seq<char> {
    "- ["@ + e.timestamp@ + "] "@ + e.tool@ + " "@ + e.label@ + "\n"@
}

pub open spec fn entries_text(es: Seq<ActivityEntry>) -> Seq<char>
    decreases es.len(),
{
    if es.len() == 0 {
        Seq::empty()
    } else {
        entries_text(es.drop_last()) + entry_line(es.last())
    }
}

/// The activity part of the payload: a heading and one line per entry,
/// or nothing when there are no entries.
pub open spec fn activity_section(p: PaneActivity) -> Seq<char> {
    if p.entries@.len() > 0 {
        "Recent activity (newest first):\n"@ + entries_text(p.entries@)
    } else {
        Seq::empty()
    }
}

/// The message part of the payload: the first [`USER_MESSAGE_CAP`]
/// characters of the trimmed pane prompt after a heading, or nothing when
/// the trimmed prompt is empty.
pub open spec fn message_section(p: PaneActivity) -> Seq<char> {
    let msg = trim(p.pane_prompt@);
    if msg.len() > 0 {
        let n = if msg.len() < USER_MESSAGE_CAP {
            msg.len()
        } else {
            USER_MESSAGE_CAP as nat
        };
        "\nLast assistant message:\n"@ + msg.take(n as int)
    } else {
        Seq::empty()
    }
}

/// The user message sent with the naming request.
pub open spec fn user_payload(pane: Option<PaneActivity>) -> Seq<char> {
    let body = match pane {
        Some(p) => activity_section(p) + message_section(p),
        None => Seq::empty(),
    };
    if body.len() == 0 {
        "(no activity recorded yet)"@
    } else {
        body
    }
}

/// Builds the user message from what is known of the session's pane.
pub fn build_user_payload(pane: Option<&PaneActivity>) -> (r: String)
    ensures
        r@ == user_payload(match pane {
            Some(p) => Some(*p),
            None => None,
        }),
        r@.len() > 0,
{
    let mut buf = String::new();
    if let Some(p) = pane {
        if p.entries.len() > 0 {
            buf.append("Recent activity (newest first):\n");
            let mut i: usize = 0;
            while i < p.entries.len()
                invariant
                    i <= p.entries@.len(),
                    p.entries@.len() > 0,
                    buf@ == "Recent activity (newest first):\n"@ + entries_text(
                        p.entries@.take(i as int),
                    ),
                decreases p.entries.len() - i,
            {
                let e = &p.entries[i];
                buf.append("- [");
                buf.append(e.timestamp.as_str());
                buf.append("] ");
                buf.append(e.tool.as_str());
                buf.append(" ");
                buf.append(e.label.as_str());
                buf.append("\n");
                assert(p.entries@.take(i + 1).drop_last() =~= p.entries@.take(i as int));
                i = i + 1;
            }
            assert(p.entries@.take(i as int) =~= p.entries@);
        }
        let ghost before = buf@;
        assert(before == activity_section(*p));
        let msg = trimmed(p.pane_prompt.as_str());
        let len = msg.as_str().unicode_len();
        if len > 0 {
            let n = if len < USER_MESSAGE_CAP {
                len
            } else {
                USER_MESSAGE_CAP
            };
            let truncated = msg.as_str().substring_char(0, n);
            buf.append("\nLast assistant message:\n");
            buf.append(truncated);
        }
        assert(buf@ =~= activity_section(*p) + message_section(*p));
    }
    if buf.as_str().is_empty() {
        buf.append("(no activity recorded yet)");
    }
    proof {
        reveal_strlit("(no activity recorded yet)");
    }
    buf
}

/// A tmux pane and the agent session that runs in it, if any.
#[derive(Debug)]
pub struct TmuxPane {
    pub pane_id: String,
    pub session_id: Option<String>,
}

#[derive(Debug)]
pub struct TmuxWindow {
    pub panes: Vec<TmuxPane>,
}

#[derive(Debug)]
pub struct TmuxSession {
    pub windows: Vec<TmuxWindow>,
}

/// The panes of the windows, window by window.
pub open spec fn window_panes(ws: Seq<TmuxWindow>) -> Seq<TmuxPane>
    decreases ws.len(),
{
    if ws.len() == 0 {
        Seq::empty()
    } else {
        window_panes(ws.drop_last()) + ws.last().panes@
    }
}

/// The panes of the sessions, session by session and window by window.
pub open spec fn session_panes(ss: Seq<TmuxSession>) -> Seq<TmuxPane>
    decreases ss.len(),
{
    if ss.len() == 0 {
        Seq::empty()
    } else {
        session_panes(ss.drop_last()) + window_panes(ss.last().windows@)
    }
}

pub open spec fn runs_session(p: TmuxPane, session_id: Seq<char>) -> bool {
    p.session_id matches Some(s) && s@ == session_id
}

pub open spec fn none_runs(panes: Seq<TmuxPane>, session_id: Seq<char>) -> bool {
    forall|k: int| 0 <= k < panes.len() ==> !runs_session(#[trigger] panes[k], session_id)
}

proof fn lemma_window_panes_concat(a: Seq<TmuxWindow>, b: Seq<TmuxWindow>)
    ensures
        window_panes(a + b) == window_panes(a) + window_panes(b),
    decreases b.len(),
{
    if b.len() == 0 {
        assert(a + b =~= a);
        assert(window_panes(a) + window_panes(b) =~= window_panes(a));
    } else {
        assert((a + b).drop_last() =~= a + b.drop_last());
        lemma_window_panes_concat(a, b.drop_last());
        assert(window_panes(a + b) =~= window_panes(a) + window_panes(b));
    }
}

proof fn lemma_session_panes_concat(a: Seq<TmuxSession>, b: Seq<TmuxSession>)
    ensures
        session_panes(a + b) == session_panes(a) + session_panes(b),
    decreases b.len(),
{
    if b.len() == 0 {
        assert(a + b =~= a);
        assert(session_panes(a) + session_panes(b) =~= session_panes(a));
    } else {
        assert((a + b).drop_last() =~= a + b.drop_last());
        lemma_session_panes_concat(a, b.drop_last());
        assert(session_panes(a + b) =~= session_panes(a) + session_panes(b));
    }
}

/// The id of the first pane, in session, window and pane order, that runs
/// the session: the pane at index `k` of all panes, none before it
/// running the session.
pub open spec fn first_pane_of(sessions: Seq<TmuxSession>, session_id: Seq<char>, pane_id: Seq<
    char,
>) -> bool {
    let all = session_panes(sessions);
    exists|k: int|
        0 <= k < all.len() && runs_session(#[trigger] all[k], session_id) && all[k].pane_id@
            == pane_id && none_runs(all.take(k), session_id)
}

/// Finds the pane that runs `session_id` among the panes of all tmux
/// sessions.
pub fn find_pane_for_session(sessions: &Vec<TmuxSession>, session_id: &str) -> (r: Option<
    String,
>)
    ensures
        match r {
            Some(p) => first_pane_of(sessions@, session_id@, p@),
            None => none_runs(session_panes(sessions@), session_id@),
        },
{
    let mut i: usize = 0;
    while i < sessions.len()
        invariant
            i <= sessions@.len(),
            none_runs(session_panes(sessions@.take(i as int)), session_id@),
        decreases sessions.len() - i,
    {
        let windows = &sessions[i].windows;
        let mut j: usize = 0;
        while j < windows.len()
            invariant
                i < sessions@.len(),
                windows == sessions@[i as int].windows,
                j <= windows@.len(),
                none_runs(session_panes(sessions@.take(i as int)), session_id@),
                none_runs(window_panes(windows@.take(j as int)), session_id@),
            decreases windows.len() - j,
        {
            let panes = &windows[j].panes;
            let mut k: usize = 0;
            while k < panes.len()
                invariant
                    i < sessions@.len(),
                    windows == sessions@[i as int].windows,
                    j < windows@.len(),
                    panes == windows@[j as int].panes,
                    k <= panes@.len(),
                    none_runs(session_panes(sessions@.take(i as int)), session_id@),
                    none_runs(window_panes(windows@.take(j as int)), session_id@),
                    none_runs(panes@.take(k as int), session_id@),
                decreases panes.len() - k,
            {
                let pane = &panes[k];
                let found = match &pane.session_id {
                    Some(s) => same_text(s.as_str(), session_id),
                    None => false,
                };
                if found {
                    proof {
                        let ss = sessions@;
                        let ws = windows@;
                        let ps = panes@;
                        let before = session_panes(ss.take(i as int));
                        let wbefore = window_panes(ws.take(j as int));
                        assert(ss =~= ss.take(i as int) + (seq![ss[i as int]] + ss.skip(i + 1)));
                        lemma_session_panes_concat(ss.take(i as int), seq![ss[i as int]] + ss.skip(i + 1));
                        lemma_session_panes_concat(seq![ss[i as int]], ss.skip(i + 1));
                        assert(session_panes(seq![ss[i as int]]) =~= window_panes(ws)) by {
                            let one = seq![ss[i as int]];
                            assert(one.drop_last() =~= Seq::<TmuxSession>::empty());
                            assert(one.last() == ss[i as int]);
                            assert(session_panes(one) == session_panes(one.drop_last())
                                + window_panes(one.last().windows@));
                            assert(session_panes(Seq::<TmuxSession>::empty()) =~= Seq::<
                                TmuxPane,
                            >::empty());
                        }
                        assert(ws =~= ws.take(j as int) + (seq![ws[j as int]] + ws.skip(j + 1)));
                        lemma_window_panes_concat(ws.take(j as int), seq![ws[j as int]] + ws.skip(j + 1));
                        lemma_window_panes_concat(seq![ws[j as int]], ws.skip(j + 1));
                        assert(window_panes(seq![ws[j as int]]) =~= ps) by {
                            let one = seq![ws[j as int]];
                            assert(one.drop_last() =~= Seq::<TmuxWindow>::empty());
                            assert(one.last() == ws[j as int]);
                            assert(window_panes(one) == window_panes(one.drop_last())
                                + one.last().panes@);
                            assert(window_panes(Seq::<TmuxWindow>::empty()) =~= Seq::<
                                TmuxPane,
                            >::empty());
                        }
                        let all = session_panes(ss);
                        let pos = before.len() + wbefore.len() + k;
                        assert(all =~= before + (wbefore + (ps + window_panes(ws.skip(j + 1)))
                            + session_panes(ss.skip(i + 1))));
                        assert(all[pos] == ps[k as int]);
                        assert(all.take(pos) =~= before + wbefore + ps.take(k as int));
                        assert(runs_session(all[pos], session_id@));
                        assert(none_runs(all.take(pos), session_id@)) by {
                            assert forall|m: int| 0 <= m < all.take(pos).len() implies !runs_session(
                                #[trigger] all.take(pos)[m],
                                session_id@,
                            ) by {
                                if m < before.len() {
                                    assert(all.take(pos)[m] == before[m]);
                                } else if m < before.len() + wbefore.len() {
                                    assert(all.take(pos)[m] == wbefore[m - before.len()]);
                                } else {
                                    assert(all.take(pos)[m] == ps.take(k as int)[m - before.len()
                                        - wbefore.len()]);
                                }
                            }
                        }
                    }
                    return Some(pane.pane_id.clone());
                }
                assert(panes@.take(k + 1) =~= panes@.take(k as int).push(panes@[k as int]));
                k = k + 1;
            }
            proof {
                assert(windows@.take(j + 1).drop_last() =~= windows@.take(j as int));
                assert(panes@.take(k as int) =~= panes@);
                let wp = window_panes(windows@.take(j + 1));
                assert(wp =~= window_panes(windows@.take(j as int)) + panes@);
                assert forall|m: int| 0 <= m < wp.len() implies !runs_session(#[trigger] wp[m], session_id@) by {
                    let w0 = window_panes(windows@.take(j as int));
                    if m >= w0.len() {
                        assert(wp[m] == panes@.take(k as int)[m - w0.len()]);
                    } else {
                        assert(wp[m] == w0[m]);
                    }
                }
            }
            j = j + 1;
        }
        proof {
            assert(sessions@.take(i + 1).drop_last() =~= sessions@.take(i as int));
            assert(windows@.take(j as int) =~= windows@);
            let sp = session_panes(sessions@.take(i + 1));
            let s0 = session_panes(sessions@.take(i as int));
            assert(sp =~= s0 + window_panes(windows@));
            assert forall|m: int| 0 <= m < sp.len() implies !runs_session(#[trigger] sp[m], session_id@) by {
                if m >= s0.len() {
                    assert(sp[m] == window_panes(windows@.take(j as int))[m - s0.len()]);
                } else {
                    assert(sp[m] == s0[m]);
                }
            }
        }
        i = i + 1;
    }
    assert(sessions@.take(i as int) =~= sessions@);
    None
}

/// A title may be rendered exactly when it is non-empty, none of its
/// characters is forbidden, and some character, wherever it stands, is
/// alphanumeric.
pub proof fn lemma_valid_title_characterized(t: Seq<char>)
    ensures
        valid_title(t) <==> (t.len() > 0 && (forall|i: int|
            0 <= i < t.len() ==> !forbidden_in_title(#[trigger] t[i])) && (exists|i: int|
            0 <= i < t.len() && alphanumeric(#[trigger] t[i]))),
{
    let a = t.map_values(|c: char| alphanumeric(c));
    if exists|i: int| 0 <= i < t.len() && alphanumeric(#[trigger] t[i]) {
        let i = choose|i: int| 0 <= i < t.len() && alphanumeric(#[trigger] t[i]);
        assert(a[i]);
    }
    if exists|i: int| 0 <= i < a.len() && #[trigger] a[i] {
        let i = choose|i: int| 0 <= i < a.len() && #[trigger] a[i];
        assert(alphanumeric(t[i]));
    }
}

/// Adding a character that is not forbidden, at either end, keeps a valid
/// title valid: where the alphanumeric character sits does not matter.
pub proof fn lemma_valid_title_extends(t: Seq<char>, c: char)
    requires
        valid_title(t),
        !forbidden_in_title(c),
    ensures
        valid_title(t.push(c)),
        valid_title(seq![c] + t),
{
    lemma_valid_title_characterized(t);
    lemma_valid_title_characterized(t.push(c));
    lemma_valid_title_characterized(seq![c] + t);
    let i = choose|i: int| 0 <= i < t.len() && alphanumeric(#[trigger] t[i]);
    assert(t.push(c)[i] == t[i]);
    assert((seq![c] + t)[i + 1] == t[i]);
    assert forall|j: int| 0 <= j < t.push(c).len() implies !forbidden_in_title(
        #[trigger] t.push(c)[j],
    ) by {
        if j < t.len() {
            assert(t.push(c)[j] == t[j]);
        }
    }
    assert forall|j: int| 0 <= j < (seq![c] + t).len() implies !forbidden_in_title(
        #[trigger] (seq![c] + t)[j],
    ) by {
        if j > 0 {
            assert((seq![c] + t)[j] == t[j - 1]);
        }
    }
}

/// The judgement of [`judge_title`] from given flags: any flagged
/// character makes a title without forbidden characters acceptable, and
/// appending an unflagged, allowed character never withdraws acceptance.
pub proof fn lemma_judge_title_flags(t: Seq<char>, a: Seq<bool>, k: int, c: char, b: bool)
    requires
        a.len() == t.len(),
    ensures
        (t.len() > 0 && (forall|i: int| 0 <= i < t.len() ==> !forbidden_in_title(#[trigger] t[i]))
            && 0 <= k < a.len() && a[k]) ==> title_acceptable(t, a),
        title_acceptable(t, a) ==> t.len() > 0 && exists|i: int| 0 <= i < a.len() && #[trigger] a[i],
        title_acceptable(t, a) && !forbidden_in_title(c) ==> title_acceptable(t.push(c), a.push(b)),
        (exists|i: int| 0 <= i < t.len() && forbidden_in_title(#[trigger] t[i])) ==> !title_acceptable(
            t,
            a,
        ),
{
    if title_acceptable(t, a) && !forbidden_in_title(c) {
        let i = choose|i: int| 0 <= i < a.len() && #[trigger] a[i];
        assert(a.push(b)[i]);
        assert forall|j: int| 0 <= j < t.push(c).len() implies !forbidden_in_title(
            #[trigger] t.push(c)[j],
        ) by {
            if j < t.len() {
                assert(t.push(c)[j] == t[j]);
            }
        }
    }
    if (t.len() > 0 && (forall|i: int| 0 <= i < t.len() ==> !forbidden_in_title(#[trigger] t[i]))
        && 0 <= k < a.len() && a[k]) {
        assert(a[k]);
    }
}

/// No argument is a bare `--session` or `--pane`, so no argument is
/// consumed as the value of another.
pub open spec fn no_space_form(args: Seq<Seq<char>>) -> bool {
    forall|j: int| 0 <= j < args.len() ==> #[trigger] args[j] != "--session"@ && args[j] != "--pane"@
}

/// The value of the last `prefix…` argument at or after index `i`, when
/// there is one: index `j` holds it and no later argument has the prefix.
pub open spec fn last_prefixed(args: Seq<Seq<char>>, prefix: Seq<char>, i: int, v: Seq<char>) -> bool {
    exists|j: int|
        i <= j < args.len() && prefix.is_prefix_of(#[trigger] args[j]) && v == args[j].skip(
            prefix.len() as int,
        ) && forall|k: int| j < k < args.len() ==> !prefix.is_prefix_of(#[trigger] args[k])
}

pub open spec fn some_prefixed(args: Seq<Seq<char>>, prefix: Seq<char>, i: int) -> bool {
    exists|j: int| i <= j < args.len() && prefix.is_prefix_of(#[trigger] args[j])
}

proof fn lemma_parse_from_flat(args: Seq<Seq<char>>, i: int, acc: ParsedArgsView)
    requires
        0 <= i <= args.len(),
        no_space_form(args),
    ensures
        parse_from(args, i, acc).auto == (acc.auto || exists|j: int|
            i <= j < args.len() && #[trigger] args[j] == "--auto"@),
        !some_prefixed(args, "--session="@, i) ==> parse_from(args, i, acc).session_id
            == acc.session_id,
        some_prefixed(args, "--session="@, i) ==> (parse_from(args, i, acc).session_id is Some
            && last_prefixed(args, "--session="@, i, parse_from(args, i, acc).session_id->0)),
        !some_prefixed(args, "--pane="@, i) ==> parse_from(args, i, acc).pane == acc.pane,
        some_prefixed(args, "--pane="@, i) ==> (parse_from(args, i, acc).pane is Some
            && last_prefixed(args, "--pane="@, i, parse_from(args, i, acc).pane->0)),
    decreases args.len() - i,
{
    reveal_strlit("--session=");
    reveal_strlit("--pane=");
    reveal_strlit("--auto");
    if i < args.len() {
        let a = args[i];
        assert(a != "--session"@ && a != "--pane"@);
        let s = "--session="@;
        let p = "--pane="@;
        assert(!(s.is_prefix_of(a) && p.is_prefix_of(a))) by {
            if s.is_prefix_of(a) && p.is_prefix_of(a) {
                assert(a[2] == s[2] && a[2] == p[2]);
            }
        }
        assert(a == "--auto"@ ==> !s.is_prefix_of(a) && !p.is_prefix_of(a)) by {
            if a == "--auto"@ {
                if s.is_prefix_of(a) {
                    assert(a.len() >= s.len());
                }
                if p.is_prefix_of(a) {
                    assert(a.len() >= p.len());
                }
            }
        }
        let next = if s.is_prefix_of(a) {
            ParsedArgsView { session_id: Some(a.skip(s.len() as int)), pane: acc.pane, auto: acc.auto }
        } else if p.is_prefix_of(a) {
            ParsedArgsView { session_id: acc.session_id, pane: Some(a.skip(p.len() as int)), auto: acc.auto }
        } else if a == "--auto"@ {
            ParsedArgsView { session_id: acc.session_id, pane: acc.pane, auto: true }
        } else {
            acc
        };
        assert(parse_from(args, i, acc) == parse_from(args, i + 1, next));
        lemma_parse_from_flat(args, i + 1, next);
        let r = parse_from(args, i, acc);
        // auto
        if a == "--auto"@ {
            assert(exists|j: int| i <= j < args.len() && #[trigger] args[j] == "--auto"@);
        }
        if exists|j: int| i <= j < args.len() && #[trigger] args[j] == "--auto"@ {
            let j = choose|j: int| i <= j < args.len() && #[trigger] args[j] == "--auto"@;
            if j > i {
                assert(exists|j2: int| i + 1 <= j2 < args.len() && #[trigger] args[j2] == "--auto"@);
            }
        }
        if exists|j: int| i + 1 <= j < args.len() && #[trigger] args[j] == "--auto"@ {
            let j = choose|j: int| i + 1 <= j < args.len() && #[trigger] args[j] == "--auto"@;
            assert(i <= j);
        }
        // session
        if some_prefixed(args, s, i + 1) {
            let v = r.session_id->0;
            let j = choose|j: int|
                i + 1 <= j < args.len() && s.is_prefix_of(#[trigger] args[j]) && v == args[j].skip(
                    s.len() as int,
                ) && forall|k: int| j < k < args.len() ==> !s.is_prefix_of(#[trigger] args[k]);
            assert(last_prefixed(args, s, i, v));
            assert(some_prefixed(args, s, i));
        } else if s.is_prefix_of(a) {
            assert(some_prefixed(args, s, i));
            assert(forall|k: int| i < k < args.len() ==> !s.is_prefix_of(#[trigger] args[k])) by {
                assert forall|k: int| i < k < args.len() implies !s.is_prefix_of(#[trigger] args[k]) by {
                    if s.is_prefix_of(args[k]) {
                        assert(some_prefixed(args, s, i + 1));
                    }
                }
            }
            assert(last_prefixed(args, s, i, a.skip(s.len() as int)));
        } else {
            assert(!some_prefixed(args, s, i)) by {
                if some_prefixed(args, s, i) {
                    let j = choose|j: int| i <= j < args.len() && s.is_prefix_of(#[trigger] args[j]);
                    assert(j != i);
                    assert(some_prefixed(args, s, i + 1));
                }
            }
        }
        // pane
        if some_prefixed(args, p, i + 1) {
            let v = r.pane->0;
            let j = choose|j: int|
                i + 1 <= j < args.len() && p.is_prefix_of(#[trigger] args[j]) && v == args[j].skip(
                    p.len() as int,
                ) && forall|k: int| j < k < args.len() ==> !p.is_prefix_of(#[trigger] args[k]);
            assert(last_prefixed(args, p, i, v));
            assert(some_prefixed(args, p, i));
        } else if p.is_prefix_of(a) {
            assert(some_prefixed(args, p, i));
            assert(forall|k: int| i < k < args.len() ==> !p.is_prefix_of(#[trigger] args[k])) by {
                assert forall|k: int| i < k < args.len() implies !p.is_prefix_of(#[trigger] args[k]) by {
                    if p.is_prefix_of(args[k]) {
                        assert(some_prefixed(args, p, i + 1));
                    }
                }
            }
            assert(last_prefixed(args, p, i, a.skip(p.len() as int)));
        } else {
            assert(!some_prefixed(args, p, i)) by {
                if some_prefixed(args, p, i) {
                    let j = choose|j: int| i <= j < args.len() && p.is_prefix_of(#[trigger] args[j]);
                    assert(j != i);
                    assert(some_prefixed(args, p, i + 1));
                }
            }
        }
    }
}

/// When argv holds no bare `--session` or `--pane`, `--auto` anywhere sets
/// the flag, the session is the value of the last `--session=` argument
/// and the pane that of the last `--pane=` argument (none without one).
pub proof fn lemma_parse_args_without_space_form(args: Seq<Seq<char>>)
    requires
        no_space_form(args),
    ensures
        parse_args_spec(args).auto <==> exists|j: int| 0 <= j < args.len() && #[trigger] args[j]
            == "--auto"@,
        parse_args_spec(args).session_id is None <==> !some_prefixed(args, "--session="@, 0),
        parse_args_spec(args).session_id matches Some(v) ==> last_prefixed(args, "--session="@, 0, v),
        parse_args_spec(args).pane is None <==> !some_prefixed(args, "--pane="@, 0),
        parse_args_spec(args).pane matches Some(v) ==> last_prefixed(args, "--pane="@, 0, v),
{
    lemma_parse_from_flat(args, 0, ParsedArgsView { session_id: None, pane: None, auto: false });
}

proof fn lemma_parse_from_auto_sound(args: Seq<Seq<char>>, i: int, acc: ParsedArgsView)
    requires
        0 <= i,
    ensures
        parse_from(args, i, acc).auto ==> acc.auto || exists|j: int|
            i <= j < args.len() && #[trigger] args[j] == "--auto"@,
    decreases args.len() - i,
{
    if i < args.len() {
        let a = args[i];
        if "--session="@.is_prefix_of(a) {
            lemma_parse_from_auto_sound(
                args,
                i + 1,
                ParsedArgsView { session_id: Some(a.skip("--session="@.len() as int)), pane: acc.pane, auto: acc.auto },
            );
        } else if a == "--session"@ {
            if i + 1 < args.len() {
                lemma_parse_from_auto_sound(
                    args,
                    i + 2,
                    ParsedArgsView { session_id: Some(args[i + 1]), pane: acc.pane, auto: acc.auto },
                );
            }
        } else if "--pane="@.is_prefix_of(a) {
            lemma_parse_from_auto_sound(
                args,
                i + 1,
                ParsedArgsView { session_id: acc.session_id, pane: Some(a.skip("--pane="@.len() as int)), auto: acc.auto },
            );
        } else if a == "--pane"@ {
            if i + 1 < args.len() {
                lemma_parse_from_auto_sound(
                    args,
                    i + 2,
                    ParsedArgsView { session_id: acc.session_id, pane: Some(args[i + 1]), auto: acc.auto },
                );
            }
        } else if a == "--auto"@ {
            lemma_parse_from_auto_sound(
                args,
                i + 1,
                ParsedArgsView { session_id: acc.session_id, pane: acc.pane, auto: true },
            );
        } else {
            lemma_parse_from_auto_sound(args, i + 1, acc);
        }
    }
}

/// The flag is set only when some argument is exactly `--auto`.
pub proof fn lemma_auto_only_from_flag(args: Seq<Seq<char>>)
    ensures
        parse_args_spec(args).auto ==> exists|j: int| 0 <= j < args.len() && #[trigger] args[j]
            == "--auto"@,
{
    lemma_parse_from_auto_sound(args, 0, ParsedArgsView { session_id: None, pane: None, auto: false });
}

/// With a non-empty trimmed pane prompt, the payload ends with the message
/// heading and the start of that trimmed prompt: its first
/// [`USER_MESSAGE_CAP`] characters, or all of it when shorter.
pub proof fn lemma_message_is_start_of_prompt(p: PaneActivity)
    requires
        trim(p.pane_prompt@).len() > 0,
    ensures
        exists|m: Seq<char>|
            user_payload(Some(p)) == activity_section(p) + "\nLast assistant message:\n"@ + m
                && m.is_prefix_of(trim(p.pane_prompt@)) && m.len() == (if trim(
                p.pane_prompt@,
            ).len() < USER_MESSAGE_CAP {
                trim(p.pane_prompt@).len()
            } else {
                USER_MESSAGE_CAP as nat
            }),
{
    reveal_strlit("\nLast assistant message:\n");
    let msg = trim(p.pane_prompt@);
    let n = if msg.len() < USER_MESSAGE_CAP {
        msg.len()
    } else {
        USER_MESSAGE_CAP as nat
    };
    let m = msg.take(n as int);
    let body = activity_section(p) + message_section(p);
    assert(body =~= activity_section(p) + "\nLast assistant message:\n"@ + m);
    assert(body.len() > 0);
    assert(m.is_prefix_of(msg));
}

/// Without activity entries, a non-empty trimmed prompt is the whole
/// payload's subject: heading, then the start of the prompt.
pub proof fn lemma_message_only_payload(p: PaneActivity)
    requires
        p.entries@.len() == 0,
        trim(p.pane_prompt@).len() > 0,
    ensures
        exists|m: Seq<char>|
            user_payload(Some(p)) == "\nLast assistant message:\n"@ + m && m.is_prefix_of(
                trim(p.pane_prompt@),
            ) && m.len() == (if trim(p.pane_prompt@).len() < USER_MESSAGE_CAP {
                trim(p.pane_prompt@).len()
            } else {
                USER_MESSAGE_CAP as nat
            }),
{
    lemma_message_is_start_of_prompt(p);
    let m = choose|m: Seq<char>|
        user_payload(Some(p)) == activity_section(p) + "\nLast assistant message:\n"@ + m
            && m.is_prefix_of(trim(p.pane_prompt@)) && m.len() == (if trim(
            p.pane_prompt@,
        ).len() < USER_MESSAGE_CAP {
            trim(p.pane_prompt@).len()
        } else {
            USER_MESSAGE_CAP as nat
        });
    assert(activity_section(p) + "\nLast assistant message:\n"@ + m =~= "\nLast assistant message:\n"@
        + m);
}

/// A prompt that is empty or only white space adds nothing: the payload is
/// the activity listing, or the fallback text when there is no activity
/// either.
pub proof fn lemma_blank_prompt_adds_nothing(p: PaneActivity)
    requires
        trim(p.pane_prompt@).len() == 0,
    ensures
        p.entries@.len() > 0 ==> user_payload(Some(p)) == "Recent activity (newest first):\n"@
            + entries_text(p.entries@),
        p.entries@.len() == 0 ==> user_payload(Some(p)) == "(no activity recorded yet)"@,
        user_payload(None) == "(no activity recorded yet)"@,
{
    reveal_strlit("Recent activity (newest first):\n");
    assert(message_section(p) =~= Seq::<char>::empty());
    if p.entries@.len() > 0 {
        assert(activity_section(p) + message_section(p) =~= activity_section(p));
    } else {
        assert(activity_section(p) + message_section(p) =~= Seq::<char>::empty());
    }
}

/// The activity listing keeps the entries' order: the first entry's line
/// comes first, and each entry adds exactly its own line.
pub proof fn lemma_entries_text_in_order(e: ActivityEntry, es: Seq<ActivityEntry>)
    ensures
        entries_text(seq![e] + es) == entry_line(e) + entries_text(es),
        entries_text(es.push(e)) == entries_text(es) + entry_line(e),
        entries_text(Seq::<ActivityEntry>::empty()) == Seq::<char>::empty(),
    decreases es.len(),
{
    assert(es.push(e).drop_last() =~= es);
    if es.len() == 0 {
        assert(seq![e] + es =~= seq![e]);
        assert(seq![e].drop_last() =~= Seq::<ActivityEntry>::empty());
        assert(seq![e].last() == e);
        assert(entries_text(seq![e]) == entries_text(seq![e].drop_last()) + entry_line(seq![e].last()));
        assert(entries_text(seq![e]) =~= entry_line(e));
    } else {
        let init = es.drop_last();
        lemma_entries_text_in_order(e, init);
        assert((seq![e] + es).drop_last() =~= seq![e] + init);
        assert((seq![e] + es).last() == es.last());
        assert(entries_text(seq![e] + es) =~= entry_line(e) + entries_text(es));
    }
}

} // verus!
