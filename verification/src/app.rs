//! The state of the terminal application: the input line, the events of the session, the
//! submissions waiting for the agent, and the picker or editor in front.
use vstd::prelude::*;
use crate::config::{first_option, ModelOption};
use crate::config_editor::{ascii_lowercase, is_word, ConfigEditorAction, ConfigEditorState, ConfigField};
use crate::event::{
    active_tail, compaction_lines, count_conversational, folded_count, should_auto_compact, summarize_compaction,
    Event, EventMsg, AUTO_COMPACTION_TRIGGER_EVENTS,
};
use crate::keys::{sat_sub, KeyCode, KeyInput};
use crate::model_picker::{ModelPickerAction, ModelPickerState};
use crate::session::SessionSummary;
use crate::session_picker::{SessionPickerAction, SessionPickerState};
use crate::session_tree::{SessionTreeAction, SessionTreeState};
use crate::submission::{LocalCommand, Op, Submission};
use crate::text::{
    cat, dec, join_seq, parse_u128, parses_as_u128, pop_char, push_char, push_str, str_eq,
    strip_prefix, to_owned_str, trim, trim_seq, u64_to_string,
};

verus! {

// ---------------------------------------------------------------------------
// Local commands

/// The mathematical value of a local command.
pub ghost enum CommandView {
    New,
    Resume,
    Continue,
    Config,
    Image(Seq<char>),
    ImageClipboard,
    Compact,
    Export,
    Share,
    Capabilities,
    Capability(Seq<char>),
    CapabilityEnable(Seq<char>),
    CapabilityDisable(Seq<char>),
    Skill(Seq<char>),
    Tree,
    Fork,
    Session(Seq<char>),
    Model,
}

impl LocalCommand {
    pub open spec fn view_cmd(self) -> CommandView {
        match self {
            LocalCommand::New => CommandView::New,
            LocalCommand::Resume => CommandView::Resume,
            LocalCommand::Continue => CommandView::Continue,
            LocalCommand::Config => CommandView::Config,
            LocalCommand::Image { path } => CommandView::Image(path@),
            LocalCommand::ImageClipboard => CommandView::ImageClipboard,
            LocalCommand::Compact => CommandView::Compact,
            LocalCommand::Export => CommandView::Export,
            LocalCommand::Share => CommandView::Share,
            LocalCommand::Capabilities => CommandView::Capabilities,
            LocalCommand::Capability { query } => CommandView::Capability(query@),
            LocalCommand::CapabilityEnable { query } => CommandView::CapabilityEnable(query@),
            LocalCommand::CapabilityDisable { query } => CommandView::CapabilityDisable(query@),
            LocalCommand::Skill { query } => CommandView::Skill(query@),
            LocalCommand::Tree => CommandView::Tree,
            LocalCommand::Fork => CommandView::Fork,
            LocalCommand::Session { id } => CommandView::Session(id@),
            LocalCommand::Model => CommandView::Model,
        }
    }
}

/// The argument after `prefix`, trimmed, when `t` starts with it and something follows.
pub open spec fn arg_after(t: Seq<char>, prefix: Seq<char>) -> Option<Seq<char>> {
    if prefix.is_prefix_of(t) {
        let a = trim_seq(t.subrange(prefix.len() as int, t.len() as int));
        if a.len() > 0 {
            Some(a)
        } else {
            None
        }
    } else {
        None
    }
}

/// The local command a line of input names, if any.
pub open spec fn command_of(input: Seq<char>) -> Option<CommandView> {
    let t = trim_seq(input);
    if t == "/resume"@ {
        Some(CommandView::Resume)
    } else if t == "/new"@ {
        Some(CommandView::New)
    } else if t == "/continue"@ || t == "-c"@ {
        Some(CommandView::Continue)
    } else if arg_after(t, "/image "@) is Some {
        let p = arg_after(t, "/image "@)->0;
        if ascii_lowercase(p) == "clip"@ || ascii_lowercase(p) == "clipboard"@ {
            Some(CommandView::ImageClipboard)
        } else {
            Some(CommandView::Image(p))
        }
    } else if t == "/compact"@ {
        Some(CommandView::Compact)
    } else if t == "/export"@ {
        Some(CommandView::Export)
    } else if t == "/share"@ {
        Some(CommandView::Share)
    } else if t == "/capabilities"@ {
        Some(CommandView::Capabilities)
    } else if arg_after(t, "/capability "@) is Some {
        Some(CommandView::Capability(arg_after(t, "/capability "@)->0))
    } else if arg_after(t, "/cap-enable "@) is Some {
        Some(CommandView::CapabilityEnable(arg_after(t, "/cap-enable "@)->0))
    } else if arg_after(t, "/cap-disable "@) is Some {
        Some(CommandView::CapabilityDisable(arg_after(t, "/cap-disable "@)->0))
    } else if arg_after(t, "/skill "@) is Some {
        Some(CommandView::Skill(arg_after(t, "/skill "@)->0))
    } else if arg_after(t, "/session "@) is Some {
        Some(CommandView::Session(arg_after(t, "/session "@)->0))
    } else if t == "/tree"@ {
        Some(CommandView::Tree)
    } else if t == "/fork"@ {
        Some(CommandView::Fork)
    } else if t == "/model"@ {
        Some(CommandView::Model)
    } else {
        None
    }
}

fn arg_after_exec(t: &str, prefix: &str) -> (r: Option<String>)
    ensures
        match arg_after(t@, prefix@) {
            Some(a) => r matches Some(s) && s@ == a,
            None => r is None,
        },
{
    match strip_prefix(t, prefix) {
        Some(rest) => {
            let a = trim(rest.as_str());
            if a.as_str().is_empty() {
                None
            } else {
                Some(a)
            }
        },
        None => None,
    }
}

/// The local command that a line of input names: `/resume`, `/new`, `/continue` (or `-c`),
/// `/image <path>` (`clip` or `clipboard` in any case for the clipboard), `/compact`, `/export`,
/// `/share`, `/capabilities`, `/capability <q>`, `/cap-enable <q>`, `/cap-disable <q>`,
/// `/skill <q>`, `/session <id>`, `/tree`, `/fork`, `/model`; surrounding white space ignored.
pub fn parse_local_command(input: &str) -> (r: Option<LocalCommand>)
    ensures
        match command_of(input@) {
            Some(c) => r matches Some(x) && x.view_cmd() == c,
            None => r is None,
        },
{
    let t = trim(input);
    let ts = t.as_str();
    if str_eq(ts, "/resume") {
        return Some(LocalCommand::Resume);
    }
    if str_eq(ts, "/new") {
        return Some(LocalCommand::New);
    }
    if str_eq(ts, "/continue") || str_eq(ts, "-c") {
        return Some(LocalCommand::Continue);
    }
    match arg_after_exec(ts, "/image ") {
        Some(path) => {
            proof {
                reveal_strlit("clip");
                reveal_strlit("clipboard");
            }
            if is_word(path.as_str(), "clip") || is_word(path.as_str(), "clipboard") {
                return Some(LocalCommand::ImageClipboard);
            }
            return Some(LocalCommand::Image { path });
        },
        None => {},
    }
    if str_eq(ts, "/compact") {
        return Some(LocalCommand::Compact);
    }
    if str_eq(ts, "/export") {
        return Some(LocalCommand::Export);
    }
    if str_eq(ts, "/share") {
        return Some(LocalCommand::Share);
    }
    if str_eq(ts, "/capabilities") {
        return Some(LocalCommand::Capabilities);
    }
    match arg_after_exec(ts, "/capability ") {
        Some(query) => {
            return Some(LocalCommand::Capability { query });
        },
        None => {},
    }
    match arg_after_exec(ts, "/cap-enable ") {
        Some(query) => {
            return Some(LocalCommand::CapabilityEnable { query });
        },
        None => {},
    }
    match arg_after_exec(ts, "/cap-disable ") {
        Some(query) => {
            return Some(LocalCommand::CapabilityDisable { query });
        },
        None => {},
    }
    match arg_after_exec(ts, "/skill ") {
        Some(query) => {
            return Some(LocalCommand::Skill { query });
        },
        None => {},
    }
    match arg_after_exec(ts, "/session ") {
        Some(id) => {
            return Some(LocalCommand::Session { id });
        },
        None => {},
    }
    if str_eq(ts, "/tree") {
        return Some(LocalCommand::Tree);
    }
    if str_eq(ts, "/fork") {
        return Some(LocalCommand::Fork);
    }
    if str_eq(ts, "/model") {
        return Some(LocalCommand::Model);
    }
    None
}

/// `/quit`, `/exit` and `:q` end the program, surrounding white space ignored.
pub open spec fn is_quit(input: Seq<char>) -> bool {
    let t = trim_seq(input);
    t == "/quit"@ || t == "/exit"@ || t == ":q"@
}

pub fn should_quit(input: &str) -> (r: bool)
    ensures
        r == is_quit(input@),
{
    let t = trim(input);
    str_eq(t.as_str(), "/quit") || str_eq(t.as_str(), "/exit") || str_eq(t.as_str(), ":q")
}

// ---------------------------------------------------------------------------
// Status and profile

#[verifier::external_type_specification]
#[verifier::external_body]
pub struct ExInstant(std::time::Instant);

/// `Instant::now`: the current reading of the monotonic clock. Nothing is stated of it.
#[verifier::external_body]
fn now() -> (r: std::time::Instant) {
    std::time::Instant::now()
}

#[derive(Debug, Clone, PartialEq, Eq, Default)]
pub struct AiProfile {
    pub provider: String,
    pub model: String,
}

impl AiProfile {
    pub fn new(provider: &str, model: &str) -> (r: Self)
        ensures
            r.provider@ == provider@,
            r.model@ == model@,
    {
        AiProfile { provider: to_owned_str(provider), model: to_owned_str(model) }
    }

    /// `provider/model`.
    pub fn label(&self) -> (r: String)
        ensures
            r@ == self.provider@ + "/"@ + self.model@,
    {
        crate::text::cat3(self.provider.as_str(), "/", self.model.as_str())
    }
}

#[derive(Debug, Clone, PartialEq, Eq)]
pub struct RuntimeStatus {
    pub label: String,
    pub detail: Option<String>,
    pub is_active: bool,
    pub started_at: Option<std::time::Instant>,
}

impl RuntimeStatus {
    /// Nothing running.
    pub fn idle() -> (r: Self)
        ensures
            r.label@ == "idle"@,
            r.detail is None,
            !r.is_active,
            r.started_at is None,
    {
        RuntimeStatus { label: to_owned_str("idle"), detail: None, is_active: false, started_at: None }
    }

    /// Waiting for the model, since now.
    pub fn thinking() -> (r: Self)
        ensures
            r.label@ == "thinking"@,
            r.detail is None,
            r.is_active,
            r.started_at is Some,
    {
        RuntimeStatus {
            label: to_owned_str("thinking"),
            detail: None,
            is_active: true,
            started_at: Some(now()),
        }
    }

    /// Busy with `label`, described by `detail`, since now.
    pub fn with_detail(label: &str, detail: &str) -> (r: Self)
        ensures
            r.label@ == label@,
            r.detail matches Some(d) && d@ == detail@,
            r.is_active,
            r.started_at is Some,
    {
        RuntimeStatus {
            label: to_owned_str(label),
            detail: Some(to_owned_str(detail)),
            is_active: true,
            started_at: Some(now()),
        }
    }
}

impl Default for RuntimeStatus {
    fn default() -> (r: Self)
        ensures
            r.label@ == "idle"@,
            r.detail is None,
            !r.is_active,
            r.started_at is None,
    {
        RuntimeStatus::idle()
    }
}

// ---------------------------------------------------------------------------
// Event ids

/// The id of the `n`-th event of a session.
pub open spec fn event_id(n: nat) -> Seq<char> {
    "evt-"@ + dec(n)
}

/// The number an event id carries, when it is `evt-` and a `u64`.
pub open spec fn id_number(id: Seq<char>) -> Option<int> {
    if "evt-"@.is_prefix_of(id) && exists|n: int|
        parses_as_u128(id.subrange(4, id.len() as int), n) && n <= u64::MAX {
        Some(choose|n: int| parses_as_u128(id.subrange(4, id.len() as int), n) && n <= u64::MAX)
    } else {
        None
    }
}

/// The largest number that the ids of `events` carry.
pub open spec fn max_id_number(events: Seq<Event>) -> Option<int>
    decreases events.len(),
{
    if events.len() == 0 {
        None
    } else {
        let prev = max_id_number(events.drop_last());
        match id_number(events.last().id@) {
            Some(n) => match prev {
                Some(m) => Some(if n > m {
                    n
                } else {
                    m
                }),
                None => Some(n),
            },
            None => prev,
        }
    }
}

/// The number of the next event after `events`: one past the largest number their ids carry
/// (saturating), 0 when none carries one.
pub open spec fn next_seq_after(events: Seq<Event>) -> u64 {
    match max_id_number(events) {
        Some(m) => if m < u64::MAX {
            (m + 1) as u64
        } else {
            u64::MAX
        },
        None => 0,
    }
}

proof fn lemma_parse_unique(s: Seq<char>, a: int, b: int)
    requires
        parses_as_u128(s, a),
        parses_as_u128(s, b),
    ensures
        a == b,
{
}

fn id_number_exec(id: &str) -> (r: Option<u64>)
    ensures
        match id_number(id@) {
            Some(n) => r == Some(n as u64),
            None => r is None,
        },
{
    match strip_prefix(id, "evt-") {
        Some(rest) => {
            proof {
                reveal_strlit("evt-");
            }
            match parse_u128(rest.as_str()) {
                Some(n) => {
                    if n <= 0xffff_ffff_ffff_ffffu128 {
                        proof {
                            let m = choose|m: int|
                                parses_as_u128(id@.subrange(4, id@.len() as int), m) && m
                                    <= u64::MAX;
                            assert(parses_as_u128(rest@, n as int));
                            lemma_parse_unique(rest@, m, n as int);
                        }
                        Some(n as u64)
                    } else {
                        proof {
                            if exists|m: int|
                                parses_as_u128(id@.subrange(4, id@.len() as int), m) && m
                                    <= u64::MAX {
                                let m = choose|m: int|
                                    parses_as_u128(id@.subrange(4, id@.len() as int), m) && m
                                        <= u64::MAX;
                                lemma_parse_unique(rest@, m, n as int);
                            }
                        }
                        None
                    }
                },
                None => None,
            }
        },
        None => None,
    }
}

/// The number of the next event after `events`.
pub fn next_event_seq(events: &[Event]) -> (r: u64)
    ensures
        r == next_seq_after(events@),
{
    let mut best: Option<u64> = None;
    let mut i: usize = 0;
    while i < events.len()
        invariant
            i <= events@.len(),
            match max_id_number(events@.take(i as int)) {
                Some(m) => best == Some(m as u64) && 0 <= m <= u64::MAX,
                None => best is None,
            },
        decreases events.len() - i,
    {
        assert(events@.take(i + 1).drop_last() =~= events@.take(i as int));
        match id_number_exec(events[i].id.as_str()) {
            Some(n) => {
                best = match best {
                    Some(m) => Some(if n > m {
                        n
                    } else {
                        m
                    }),
                    None => Some(n),
                };
            },
            None => {},
        }
        i = i + 1;
    }
    assert(events@.take(events@.len() as int) =~= events@);
    match best {
        Some(m) => m.saturating_add(1),
        None => 0,
    }
}

// ---------------------------------------------------------------------------
// The application state

#[derive(Debug, Clone, PartialEq, Eq)]
pub enum AppMode {
    Chat,
    SessionPicker(SessionPickerState),
    SessionTree(SessionTreeState),
    ModelPicker(ModelPickerState),
    ConfigEditor(ConfigEditorState),
}

impl Default for AppMode {
    fn default() -> (r: Self)
        ensures
            r == AppMode::Chat,
    {
        AppMode::Chat
    }
}

#[derive(Debug, Default)]
pub struct AppState {
    pub input: String,
    pub events: Vec<Event>,
    pub submissions: Vec<Submission>,
    pub pending_ai_requests: usize,
    pub runtime_status: RuntimeStatus,
    pub ai_profile: Option<AiProfile>,
    pub workspace_root: Option<String>,
    pub mode: AppMode,
    pub pending_resume_session: Option<String>,
    pub pending_new_session: bool,
    pub pending_submissions: Vec<Submission>,
    pub transcript_scroll: usize,
    pub next_event_seq: u64,
    pub next_submission_seq: u64,
    pub should_exit: bool,
}

/// How an event shows in the transcript: its id, label and text.
pub open spec fn event_view(e: Event) -> (Seq<char>, Seq<char>, Seq<char>) {
    (e.id@, e.msg.label_spec(), e.msg.content_spec())
}

pub open spec fn event_views(s: Seq<Event>) -> Seq<(Seq<char>, Seq<char>, Seq<char>)> {
    s.map_values(|e: Event| event_view(e))
}

/// `n + 1`, or `n` at the largest `u64`.
pub open spec fn next_seq(n: u64) -> u64 {
    if n < u64::MAX {
        (n + 1) as u64
    } else {
        n
    }
}

/// The system message that records a local command, if it leaves one.
pub open spec fn command_note(c: CommandView) -> Option<Seq<char>> {
    match c {
        CommandView::Resume => Some("/resume"@),
        CommandView::New => Some("/new"@),
        CommandView::Continue => Some("/continue"@),
        CommandView::Config => Some("/config"@),
        CommandView::Image(_) => None,
        CommandView::ImageClipboard => None,
        CommandView::Compact => Some("/compact"@),
        CommandView::Export => Some("/export"@),
        CommandView::Share => Some("/share"@),
        CommandView::Capabilities => Some("/capabilities"@),
        CommandView::Capability(q) => Some("/capability "@ + q),
        CommandView::CapabilityEnable(q) => Some("/cap-enable "@ + q),
        CommandView::CapabilityDisable(q) => Some("/cap-disable "@ + q),
        CommandView::Skill(q) => Some("/skill "@ + q),
        CommandView::Tree => Some("/tree"@),
        CommandView::Fork => Some("/fork"@),
        CommandView::Session(id) => Some("/session "@ + id),
        CommandView::Model => Some("/model"@),
    }
}

/// Commands whose note takes the transcript back to the bottom.
pub open spec fn command_scrolls(c: CommandView) -> bool {
    match c {
        CommandView::Image(_) | CommandView::ImageClipboard | CommandView::Capability(_)
        | CommandView::CapabilityEnable(_) | CommandView::CapabilityDisable(_)
        | CommandView::Skill(_) | CommandView::Session(_) => false,
        _ => true,
    }
}

/// Whether a session's events call for compaction before the next prompt.
pub open spec fn needs_compaction(events: Seq<Event>) -> bool {
    count_conversational(active_tail(events)) >= AUTO_COMPACTION_TRIGGER_EVENTS
}

/// The events a submitted line adds after `events`, numbered from `seq`.
pub open spec fn submitted_events(events: Seq<Event>, seq: u64, content: Seq<char>) -> Seq<
    (Seq<char>, Seq<char>, Seq<char>),
> {
    match command_of(content) {
        None => if needs_compaction(events) {
            seq![
                (event_id(seq as nat), "compaction"@, join_seq(compaction_lines(events), "\n"@)),
                (event_id(next_seq(seq) as nat), "you"@, content),
            ]
        } else {
            seq![(event_id(seq as nat), "you"@, content)]
        },
        Some(c) => match command_note(c) {
            Some(note) => seq![(event_id(seq as nat), "system"@, note)],
            None => Seq::empty(),
        },
    }
}

/// The event number after a submitted line.
pub open spec fn submitted_seq(events: Seq<Event>, seq: u64, content: Seq<char>) -> u64 {
    match command_of(content) {
        None => if needs_compaction(events) {
            next_seq(next_seq(seq))
        } else {
            next_seq(seq)
        },
        Some(c) => if command_note(c) is Some {
            next_seq(seq)
        } else {
            seq
        },
    }
}

/// The submission a line makes.
pub open spec fn submission_for(sub_seq: u64, content: Seq<char>, s: Submission) -> bool {
    &&& s.id@ == "sub-"@ + dec(sub_seq as nat)
    &&& match command_of(content) {
        None => s.op matches Op::UserInput { content: c } && c@ == content,
        Some(cmd) => s.op matches Op::LocalCommand { command } && command.view_cmd() == cmd,
    }
}

/// What Enter does to the application: a quit command ends the program; any other non-blank
/// line is submitted, trimmed; the input is cleared either way.
pub open spec fn submitted(o: AppState, n: AppState) -> bool {
    let t = trim_seq(o.input@);
    &&& n.input@.len() == 0
    &&& n.mode == o.mode
    &&& n.pending_ai_requests == o.pending_ai_requests
    &&& if is_quit(o.input@) {
        &&& n.should_exit
        &&& n.events@ == o.events@
        &&& n.submissions@ == o.submissions@
        &&& n.pending_submissions@ == o.pending_submissions@
        &&& n.transcript_scroll == o.transcript_scroll
        &&& n.next_event_seq == o.next_event_seq
        &&& n.next_submission_seq == o.next_submission_seq
        &&& n.runtime_status == o.runtime_status
    } else if t.len() == 0 {
        &&& n.should_exit == o.should_exit
        &&& n.events@ == o.events@
        &&& n.submissions@ == o.submissions@
        &&& n.pending_submissions@ == o.pending_submissions@
        &&& n.transcript_scroll == o.transcript_scroll
        &&& n.next_event_seq == o.next_event_seq
        &&& n.next_submission_seq == o.next_submission_seq
        &&& n.runtime_status == o.runtime_status
    } else {
        &&& n.should_exit == o.should_exit
        &&& event_views(n.events@) == event_views(o.events@) + submitted_events(
            o.events@,
            o.next_event_seq,
            t,
        )
        &&& n.next_event_seq == submitted_seq(o.events@, o.next_event_seq, t)
        &&& n.submissions@.len() == o.submissions@.len() + 1
        &&& n.submissions@.drop_last() == o.submissions@
        &&& submission_for(o.next_submission_seq, t, n.submissions@.last())
        &&& n.pending_submissions@ == o.pending_submissions@.push(n.submissions@.last())
        &&& n.next_submission_seq == next_seq(o.next_submission_seq)
        &&& n.transcript_scroll == match command_of(t) {
            None => 0,
            Some(c) => if command_scrolls(c) {
                0
            } else {
                o.transcript_scroll
            },
        }
        &&& command_of(t) is None && needs_compaction(o.events@) ==> (n.runtime_status.label@
            == "compact"@ && (n.runtime_status.detail matches Some(d) && d@ == "continue"@))
        &&& !(command_of(t) is None && needs_compaction(o.events@)) ==> n.runtime_status
            == o.runtime_status
        &&& command_of(t) is None && needs_compaction(o.events@) ==> compacted_first(o.events@, n.events@)
    }
}

/// An idle status: no label but `idle`, no detail, not active, not timed.
pub open spec fn is_idle(s: RuntimeStatus) -> bool {
    &&& s.label@ == "idle"@
    &&& s.detail is None
    &&& !s.is_active
    &&& s.started_at is None
}

/// What a key does with the session picker in front: the picker handles it; a chosen session
/// is to be resumed on exit, and cancelling returns to the chat with an idle status; nothing
/// else changes. Without the picker in front, nothing happens.
pub open spec fn picker_key_step(o: AppState, key: KeyInput, n: AppState, r: Option<SessionPickerAction>) -> bool {
    match o.mode {
        AppMode::SessionPicker(s) => match r {
            Some(a) => match a {
                SessionPickerAction::Cancelled => {
                    &&& exists|p: SessionPickerState| #[trigger] SessionPickerState::key_step(s, key, p, a)
                    &&& n == AppState { mode: AppMode::Chat, runtime_status: n.runtime_status, ..o }
                    &&& is_idle(n.runtime_status)
                },
                SessionPickerAction::Selected(id) => {
                    &&& n.mode matches AppMode::SessionPicker(p) && SessionPickerState::key_step(s, key, p, a)
                    &&& n == AppState { mode: n.mode, pending_resume_session: Some(id), should_exit: true, ..o }
                },
                _ => {
                    &&& n.mode matches AppMode::SessionPicker(p) && SessionPickerState::key_step(s, key, p, a)
                    &&& n == AppState { mode: n.mode, ..o }
                },
            },
            None => false,
        },
        _ => r is None && n == o,
    }
}

/// What a key does with the session tree in front, as with the session picker.
pub open spec fn tree_key_step(o: AppState, key: KeyInput, n: AppState, r: Option<SessionTreeAction>) -> bool {
    match o.mode {
        AppMode::SessionTree(s) => match r {
            Some(a) => match a {
                SessionTreeAction::Cancelled => {
                    &&& exists|p: SessionTreeState| #[trigger] SessionTreeState::key_step(s, key, p, a)
                    &&& n == AppState { mode: AppMode::Chat, runtime_status: n.runtime_status, ..o }
                    &&& is_idle(n.runtime_status)
                },
                SessionTreeAction::Selected(id) => {
                    &&& n.mode matches AppMode::SessionTree(p) && SessionTreeState::key_step(s, key, p, a)
                    &&& n == AppState { mode: n.mode, pending_resume_session: Some(id), should_exit: true, ..o }
                },
                _ => {
                    &&& n.mode matches AppMode::SessionTree(p) && SessionTreeState::key_step(s, key, p, a)
                    &&& n == AppState { mode: n.mode, ..o }
                },
            },
            None => false,
        },
        _ => r is None && n == o,
    }
}

/// What a key does with the model picker in front: the picker handles it; a choice sets the
/// status to `model` with the detail `selected`, and cancelling returns to the chat with an
/// idle status; nothing else changes.
pub open spec fn model_key_step(o: AppState, key: KeyInput, n: AppState, r: Option<ModelPickerAction>) -> bool {
    match o.mode {
        AppMode::ModelPicker(s) => match r {
            Some(a) => match a {
                ModelPickerAction::Cancelled => {
                    &&& exists|p: ModelPickerState| #[trigger] ModelPickerState::key_step(s, key, p, a)
                    &&& n == AppState { mode: AppMode::Chat, runtime_status: n.runtime_status, ..o }
                    &&& is_idle(n.runtime_status)
                },
                ModelPickerAction::Selected(_) => {
                    &&& n.mode matches AppMode::ModelPicker(p) && ModelPickerState::key_step(s, key, p, a)
                    &&& n == AppState { mode: n.mode, runtime_status: n.runtime_status, ..o }
                    &&& n.runtime_status.label@ == "model"@
                    &&& n.runtime_status.detail matches Some(d) && d@ == "selected"@
                },
                _ => {
                    &&& n.mode matches AppMode::ModelPicker(p) && ModelPickerState::key_step(s, key, p, a)
                    &&& n == AppState { mode: n.mode, ..o }
                },
            },
            None => false,
        },
        _ => r is None && n == o,
    }
}

/// What a key does with the configuration editor in front: the editor handles it, and
/// cancelling returns to the chat with an idle status; nothing else changes.
pub open spec fn config_key_step(o: AppState, key: KeyInput, n: AppState, r: Option<ConfigEditorAction>) -> bool {
    match o.mode {
        AppMode::ConfigEditor(s) => match r {
            Some(a) => match a {
                ConfigEditorAction::Cancelled => {
                    &&& exists|p: ConfigEditorState| #[trigger] ConfigEditorState::key_step(s, key, p, a)
                    &&& n == AppState { mode: AppMode::Chat, runtime_status: n.runtime_status, ..o }
                    &&& is_idle(n.runtime_status)
                },
                _ => {
                    &&& n.mode matches AppMode::ConfigEditor(p) && ConfigEditorState::key_step(s, key, p, a)
                    &&& n == AppState { mode: n.mode, ..o }
                },
            },
            None => false,
        },
        _ => r is None && n == o,
    }
}

/// The submissions waiting to be taken are the latest submissions made, in order.
pub open spec fn pending_are_latest(a: AppState) -> bool {
    &&& a.pending_submissions@.len() <= a.submissions@.len()
    &&& a.pending_submissions@ == a.submissions@.skip(
        a.submissions@.len() - a.pending_submissions@.len(),
    )
}

/// No line submitted is lost before it is taken: when the waiting submissions are the latest
/// ones made, Enter keeps them so, the line it submits joining both lists.
pub proof fn law_enter_queues_every_submission(o: AppState, n: AppState)
    requires
        pending_are_latest(o),
        submitted(o, n),
    ensures
        pending_are_latest(n),
        n.pending_submissions@.take(o.pending_submissions@.len() as int) == o.pending_submissions@,
{
    if n.submissions@.len() == o.submissions@.len() + 1 {
        let k = o.submissions@.len() - o.pending_submissions@.len();
        assert(n.submissions@ == o.submissions@.push(n.submissions@.last())) by {
            assert(n.submissions@.drop_last().push(n.submissions@.last()) =~= n.submissions@);
        }
        assert(n.submissions@.skip(k) =~= o.submissions@.skip(k).push(n.submissions@.last()));
    }
    assert(n.pending_submissions@.take(o.pending_submissions@.len() as int) =~= o.pending_submissions@);
}

/// The first event after `before` in `after` folds the active tail of `before`: the summary
/// of its compaction lines, and how many of its events were folded.
pub open spec fn compacted_first(before: Seq<Event>, after: Seq<Event>) -> bool {
    &&& after.len() > before.len()
    &&& after[before.len() as int].msg matches EventMsg::Compaction(c)
        && c.summary@ == join_seq(compaction_lines(before), "\n"@)
        && c.folded_event_count == folded_count(active_tail(before).len())
}

impl AppState {
    pub fn new() -> (r: Self)
        ensures
            r.input@.len() == 0,
            r.events@.len() == 0,
            r.submissions@.len() == 0,
            r.pending_submissions@.len() == 0,
            pending_are_latest(r),
            r.pending_ai_requests == 0,
            r.runtime_status.label@ == "idle"@ && !r.runtime_status.is_active,
            r.ai_profile is None,
            r.workspace_root is None,
            r.mode == AppMode::Chat,
            r.pending_resume_session is None,
            !r.pending_new_session,
            r.transcript_scroll == 0,
            r.next_event_seq == 0,
            r.next_submission_seq == 0,
            !r.should_exit,
    {
        let r = AppState {
            input: String::new(),
            events: Vec::new(),
            submissions: Vec::new(),
            pending_ai_requests: 0,
            runtime_status: RuntimeStatus::idle(),
            ai_profile: None,
            workspace_root: None,
            mode: AppMode::Chat,
            pending_resume_session: None,
            pending_new_session: false,
            pending_submissions: Vec::new(),
            transcript_scroll: 0,
            next_event_seq: 0,
            next_submission_seq: 0,
            should_exit: false,
        };
        assert(r.submissions@.skip(0) =~= r.pending_submissions@);
        r
    }

    /// The application over a restored session: new events are numbered after the largest
    /// number among the restored ids.
    pub fn from_events(events: Vec<Event>) -> (r: Self)
        ensures
            r.events@ == events@,
            r.next_event_seq == next_seq_after(events@),
            r.input@.len() == 0,
            r.submissions@.len() == 0,
            r.pending_submissions@.len() == 0,
            r.pending_ai_requests == 0,
            r.runtime_status.label@ == "idle"@ && !r.runtime_status.is_active,
            r.ai_profile is None,
            r.workspace_root is None,
            r.mode == AppMode::Chat,
            r.pending_resume_session is None,
            !r.pending_new_session,
            r.transcript_scroll == 0,
            r.next_submission_seq == 0,
            !r.should_exit,
    {
        let seq = next_event_seq(events.as_slice());
        let mut state = AppState::new();
        state.events = events;
        state.next_event_seq = seq;
        state
    }

    fn push_event(&mut self, msg: EventMsg)
        ensures
            final(self).mode == old(self).mode,
            final(self).pending_ai_requests == old(self).pending_ai_requests,
            final(self).events@ == old(self).events@.push(final(self).events@.last()),
            final(self).events@.last().id@ == event_id(old(self).next_event_seq as nat),
            final(self).events@.last().msg == msg,
            final(self).next_event_seq == next_seq(old(self).next_event_seq),
            final(self).transcript_scroll == old(self).transcript_scroll,
            final(self).input == old(self).input,
            final(self).submissions@ == old(self).submissions@,
            final(self).pending_submissions@ == old(self).pending_submissions@,
            final(self).next_submission_seq == old(self).next_submission_seq,
            final(self).runtime_status == old(self).runtime_status,
            final(self).should_exit == old(self).should_exit,
            final(self).mode == old(self).mode,
            final(self).pending_ai_requests == old(self).pending_ai_requests,
            final(self).pending_resume_session == old(self).pending_resume_session,
            final(self).pending_new_session == old(self).pending_new_session,
            final(self).ai_profile == old(self).ai_profile,
            final(self).workspace_root == old(self).workspace_root,
    {
        let id = cat("evt-", u64_to_string(self.next_event_seq).as_str());
        self.next_event_seq = self.next_event_seq.saturating_add(1);
        self.events.push(Event::new(id.as_str(), msg));
    }

    pub fn push_user_message(&mut self, content: &str)
        ensures
            final(self).events@.take(old(self).events@.len() as int) == old(self).events@,
            event_views(final(self).events@) == event_views(old(self).events@).push(
                (event_id(old(self).next_event_seq as nat), "you"@, content@),
            ),
            final(self).next_event_seq == next_seq(old(self).next_event_seq),
            final(self).transcript_scroll == old(self).transcript_scroll,
    {
        let ghost old_v = event_views(self.events@);
        self.push_event(EventMsg::user(content));
        assert(event_views(self.events@) =~= old_v.push(
            (event_id(old(self).next_event_seq as nat), "you"@, content@),
        ));
    }

    pub fn push_system_message(&mut self, content: &str)
        ensures
            final(self).mode == old(self).mode,
            final(self).pending_ai_requests == old(self).pending_ai_requests,
            event_views(final(self).events@) == event_views(old(self).events@).push(
                (event_id(old(self).next_event_seq as nat), "system"@, content@),
            ),
            final(self).events@.len() == old(self).events@.len() + 1,
            final(self).events@.take(old(self).events@.len() as int) == old(self).events@,
            final(self).events@.last().msg.content_spec() == content@,
            final(self).next_event_seq == next_seq(old(self).next_event_seq),
            final(self).transcript_scroll == old(self).transcript_scroll,
            final(self).input == old(self).input,
            final(self).submissions@ == old(self).submissions@,
            final(self).pending_submissions@ == old(self).pending_submissions@,
            final(self).next_submission_seq == old(self).next_submission_seq,
            final(self).runtime_status == old(self).runtime_status,
            final(self).should_exit == old(self).should_exit,
            final(self).pending_resume_session == old(self).pending_resume_session,
            final(self).pending_new_session == old(self).pending_new_session,
            final(self).ai_profile == old(self).ai_profile,
            final(self).workspace_root == old(self).workspace_root,
    {
        let ghost old_v = event_views(self.events@);
        self.push_event(EventMsg::system(content));
        assert(self.events@.take(old(self).events@.len() as int) =~= old(self).events@);
        assert(event_views(self.events@) =~= old_v.push(
            (event_id(old(self).next_event_seq as nat), "system"@, content@),
        ));
    }

    /// Records an error and returns the transcript to the bottom.
    pub fn push_error_message(&mut self, message: &str)
        ensures
            event_views(final(self).events@) == event_views(old(self).events@).push(
                (event_id(old(self).next_event_seq as nat), "error"@, message@),
            ),
            final(self).events@.last().msg is Error,
            final(self).events@.last().msg.content_spec() == message@,
            final(self).events@.len() == old(self).events@.len() + 1,
            final(self).events@.take(old(self).events@.len() as int) == old(self).events@,
            final(self).next_event_seq == next_seq(old(self).next_event_seq),
            final(self).transcript_scroll == 0,
            final(self).mode == old(self).mode,
            final(self).should_exit == old(self).should_exit,
            final(self).runtime_status == old(self).runtime_status,
            final(self).pending_ai_requests == old(self).pending_ai_requests,
            final(self).input == old(self).input,
            final(self).submissions@ == old(self).submissions@,
            final(self).pending_submissions@ == old(self).pending_submissions@,
            final(self).next_submission_seq == old(self).next_submission_seq,
            final(self).pending_resume_session == old(self).pending_resume_session,
            final(self).pending_new_session == old(self).pending_new_session,
            final(self).ai_profile == old(self).ai_profile,
            final(self).workspace_root == old(self).workspace_root,
    {
        let ghost old_v = event_views(self.events@);
        self.push_event(EventMsg::error(message));
        assert(self.events@.take(old(self).events@.len() as int) =~= old(self).events@);
        assert(event_views(self.events@) =~= old_v.push(
            (event_id(old(self).next_event_seq as nat), "error"@, message@),
        ));
        self.transcript_scroll = 0;
    }

    pub fn push_paste_text(&mut self, text: &str)
        ensures
            final(self).input@ == old(self).input@ + text@,
            final(self).events@ == old(self).events@,
            *final(self) == (AppState { input: final(self).input, ..*old(self) }),
    {
        push_str(&mut self.input, text);
    }

    /// Records an event and returns the transcript to the bottom.
    pub fn push_event_msg(&mut self, msg: EventMsg)
        ensures
            final(self).mode == old(self).mode,
            final(self).pending_ai_requests == old(self).pending_ai_requests,
            final(self).events@.len() == old(self).events@.len() + 1,
            final(self).events@.take(old(self).events@.len() as int) == old(self).events@,
            final(self).events@.last().id@ == event_id(old(self).next_event_seq as nat),
            final(self).events@.last().msg == msg,
            final(self).next_event_seq == next_seq(old(self).next_event_seq),
            final(self).transcript_scroll == 0,
            final(self).input == old(self).input,
            final(self).submissions@ == old(self).submissions@,
            final(self).pending_submissions@ == old(self).pending_submissions@,
            final(self).next_submission_seq == old(self).next_submission_seq,
            final(self).runtime_status == old(self).runtime_status,
            final(self).should_exit == old(self).should_exit,
            final(self).pending_resume_session == old(self).pending_resume_session,
            final(self).pending_new_session == old(self).pending_new_session,
            final(self).ai_profile == old(self).ai_profile,
            final(self).workspace_root == old(self).workspace_root,
    {
        self.push_event(msg);
        assert(self.events@.take(old(self).events@.len() as int) =~= old(self).events@);
        self.transcript_scroll = 0;
    }

    pub fn enter_session_picker(&mut self, summaries: Vec<SessionSummary>)
        ensures
            final(self).mode matches AppMode::SessionPicker(p) && p.summaries@ == summaries@
                && p.query@.len() == 0 && p.selected == 0 && p.prompt is None,
            final(self).runtime_status.label@ == "resume"@,
            final(self).runtime_status.detail matches Some(d) && d@ == "session picker"@,
            final(self).events@ == old(self).events@,
    {
        self.mode = AppMode::SessionPicker(SessionPickerState::new(summaries));
        self.runtime_status = RuntimeStatus::with_detail("resume", "session picker");
    }

    pub fn enter_session_tree(&mut self, summaries: Vec<SessionSummary>)
        ensures
            final(self).mode matches AppMode::SessionTree(p) && p.summaries@ == summaries@
                && p.query@.len() == 0 && p.selected == 0 && p.prompt is None,
            final(self).runtime_status.label@ == "tree"@,
            final(self).runtime_status.detail matches Some(d) && d@ == "session browser"@,
            final(self).events@ == old(self).events@,
    {
        self.mode = AppMode::SessionTree(SessionTreeState::new(summaries));
        self.runtime_status = RuntimeStatus::with_detail("tree", "session browser");
    }

    pub fn enter_model_picker(&mut self, options: Vec<ModelOption>, current_provider: &str, current_model: &str)
        ensures
            final(self).mode matches AppMode::ModelPicker(p) && p.options@ == options@
                && p.query@.len() == 0 && p.current() == (current_provider@, current_model@)
                && p.selected == match first_option(p.shown_list(), current_provider@, current_model@) {
                    Some(k) => k,
                    None => 0,
                },
            final(self).runtime_status.label@ == "model"@,
            final(self).runtime_status.detail matches Some(d) && d@ == "selector"@,
            final(self).events@ == old(self).events@,
    {
        self.mode = AppMode::ModelPicker(ModelPickerState::new(options, current_provider, current_model));
        self.runtime_status = RuntimeStatus::with_detail("model", "selector");
    }

    pub fn enter_config_editor(
        &mut self,
        options: Vec<ModelOption>,
        current_provider: &str,
        current_model: &str,
        focus_field: Option<ConfigField>,
    )
        ensures
            final(self).mode matches AppMode::ConfigEditor(e) && e.wf() && e.prompt is None
                && (options@.len() > 0 ==> e.options() == options@)
                && e.selected_model == match first_option(e.options(), current_provider@, current_model@) {
                    Some(i) => i,
                    None => 0,
                }
                && e.selected_field == match focus_field {
                    Some(f) => f,
                    None => ConfigField::Provider,
                },
            final(self).runtime_status.label@ == "config"@,
            final(self).runtime_status.detail matches Some(d) && d@ == "editor"@,
            final(self).events@ == old(self).events@,
            *final(self) == (AppState { mode: final(self).mode, runtime_status: final(self).runtime_status, ..*old(self) }),
    {
        self.mode = AppMode::ConfigEditor(
            ConfigEditorState::new(options, current_provider, current_model, focus_field),
        );
        self.runtime_status = RuntimeStatus::with_detail("config", "editor");
    }

    pub fn is_session_tree_active(&self) -> (r: bool)
        ensures
            r == self.mode is SessionTree,
    {
        match self.mode {
            AppMode::SessionTree(_) => true,
            _ => false,
        }
    }

    pub fn is_session_picker_active(&self) -> (r: bool)
        ensures
            r == self.mode is SessionPicker,
    {
        match self.mode {
            AppMode::SessionPicker(_) => true,
            _ => false,
        }
    }

    pub fn is_model_picker_active(&self) -> (r: bool)
        ensures
            r == self.mode is ModelPicker,
    {
        match self.mode {
            AppMode::ModelPicker(_) => true,
            _ => false,
        }
    }

    pub fn is_config_editor_active(&self) -> (r: bool)
        ensures
            r == self.mode is ConfigEditor,
    {
        match self.mode {
            AppMode::ConfigEditor(_) => true,
            _ => false,
        }
    }

    /// One more request to the model is under way.
    pub fn start_ai_request(&mut self)
        ensures
            final(self).pending_ai_requests == if old(self).pending_ai_requests < usize::MAX {
                old(self).pending_ai_requests + 1
            } else {
                usize::MAX as int
            },
            final(self).runtime_status.label@ == "thinking"@,
            final(self).runtime_status.is_active,
            final(self).events@ == old(self).events@,
            *final(self) == (AppState {
                pending_ai_requests: final(self).pending_ai_requests,
                runtime_status: final(self).runtime_status,
                ..*old(self)
            }),
    {
        self.pending_ai_requests = self.pending_ai_requests.saturating_add(1);
        self.runtime_status = RuntimeStatus::thinking();
    }

    /// A request finished; with none left the status is idle again.
    pub fn finish_ai_request(&mut self)
        ensures
            final(self).pending_ai_requests == sat_sub(old(self).pending_ai_requests as int, 1),
            final(self).pending_ai_requests == 0 ==> final(self).runtime_status.label@ == "idle"@
                && !final(self).runtime_status.is_active && final(self).runtime_status.detail is None
                && final(self).runtime_status.started_at is None,
            final(self).pending_ai_requests > 0 ==> final(self).runtime_status == old(self).runtime_status,
            final(self).events@ == old(self).events@,
            *final(self) == (AppState {
                pending_ai_requests: final(self).pending_ai_requests,
                runtime_status: final(self).runtime_status,
                ..*old(self)
            }),
    {
        self.pending_ai_requests = self.pending_ai_requests.saturating_sub(1);
        if self.pending_ai_requests == 0 {
            self.runtime_status = RuntimeStatus::idle();
        }
    }

    pub fn set_runtime_status(&mut self, status: RuntimeStatus)
        ensures
            final(self).runtime_status == status,
            final(self).events@ == old(self).events@,
            *final(self) == (AppState { runtime_status: status, ..*old(self) }),
    {
        self.runtime_status = status;
    }

    pub fn set_ai_profile(&mut self, profile: Option<AiProfile>)
        ensures
            final(self).ai_profile == profile,
            final(self).events@ == old(self).events@,
            *final(self) == (AppState { ai_profile: profile, ..*old(self) }),
    {
        self.ai_profile = profile;
    }

    pub fn set_workspace_root(&mut self, workspace_root: &str)
        ensures
            final(self).workspace_root matches Some(w) && w@ == workspace_root@,
            final(self).events@ == old(self).events@,
    {
        self.workspace_root = Some(to_owned_str(workspace_root));
    }

    /// The submissions not yet taken, in order; after the call there are none.
    pub fn take_pending_submissions(&mut self) -> (r: Vec<Submission>)
        ensures
            r@ == old(self).pending_submissions@,
            final(self).pending_submissions@.len() == 0,
            final(self).submissions@ == old(self).submissions@,
            final(self).events@ == old(self).events@,
            pending_are_latest(*old(self)) ==> r@ == old(self).submissions@.skip(
                old(self).submissions@.len() - r@.len(),
            ),
            pending_are_latest(*final(self)),
    {
        let mut taken: Vec<Submission> = Vec::new();
        std::mem::swap(&mut taken, &mut self.pending_submissions);
        assert(self.submissions@.skip(self.submissions@.len() as int) =~= self.pending_submissions@);
        taken
    }

    fn next_submission(&mut self, op: Op) -> (r: Submission)
        ensures
            final(self).mode == old(self).mode,
            final(self).pending_ai_requests == old(self).pending_ai_requests,
            r.id@ == "sub-"@ + dec(old(self).next_submission_seq as nat),
            r.op == op,
            final(self).next_submission_seq == next_seq(old(self).next_submission_seq),
            final(self).events@ == old(self).events@,
            final(self).next_event_seq == old(self).next_event_seq,
            final(self).submissions@ == old(self).submissions@,
            final(self).pending_submissions@ == old(self).pending_submissions@,
            final(self).transcript_scroll == old(self).transcript_scroll,
            final(self).runtime_status == old(self).runtime_status,
            final(self).input == old(self).input,
            final(self).should_exit == old(self).should_exit,
    {
        let id = cat("sub-", u64_to_string(self.next_submission_seq).as_str());
        self.next_submission_seq = self.next_submission_seq.saturating_add(1);
        Submission::new(id.as_str(), op)
    }

    fn apply_submission(&mut self, submission: &Submission)
        ensures
            final(self).mode == old(self).mode,
            final(self).pending_ai_requests == old(self).pending_ai_requests,
            final(self).submissions@ == old(self).submissions@,
            final(self).pending_submissions@ == old(self).pending_submissions@,
            final(self).next_submission_seq == old(self).next_submission_seq,
            final(self).runtime_status == old(self).runtime_status,
            final(self).input == old(self).input,
            final(self).should_exit == old(self).should_exit,
            final(self).events@.take(old(self).events@.len() as int) == old(self).events@,
            match submission.op {
                Op::UserInput { content } => {
                    &&& event_views(final(self).events@) == event_views(old(self).events@).push(
                        (event_id(old(self).next_event_seq as nat), "you"@, content@),
                    )
                    &&& final(self).next_event_seq == next_seq(old(self).next_event_seq)
                    &&& final(self).transcript_scroll == 0
                },
                Op::LocalCommand { command } => {
                    &&& match command_note(command.view_cmd()) {
                        Some(note) => event_views(final(self).events@) == event_views(
                            old(self).events@,
                        ).push((event_id(old(self).next_event_seq as nat), "system"@, note))
                            && final(self).next_event_seq == next_seq(old(self).next_event_seq),
                        None => final(self).events@ == old(self).events@ && final(self).next_event_seq == old(self).next_event_seq,
                    }
                    &&& final(self).transcript_scroll == if command_scrolls(command.view_cmd()) {
                        0
                    } else {
                        old(self).transcript_scroll
                    }
                },
            },
    {
        match &submission.op {
            Op::UserInput { content } => {
                let ghost old_v = event_views(self.events@);
                self.push_event(EventMsg::user(content.as_str()));
                assert(self.events@.take(old(self).events@.len() as int) =~= old(self).events@);
                assert(event_views(self.events@) =~= old_v.push(
                    (event_id(old(self).next_event_seq as nat), "you"@, content@),
                ));
                self.transcript_scroll = 0;
            },
            Op::LocalCommand { command } => {
                let label: &str = match command {
                    LocalCommand::Resume => "/resume",
                    LocalCommand::New => "/new",
                    LocalCommand::Continue => "/continue",
                    LocalCommand::Config => "/config",
                    LocalCommand::Image { .. } => {
                        return;
                    },
                    LocalCommand::ImageClipboard => {
                        return;
                    },
                    LocalCommand::Compact => "/compact",
                    LocalCommand::Export => "/export",
                    LocalCommand::Share => "/share",
                    LocalCommand::Capabilities => "/capabilities",
                    LocalCommand::Capability { query } => {
                        self.push_system_message(cat("/capability ", query.as_str()).as_str());
                        return;
                    },
                    LocalCommand::CapabilityEnable { query } => {
                        self.push_system_message(cat("/cap-enable ", query.as_str()).as_str());
                        return;
                    },
                    LocalCommand::CapabilityDisable { query } => {
                        self.push_system_message(cat("/cap-disable ", query.as_str()).as_str());
                        return;
                    },
                    LocalCommand::Skill { query } => {
                        self.push_system_message(cat("/skill ", query.as_str()).as_str());
                        return;
                    },
                    LocalCommand::Tree => "/tree",
                    LocalCommand::Fork => "/fork",
                    LocalCommand::Session { id } => {
                        self.push_system_message(cat("/session ", id.as_str()).as_str());
                        return;
                    },
                    LocalCommand::Model => "/model",
                };
                self.push_system_message(label);
                self.transcript_scroll = 0;
            },
        }
    }

    /// Submits a line: a local command when it names one, else a prompt for the agent (the
    /// session compacted first when it has grown long). Both are recorded, and queued for
    /// whoever takes the pending submissions.
    fn submit_user_input(&mut self, content: &str)
        ensures
            final(self).mode == old(self).mode,
            final(self).pending_ai_requests == old(self).pending_ai_requests,
            event_views(final(self).events@) == event_views(old(self).events@) + submitted_events(
                old(self).events@,
                old(self).next_event_seq,
                content@,
            ),
            final(self).next_event_seq == submitted_seq(
                old(self).events@,
                old(self).next_event_seq,
                content@,
            ),
            final(self).submissions@.len() == old(self).submissions@.len() + 1,
            final(self).submissions@.drop_last() == old(self).submissions@,
            submission_for(old(self).next_submission_seq, content@, final(self).submissions@.last()),
            final(self).pending_submissions@ == old(self).pending_submissions@.push(
                final(self).submissions@.last(),
            ),
            final(self).next_submission_seq == next_seq(old(self).next_submission_seq),
            final(self).transcript_scroll == match command_of(content@) {
                None => 0,
                Some(c) => if command_scrolls(c) {
                    0
                } else {
                    old(self).transcript_scroll
                },
            },
            command_of(content@) is None && needs_compaction(old(self).events@) ==> (final(self).runtime_status.label@ == "compact"@ && (final(self).runtime_status.detail matches Some(d)
                && d@ == "continue"@)),
            !(command_of(content@) is None && needs_compaction(old(self).events@)) ==> final(self).runtime_status == old(self).runtime_status,
            command_of(content@) is None && needs_compaction(old(self).events@) ==> compacted_first(
                old(self).events@,
                final(self).events@,
            ),
            final(self).input == old(self).input,
            final(self).should_exit == old(self).should_exit,
    {
        let ghost old_v = event_views(self.events@);
        let ghost seq0 = self.next_event_seq;
        let op = match parse_local_command(content) {
            Some(command) => Op::local_command(command),
            None => Op::user_input(content),
        };
        let submission = self.next_submission(op);
        let is_input = match &submission.op {
            Op::UserInput { .. } => true,
            _ => false,
        };
        if is_input && should_auto_compact(self.events.as_slice()) {
            let compacted = summarize_compaction(self.events.as_slice());
            self.push_event_msg(EventMsg::compaction(compacted));
            self.runtime_status = RuntimeStatus::with_detail("compact", "continue");
            assert(self.events@[old(self).events@.len() as int] == self.events@.last());
            assert(self.events@.take(old(self).events@.len() as int) =~= old(self).events@);
            assert(event_views(self.events@) =~= old_v.push(
                (event_id(seq0 as nat), "compaction"@, join_seq(compaction_lines(old(self).events@), "\n"@)),
            ));
        }
        let ghost mid = self.events@;
        self.apply_submission(&submission);
        assert(event_views(self.events@) =~= old_v + submitted_events(old(self).events@, seq0, content@));
        proof {
            if command_of(content@) is None && needs_compaction(old(self).events@) {
                assert(self.events@.take(mid.len() as int)[old(self).events@.len() as int]
                    == mid[old(self).events@.len() as int]);
            }
        }
        self.pending_submissions.push(submission.copy());
        self.submissions.push(submission);
        assert(self.submissions@.drop_last() =~= old(self).submissions@);
    }

    /// Enter: a quit command ends the program; any other non-blank line is submitted,
    /// trimmed. The input is cleared either way.
    fn submit_input(&mut self)
        ensures
            submitted(*old(self), *final(self)),
    {
        let trimmed = trim(self.input.as_str());
        if should_quit(trimmed.as_str()) {
            proof {
                crate::text::lemma_trim_idempotent(old(self).input@);
            }
            self.should_exit = true;
            self.input = String::new();
            return;
        }
        proof {
            crate::text::lemma_trim_idempotent(old(self).input@);
        }
        if !trimmed.as_str().is_empty() {
            self.submit_user_input(trimmed.as_str());
        }
        self.input = String::new();
    }

    /// What one key press does in the chat: `key` takes the application `o` to `n`.
    pub open spec fn key_step(o: Self, key: KeyInput, n: Self) -> bool {
        &&& (({
                if key.is_ctrl_char('c') || key.code == KeyCode::Esc {
                    n == AppState { should_exit: true, ..o }
                } else if key.code == KeyCode::Enter {
                    submitted(o, n)
                } else if key.code == KeyCode::Up || key.code == KeyCode::PageUp {
                    let amount: int = if key.code == KeyCode::Up { 1 } else { 10 };
                    n == AppState {
                        transcript_scroll: if o.transcript_scroll + amount <= usize::MAX {
                            (o.transcript_scroll + amount) as usize
                        } else {
                            usize::MAX
                        },
                        ..o
                    }
                } else if key.code == KeyCode::Down || key.code == KeyCode::PageDown {
                    let amount: int = if key.code == KeyCode::Down { 1 } else { 10 };
                    n == AppState {
                        transcript_scroll: sat_sub(o.transcript_scroll as int, amount) as usize,
                        ..o
                    }
                } else if key.code == KeyCode::Home {
                    n == AppState { transcript_scroll: usize::MAX, ..o }
                } else if key.code == KeyCode::End {
                    n == AppState { transcript_scroll: 0, ..o }
                } else if key.code == KeyCode::Backspace {
                    n == AppState { input: n.input, ..o } && n.input@ == if o.input@.len() > 0 {
                        o.input@.drop_last()
                    } else {
                        o.input@
                    }
                } else if key.typed_char() is Some {
                    n == AppState { input: n.input, ..o } && n.input@ == o.input@.push(
                        key.typed_char()->0,
                    )
                } else {
                    n == o
                }
            }))
    }

    /// Handles a key in the chat: Control-C or Esc exits, Enter submits the input, the arrow,
    /// page, Home and End keys scroll the transcript (Home to the top, End to the bottom),
    /// Backspace and typing edit the input.
    pub fn handle_key(&mut self, key: KeyInput)
        ensures
            Self::key_step(*old(self), key, *final(self)),
    {
        if key.ctrl_char('c') || key.code == KeyCode::Esc {
            self.should_exit = true;
            return;
        }
        match key.code {
            KeyCode::Enter => self.submit_input(),
            KeyCode::Up => self.transcript_scroll = self.transcript_scroll.saturating_add(1),
            KeyCode::Down => self.transcript_scroll = self.transcript_scroll.saturating_sub(1),
            KeyCode::PageUp => self.transcript_scroll = self.transcript_scroll.saturating_add(10),
            KeyCode::PageDown => self.transcript_scroll = self.transcript_scroll.saturating_sub(10),
            KeyCode::Home => self.transcript_scroll = usize::MAX,
            KeyCode::End => self.transcript_scroll = 0,
            KeyCode::Backspace => {
                pop_char(&mut self.input);
            },
            _ => {
                match key.typed() {
                    Some(c) => push_char(&mut self.input, c),
                    None => {},
                }
            },
        }
    }

    /// A key for the session picker in front: a chosen session is to be resumed on exit, and
    /// cancelling returns to the chat. `None` when the picker is not in front.
    pub fn handle_picker_key(&mut self, key: KeyInput) -> (r: Option<SessionPickerAction>)
        ensures
            picker_key_step(*old(self), key, *final(self), r),
            final(self).events@ == old(self).events@,
    {
        let action = match &mut self.mode {
            AppMode::SessionPicker(state) => state.handle_key(key),
            _ => {
                return None;
            },
        };
        let ghost handled = self.mode;
        match &action {
            SessionPickerAction::Selected(session_id) => {
                self.pending_resume_session = Some(session_id.clone());
                self.should_exit = true;
            },
            SessionPickerAction::Cancelled => {
                self.mode = AppMode::Chat;
                self.runtime_status = RuntimeStatus::idle();
                proof {
                    let p = handled->SessionPicker_0;
                    assert(SessionPickerState::key_step(old(self).mode->SessionPicker_0, key, p, action));
                }
            },
            _ => {},
        }
        Some(action)
    }

    /// A key for the model picker in front. `None` when it is not in front.
    pub fn handle_model_key(&mut self, key: KeyInput) -> (r: Option<ModelPickerAction>)
        ensures
            model_key_step(*old(self), key, *final(self), r),
            final(self).events@ == old(self).events@,
    {
        let action = match &mut self.mode {
            AppMode::ModelPicker(state) => state.handle_key(key),
            _ => {
                return None;
            },
        };
        let ghost handled = self.mode;
        match &action {
            ModelPickerAction::Selected(_) => {
                self.runtime_status = RuntimeStatus::with_detail("model", "selected");
            },
            ModelPickerAction::Cancelled => {
                self.mode = AppMode::Chat;
                self.runtime_status = RuntimeStatus::idle();
                proof {
                    let p = handled->ModelPicker_0;
                    assert(ModelPickerState::key_step(old(self).mode->ModelPicker_0, key, p, action));
                }
            },
            _ => {},
        }
        Some(action)
    }

    /// A key for the session tree in front. `None` when it is not in front.
    pub fn handle_tree_key(&mut self, key: KeyInput) -> (r: Option<SessionTreeAction>)
        ensures
            tree_key_step(*old(self), key, *final(self), r),
            final(self).events@ == old(self).events@,
    {
        let action = match &mut self.mode {
            AppMode::SessionTree(state) => state.handle_key(key),
            _ => {
                return None;
            },
        };
        let ghost handled = self.mode;
        match &action {
            SessionTreeAction::Selected(session_id) => {
                self.pending_resume_session = Some(session_id.clone());
                self.should_exit = true;
            },
            SessionTreeAction::Cancelled => {
                self.mode = AppMode::Chat;
                self.runtime_status = RuntimeStatus::idle();
                proof {
                    let p = handled->SessionTree_0;
                    assert(SessionTreeState::key_step(old(self).mode->SessionTree_0, key, p, action));
                }
            },
            _ => {},
        }
        Some(action)
    }

    /// A key for the configuration editor in front: cancelling returns to the chat. `None`
    /// when the editor is not in front.
    pub fn handle_config_key(&mut self, key: KeyInput) -> (r: Option<ConfigEditorAction>)
        requires
            old(self).mode matches AppMode::ConfigEditor(e) ==> e.prompt is Some || e.wf(),
        ensures
            config_key_step(*old(self), key, *final(self), r),
            final(self).events@ == old(self).events@,
    {
        let action = match &mut self.mode {
            AppMode::ConfigEditor(state) => state.handle_key(key),
            _ => {
                return None;
            },
        };
        let ghost handled = self.mode;
        match &action {
            ConfigEditorAction::Cancelled => {
                self.mode = AppMode::Chat;
                self.runtime_status = RuntimeStatus::idle();
                proof {
                    let p = handled->ConfigEditor_0;
                    assert(ConfigEditorState::key_step(old(self).mode->ConfigEditor_0, key, p, action));
                }
            },
            _ => {},
        }
        Some(action)
    }

    /// Pasted text for the configuration editor in front.
    pub fn handle_config_paste(&mut self, text: &str) -> (r: Option<ConfigEditorAction>)
        ensures
            match old(self).mode {
                AppMode::ConfigEditor(s) => r matches Some(a) && (final(self).mode matches AppMode::ConfigEditor(p)
                    && ConfigEditorState::paste_step(s, text@, p, a)) && *final(self) == (AppState {
                    mode: final(self).mode,
                    ..*old(self)
                }),
                _ => r is None && *final(self) == *old(self),
            },
            final(self).events@ == old(self).events@,
    {
        match &mut self.mode {
            AppMode::ConfigEditor(state) => Some(state.handle_paste(text)),
            _ => None,
        }
    }
}

} // verus!
