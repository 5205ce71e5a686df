//! Events: what happened in a session, in order, and how a long thread is compacted.
use vstd::prelude::*;
use crate::text::{cat, cat3, chars_of, dec, is_blank, is_blank_seq, join, join_seq, lines, lines_seq, push_str, string_of, str_eq, to_owned_str, u128_to_string, u64_to_string, usize_to_string, views};
use crate::tool::{ToolCall, ToolResult, ToolResultStatus};
use crate::workspace::{EditApplyResult, EditCheckpoint, EditRewindResult};

verus! {

#[derive(Debug, Clone, PartialEq, Eq)]
pub struct Event {
    pub id: String,
    pub msg: EventMsg,
}

impl Event {
    pub fn new(id: &str, msg: EventMsg) -> (r: Self)
        ensures
            r.id@ == id@,
            r.msg == msg,
    {
        Event { id: to_owned_str(id), msg }
    }
}

#[derive(Debug, Clone, PartialEq, Eq)]
pub enum EventMsg {
    SystemMessage(SystemMessageEvent),
    UserMessage(UserMessageEvent),
    AssistantMessage(AssistantMessageEvent),
    ImageAttachment(ImageAttachmentEvent),
    ToolCall(ToolCallEvent),
    ToolResult(ToolResultEvent),
    CommandRun(CommandRunEvent),
    CommandOutput(CommandOutputEvent),
    Compaction(CompactionEvent),
    BranchSummary(BranchSummaryEvent),
    FileEdit(FileEditEvent),
    Error(ErrorEvent),
    Final(FinalEvent),
}

impl EventMsg {
    /// The label under which an event is shown.
    pub open spec fn label_spec(self) -> Seq<char> {
        match self {
            EventMsg::SystemMessage(_) => "system"@,
            EventMsg::UserMessage(_) => "you"@,
            EventMsg::AssistantMessage(_) => "assistant"@,
            EventMsg::ImageAttachment(_) => "image"@,
            EventMsg::ToolCall(_) => "tool"@,
            EventMsg::ToolResult(_) => "tool result"@,
            EventMsg::CommandRun(_) => "command"@,
            EventMsg::CommandOutput(_) => "command output"@,
            EventMsg::Compaction(_) => "compaction"@,
            EventMsg::BranchSummary(_) => "branch summary"@,
            EventMsg::FileEdit(_) => "file edit"@,
            EventMsg::Error(_) => "error"@,
            EventMsg::Final(_) => "final"@,
        }
    }

    /// The text that an event carries.
    pub open spec fn content_spec(self) -> Seq<char> {
        match self {
            EventMsg::SystemMessage(e) => e.content@,
            EventMsg::UserMessage(e) => e.content@,
            EventMsg::AssistantMessage(e) => e.content@,
            EventMsg::ImageAttachment(e) => e.summary@,
            EventMsg::ToolCall(e) => e.summary@,
            EventMsg::ToolResult(e) => e.content@,
            EventMsg::CommandRun(e) => e.summary@,
            EventMsg::CommandOutput(e) => e.summary@,
            EventMsg::Compaction(e) => e.summary@,
            EventMsg::BranchSummary(e) => e.summary@,
            EventMsg::FileEdit(e) => e.summary@,
            EventMsg::Error(e) => e.message@,
            EventMsg::Final(e) => e.summary@,
        }
    }

    pub fn system(content: &str) -> (r: Self)
        ensures
            r matches EventMsg::SystemMessage(e) && e.content@ == content@,
    {
        EventMsg::SystemMessage(SystemMessageEvent { content: to_owned_str(content) })
    }

    pub fn user(content: &str) -> (r: Self)
        ensures
            r matches EventMsg::UserMessage(e) && e.content@ == content@,
    {
        EventMsg::UserMessage(UserMessageEvent { content: to_owned_str(content) })
    }

    pub fn assistant(content: &str) -> (r: Self)
        ensures
            r matches EventMsg::AssistantMessage(e) && e.content@ == content@,
    {
        EventMsg::AssistantMessage(AssistantMessageEvent { content: to_owned_str(content) })
    }

    pub fn image_attachment(
        source_path: &str,
        file_name: &str,
        mime_type: &str,
        byte_len: usize,
        data_url: &str,
    ) -> (r: Self)
        ensures
            r matches EventMsg::ImageAttachment(e) && e.source_path@ == source_path@
                && e.file_name@ == file_name@ && e.mime_type@ == mime_type@ && e.byte_len
                == byte_len && e.data_url@ == data_url@ && e.summary@ == image_summary(
                file_name@,
                mime_type@,
                byte_len as nat,
            ),
    {
        EventMsg::ImageAttachment(
            ImageAttachmentEvent::new(source_path, file_name, mime_type, byte_len, data_url),
        )
    }

    pub fn tool_call(call: ToolCall) -> (r: Self)
        ensures
            r matches EventMsg::ToolCall(e) && e.call_id@ == call.id@ && e.name@ == call.name@
                && e.arguments@ == call.arguments@ && e.summary@ == tool_call_summary(
                call.name@,
                call.arguments@,
            ),
    {
        EventMsg::ToolCall(
            ToolCallEvent::new(call.id.as_str(), call.name.as_str(), call.arguments.as_str()),
        )
    }

    pub fn tool_result(result: ToolResult) -> (r: Self)
        ensures
            r == EventMsg::ToolResult(
                ToolResultEvent {
                    call_id: result.call_id,
                    status: result.status,
                    content: result.content,
                    truncated: result.truncated,
                    next_offset: result.next_offset,
                    edits: result.edits,
                },
            ),
    {
        EventMsg::ToolResult(
            ToolResultEvent {
                call_id: result.call_id,
                status: result.status,
                content: result.content,
                truncated: result.truncated,
                next_offset: result.next_offset,
                edits: result.edits,
            },
        )
    }

    pub fn command_run(event: CommandRunEvent) -> (r: Self)
        ensures
            r == EventMsg::CommandRun(event),
    {
        EventMsg::CommandRun(event)
    }

    pub fn command_output(event: CommandOutputEvent) -> (r: Self)
        ensures
            r == EventMsg::CommandOutput(event),
    {
        EventMsg::CommandOutput(event)
    }

    pub fn compaction(event: CompactionEvent) -> (r: Self)
        ensures
            r == EventMsg::Compaction(event),
    {
        EventMsg::Compaction(event)
    }

    pub fn branch_summary(event: BranchSummaryEvent) -> (r: Self)
        ensures
            r == EventMsg::BranchSummary(event),
    {
        EventMsg::BranchSummary(event)
    }

    pub fn file_edit(edit: FileEditEvent) -> (r: Self)
        ensures
            r == EventMsg::FileEdit(edit),
    {
        EventMsg::FileEdit(edit)
    }

    pub fn error(message: &str) -> (r: Self)
        ensures
            r matches EventMsg::Error(e) && e.message@ == message@,
    {
        EventMsg::Error(ErrorEvent { message: to_owned_str(message) })
    }

    pub fn final_summary(summary: &str) -> (r: Self)
        ensures
            r matches EventMsg::Final(e) && e.summary@ == summary@,
    {
        EventMsg::Final(FinalEvent { summary: to_owned_str(summary) })
    }

    pub fn label(&self) -> (r: &'static str)
        ensures
            r@ == self.label_spec(),
    {
        match self {
            EventMsg::SystemMessage(_) => "system",
            EventMsg::UserMessage(_) => "you",
            EventMsg::AssistantMessage(_) => "assistant",
            EventMsg::ImageAttachment(_) => "image",
            EventMsg::ToolCall(_) => "tool",
            EventMsg::ToolResult(_) => "tool result",
            EventMsg::CommandRun(_) => "command",
            EventMsg::CommandOutput(_) => "command output",
            EventMsg::Compaction(_) => "compaction",
            EventMsg::BranchSummary(_) => "branch summary",
            EventMsg::FileEdit(_) => "file edit",
            EventMsg::Error(_) => "error",
            EventMsg::Final(_) => "final",
        }
    }

    pub fn content(&self) -> (r: &str)
        ensures
            r@ == self.content_spec(),
    {
        match self {
            EventMsg::SystemMessage(e) => e.content.as_str(),
            EventMsg::UserMessage(e) => e.content.as_str(),
            EventMsg::AssistantMessage(e) => e.content.as_str(),
            EventMsg::ImageAttachment(e) => e.summary.as_str(),
            EventMsg::ToolCall(e) => e.summary.as_str(),
            EventMsg::ToolResult(e) => e.content.as_str(),
            EventMsg::CommandRun(e) => e.summary.as_str(),
            EventMsg::CommandOutput(e) => e.summary.as_str(),
            EventMsg::Compaction(e) => e.summary.as_str(),
            EventMsg::BranchSummary(e) => e.summary.as_str(),
            EventMsg::FileEdit(e) => e.summary.as_str(),
            EventMsg::Error(e) => e.message.as_str(),
            EventMsg::Final(e) => e.summary.as_str(),
        }
    }
}

#[derive(Debug, Clone, PartialEq, Eq)]
pub struct SystemMessageEvent {
    pub content: String,
}

#[derive(Debug, Clone, PartialEq, Eq)]
pub struct UserMessageEvent {
    pub content: String,
}

#[derive(Debug, Clone, PartialEq, Eq)]
pub struct AssistantMessageEvent {
    pub content: String,
}

#[derive(Debug, Clone, PartialEq, Eq)]
pub struct ImageAttachmentEvent {
    pub source_path: String,
    pub file_name: String,
    pub mime_type: String,
    pub byte_len: usize,
    pub data_url: String,
    pub summary: String,
}

/// Below this bound every byte count is an `f64` exactly.
pub const EXACT_F64_BOUND: u64 = 9007199254740992;

pub const KB: usize = 1024;

pub const MB: usize = 1048576;

/// `n / unit` rounded to one decimal place, ties to the even tenth, as `{:.1}` prints it,
/// in tenths.
pub open spec fn tenths(n: nat, unit: nat) -> nat
    recommends
        unit > 0,
{
    let q = (n * 10) / unit;
    let r = (n * 10) % unit;
    if 2 * r > unit || (2 * r == unit && q % 2 == 1) {
        q + 1
    } else {
        q
    }
}

/// A tenths count printed with one decimal place.
pub open spec fn one_decimal(t: nat) -> Seq<char> {
    dec(t / 10) + seq!['.'] + dec(t % 10)
}

/// The human readable size of `n` bytes.
pub open spec fn size_label(n: nat) -> Seq<char> {
    if n >= MB {
        one_decimal(tenths(n, MB as nat)) + " MB"@
    } else if n >= KB {
        one_decimal(tenths(n, KB as nat)) + " KB"@
    } else {
        dec(n) + " bytes"@
    }
}

/// The spacing of `f64` values around `n`: 1 below 2^53, doubled with each bit above.
pub open spec fn f64_spacing(n: nat) -> nat
    decreases n,
{
    if n < EXACT_F64_BOUND {
        1
    } else {
        2 * f64_spacing(n / 2)
    }
}

/// `n` rounded to a multiple of `u`, ties to the even multiple.
pub open spec fn round_to_multiple(n: nat, u: nat) -> nat
    recommends
        u > 0,
{
    let q = n / u;
    let r = n % u;
    if 2 * r > u || (2 * r == u && q % 2 == 1) {
        (q + 1) * u
    } else {
        q * u
    }
}

/// The `f64` nearest to `n`, as `n as f64` gives it.
pub open spec fn f64_nearest(n: nat) -> nat {
    round_to_multiple(n, f64_spacing(n))
}

/// The summary of an image attachment event: its size is scaled as an `f64`.
pub open spec fn image_summary(file_name: Seq<char>, mime_type: Seq<char>, byte_len: nat) -> Seq<
    char,
> {
    "attached image: "@ + file_name + " ("@ + mime_type + ", "@ + size_label(f64_nearest(byte_len)) + ")"@
}

fn tenths_exec(n: u128, unit: u128) -> (t: u128)
    requires
        unit == KB || unit == MB,
        n < 0x1_0000_0000_0000_0000_0000,
    ensures
        t == tenths(n as nat, unit as nat),
{
    let nn = n * 10;
    let q = nn / unit;
    let r = nn % unit;
    if 2 * r > unit || (2 * r == unit && q % 2 == 1) {
        q + 1
    } else {
        q
    }
}

fn one_decimal_exec(t: u128) -> (s: String)
    ensures
        s@ == one_decimal(t as nat),
{
    let a = u128_to_string(t / 10);
    let b = u128_to_string(t % 10);
    proof {
        reveal_strlit(".");
        assert("."@ =~= seq!['.']);
    }
    cat3(a.as_str(), ".", b.as_str())
}

fn round_exec(n: u64, u: u128) -> (v: u128)
    requires
        1 <= u <= 4096,
    ensures
        v == round_to_multiple(n as nat, u as nat),
        v < 0x1_0000_0000_0000_0000_0000,
{
    let nn = n as u128;
    let q = nn / u;
    let r = nn % u;
    assert(q <= nn) by (nonlinear_arith)
        requires
            u >= 1,
            q == nn / u,
    ;
    assert((q + 1) * u < 0x1_0000_0000_0000_0000_0000) by (nonlinear_arith)
        requires
            q <= 0xffff_ffff_ffff_ffff,
            u <= 4096,
    ;
    assert(q * u <= (q + 1) * u) by (nonlinear_arith);
    if 2 * r > u || (2 * r == u && q % 2 == 1) {
        (q + 1) * u
    } else {
        q * u
    }
}

/// `n as f64`, as an integer.
fn nearest_f64(n: u64) -> (v: u128)
    ensures
        v == f64_nearest(n as nat),
        v < 0x1_0000_0000_0000_0000_0000,
{
    let mut m: u64 = n;
    let mut u: u128 = 1;
    while m >= EXACT_F64_BOUND
        invariant
            1 <= u <= 4096,
            u * m <= n,
            f64_spacing(n as nat) == u * f64_spacing(m as nat),
        decreases m,
    {
        assert(u * EXACT_F64_BOUND <= u * m) by (nonlinear_arith)
            requires
                m >= EXACT_F64_BOUND,
                u >= 1,
        ;
        let ghost s1 = f64_spacing(m as nat);
        let ghost s2 = f64_spacing((m / 2) as nat);
        assert(s1 == 2 * s2);
        assert(u * s1 == (2 * u) * s2) by (nonlinear_arith)
            requires
                s1 == 2 * s2,
        ;
        assert((2 * u) * (m / 2) <= u * m) by (nonlinear_arith)
            requires
                (m / 2) * 2 <= m,
                u >= 0,
        ;
        m = m / 2;
        u = u * 2;
    }
    assert(f64_spacing(m as nat) == 1);
    round_exec(n, u)
}

/// The size of a byte count for display, as the byte count scaled as an `f64` prints: bytes,
/// or KB and MB with one decimal.
pub fn format_bytes(byte_len: usize) -> (s: String)
    ensures
        s@ == size_label(f64_nearest(byte_len as nat)),
{
    let v = nearest_f64(byte_len as u64);
    if v >= MB as u128 {
        let t = tenths_exec(v, MB as u128);
        let d = one_decimal_exec(t);
        cat(d.as_str(), " MB")
    } else if v >= KB as u128 {
        let t = tenths_exec(v, KB as u128);
        let d = one_decimal_exec(t);
        cat(d.as_str(), " KB")
    } else {
        let d = u128_to_string(v);
        cat(d.as_str(), " bytes")
    }
}

impl ImageAttachmentEvent {
    pub fn new(
        source_path: &str,
        file_name: &str,
        mime_type: &str,
        byte_len: usize,
        data_url: &str,
    ) -> (r: Self)
        ensures
            r.source_path@ == source_path@,
            r.file_name@ == file_name@,
            r.mime_type@ == mime_type@,
            r.byte_len == byte_len,
            r.data_url@ == data_url@,
            r.summary@ == image_summary(file_name@, mime_type@, byte_len as nat),
    {
        let size = format_bytes(byte_len);
        let mut summary = cat3("attached image: ", file_name, " (");
        push_str(&mut summary, mime_type);
        push_str(&mut summary, ", ");
        push_str(&mut summary, size.as_str());
        push_str(&mut summary, ")");
        ImageAttachmentEvent {
            source_path: to_owned_str(source_path),
            file_name: to_owned_str(file_name),
            mime_type: to_owned_str(mime_type),
            byte_len,
            data_url: to_owned_str(data_url),
            summary,
        }
    }
}

#[derive(Debug, Clone, PartialEq, Eq)]
pub struct ToolCallEvent {
    pub call_id: String,
    pub name: String,
    pub arguments: String,
    pub summary: String,
}

/// Newlines replaced by spaces.
pub open spec fn newlines_to_spaces(s: Seq<char>) -> Seq<char> {
    s.map_values(|c: char| if c == '\n' { ' ' } else { c })
}

/// The summary of a tool call event: the name, then the arguments on one line.
pub open spec fn tool_call_summary(name: Seq<char>, arguments: Seq<char>) -> Seq<char> {
    if is_blank_seq(arguments) {
        name
    } else {
        name + seq![' '] + newlines_to_spaces(arguments)
    }
}

fn replace_newlines(s: &str) -> (r: String)
    ensures
        r@ == newlines_to_spaces(s@),
{
    let v = chars_of(s);
    let mut out: Vec<char> = Vec::new();
    let mut i: usize = 0;
    while i < v.len()
        invariant
            v@ == s@,
            i <= v.len(),
            out@ == newlines_to_spaces(v@.take(i as int)),
        decreases v.len() - i,
    {
        if v[i] == '\n' {
            out.push(' ');
        } else {
            out.push(v[i]);
        }
        i = i + 1;
        assert(out@ =~= newlines_to_spaces(v@.take(i as int)));
    }
    assert(v@.take(v.len() as int) =~= v@);
    string_of(out.as_slice())
}

impl ToolCallEvent {
    pub fn new(call_id: &str, name: &str, arguments: &str) -> (r: Self)
        ensures
            r.call_id@ == call_id@,
            r.name@ == name@,
            r.arguments@ == arguments@,
            r.summary@ == tool_call_summary(name@, arguments@),
    {
        let summary = if is_blank(arguments) {
            to_owned_str(name)
        } else {
            let args = replace_newlines(arguments);
            proof {
                reveal_strlit(" ");
                assert(" "@ =~= seq![' ']);
            }
            cat3(name, " ", args.as_str())
        };
        ToolCallEvent {
            call_id: to_owned_str(call_id),
            name: to_owned_str(name),
            arguments: to_owned_str(arguments),
            summary,
        }
    }
}

#[derive(Debug, Clone, PartialEq, Eq)]
pub struct ToolResultEvent {
    pub call_id: String,
    pub status: ToolResultStatus,
    pub content: String,
    pub truncated: bool,
    pub next_offset: Option<usize>,
    pub edits: Vec<FileEditEvent>,
}

#[derive(Debug, Clone, PartialEq, Eq)]
pub struct CommandRunEvent {
    pub call_id: String,
    pub command: String,
    pub cwd: String,
    pub timeout_seconds: u64,
    pub summary: String,
}

#[derive(Debug, Clone, PartialEq, Eq)]
pub struct CommandOutputEvent {
    pub call_id: String,
    pub stream: String,
    pub content: String,
    pub summary: String,
}

#[derive(Debug, Clone, PartialEq, Eq)]
pub struct CompactionEvent {
    pub summary: String,
    pub folded_event_count: usize,
}

#[derive(Debug, Clone, PartialEq, Eq)]
pub struct BranchSummaryEvent {
    pub source_session_id: String,
    pub summary: String,
    pub folded_event_count: usize,
}

#[derive(Debug, Clone, PartialEq, Eq)]
pub struct FileEditEvent {
    pub action: FileEditAction,
    pub checkpoint: EditCheckpoint,
    pub rewound_checkpoint_id: Option<String>,
    pub summary: String,
}

impl FileEditEvent {
    pub fn from_edit_apply_result(result: EditApplyResult) -> (r: Self)
        ensures
            r.action == FileEditAction::Applied,
            r.checkpoint == result.checkpoint,
            r.rewound_checkpoint_id is None,
            r.summary@ == "applied edit to "@ + result.checkpoint.path@ + " ("@
                + result.checkpoint.checkpoint_id@ + ")"@,
    {
        let checkpoint = result.checkpoint;
        let mut summary = cat3("applied edit to ", checkpoint.path.as_str(), " (");
        push_str(&mut summary, checkpoint.checkpoint_id.as_str());
        push_str(&mut summary, ")");
        FileEditEvent {
            action: FileEditAction::Applied,
            checkpoint,
            rewound_checkpoint_id: None,
            summary,
        }
    }

    pub fn from_edit_rewind_result(result: EditRewindResult) -> (r: Self)
        ensures
            r.action == FileEditAction::RolledBack,
            r.checkpoint == result.checkpoint,
            r.rewound_checkpoint_id matches Some(id) && id@ == result.rewound_checkpoint_id@,
            r.summary@ == "rewound checkpoint "@ + result.rewound_checkpoint_id@ + " on "@
                + result.checkpoint.path@,
    {
        let checkpoint = result.checkpoint;
        let id = result.rewound_checkpoint_id;
        let summary = cat3("rewound checkpoint ", id.as_str(), " on ");
        let summary = cat(summary.as_str(), checkpoint.path.as_str());
        FileEditEvent {
            action: FileEditAction::RolledBack,
            checkpoint,
            rewound_checkpoint_id: Some(id),
            summary,
        }
    }
}

#[derive(Debug, Clone, Copy, PartialEq, Eq)]
pub enum FileEditAction {
    Applied,
    RolledBack,
}

#[derive(Debug, Clone, PartialEq, Eq)]
pub struct ErrorEvent {
    pub message: String,
}

#[derive(Debug, Clone, PartialEq, Eq)]
pub struct FinalEvent {
    pub summary: String,
}


// ---------------------------------------------------------------------------
// Compaction

/// A thread is compacted once this many active events have gathered since the last summary.
pub const AUTO_COMPACTION_TRIGGER_EVENTS: usize = 36;

/// Events of the active tail that a compaction keeps in full.
pub const COMPACTION_RECENT_EVENT_WINDOW: usize = 12;

/// Events of the active tail that a summary describes.
pub const COMPACTION_RECENT_DETAIL_WINDOW: usize = 6;

pub open spec fn is_summary_msg(m: EventMsg) -> bool {
    m is Compaction || m is BranchSummary
}

/// The index of the last compaction or branch summary.
pub open spec fn latest_summary(s: Seq<Event>) -> Option<int>
    decreases s.len(),
{
    if s.len() == 0 {
        None
    } else if is_summary_msg(s.last().msg) {
        Some(s.len() - 1)
    } else {
        latest_summary(s.drop_last())
    }
}

pub proof fn lemma_latest_summary(s: Seq<Event>)
    ensures
        latest_summary(s) matches Some(i) ==> 0 <= i < s.len() && is_summary_msg(s[i].msg)
            && forall|j: int| i < j < s.len() ==> !is_summary_msg(#[trigger] s[j].msg),
        latest_summary(s) is None ==> forall|j: int|
            0 <= j < s.len() ==> !is_summary_msg(#[trigger] s[j].msg),
    decreases s.len(),
{
    if s.len() > 0 && !is_summary_msg(s.last().msg) {
        lemma_latest_summary(s.drop_last());
        assert forall|j: int| 0 <= j < s.len() - 1 implies s.drop_last()[j] == s[j] by {}
    }
}

/// Where the active tail begins: just after the latest summary, or at the start.
pub open spec fn active_start(s: Seq<Event>) -> int {
    match latest_summary(s) {
        Some(i) => i + 1,
        None => 0,
    }
}

pub open spec fn active_tail(s: Seq<Event>) -> Seq<Event> {
    s.subrange(active_start(s), s.len() as int)
}

pub fn is_summary_event(event: &Event) -> (r: bool)
    ensures
        r == is_summary_msg(event.msg),
{
    match &event.msg {
        EventMsg::Compaction(_) | EventMsg::BranchSummary(_) => true,
        _ => false,
    }
}

pub fn latest_summary_event_index(events: &[Event]) -> (r: Option<usize>)
    ensures
        r matches Some(i) ==> latest_summary(events@) == Some(i as int),
        r is None ==> latest_summary(events@) is None,
{
    let mut i = events.len();
    assert(events@.take(i as int) =~= events@);
    while i > 0
        invariant
            i <= events@.len(),
            latest_summary(events@) == latest_summary(events@.take(i as int)),
        decreases i,
    {
        proof {
            assert(events@.take(i as int).drop_last() =~= events@.take(i - 1));
        }
        if is_summary_event(&events[i - 1]) {
            return Some(i - 1);
        }
        i = i - 1;
    }
    None
}

fn active_start_exec(events: &[Event]) -> (r: usize)
    ensures
        r == active_start(events@),
        r <= events@.len(),
{
    proof {
        lemma_latest_summary(events@);
    }
    let n = events.len();
    match latest_summary_event_index(events) {
        Some(i) => {
            assert(i < n);
            i + 1
        },
        None => 0,
    }
}

/// Events other than system messages and summaries.
pub open spec fn count_conversational(s: Seq<Event>) -> nat
    decreases s.len(),
{
    if s.len() == 0 {
        0
    } else {
        let rest = count_conversational(s.drop_last());
        match s.last().msg {
            EventMsg::SystemMessage(_) | EventMsg::Compaction(_) | EventMsg::BranchSummary(
                _,
            ) => rest,
            _ => rest + 1,
        }
    }
}

proof fn lemma_count_bound(s: Seq<Event>)
    ensures
        count_conversational(s) <= s.len(),
    decreases s.len(),
{
    if s.len() > 0 {
        lemma_count_bound(s.drop_last());
    }
}

/// Counts the events of the active tail that are not system messages or summaries.
pub fn count_active_events_since_summary(events: &[Event]) -> (n: usize)
    ensures
        n == count_conversational(active_tail(events@)),
{
    let start = active_start_exec(events);
    let mut n: usize = 0;
    let mut i = start;
    while i < events.len()
        invariant
            start <= i <= events@.len(),
            start == active_start(events@),
            n == count_conversational(events@.subrange(start as int, i as int)),
            n <= i - start,
        decreases events.len() - i,
    {
        proof {
            assert(events@.subrange(start as int, i + 1).drop_last() =~= events@.subrange(
                start as int,
                i as int,
            ));
        }
        match &events[i].msg {
            EventMsg::SystemMessage(_) | EventMsg::Compaction(_) | EventMsg::BranchSummary(_) => {},
            _ => {
                n = n + 1;
            },
        }
        i = i + 1;
    }
    n
}

pub fn count_active_events_since_compaction(events: &[Event]) -> (n: usize)
    ensures
        n == count_conversational(active_tail(events@)),
{
    count_active_events_since_summary(events)
}

/// A thread is compacted when its active tail holds enough conversation.
pub fn should_auto_compact(events: &[Event]) -> (r: bool)
    ensures
        r == (count_conversational(active_tail(events@)) >= AUTO_COMPACTION_TRIGGER_EVENTS),
{
    count_active_events_since_compaction(events) >= AUTO_COMPACTION_TRIGGER_EVENTS
}

/// The most recent user message of a window.
pub open spec fn last_user(w: Seq<Event>) -> Option<Seq<char>>
    decreases w.len(),
{
    if w.len() == 0 {
        None
    } else {
        match w.last().msg {
            EventMsg::UserMessage(m) => Some(m.content@),
            _ => last_user(w.drop_last()),
        }
    }
}

/// The most recent assistant message of a window.
pub open spec fn last_assistant(w: Seq<Event>) -> Option<Seq<char>>
    decreases w.len(),
{
    if w.len() == 0 {
        None
    } else {
        match w.last().msg {
            EventMsg::AssistantMessage(m) => Some(m.content@),
            _ => last_assistant(w.drop_last()),
        }
    }
}

/// The names of the tools called in a window, in order.
pub open spec fn tool_names(w: Seq<Event>) -> Seq<Seq<char>>
    decreases w.len(),
{
    if w.len() == 0 {
        Seq::empty()
    } else {
        match w.last().msg {
            EventMsg::ToolCall(c) => tool_names(w.drop_last()).push(c.name@),
            _ => tool_names(w.drop_last()),
        }
    }
}

/// The commands run in a window, in order.
pub open spec fn command_texts(w: Seq<Event>) -> Seq<Seq<char>>
    decreases w.len(),
{
    if w.len() == 0 {
        Seq::empty()
    } else {
        match w.last().msg {
            EventMsg::CommandRun(c) => command_texts(w.drop_last()).push(c.command@),
            _ => command_texts(w.drop_last()),
        }
    }
}

pub open spec fn opt_line(prefix: Seq<char>, v: Option<Seq<char>>) -> Seq<Seq<char>> {
    match v {
        Some(x) => seq![prefix + x],
        None => Seq::empty(),
    }
}

pub open spec fn list_line(prefix: Seq<char>, items: Seq<Seq<char>>) -> Seq<Seq<char>> {
    if items.len() == 0 {
        Seq::empty()
    } else {
        seq![prefix + join_seq(items, ", "@)]
    }
}

/// The lines that describe a window of recent events.
pub open spec fn digest_lines(w: Seq<Event>) -> Seq<Seq<char>> {
    opt_line("Recent user request: "@, last_user(w)) + opt_line(
        "Recent assistant reply: "@,
        last_assistant(w),
    ) + list_line("Recent tools: "@, tool_names(w)) + list_line(
        "Recent commands: "@,
        command_texts(w),
    )
}

/// The last events of a tail, at most the detail window of them, in order.
pub open spec fn recent_window(active: Seq<Event>) -> Seq<Event> {
    if active.len() > COMPACTION_RECENT_DETAIL_WINDOW {
        active.subrange(active.len() - COMPACTION_RECENT_DETAIL_WINDOW, active.len() as int)
    } else {
        active
    }
}

/// Events of the active tail beyond the kept window.
pub open spec fn folded_count(active_len: nat) -> nat {
    if active_len > COMPACTION_RECENT_EVENT_WINDOW {
        (active_len - COMPACTION_RECENT_EVENT_WINDOW) as nat
    } else {
        0
    }
}

pub open spec fn compaction_lines(s: Seq<Event>) -> Seq<Seq<char>> {
    let active = active_tail(s);
    seq![
        "Goal: keep the thread compact after folding "@ + dec(folded_count(active.len()))
            + " older event(s)."@,
        "Progress: total events="@ + dec(active.len()) + ", recent window kept=12."@,
    ] + digest_lines(recent_window(active)) + seq![
        "Next Steps: continue from the compacted tail; use /resume to browse history."@,
        "Critical Context: raw history remains in the session log."@,
    ]
}

pub open spec fn branch_summary_lines(
    source_session_id: Seq<char>,
    folded_event_count: nat,
    s: Seq<Event>,
) -> Seq<Seq<char>> {
    let active = active_tail(s);
    seq![
        "Goal: continue the branch from "@ + source_session_id + " after folding "@ + dec(
            folded_event_count,
        ) + " older event(s)."@,
        "Progress: source tail events="@ + dec(active.len()) + ", recent window kept=12."@,
    ] + digest_lines(recent_window(active)) + seq![
        "Next Steps: continue from this branch summary and its active tail."@,
        "Critical Context: the source branch history remains in the parent session log."@,
    ]
}

struct Digest {
    user: Option<String>,
    assistant: Option<String>,
    tools: Vec<String>,
    commands: Vec<String>,
}

pub open spec fn opt_view(o: Option<String>) -> Option<Seq<char>> {
    match o {
        Some(x) => Some(x@),
        None => None,
    }
}

/// Reads the window `events[lo..hi]`.
fn digest_window(events: &[Event], lo: usize, hi: usize) -> (d: Digest)
    requires
        lo <= hi <= events@.len(),
    ensures
        match d.user {
            Some(x) => last_user(events@.subrange(lo as int, hi as int)) == Some(x@),
            None => last_user(events@.subrange(lo as int, hi as int)) is None,
        },
        match d.assistant {
            Some(x) => last_assistant(events@.subrange(lo as int, hi as int)) == Some(x@),
            None => last_assistant(events@.subrange(lo as int, hi as int)) is None,
        },
        views(d.tools@) == tool_names(events@.subrange(lo as int, hi as int)),
        views(d.commands@) == command_texts(events@.subrange(lo as int, hi as int)),
{
    let mut user: Option<String> = None;
    let mut assistant: Option<String> = None;
    let mut tools: Vec<String> = Vec::new();
    let mut commands: Vec<String> = Vec::new();
    let mut i = lo;
    while i < hi
        invariant
            lo <= i <= hi <= events@.len(),
            match user {
                Some(x) => last_user(events@.subrange(lo as int, i as int)) == Some(x@),
                None => last_user(events@.subrange(lo as int, i as int)) is None,
            },
            match assistant {
                Some(x) => last_assistant(events@.subrange(lo as int, i as int)) == Some(x@),
                None => last_assistant(events@.subrange(lo as int, i as int)) is None,
            },
            views(tools@) == tool_names(events@.subrange(lo as int, i as int)),
            views(commands@) == command_texts(events@.subrange(lo as int, i as int)),
        decreases hi - i,
    {
        proof {
            assert(events@.subrange(lo as int, i + 1).drop_last() =~= events@.subrange(
                lo as int,
                i as int,
            ));
        }
        match &events[i].msg {
            EventMsg::UserMessage(m) => {
                user = Some(m.content.clone());
            },
            EventMsg::AssistantMessage(m) => {
                assistant = Some(m.content.clone());
            },
            EventMsg::ToolCall(c) => {
                tools.push(c.name.clone());
                assert(views(tools@) =~= tool_names(events@.subrange(lo as int, i + 1)));
            },
            EventMsg::CommandRun(c) => {
                commands.push(c.command.clone());
                assert(views(commands@) =~= command_texts(events@.subrange(lo as int, i + 1)));
            },
            _ => {},
        }
        i = i + 1;
    }
    Digest { user, assistant, tools, commands }
}

fn push_digest_lines(lines: &mut Vec<String>, d: &Digest)
    ensures
        views(final(lines)@) == views(old(lines)@) + opt_line(
            "Recent user request: "@,
            opt_view(d.user),
        ) + opt_line("Recent assistant reply: "@, opt_view(d.assistant)) + list_line(
            "Recent tools: "@,
            views(d.tools@),
        ) + list_line("Recent commands: "@, views(d.commands@)),
{
    let ghost start = views(lines@);
    match &d.user {
        Some(u) => {
            lines.push(cat("Recent user request: ", u.as_str()));
        },
        None => {},
    }
    assert(views(lines@) =~= start + opt_line("Recent user request: "@, opt_view(d.user)));
    let ghost s1 = views(lines@);
    match &d.assistant {
        Some(a) => {
            lines.push(cat("Recent assistant reply: ", a.as_str()));
        },
        None => {},
    }
    assert(views(lines@) =~= s1 + opt_line("Recent assistant reply: "@, opt_view(d.assistant)));
    let ghost s2 = views(lines@);
    if d.tools.len() > 0 {
        let j = join(&d.tools, ", ");
        lines.push(cat("Recent tools: ", j.as_str()));
    }
    assert(views(lines@) =~= s2 + list_line("Recent tools: "@, views(d.tools@)));
    let ghost s3 = views(lines@);
    if d.commands.len() > 0 {
        let j = join(&d.commands, ", ");
        lines.push(cat("Recent commands: ", j.as_str()));
    }
    assert(views(lines@) =~= s3 + list_line("Recent commands: "@, views(d.commands@)));
}

fn window_start(start: usize, len: usize) -> (lo: usize)
    requires
        start <= len,
    ensures
        lo == if len - start > COMPACTION_RECENT_DETAIL_WINDOW {
            len - COMPACTION_RECENT_DETAIL_WINDOW
        } else {
            start as int
        },
{
    if len - start > COMPACTION_RECENT_DETAIL_WINDOW {
        len - COMPACTION_RECENT_DETAIL_WINDOW
    } else {
        start
    }
}

proof fn lemma_window(s: Seq<Event>, start: int, lo: int)
    requires
        0 <= start <= s.len(),
        lo == if s.len() - start > COMPACTION_RECENT_DETAIL_WINDOW {
            s.len() - COMPACTION_RECENT_DETAIL_WINDOW
        } else {
            start
        },
    ensures
        recent_window(s.subrange(start, s.len() as int)) == s.subrange(lo, s.len() as int),
{
    assert(recent_window(s.subrange(start, s.len() as int)) =~= s.subrange(lo, s.len() as int));
}

/// Folds the active tail into a summary that names its size and its latest activity.
pub fn summarize_compaction(events: &[Event]) -> (r: CompactionEvent)
    ensures
        r.folded_event_count == folded_count(active_tail(events@).len()),
        r.summary@ == join_seq(compaction_lines(events@), "\n"@),
{
    let start = active_start_exec(events);
    let total = events.len() - start;
    let folded = if total > COMPACTION_RECENT_EVENT_WINDOW {
        total - COMPACTION_RECENT_EVENT_WINDOW
    } else {
        0
    };
    let lo = window_start(start, events.len());
    proof {
        lemma_window(events@, start as int, lo as int);
    }
    let d = digest_window(events, lo, events.len());
    let mut lines: Vec<String> = Vec::new();
    let f = usize_to_string(folded);
    lines.push(cat3("Goal: keep the thread compact after folding ", f.as_str(), " older event(s)."));
    let t = usize_to_string(total);
    lines.push(cat3("Progress: total events=", t.as_str(), ", recent window kept=12."));
    let ghost head = views(lines@);
    proof {
        let active = active_tail(events@);
        assert(active.len() == total);
        assert(folded == folded_count(active.len()));
        assert(head =~= seq![
            "Goal: keep the thread compact after folding "@ + dec(folded_count(active.len()))
                + " older event(s)."@,
            "Progress: total events="@ + dec(active.len()) + ", recent window kept=12."@,
        ]);
    }
    push_digest_lines(&mut lines, &d);
    proof {
        let w = recent_window(active_tail(events@));
        assert(active_tail(events@) == events@.subrange(start as int, events@.len() as int));
        assert(w == events@.subrange(lo as int, events@.len() as int));
        assert(opt_view(d.user) == last_user(w));
        assert(opt_view(d.assistant) == last_assistant(w));
        assert(views(lines@) =~= head + digest_lines(w));
    }
    lines.push(
        to_owned_str("Next Steps: continue from the compacted tail; use /resume to browse history."),
    );
    lines.push(to_owned_str("Critical Context: raw history remains in the session log."));
    assert(views(lines@) =~= compaction_lines(events@));
    let summary = join(&lines, "\n");
    CompactionEvent { summary, folded_event_count: folded }
}

/// Summarises the active tail of a source session for a branch forked from it.
pub fn summarize_branch_summary(
    source_session_id: &str,
    folded_event_count: usize,
    events: &[Event],
) -> (r: BranchSummaryEvent)
    ensures
        r.source_session_id@ == source_session_id@,
        r.folded_event_count == folded_event_count,
        r.summary@ == join_seq(
            branch_summary_lines(source_session_id@, folded_event_count as nat, events@),
            "\n"@,
        ),
{
    let start = active_start_exec(events);
    let total = events.len() - start;
    let lo = window_start(start, events.len());
    proof {
        lemma_window(events@, start as int, lo as int);
    }
    let d = digest_window(events, lo, events.len());
    let mut lines: Vec<String> = Vec::new();
    let f = usize_to_string(folded_event_count);
    let mut goal = cat3("Goal: continue the branch from ", source_session_id, " after folding ");
    push_str(&mut goal, f.as_str());
    push_str(&mut goal, " older event(s).");
    lines.push(goal);
    let t = usize_to_string(total);
    lines.push(cat3("Progress: source tail events=", t.as_str(), ", recent window kept=12."));
    let ghost head = views(lines@);
    proof {
        let active = active_tail(events@);
        assert(active.len() == total);
        assert(head =~= seq![
            "Goal: continue the branch from "@ + source_session_id@ + " after folding "@ + dec(
                folded_event_count as nat,
            ) + " older event(s)."@,
            "Progress: source tail events="@ + dec(active.len()) + ", recent window kept=12."@,
        ]);
    }
    push_digest_lines(&mut lines, &d);
    proof {
        let w = recent_window(active_tail(events@));
        assert(active_tail(events@) == events@.subrange(start as int, events@.len() as int));
        assert(w == events@.subrange(lo as int, events@.len() as int));
        assert(opt_view(d.user) == last_user(w));
        assert(opt_view(d.assistant) == last_assistant(w));
        assert(views(lines@) =~= head + digest_lines(w));
    }
    lines.push(to_owned_str("Next Steps: continue from this branch summary and its active tail."));
    lines.push(
        to_owned_str(
            "Critical Context: the source branch history remains in the parent session log.",
        ),
    );
    assert(views(lines@) =~= branch_summary_lines(
        source_session_id@,
        folded_event_count as nat,
        events@,
    ));
    let summary = join(&lines, "\n");
    BranchSummaryEvent {
        source_session_id: to_owned_str(source_session_id),
        summary,
        folded_event_count,
    }
}


// ---------------------------------------------------------------------------
// Copies

fn copy_string_opt(s: &Option<String>) -> (r: Option<String>)
    ensures
        r == *s,
{
    match s {
        Some(x) => Some(x.clone()),
        None => None,
    }
}

impl FileEditEvent {
    pub fn copy(&self) -> (r: Self)
        ensures
            r == *self,
    {
        FileEditEvent {
            action: self.action,
            checkpoint: crate::tool::copy_checkpoint(&self.checkpoint),
            rewound_checkpoint_id: copy_string_opt(&self.rewound_checkpoint_id),
            summary: self.summary.clone(),
        }
    }
}

pub fn copy_edits(v: &Vec<FileEditEvent>) -> (r: Vec<FileEditEvent>)
    ensures
        r@ == v@,
{
    let mut out: Vec<FileEditEvent> = Vec::new();
    let mut i: usize = 0;
    while i < v.len()
        invariant
            i <= v.len(),
            out@ == v@.take(i as int),
        decreases v.len() - i,
    {
        out.push(v[i].copy());
        i = i + 1;
        assert(out@ =~= v@.take(i as int));
    }
    assert(v@.take(v.len() as int) =~= v@);
    out
}


/// Every event of the conversation since the latest summary counts once toward compaction,
/// whoever wrote it, save system messages and summaries: appending a user message, an
/// assistant reply, a tool call or result, or any other such event adds one to the count,
/// and appending a system message adds nothing.
pub proof fn law_each_conversation_event_counts(s: Seq<Event>, e: Event)
    requires
        !(e.msg is Compaction || e.msg is BranchSummary),
    ensures
        count_conversational(active_tail(s.push(e))) == count_conversational(active_tail(s)) + if e.msg is SystemMessage {
            0int
        } else {
            1int
        },
{
    let t = s.push(e);
    assert(t.drop_last() =~= s);
    assert(latest_summary(t) == latest_summary(s));
    lemma_latest_summary(s);
    assert(active_tail(t) =~= active_tail(s).push(e));
    assert(active_tail(t).drop_last() =~= active_tail(s));
}

/// A compaction or branch summary starts the count again from nothing.
pub proof fn law_summary_restarts_count(s: Seq<Event>, e: Event)
    requires
        e.msg is Compaction || e.msg is BranchSummary,
    ensures
        count_conversational(active_tail(s.push(e))) == 0,
{
    let t = s.push(e);
    assert(active_tail(t) =~= Seq::<Event>::empty());
}

} // verus!
