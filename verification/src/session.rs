//! Sessions: their identity and place on disk, their lines, their statistics and the HTML page
//! that exports one.
use vstd::prelude::*;
use crate::event::{Event, EventMsg, FileEditAction, ImageAttachmentEvent};
use crate::text::{
    cat, cat3, dec, parse_u128, parses_as_u128, push_str, to_owned_str, u128_to_string,
    u64_to_string, usize_to_string,
};

verus! {

/// Where sessions are kept below a project's root.
pub open spec fn session_dir() -> Seq<char> {
    ".picocode/sessions"@
}

/// The path `part` below `base`, as `Path::join` forms it: an absolute `part` stands alone.
pub open spec fn join_path(base: Seq<char>, part: Seq<char>) -> Seq<char> {
    if part.len() > 0 && part[0] == '/' {
        part
    } else if base.len() == 0 {
        part
    } else if base.last() == '/' {
        base + part
    } else {
        base + "/"@ + part
    }
}

pub fn join_path_str(base: &str, part: &str) -> (r: String)
    ensures
        r@ == join_path(base@, part@),
{
    let b = crate::text::chars_of(base);
    let p = crate::text::chars_of(part);
    proof {
        reveal_strlit("/");
    }
    if p.len() > 0 && p[0] == '/' {
        to_owned_str(part)
    } else if b.len() == 0 {
        to_owned_str(part)
    } else if b[b.len() - 1] == '/' {
        cat(base, part)
    } else {
        cat3(base, "/", part)
    }
}

#[derive(Debug, Clone, PartialEq, Eq)]
pub struct Session {
    pub id: String,
    pub path: String,
}

impl Session {
    /// The session `id` of the project at `root`: its file is `<id>.jsonl` in the session
    /// directory.
    pub fn new(id: &str, root: &str) -> (r: Self)
        ensures
            r.id@ == id@,
            r.path@ == join_path(join_path(root@, session_dir()), id@ + ".jsonl"@),
    {
        let dir = join_path_str(root, ".picocode/sessions");
        let file = cat(id, ".jsonl");
        Session { id: to_owned_str(id), path: join_path_str(dir.as_str(), file.as_str()) }
    }

    pub fn copy(&self) -> (r: Self)
        ensures
            r == *self,
    {
        Session { id: self.id.clone(), path: self.path.clone() }
    }
}

#[derive(Debug, Clone, PartialEq, Eq)]
pub struct SessionMeta {
    pub session_id: String,
    pub parent_session_id: Option<String>,
    pub cwd: String,
    pub app_version: String,
    pub ai_provider: Option<String>,
    pub ai_model: Option<String>,
}

#[derive(Debug, Clone, PartialEq, Eq)]
pub enum SessionItem {
    SessionMeta(SessionMeta),
    EventMsg(Event),
}

#[derive(Debug, Clone, PartialEq, Eq)]
pub struct SessionLine {
    pub timestamp: String,
    pub item: SessionItem,
}

/// The milliseconds since the Unix epoch on the system clock (0 before the epoch). Nothing is
/// stated of the value: it is the time of the call.
#[verifier::external_body]
fn epoch_millis() -> (r: u128) {
    std::time::SystemTime::now().duration_since(std::time::UNIX_EPOCH).map(|d| d.as_millis()).unwrap_or(0)
}

/// A line stamped with the current time in milliseconds.
fn stamp_now() -> (r: String)
    ensures
        exists|n: nat| r@ == dec(n),
{
    u128_to_string(epoch_millis())
}

impl SessionLine {
    /// A session-meta line stamped with the current time.
    pub fn session_meta(meta: SessionMeta) -> (r: Self)
        ensures
            r.item == SessionItem::SessionMeta(meta),
            exists|n: nat| r.timestamp@ == dec(n),
    {
        SessionLine { timestamp: stamp_now(), item: SessionItem::SessionMeta(meta) }
    }

    /// An event line stamped with the current time.
    pub fn event_msg(event: Event) -> (r: Self)
        ensures
            r.item == SessionItem::EventMsg(event),
            exists|n: nat| r.timestamp@ == dec(n),
    {
        SessionLine { timestamp: stamp_now(), item: SessionItem::EventMsg(event) }
    }
}

#[derive(Debug, Clone, Copy, PartialEq, Eq, Default)]
pub struct SessionStats {
    pub user_messages: usize,
    pub assistant_messages: usize,
    pub image_attachments: usize,
    pub tool_calls: usize,
    pub tool_results: usize,
    pub command_runs: usize,
    pub command_outputs: usize,
    pub compactions: usize,
    pub branch_summaries: usize,
    pub file_edits: usize,
    pub errors: usize,
    pub finals: usize,
    pub duration_millis: Option<u128>,
}

#[derive(Debug, Clone, PartialEq, Eq)]
pub struct SessionSummary {
    pub session: Session,
    pub parent_session_id: Option<String>,
    pub cwd: Option<String>,
    pub app_version: Option<String>,
    pub ai_provider: Option<String>,
    pub ai_model: Option<String>,
    pub event_count: usize,
    pub stats: SessionStats,
    pub first_timestamp: Option<String>,
    pub last_timestamp: Option<String>,
}

/// ` span=<seconds>s` for a known duration.
pub open spec fn span_text(d: Option<u128>) -> Seq<char> {
    match d {
        Some(ms) => " span="@ + dec((ms / 1000) as nat) + "s"@,
        None => Seq::empty(),
    }
}

impl SessionStats {
    pub open spec fn compact_spec(self) -> Seq<char> {
        "u="@ + dec(self.user_messages as nat) + " a="@ + dec(self.assistant_messages as nat)
            + " img="@ + dec(self.image_attachments as nat) + " tool="@ + dec(
            self.tool_calls as nat,
        ) + " cmd="@ + dec(self.command_runs as nat) + " edit="@ + dec(self.file_edits as nat)
            + " sum="@ + dec((self.compactions + self.branch_summaries) as nat) + span_text(
            self.duration_millis,
        )
    }

    pub open spec fn verbose_spec(self) -> Seq<char> {
        "user="@ + dec(self.user_messages as nat) + " assistant="@ + dec(
            self.assistant_messages as nat,
        ) + " img="@ + dec(self.image_attachments as nat) + " tool="@ + dec(
            self.tool_calls as nat,
        ) + " cmd="@ + dec(self.command_runs as nat) + " edit="@ + dec(self.file_edits as nat)
            + " compact="@ + dec(self.compactions as nat) + " branch="@ + dec(
            self.branch_summaries as nat,
        ) + " err="@ + dec(self.errors as nat) + " final="@ + dec(self.finals as nat) + span_text(
            self.duration_millis,
        )
    }

    fn span(&self) -> (r: String)
        ensures
            r@ == span_text(self.duration_millis),
    {
        match self.duration_millis {
            Some(ms) => {
                let s = cat3(" span=", u128_to_string(ms / 1000).as_str(), "s");
                s
            },
            None => String::new(),
        }
    }

    /// The counts that matter in a list: `u=.. a=.. img=.. tool=.. cmd=.. edit=.. sum=..`, the
    /// span in seconds when known.
    pub fn compact_label(&self) -> (r: String)
        ensures
            r@ == self.compact_spec(),
    {
        let mut s = cat("u=", usize_to_string(self.user_messages).as_str());
        push_str(&mut s, " a=");
        push_str(&mut s, usize_to_string(self.assistant_messages).as_str());
        push_str(&mut s, " img=");
        push_str(&mut s, usize_to_string(self.image_attachments).as_str());
        push_str(&mut s, " tool=");
        push_str(&mut s, usize_to_string(self.tool_calls).as_str());
        push_str(&mut s, " cmd=");
        push_str(&mut s, usize_to_string(self.command_runs).as_str());
        push_str(&mut s, " edit=");
        push_str(&mut s, usize_to_string(self.file_edits).as_str());
        push_str(&mut s, " sum=");
        let sum = self.compactions as u128 + self.branch_summaries as u128;
        push_str(&mut s, u128_to_string(sum).as_str());
        push_str(&mut s, self.span().as_str());
        s
    }

    /// Every count, by name, the span in seconds when known.
    pub fn verbose_label(&self) -> (r: String)
        ensures
            r@ == self.verbose_spec(),
    {
        let mut s = cat("user=", usize_to_string(self.user_messages).as_str());
        push_str(&mut s, " assistant=");
        push_str(&mut s, usize_to_string(self.assistant_messages).as_str());
        push_str(&mut s, " img=");
        push_str(&mut s, usize_to_string(self.image_attachments).as_str());
        push_str(&mut s, " tool=");
        push_str(&mut s, usize_to_string(self.tool_calls).as_str());
        push_str(&mut s, " cmd=");
        push_str(&mut s, usize_to_string(self.command_runs).as_str());
        push_str(&mut s, " edit=");
        push_str(&mut s, usize_to_string(self.file_edits).as_str());
        push_str(&mut s, " compact=");
        push_str(&mut s, usize_to_string(self.compactions).as_str());
        push_str(&mut s, " branch=");
        push_str(&mut s, usize_to_string(self.branch_summaries).as_str());
        push_str(&mut s, " err=");
        push_str(&mut s, usize_to_string(self.errors).as_str());
        push_str(&mut s, " final=");
        push_str(&mut s, usize_to_string(self.finals).as_str());
        push_str(&mut s, self.span().as_str());
        s
    }
}

// ---------------------------------------------------------------------------
// Summaries

/// The statistics after one more event.
pub open spec fn count_event(s: SessionStats, msg: EventMsg) -> SessionStats {
    match msg {
        EventMsg::UserMessage(_) => SessionStats { user_messages: (s.user_messages + 1) as usize, ..s },
        EventMsg::AssistantMessage(_) => SessionStats {
            assistant_messages: (s.assistant_messages + 1) as usize,
            ..s
        },
        EventMsg::ImageAttachment(_) => SessionStats {
            image_attachments: (s.image_attachments + 1) as usize,
            ..s
        },
        EventMsg::ToolCall(_) => SessionStats { tool_calls: (s.tool_calls + 1) as usize, ..s },
        EventMsg::ToolResult(_) => SessionStats { tool_results: (s.tool_results + 1) as usize, ..s },
        EventMsg::CommandRun(_) => SessionStats { command_runs: (s.command_runs + 1) as usize, ..s },
        EventMsg::CommandOutput(_) => SessionStats {
            command_outputs: (s.command_outputs + 1) as usize,
            ..s
        },
        EventMsg::Compaction(_) => SessionStats { compactions: (s.compactions + 1) as usize, ..s },
        EventMsg::BranchSummary(_) => SessionStats {
            branch_summaries: (s.branch_summaries + 1) as usize,
            ..s
        },
        EventMsg::FileEdit(_) => SessionStats { file_edits: (s.file_edits + 1) as usize, ..s },
        EventMsg::Error(_) => SessionStats { errors: (s.errors + 1) as usize, ..s },
        EventMsg::Final(_) => SessionStats { finals: (s.finals + 1) as usize, ..s },
        EventMsg::SystemMessage(_) => s,
    }
}

pub open spec fn zero_stats() -> SessionStats {
    SessionStats {
        user_messages: 0,
        assistant_messages: 0,
        image_attachments: 0,
        tool_calls: 0,
        tool_results: 0,
        command_runs: 0,
        command_outputs: 0,
        compactions: 0,
        branch_summaries: 0,
        file_edits: 0,
        errors: 0,
        finals: 0,
        duration_millis: None,
    }
}

/// The counts of the events among `lines`, by kind.
pub open spec fn count_lines(lines: Seq<SessionLine>) -> SessionStats
    decreases lines.len(),
{
    if lines.len() == 0 {
        zero_stats()
    } else {
        let s = count_lines(lines.drop_last());
        match lines.last().item {
            SessionItem::EventMsg(e) => count_event(s, e.msg),
            SessionItem::SessionMeta(_) => s,
        }
    }
}

/// The number of event lines.
pub open spec fn event_lines(lines: Seq<SessionLine>) -> nat
    decreases lines.len(),
{
    if lines.len() == 0 {
        0
    } else {
        event_lines(lines.drop_last()) + if lines.last().item is EventMsg {
            1nat
        } else {
            0nat
        }
    }
}

/// The last session-meta line's metadata.
pub open spec fn last_meta(lines: Seq<SessionLine>) -> Option<SessionMeta>
    decreases lines.len(),
{
    if lines.len() == 0 {
        None
    } else {
        match lines.last().item {
            SessionItem::SessionMeta(m) => Some(m),
            SessionItem::EventMsg(_) => last_meta(lines.drop_last()),
        }
    }
}

/// Every count of `count_lines` is at most the number of event lines.
proof fn lemma_count_bounds(lines: Seq<SessionLine>)
    ensures
        ({
            let s = count_lines(lines);
            let n = event_lines(lines);
            &&& s.user_messages <= n && s.assistant_messages <= n && s.image_attachments <= n
            &&& s.tool_calls <= n && s.tool_results <= n && s.command_runs <= n
            &&& s.command_outputs <= n && s.compactions <= n && s.branch_summaries <= n
            &&& s.file_edits <= n && s.errors <= n && s.finals <= n
            &&& s.duration_millis is None
        }),
        event_lines(lines) <= lines.len(),
    decreases lines.len(),
{
    if lines.len() > 0 {
        lemma_count_bounds(lines.drop_last());
    }
}

/// The span from the first to the last timestamp, when both are numbers in order.
pub open spec fn span_of(first: Seq<char>, last: Seq<char>) -> Option<u128> {
    if exists|a: int, b: int| parses_as_u128(first, a) && parses_as_u128(last, b) && a <= b {
        let (a, b) = choose|a: int, b: int|
            parses_as_u128(first, a) && parses_as_u128(last, b) && a <= b;
        Some((b - a) as u128)
    } else {
        None
    }
}

proof fn lemma_parse_unique(s: Seq<char>, a: int, b: int)
    requires
        parses_as_u128(s, a),
        parses_as_u128(s, b),
    ensures
        a == b,
{
}

fn clone_opt(s: &Option<String>) -> (r: Option<String>)
    ensures
        r == *s,
{
    match s {
        Some(t) => Some(t.clone()),
        None => None,
    }
}

/// What a session's lines say of it: the latest metadata, the number of events and their counts
/// by kind, the first and last timestamps and the span between them.
pub fn summarize_lines(session: &Session, lines: &[SessionLine]) -> (r: SessionSummary)
    ensures
        r.session == *session,
        ({
            let m = last_meta(lines@);
            &&& r.parent_session_id == (match m {
                Some(meta) => meta.parent_session_id,
                None => None,
            })
            &&& r.cwd == (match m {
                Some(meta) => Some(meta.cwd),
                None => None,
            })
            &&& r.app_version == (match m {
                Some(meta) => Some(meta.app_version),
                None => None,
            })
            &&& r.ai_provider == (match m {
                Some(meta) => meta.ai_provider,
                None => None,
            })
            &&& r.ai_model == (match m {
                Some(meta) => meta.ai_model,
                None => None,
            })
        }),
        r.event_count == event_lines(lines@),
        r.stats == (SessionStats {
            duration_millis: if lines@.len() > 0 {
                span_of(lines@[0].timestamp@, lines@.last().timestamp@)
            } else {
                None
            },
            ..count_lines(lines@)
        }),
        lines@.len() == 0 ==> r.first_timestamp is None && r.last_timestamp is None,
        lines@.len() > 0 ==> r.first_timestamp == Some(lines@[0].timestamp) && r.last_timestamp
            == Some(lines@.last().timestamp),
{
    let mut meta: Option<&SessionMeta> = None;
    let mut event_count: usize = 0;
    let mut stats = SessionStats {
        user_messages: 0,
        assistant_messages: 0,
        image_attachments: 0,
        tool_calls: 0,
        tool_results: 0,
        command_runs: 0,
        command_outputs: 0,
        compactions: 0,
        branch_summaries: 0,
        file_edits: 0,
        errors: 0,
        finals: 0,
        duration_millis: None,
    };
    let mut i: usize = 0;
    while i < lines.len()
        invariant
            i <= lines@.len(),
            meta == (match last_meta(lines@.take(i as int)) {
                Some(m) => Some(&m),
                None => None::<&SessionMeta>,
            }),
            event_count == event_lines(lines@.take(i as int)),
            stats == count_lines(lines@.take(i as int)),
        decreases lines.len() - i,
    {
        proof {
            assert(lines@.take(i + 1).drop_last() =~= lines@.take(i as int));
            lemma_count_bounds(lines@.take(i as int));
        }
        match &lines[i].item {
            SessionItem::SessionMeta(m) => {
                meta = Some(m);
            },
            SessionItem::EventMsg(e) => {
                event_count = event_count + 1;
                match &e.msg {
                    EventMsg::UserMessage(_) => stats.user_messages = stats.user_messages + 1,
                    EventMsg::AssistantMessage(_) => stats.assistant_messages = stats.assistant_messages + 1,
                    EventMsg::ImageAttachment(_) => stats.image_attachments = stats.image_attachments + 1,
                    EventMsg::ToolCall(_) => stats.tool_calls = stats.tool_calls + 1,
                    EventMsg::ToolResult(_) => stats.tool_results = stats.tool_results + 1,
                    EventMsg::CommandRun(_) => stats.command_runs = stats.command_runs + 1,
                    EventMsg::CommandOutput(_) => stats.command_outputs = stats.command_outputs + 1,
                    EventMsg::Compaction(_) => stats.compactions = stats.compactions + 1,
                    EventMsg::BranchSummary(_) => stats.branch_summaries = stats.branch_summaries + 1,
                    EventMsg::FileEdit(_) => stats.file_edits = stats.file_edits + 1,
                    EventMsg::Error(_) => stats.errors = stats.errors + 1,
                    EventMsg::Final(_) => stats.finals = stats.finals + 1,
                    EventMsg::SystemMessage(_) => {},
                }
            },
        }
        i = i + 1;
    }
    assert(lines@.take(lines@.len() as int) =~= lines@);
    proof {
        lemma_count_bounds(lines@);
    }
    let mut first_timestamp: Option<String> = None;
    let mut last_timestamp: Option<String> = None;
    if lines.len() > 0 {
        first_timestamp = Some(lines[0].timestamp.clone());
        last_timestamp = Some(lines[lines.len() - 1].timestamp.clone());
        let a = parse_u128(lines[0].timestamp.as_str());
        let b = parse_u128(lines[lines.len() - 1].timestamp.as_str());
        let ghost first = lines@[0].timestamp@;
        let ghost last = lines@.last().timestamp@;
        match (a, b) {
            (Some(x), Some(y)) => {
                if y >= x {
                    stats.duration_millis = Some(y - x);
                    proof {
                        assert(parses_as_u128(first, x as int) && parses_as_u128(last, y as int)
                            && x <= y);
                        let (p, q) = choose|p: int, q: int|
                            parses_as_u128(first, p) && parses_as_u128(last, q) && p <= q;
                        lemma_parse_unique(first, p, x as int);
                        lemma_parse_unique(last, q, y as int);
                    }
                } else {
                    proof {
                        if span_of(first, last) is Some {
                            let (p, q) = choose|p: int, q: int|
                                parses_as_u128(first, p) && parses_as_u128(last, q) && p <= q;
                            lemma_parse_unique(first, p, x as int);
                            lemma_parse_unique(last, q, y as int);
                        }
                    }
                }
            },
            _ => {},
        }
    }
    let (parent_session_id, cwd, app_version, ai_provider, ai_model) = match meta {
        Some(m) => (
            clone_opt(&m.parent_session_id),
            Some(m.cwd.clone()),
            Some(m.app_version.clone()),
            clone_opt(&m.ai_provider),
            clone_opt(&m.ai_model),
        ),
        None => (None, None, None, None, None),
    };
    SessionSummary {
        session: session.copy(),
        parent_session_id,
        cwd,
        app_version,
        ai_provider,
        ai_model,
        event_count,
        stats,
        first_timestamp,
        last_timestamp,
    }
}

// ---------------------------------------------------------------------------
// HTML export

/// The HTML text of one character.
pub open spec fn escape_char(c: char) -> Seq<char> {
    if c == '&' {
        "&amp;"@
    } else if c == '<' {
        "&lt;"@
    } else if c == '>' {
        "&gt;"@
    } else if c == '"' {
        "&quot;"@
    } else if c == '\'' {
        "&#39;"@
    } else {
        seq![c]
    }
}

/// Text with the five HTML special characters written as entities.
pub open spec fn escape_spec(s: Seq<char>) -> Seq<char>
    decreases s.len(),
{
    if s.len() == 0 {
        Seq::empty()
    } else {
        escape_spec(s.drop_last()) + escape_char(s.last())
    }
}

pub fn html_escape(input: &str) -> (r: String)
    ensures
        r@ == escape_spec(input@),
{
    let v = crate::text::chars_of(input);
    let mut out = String::new();
    let mut i: usize = 0;
    while i < v.len()
        invariant
            i <= v@.len(),
            v@ == input@,
            out@ == escape_spec(v@.take(i as int)),
        decreases v.len() - i,
    {
        assert(v@.take(i + 1).drop_last() =~= v@.take(i as int));
        let c = v[i];
        if c == '&' {
            push_str(&mut out, "&amp;");
        } else if c == '<' {
            push_str(&mut out, "&lt;");
        } else if c == '>' {
            push_str(&mut out, "&gt;");
        } else if c == '"' {
            push_str(&mut out, "&quot;");
        } else if c == '\'' {
            push_str(&mut out, "&#39;");
        } else {
            crate::text::push_char(&mut out, c);
        }
        i = i + 1;
    }
    assert(v@.take(v@.len() as int) =~= v@);
    out
}

pub open spec fn summary_box_spec(label: Seq<char>, value: Seq<char>) -> Seq<char> {
    "<div><div class=\"k\">"@ + escape_spec(label) + "</div><div class=\"v\">"@ + escape_spec(
        value,
    ) + "</div></div>"@
}

/// A labelled value in the page's header.
pub fn summary_box(label: &str, value: &str) -> (r: String)
    ensures
        r@ == summary_box_spec(label@, value@),
{
    let mut s = to_owned_str("<div><div class=\"k\">");
    push_str(&mut s, html_escape(label).as_str());
    push_str(&mut s, "</div><div class=\"v\">");
    push_str(&mut s, html_escape(value).as_str());
    push_str(&mut s, "</div></div>");
    s
}

pub open spec fn export_image_spec(label: Seq<char>, image: ImageAttachmentEvent) -> Seq<char> {
    "<article class=\"event image\"><div class=\"label\">"@ + escape_spec(label)
        + "</div><div class=\"content\"><div class=\"process\">source: "@ + escape_spec(
        image.source_path@,
    ) + "</div><div class=\"process\">file: "@ + escape_spec(image.file_name@)
        + "</div><div class=\"process\">mime: "@ + escape_spec(image.mime_type@) + " · bytes: "@
        + escape_spec(dec(image.byte_len as nat)) + "</div><img class=\"preview\" src=\""@
        + escape_spec(image.data_url@) + "\" alt=\""@ + escape_spec(image.file_name@)
        + "\"></div></article>"@
}

/// An image attachment as an article with its source, file, type, size and a preview.
pub fn render_export_image(event: &Event, image: &ImageAttachmentEvent) -> (r: String)
    ensures
        r@ == export_image_spec(event.msg.label_spec(), *image),
{
    let mut s = to_owned_str("<article class=\"event image\"><div class=\"label\">");
    push_str(&mut s, html_escape(event.msg.label()).as_str());
    push_str(&mut s, "</div><div class=\"content\"><div class=\"process\">source: ");
    push_str(&mut s, html_escape(image.source_path.as_str()).as_str());
    push_str(&mut s, "</div><div class=\"process\">file: ");
    push_str(&mut s, html_escape(image.file_name.as_str()).as_str());
    push_str(&mut s, "</div><div class=\"process\">mime: ");
    push_str(&mut s, html_escape(image.mime_type.as_str()).as_str());
    push_str(&mut s, " · bytes: ");
    push_str(&mut s, html_escape(usize_to_string(image.byte_len).as_str()).as_str());
    push_str(&mut s, "</div><img class=\"preview\" src=\"");
    push_str(&mut s, html_escape(image.data_url.as_str()).as_str());
    push_str(&mut s, "\" alt=\"");
    push_str(&mut s, html_escape(image.file_name.as_str()).as_str());
    push_str(&mut s, "\"></div></article>");
    s
}

/// The class, label, body and body class of an exported event other than an image.
pub open spec fn export_parts(msg: EventMsg) -> (Seq<char>, Seq<char>, Seq<char>, Seq<char>) {
    match msg {
        EventMsg::SystemMessage(m) => ("event system"@, "system"@, m.content@, "process"@),
        EventMsg::UserMessage(m) => ("event user"@, "you"@, m.content@, "content"@),
        EventMsg::AssistantMessage(m) => ("event assistant"@, "assistant"@, m.content@, "content"@),
        EventMsg::ImageAttachment(_) => (Seq::empty(), Seq::empty(), Seq::empty(), Seq::empty()),
        EventMsg::ToolCall(c) => (
            "event summary"@,
            "tool"@,
            "# "@ + c.name@ + "\n$ "@ + c.arguments@,
            "process"@,
        ),
        EventMsg::ToolResult(t) => ("event summary"@, "tool result"@, t.content@, "process"@),
        EventMsg::CommandRun(c) => (
            "event summary"@,
            "command"@,
            "# Run command\n$ "@ + c.command@ + "\ncwd: "@ + c.cwd@ + "  timeout: "@ + dec(
                c.timeout_seconds as nat,
            ) + "s"@,
            "process"@,
        ),
        EventMsg::CommandOutput(o) => (
            "event summary"@,
            "command output · "@ + o.stream@,
            o.content@,
            "process"@,
        ),
        EventMsg::Compaction(c) => (
            "event summary"@,
            "session compacted"@,
            "folded "@ + dec(c.folded_event_count as nat) + " event(s)\n\n"@ + c.summary@,
            "process"@,
        ),
        EventMsg::BranchSummary(b) => (
            "event summary"@,
            "branch summary · from "@ + b.source_session_id@,
            "folded "@ + dec(b.folded_event_count as nat) + " event(s)\n\n"@ + b.summary@,
            "process"@,
        ),
        EventMsg::FileEdit(e) => (
            "event summary"@,
            match e.action {
                FileEditAction::Applied => "edit checkpoint"@,
                FileEditAction::RolledBack => "rewind edit"@,
            },
            e.summary@ + "\n\n"@ + e.checkpoint.diff@,
            "process"@,
        ),
        EventMsg::Error(m) => ("event error"@, "error"@, m.message@, "content"@),
        EventMsg::Final(m) => ("event summary"@, "final"@, m.summary@, "content"@),
    }
}

/// One event of the exported page.
pub open spec fn export_event_spec(event: Event) -> Seq<char> {
    match event.msg {
        EventMsg::ImageAttachment(image) => export_image_spec(event.msg.label_spec(), image),
        _ => {
            let (class_name, label, body, body_class) = export_parts(event.msg);
            "<article class=\""@ + class_name + "\"><div class=\"label\">"@ + escape_spec(label)
                + "</div><pre class=\""@ + body_class + "\">"@ + escape_spec(body)
                + "</pre></article>"@
        },
    }
}

/// An event as an HTML article: its label and its text, escaped.
pub fn render_export_event(event: &Event) -> (r: String)
    ensures
        r@ == export_event_spec(*event),
{
    let (class_name, label, body, body_class): (&str, String, String, &str) = match &event.msg {
        EventMsg::SystemMessage(m) => ("event system", to_owned_str("system"), m.content.clone(), "process"),
        EventMsg::UserMessage(m) => ("event user", to_owned_str("you"), m.content.clone(), "content"),
        EventMsg::AssistantMessage(m) => (
            "event assistant",
            to_owned_str("assistant"),
            m.content.clone(),
            "content",
        ),
        EventMsg::ImageAttachment(image) => {
            return render_export_image(event, image);
        },
        EventMsg::ToolCall(c) => {
            let mut b = cat("# ", c.name.as_str());
            push_str(&mut b, "\n$ ");
            push_str(&mut b, c.arguments.as_str());
            ("event summary", to_owned_str("tool"), b, "process")
        },
        EventMsg::ToolResult(t) => ("event summary", to_owned_str("tool result"), t.content.clone(), "process"),
        EventMsg::CommandRun(c) => {
            let mut b = cat("# Run command\n$ ", c.command.as_str());
            push_str(&mut b, "\ncwd: ");
            push_str(&mut b, c.cwd.as_str());
            push_str(&mut b, "  timeout: ");
            push_str(&mut b, u64_to_string(c.timeout_seconds).as_str());
            push_str(&mut b, "s");
            ("event summary", to_owned_str("command"), b, "process")
        },
        EventMsg::CommandOutput(o) => (
            "event summary",
            cat("command output · ", o.stream.as_str()),
            o.content.clone(),
            "process",
        ),
        EventMsg::Compaction(c) => {
            let mut b = cat("folded ", usize_to_string(c.folded_event_count).as_str());
            push_str(&mut b, " event(s)\n\n");
            push_str(&mut b, c.summary.as_str());
            ("event summary", to_owned_str("session compacted"), b, "process")
        },
        EventMsg::BranchSummary(bs) => {
            let mut b = cat("folded ", usize_to_string(bs.folded_event_count).as_str());
            push_str(&mut b, " event(s)\n\n");
            push_str(&mut b, bs.summary.as_str());
            (
                "event summary",
                cat("branch summary · from ", bs.source_session_id.as_str()),
                b,
                "process",
            )
        },
        EventMsg::FileEdit(e) => {
            let label = match e.action {
                FileEditAction::Applied => to_owned_str("edit checkpoint"),
                FileEditAction::RolledBack => to_owned_str("rewind edit"),
            };
            let b = cat3(e.summary.as_str(), "\n\n", e.checkpoint.diff.as_str());
            ("event summary", label, b, "process")
        },
        EventMsg::Error(m) => ("event error", to_owned_str("error"), m.message.clone(), "content"),
        EventMsg::Final(m) => ("event summary", to_owned_str("final"), m.summary.clone(), "content"),
    };
    let mut s = cat("<article class=\"", class_name);
    push_str(&mut s, "\"><div class=\"label\">");
    push_str(&mut s, html_escape(label.as_str()).as_str());
    push_str(&mut s, "</div><pre class=\"");
    push_str(&mut s, body_class);
    push_str(&mut s, "\">");
    push_str(&mut s, html_escape(body.as_str()).as_str());
    push_str(&mut s, "</pre></article>");
    s
}

/// The style sheet of an exported page.
pub open spec fn page_style() -> Seq<char> {
    "<style>:root{color-scheme:dark;}body{margin:0;font-family:ui-sans-serif,system-ui,-apple-system,BlinkMacSystemFont,sans-serif;background:#282a36;color:#f8f8f2;}.wrap{max-width:1100px;margin:0 auto;padding:24px;}.hero{padding:20px 24px;border:1px solid #44475a;border-radius:16px;background:#2b2d3a;margin-bottom:20px;}.k{color:#6272a4;text-transform:uppercase;letter-spacing:.08em;font-size:12px;}.v{color:#f8f8f2;font-weight:600;}.meta{display:grid;grid-template-columns:repeat(auto-fit,minmax(220px,1fr));gap:12px;margin-top:16px;}.meta div{padding:12px 14px;background:#21222c;border:1px solid #44475a;border-radius:12px;}.timeline{display:flex;flex-direction:column;gap:12px;}.event{padding:16px 18px;border:1px solid #44475a;border-radius:14px;background:#21222c;}.label{color:#bd93f9;font-weight:700;margin-bottom:10px;}.system .label,.summary .label{color:#f1fa8c;}.user .label{color:#50fa7b;}.assistant .label{color:#f8f8f2;}.error .label{color:#ff5555;}pre{margin:0;white-space:pre-wrap;word-break:break-word;color:#f8f8f2;font-family:ui-monospace,SFMono-Regular,Menlo,Monaco,Consolas,monospace;line-height:1.55;}.content{color:#f8f8f2;}.comment{color:#6272a4;}.process{color:#9ea4bd;}img.preview{display:block;max-width:100%;margin-top:12px;border:1px solid #44475a;border-radius:12px;background:#21222c;}</style>"@
}

fn page_style_str() -> (r: &'static str)
    ensures
        r@ == page_style(),
{
    "<style>:root{color-scheme:dark;}body{margin:0;font-family:ui-sans-serif,system-ui,-apple-system,BlinkMacSystemFont,sans-serif;background:#282a36;color:#f8f8f2;}.wrap{max-width:1100px;margin:0 auto;padding:24px;}.hero{padding:20px 24px;border:1px solid #44475a;border-radius:16px;background:#2b2d3a;margin-bottom:20px;}.k{color:#6272a4;text-transform:uppercase;letter-spacing:.08em;font-size:12px;}.v{color:#f8f8f2;font-weight:600;}.meta{display:grid;grid-template-columns:repeat(auto-fit,minmax(220px,1fr));gap:12px;margin-top:16px;}.meta div{padding:12px 14px;background:#21222c;border:1px solid #44475a;border-radius:12px;}.timeline{display:flex;flex-direction:column;gap:12px;}.event{padding:16px 18px;border:1px solid #44475a;border-radius:14px;background:#21222c;}.label{color:#bd93f9;font-weight:700;margin-bottom:10px;}.system .label,.summary .label{color:#f1fa8c;}.user .label{color:#50fa7b;}.assistant .label{color:#f8f8f2;}.error .label{color:#ff5555;}pre{margin:0;white-space:pre-wrap;word-break:break-word;color:#f8f8f2;font-family:ui-monospace,SFMono-Regular,Menlo,Monaco,Consolas,monospace;line-height:1.55;}.content{color:#f8f8f2;}.comment{color:#6272a4;}.process{color:#9ea4bd;}img.preview{display:block;max-width:100%;margin-top:12px;border:1px solid #44475a;border-radius:12px;background:#21222c;}</style>"
}

/// The exported articles of the event lines, in order.
pub open spec fn export_lines_spec(lines: Seq<SessionLine>) -> Seq<char>
    decreases lines.len(),
{
    if lines.len() == 0 {
        Seq::empty()
    } else {
        export_lines_spec(lines.drop_last()) + match lines.last().item {
            SessionItem::EventMsg(e) => export_event_spec(e),
            SessionItem::SessionMeta(_) => Seq::empty(),
        }
    }
}

pub open spec fn opt_or_dash(s: Option<String>) -> Seq<char> {
    match s {
        Some(t) => t@,
        None => "-"@,
    }
}

/// `provider/model` when both are known.
pub open spec fn ai_profile_text(summary: SessionSummary) -> Seq<char> {
    match (summary.ai_provider, summary.ai_model) {
        (Some(p), Some(m)) => p@ + "/"@ + m@,
        _ => "-"@,
    }
}

pub open spec fn document_spec(
    session: Session,
    summary: SessionSummary,
    lines: Seq<SessionLine>,
    mode_label: Seq<char>,
) -> Seq<char> {
    "<!DOCTYPE html><html lang=\"en\"><head><meta charset=\"utf-8\">"@
        + "<meta name=\"viewport\" content=\"width=device-width, initial-scale=1\">"@ + "<title>"@
        + escape_spec("PicoCode "@ + mode_label + ": "@ + session.id@) + "</title>"@ + page_style()
        + "</head><body><div class=\"wrap\">"@ + "<section class=\"hero\">"@
        + "<div class=\"k\">PicoCode "@ + escape_spec(mode_label) + "</div>"@
        + "<h1 style=\"margin:8px 0 0;\">"@ + escape_spec(session.id@) + "</h1>"@
        + "<div class=\"meta\">"@ + summary_box_spec("session"@, summary.session.id@)
        + summary_box_spec("parent"@, opt_or_dash(summary.parent_session_id)) + summary_box_spec(
        "cwd"@,
        opt_or_dash(summary.cwd),
    ) + summary_box_spec("ai"@, ai_profile_text(summary)) + summary_box_spec(
        "events"@,
        dec(summary.event_count as nat),
    ) + summary_box_spec("stats"@, summary.stats.compact_spec()) + summary_box_spec(
        "last activity"@,
        opt_or_dash(summary.last_timestamp),
    ) + "</div></section>"@ + "<section class=\"timeline\">"@ + export_lines_spec(lines)
        + "</section></div></body></html>"@
}

fn opt_or_dash_str(s: &Option<String>) -> (r: &str)
    ensures
        r@ == opt_or_dash(*s),
{
    match s {
        Some(t) => t.as_str(),
        None => "-",
    }
}

/// The exported page of a session: a header with its summary, then each event as an article.
pub fn session_html_document(
    session: &Session,
    summary: &SessionSummary,
    lines: &[SessionLine],
    mode_label: &str,
) -> (r: String)
    ensures
        r@ == document_spec(*session, *summary, lines@, mode_label@),
{
    let mut html = to_owned_str("<!DOCTYPE html><html lang=\"en\"><head><meta charset=\"utf-8\">");
    push_str(&mut html, "<meta name=\"viewport\" content=\"width=device-width, initial-scale=1\">");
    push_str(&mut html, "<title>");
    let mut title = cat("PicoCode ", mode_label);
    push_str(&mut title, ": ");
    push_str(&mut title, session.id.as_str());
    push_str(&mut html, html_escape(title.as_str()).as_str());
    push_str(&mut html, "</title>");
    push_str(&mut html, page_style_str());
    push_str(&mut html, "</head><body><div class=\"wrap\">");
    push_str(&mut html, "<section class=\"hero\">");
    push_str(&mut html, "<div class=\"k\">PicoCode ");
    push_str(&mut html, html_escape(mode_label).as_str());
    push_str(&mut html, "</div>");
    push_str(&mut html, "<h1 style=\"margin:8px 0 0;\">");
    push_str(&mut html, html_escape(session.id.as_str()).as_str());
    push_str(&mut html, "</h1>");
    push_str(&mut html, "<div class=\"meta\">");
    push_str(&mut html, summary_box("session", summary.session.id.as_str()).as_str());
    push_str(&mut html, summary_box("parent", opt_or_dash_str(&summary.parent_session_id)).as_str());
    push_str(&mut html, summary_box("cwd", opt_or_dash_str(&summary.cwd)).as_str());
    let ai_profile = match (&summary.ai_provider, &summary.ai_model) {
        (Some(p), Some(m)) => cat3(p.as_str(), "/", m.as_str()),
        _ => to_owned_str("-"),
    };
    push_str(&mut html, summary_box("ai", ai_profile.as_str()).as_str());
    push_str(&mut html, summary_box("events", usize_to_string(summary.event_count).as_str()).as_str());
    push_str(&mut html, summary_box("stats", summary.stats.compact_label().as_str()).as_str());
    push_str(&mut html, summary_box("last activity", opt_or_dash_str(&summary.last_timestamp)).as_str());
    push_str(&mut html, "</div></section>");
    push_str(&mut html, "<section class=\"timeline\">");
    let ghost head = html@;
    let mut i: usize = 0;
    while i < lines.len()
        invariant
            i <= lines@.len(),
            html@ == head + export_lines_spec(lines@.take(i as int)),
        decreases lines.len() - i,
    {
        assert(lines@.take(i + 1).drop_last() =~= lines@.take(i as int));
        match &lines[i].item {
            SessionItem::EventMsg(event) => {
                push_str(&mut html, render_export_event(event).as_str());
            },
            SessionItem::SessionMeta(_) => {},
        }
        i = i + 1;
        assert(html@ =~= head + export_lines_spec(lines@.take(i as int)));
    }
    assert(lines@.take(lines@.len() as int) =~= lines@);
    push_str(&mut html, "</section></div></body></html>");
    assert(html@ =~= document_spec(*session, *summary, lines@, mode_label@));
    html
}

// ---------------------------------------------------------------------------
// Forks, names and order

/// The events of a session's lines, in order.
pub open spec fn line_events(lines: Seq<SessionLine>) -> Seq<Event>
    decreases lines.len(),
{
    if lines.len() == 0 {
        Seq::empty()
    } else {
        match lines.last().item {
            SessionItem::EventMsg(e) => line_events(lines.drop_last()).push(e),
            SessionItem::SessionMeta(_) => line_events(lines.drop_last()),
        }
    }
}

/// The event lines of a session's lines, in order.
pub open spec fn event_only_lines(lines: Seq<SessionLine>) -> Seq<SessionLine>
    decreases lines.len(),
{
    if lines.len() == 0 {
        Seq::empty()
    } else if lines.last().item is EventMsg {
        event_only_lines(lines.drop_last()).push(lines.last())
    } else {
        event_only_lines(lines.drop_last())
    }
}

/// How many events are neither a compaction nor a branch summary.
pub open spec fn plain_event_count(s: Seq<Event>) -> nat
    decreases s.len(),
{
    if s.len() == 0 {
        0
    } else {
        plain_event_count(s.drop_last()) + if crate::event::is_summary_msg(s.last().msg) {
            0nat
        } else {
            1nat
        }
    }
}

/// What a fork of a session starts with.
#[derive(Debug, Clone, PartialEq, Eq)]
pub enum ForkContent {
    /// A branch summary of the source, then the events after its latest summary; both are
    /// written with fresh timestamps.
    Branch(Event, Vec<Event>),
    /// The source's event lines, with their timestamps.
    Copy(Vec<SessionLine>),
}

/// A fork of a session whose history holds a summary with events after it starts with a branch
/// summary (of the events after it, counting those before it that are not summaries) and those
/// events; any other fork starts with a copy of the source's event lines.
pub open spec fn fork_spec(source_id: Seq<char>, forked_id: Seq<char>, lines: Seq<SessionLine>, r: ForkContent) -> bool {
    let events = line_events(lines);
    match crate::event::latest_summary(events) {
        Some(i) if i + 1 < events.len() => {
            let tail = events.subrange(i + 1, events.len() as int);
            r matches ForkContent::Branch(head, rest) && rest@ == tail && head.id@ == "evt-branch-"@ + forked_id
                && (head.msg matches EventMsg::BranchSummary(b) && b.source_session_id@ == source_id
                && b.folded_event_count == plain_event_count(events.take(i))
                && b.summary@ == crate::text::join_seq(
                crate::event::branch_summary_lines(source_id, plain_event_count(events.take(i)), tail),
                "\n"@,
            ))
        },
        _ => r matches ForkContent::Copy(v) && v@ == event_only_lines(lines),
    }
}

pub open spec fn pair_events(p: Seq<(String, Event)>) -> Seq<Event> {
    p.map_values(|x: (String, Event)| x.1)
}

pub open spec fn pair_lines(p: Seq<(String, Event)>) -> Seq<SessionLine> {
    p.map_values(|x: (String, Event)| SessionLine { timestamp: x.0, item: SessionItem::EventMsg(x.1) })
}

/// The event lines, each as its timestamp and its event.
fn event_pairs(lines: Vec<SessionLine>) -> (r: Vec<(String, Event)>)
    ensures
        pair_events(r@) == line_events(lines@),
        pair_lines(r@) == event_only_lines(lines@),
{
    let ghost all = lines@;
    let n = lines.len();
    let mut rest = lines;
    let mut out: Vec<(String, Event)> = Vec::new();
    let mut k: usize = 0;
    assert(all.skip(0) =~= all);
    assert(pair_events(out@) =~= line_events(all.take(0)));
    assert(pair_lines(out@) =~= event_only_lines(all.take(0)));
    while rest.len() > 0
        invariant
            k + rest@.len() == n,
            n == all.len(),
            rest@ == all.skip(k as int),
            pair_events(out@) == line_events(all.take(k as int)),
            pair_lines(out@) == event_only_lines(all.take(k as int)),
        decreases rest.len(),
    {
        let line = rest.remove(0);
        assert(line == all[k as int]);
        assert(all.take(k + 1).drop_last() =~= all.take(k as int));
        let SessionLine { timestamp, item } = line;
        match item {
            SessionItem::EventMsg(e) => {
                let ghost prev = out@;
                out.push((timestamp, e));
                assert(pair_events(out@) =~= pair_events(prev).push(e));
                assert(pair_lines(out@) =~= pair_lines(prev).push(all[k as int]));
            },
            SessionItem::SessionMeta(_) => {},
        }
        k = k + 1;
        assert(rest@ =~= all.skip(k as int));
    }
    assert(all.take(n as int) =~= all);
    out
}

fn latest_summary_pair(pairs: &Vec<(String, Event)>) -> (r: Option<usize>)
    ensures
        r matches Some(i) ==> i < pairs@.len() && crate::event::latest_summary(pair_events(pairs@)) == Some(i as int),
        r is None ==> crate::event::latest_summary(pair_events(pairs@)) is None,
{
    let ghost ev = pair_events(pairs@);
    let mut i = pairs.len();
    assert(ev.take(i as int) =~= ev);
    while i > 0
        invariant
            i <= pairs@.len(),
            ev == pair_events(pairs@),
            crate::event::latest_summary(ev) == crate::event::latest_summary(ev.take(i as int)),
        decreases i,
    {
        assert(ev.take(i as int).drop_last() =~= ev.take(i - 1));
        assert(ev.take(i as int).last() == pairs@[i - 1].1);
        if crate::event::is_summary_event(&pairs[i - 1].1) {
            return Some(i - 1);
        }
        i = i - 1;
    }
    None
}

fn plain_count(pairs: &Vec<(String, Event)>, n: usize) -> (r: usize)
    requires
        n <= pairs@.len(),
    ensures
        r == plain_event_count(pair_events(pairs@).take(n as int)),
{
    let ghost ev = pair_events(pairs@);
    let mut c: usize = 0;
    let mut i: usize = 0;
    while i < n
        invariant
            i <= n <= pairs@.len(),
            ev == pair_events(pairs@),
            c == plain_event_count(ev.take(i as int)),
            c <= i,
        decreases n - i,
    {
        assert(ev.take(i + 1).drop_last() =~= ev.take(i as int));
        assert(ev.take(i + 1).last() == pairs@[i as int].1);
        if !crate::event::is_summary_event(&pairs[i].1) {
            c = c + 1;
        }
        i = i + 1;
    }
    c
}

fn pairs_into_events(pairs: Vec<(String, Event)>) -> (r: Vec<Event>)
    ensures
        r@ == pair_events(pairs@),
{
    let ghost all = pairs@;
    let n = pairs.len();
    let mut rest = pairs;
    let mut out: Vec<Event> = Vec::new();
    let mut k: usize = 0;
    assert(all.skip(0) =~= all);
    while rest.len() > 0
        invariant
            k + rest@.len() == n,
            n == all.len(),
            rest@ == all.skip(k as int),
            out@ == pair_events(all.take(k as int)),
        decreases rest.len(),
    {
        let (_, e) = rest.remove(0);
        out.push(e);
        assert(out@ =~= pair_events(all.take(k + 1)));
        k = k + 1;
        assert(rest@ =~= all.skip(k as int));
    }
    assert(all.take(n as int) =~= all);
    out
}

fn pairs_into_lines(pairs: Vec<(String, Event)>) -> (r: Vec<SessionLine>)
    ensures
        r@ == pair_lines(pairs@),
{
    let ghost all = pairs@;
    let n = pairs.len();
    let mut rest = pairs;
    let mut out: Vec<SessionLine> = Vec::new();
    let mut k: usize = 0;
    assert(all.skip(0) =~= all);
    while rest.len() > 0
        invariant
            k + rest@.len() == n,
            n == all.len(),
            rest@ == all.skip(k as int),
            out@ == pair_lines(all.take(k as int)),
        decreases rest.len(),
    {
        let (timestamp, e) = rest.remove(0);
        out.push(SessionLine { timestamp, item: SessionItem::EventMsg(e) });
        assert(out@ =~= pair_lines(all.take(k + 1)));
        k = k + 1;
        assert(rest@ =~= all.skip(k as int));
    }
    assert(all.take(n as int) =~= all);
    out
}

/// What the fork `forked_id` of the session `source_id` starts with, given the source's lines.
pub fn fork_content(source_id: &str, forked_id: &str, lines: Vec<SessionLine>) -> (r: ForkContent)
    ensures
        fork_spec(source_id@, forked_id@, lines@, r),
{
    let ghost all = lines@;
    let mut pairs = event_pairs(lines);
    let ghost ev = pair_events(pairs@);
    match latest_summary_pair(&pairs) {
        Some(i) => {
            if i < pairs.len() - 1 {
                let folded = plain_count(&pairs, i);
                let tail_pairs = pairs.split_off(i + 1);
                assert(pair_events(tail_pairs@) =~= ev.subrange(i + 1, ev.len() as int));
                let tail = pairs_into_events(tail_pairs);
                let b = crate::event::summarize_branch_summary(source_id, folded, tail.as_slice());
                let head = Event::new(cat("evt-branch-", forked_id).as_str(), EventMsg::branch_summary(b));
                ForkContent::Branch(head, tail)
            } else {
                ForkContent::Copy(pairs_into_lines(pairs))
            }
        },
        None => ForkContent::Copy(pairs_into_lines(pairs)),
    }
}

/// A new name for a session: refused when blank or taken; the name is trimmed. `Ok(None)`
/// when it names the session itself.
pub fn rename_target(current_id: &str, new_id: &str, root: &str, taken: bool) -> (r: Result<Option<Session>, String>)
    ensures
        crate::text::trim_seq(new_id@).len() == 0 ==> (r matches Err(m) && m@ == "session name cannot be empty"@),
        crate::text::trim_seq(new_id@).len() > 0 ==> {
            let t = crate::text::trim_seq(new_id@);
            let same = join_path(join_path(root@, session_dir()), t + ".jsonl"@) == join_path(
                join_path(root@, session_dir()),
                current_id@ + ".jsonl"@,
            );
            &&& same ==> (r matches Ok(None))
            &&& !same && taken ==> (r matches Err(m) && m@ == "session already exists: "@ + t)
            &&& !same && !taken ==> (r matches Ok(Some(x)) && x.id@ == t && x.path@ == join_path(
                join_path(root@, session_dir()),
                t + ".jsonl"@,
            ))
        },
{
    let t = crate::text::trim(new_id);
    if t.unicode_len() == 0 {
        return Err(to_owned_str("session name cannot be empty"));
    }
    let fresh = Session::new(t.as_str(), root);
    let current = Session::new(current_id, root);
    if crate::text::str_eq(fresh.path.as_str(), current.path.as_str()) {
        return Ok(None);
    }
    if taken {
        return Err(cat("session already exists: ", t.as_str()));
    }
    Ok(Some(fresh))
}

fn copy_opt(s: &Option<String>) -> (r: Option<String>)
    ensures
        r == *s,
{
    match s {
        Some(t) => Some(t.clone()),
        None => None,
    }
}

impl SessionSummary {
    pub fn copy(&self) -> (r: Self)
        ensures
            r == *self,
    {
        SessionSummary {
            session: self.session.copy(),
            parent_session_id: copy_opt(&self.parent_session_id),
            cwd: copy_opt(&self.cwd),
            app_version: copy_opt(&self.app_version),
            ai_provider: copy_opt(&self.ai_provider),
            ai_model: copy_opt(&self.ai_model),
            event_count: self.event_count,
            stats: self.stats,
            first_timestamp: copy_opt(&self.first_timestamp),
            last_timestamp: copy_opt(&self.last_timestamp),
        }
    }
}

/// A summary's last timestamp, `0` when it has none.
pub open spec fn stamp_or_zero(s: Option<String>) -> Seq<char> {
    match s {
        Some(t) => t@,
        None => "0"@,
    }
}

/// The store lists sessions newest first: by last timestamp (`0` when unknown), then by id,
/// both descending.
pub open spec fn listed_before(s: Seq<SessionSummary>) -> spec_fn(usize, usize) -> bool {
    |a: usize, b: usize|
        a < s.len() && b < s.len() && crate::order::pair_lt(
            stamp_or_zero(s[b as int].last_timestamp),
            s[b as int].session.id@,
            stamp_or_zero(s[a as int].last_timestamp),
            s[a as int].session.id@,
        )
}

/// Listing newest first is a strict weak order on the indices of `s`.
proof fn lemma_listed_before_strict_weak(s: Seq<SessionSummary>)
    ensures
        crate::order::strict_weak_on(listed_before(s), crate::order::below(s.len())),
{
    let before = listed_before(s);
    let dom = crate::order::below(s.len());
    assert forall|a: usize, b: usize| dom(a) && dom(b) && #[trigger] before(a, b) implies !before(b, a) by {
        crate::order::lemma_pair_lt_order(
            stamp_or_zero(s[b as int].last_timestamp),
            s[b as int].session.id@,
            stamp_or_zero(s[a as int].last_timestamp),
            s[a as int].session.id@,
            s[a as int].session.id@,
            s[a as int].session.id@,
        );
    }
    assert forall|a: usize, b: usize, c: usize|
        #![trigger before(a, b), before(b, c)]
        dom(a) && dom(b) && dom(c) && !before(a, b) && !before(b, c) implies !before(a, c) by {
        crate::order::lemma_pair_not_lt_trans(
            stamp_or_zero(s[a as int].last_timestamp),
            s[a as int].session.id@,
            stamp_or_zero(s[b as int].last_timestamp),
            s[b as int].session.id@,
            stamp_or_zero(s[c as int].last_timestamp),
            s[c as int].session.id@,
        );
    }
}

fn stamp_str(s: &Option<String>) -> (r: &str)
    ensures
        r@ == stamp_or_zero(*s),
{
    match s {
        Some(t) => t.as_str(),
        None => "0",
    }
}

/// The summaries in the store's order, newest first.
pub fn sessions_newest_first(d: &Vec<SessionSummary>) -> (r: Vec<SessionSummary>)
    ensures
        r@ == crate::order::sort_by(crate::config::index_range(d@.len()), listed_before(d@)).map_values(
            |i: usize| d@[i as int],
        ),
        forall|i: int, j: int|
            0 <= i < j < r@.len() ==> !crate::order::pair_lt(
                stamp_or_zero(#[trigger] r@[i].last_timestamp),
                r@[i].session.id@,
                stamp_or_zero(#[trigger] r@[j].last_timestamp),
                r@[j].session.id@,
            ),
{
    let before = |a: usize, b: usize| -> (r: bool)
        ensures
            r == (a < d@.len() && b < d@.len() && crate::order::pair_lt(
                stamp_or_zero(d@[b as int].last_timestamp),
                d@[b as int].session.id@,
                stamp_or_zero(d@[a as int].last_timestamp),
                d@[a as int].session.id@,
            )),
        {
            if a < d.len() && b < d.len() {
                let at = stamp_str(&d[a].last_timestamp);
                let bt = stamp_str(&d[b].last_timestamp);
                crate::order::str_lt(bt, at) || (crate::text::str_eq(bt, at) && crate::order::str_lt(
                    d[b].session.id.as_str(),
                    d[a].session.id.as_str(),
                ))
            } else {
                false
            }
        };
    let idx = crate::order::sort_indices(crate::config::index_vec(d.len()), &before, Ghost(listed_before(d@)));
    proof {
        assert forall|k: int| 0 <= k < idx@.len() implies idx@[k] < d@.len() by {
            crate::order::lemma_sort_by_contains(crate::config::index_range(d@.len()), listed_before(d@), idx@[k]);
            assert(idx@.contains(idx@[k]));
            let j = choose|j: int| 0 <= j < d@.len() && crate::config::index_range(d@.len())[j] == idx@[k];
        }
    }
    proof {
        lemma_listed_before_strict_weak(d@);
        assert forall|k: int| 0 <= k < crate::config::index_range(d@.len()).len() implies
            crate::order::below(d@.len())(#[trigger] crate::config::index_range(d@.len())[k]) by {}
        crate::order::lemma_sort_by_sorted(
            crate::config::index_range(d@.len()),
            listed_before(d@),
            crate::order::below(d@.len()),
        );
    }
    let mut out: Vec<SessionSummary> = Vec::new();
    let mut k: usize = 0;
    while k < idx.len()
        invariant
            k <= idx@.len(),
            forall|j: int| 0 <= j < idx@.len() ==> idx@[j] < d@.len(),
            out@ == idx@.take(k as int).map_values(|i: usize| d@[i as int]),
        decreases idx.len() - k,
    {
        out.push(d[idx[k]].copy());
        k = k + 1;
        assert(out@ =~= idx@.take(k as int).map_values(|i: usize| d@[i as int]));
    }
    assert(idx@.take(idx@.len() as int) =~= idx@);
    proof {
        assert forall|i: int, j: int| 0 <= i < j < out@.len() implies !crate::order::pair_lt(
            stamp_or_zero(#[trigger] out@[i].last_timestamp),
            out@[i].session.id@,
            stamp_or_zero(#[trigger] out@[j].last_timestamp),
            out@[j].session.id@,
        ) by {
            assert(!listed_before(d@)(idx@[j], idx@[i]));
            assert(out@[i] == d@[idx@[i] as int] && out@[j] == d@[idx@[j] as int]);
        }
    }
    out
}

} // verus!


