//! The transcript as the terminal shows it: each event turned into lines of coloured pieces,
//! tool output folded, command streams gathered under their command, and the window of
//! lines that fits on screen.
use vstd::prelude::*;
use crate::event::{
    BranchSummaryEvent, CommandOutputEvent, CommandRunEvent, CompactionEvent, Event, EventMsg,
    FileEditAction, FileEditEvent, ImageAttachmentEvent, ToolCallEvent, ToolResultEvent,
};
use crate::text::{
    cat, cat3, dec, join, join_seq, lines, lines_seq, push_str, str_eq, to_owned_str,
    u64_to_string, usize_to_string, views,
};
use crate::tool::{call_summary, summarize_call, ToolResultStatus};

verus! {

/// The colours of the terminal's theme.
#[derive(Debug, Clone, Copy, PartialEq, Eq)]
pub enum Tone {
    Plain,
    Foreground,
    Comment,
    Answer,
    Process,
    Red,
    Orange,
    Yellow,
    Green,
    Cyan,
    Purple,
}

/// A run of text in one colour, bold or not.
#[derive(Debug, Clone, PartialEq, Eq)]
pub struct Piece {
    pub text: String,
    pub tone: Tone,
    pub bold: bool,
}

/// One line of the transcript.
#[derive(Debug, Clone, PartialEq, Eq)]
pub struct ShownLine {
    pub pieces: Vec<Piece>,
}

pub type PieceView = (Seq<char>, Tone, bool);

pub type LineView = Seq<PieceView>;

pub open spec fn piece_views(v: Seq<Piece>) -> Seq<PieceView> {
    v.map_values(|p: Piece| (p.text@, p.tone, p.bold))
}

pub open spec fn line_views(v: Seq<ShownLine>) -> Seq<LineView> {
    v.map_values(|l: ShownLine| piece_views(l.pieces@))
}

/// The text of a line: its pieces' texts one after another.
pub open spec fn line_text_spec(l: LineView) -> Seq<char>
    decreases l.len(),
{
    if l.len() == 0 {
        Seq::empty()
    } else {
        line_text_spec(l.drop_last()) + l.last().0
    }
}

/// A line of one piece.
pub open spec fn one(text: Seq<char>, tone: Tone, bold: bool) -> LineView {
    seq![(text, tone, bold)]
}

fn piece(text: String, tone: Tone, bold: bool) -> (r: Piece)
    ensures
        r.text == text,
        r.tone == tone,
        r.bold == bold,
{
    Piece { text, tone, bold }
}

fn line1(text: String, tone: Tone, bold: bool) -> (r: ShownLine)
    ensures
        piece_views(r.pieces@) == one(text@, tone, bold),
{
    let mut pieces: Vec<Piece> = Vec::new();
    pieces.push(piece(text, tone, bold));
    assert(piece_views(pieces@) =~= one(text@, tone, bold));
    ShownLine { pieces }
}

impl ShownLine {
    /// The line's text.
    pub fn text(&self) -> (r: String)
        ensures
            r@ == line_text_spec(piece_views(self.pieces@)),
    {
        let mut r = String::new();
        let mut i: usize = 0;
        while i < self.pieces.len()
            invariant
                i <= self.pieces.len(),
                r@ == line_text_spec(piece_views(self.pieces@).take(i as int)),
            decreases self.pieces.len() - i,
        {
            assert(piece_views(self.pieces@).take(i + 1).drop_last() =~= piece_views(self.pieces@).take(i as int));
            push_str(&mut r, self.pieces[i].text.as_str());
            i = i + 1;
        }
        assert(piece_views(self.pieces@).take(self.pieces.len() as int) =~= piece_views(self.pieces@));
        r
    }
}

fn push_line(out: &mut Vec<ShownLine>, l: ShownLine)
    ensures
        line_views(final(out)@) == line_views(old(out)@).push(piece_views(l.pieces@)),
{
    out.push(l);
    assert(line_views(out@) =~= line_views(old(out)@).push(piece_views(l.pieces@)));
}

fn append_lines(out: &mut Vec<ShownLine>, more: Vec<ShownLine>)
    ensures
        line_views(final(out)@) == line_views(old(out)@) + line_views(more@),
{
    let mut more = more;
    let ghost m = line_views(more@);
    let mut k: usize = 0;
    let n = more.len();
    assert(m.skip(0) =~= m);
    while more.len() > 0
        invariant
            k + more@.len() == n,
            n == m.len(),
            line_views(more@) == m.skip(k as int),
            line_views(out@) == line_views(old(out)@) + m.take(k as int),
        decreases more.len(),
    {
        let ghost before = more@;
        let l = more.remove(0);
        assert(line_views(before)[0] == piece_views(l.pieces@));
        assert(m.skip(k as int)[0] == m[k as int]);
        assert(piece_views(l.pieces@) == m[k as int]);
        push_line(out, l);
        assert(m.take(k + 1) =~= m.take(k as int).push(m[k as int]));
        assert(more@ =~= before.drop_first());
        assert(line_views(more@) =~= line_views(before).drop_first());
        k = k + 1;
        assert(line_views(more@) =~= m.skip(k as int));
    }
    assert(m.take(n as int) =~= m);
}

// ---------------------------------------------------------------------------
// Event text

/// The lines of a text as the terminal splits it: one empty line for empty text, else the
/// text's lines.
pub open spec fn content_texts(content: Seq<char>) -> Seq<Seq<char>> {
    if content.len() == 0 {
        seq![Seq::empty()]
    } else {
        lines_seq(content)
    }
}

pub open spec fn content_line(t: Seq<char>, tone: Tone, prefix: Option<Seq<char>>) -> LineView {
    match prefix {
        Some(p) => seq![(p, Tone::Comment, false), (t, tone, false)],
        None => seq![(t, tone, false)],
    }
}

pub open spec fn lines_of(texts: Seq<Seq<char>>, tone: Tone, prefix: Option<Seq<char>>) -> Seq<LineView> {
    texts.map_values(|t: Seq<char>| content_line(t, tone, prefix))
}

/// A text as lines of one colour, each after a prefix in the comment colour when one is given.
pub open spec fn content_spec(content: Seq<char>, tone: Tone, prefix: Option<Seq<char>>) -> Seq<LineView> {
    lines_of(content_texts(content), tone, prefix)
}

pub open spec fn opt_view(p: Option<&str>) -> Option<Seq<char>> {
    match p {
        Some(s) => Some(s@),
        None => None,
    }
}

pub fn content_lines(content: &str, tone: Tone, prefix: Option<&str>) -> (r: Vec<ShownLine>)
    ensures
        line_views(r@) == content_spec(content@, tone, opt_view(prefix)),
{
    let texts: Vec<String> = if content.unicode_len() == 0 {
        let mut v: Vec<String> = Vec::new();
        v.push(String::new());
        assert(views(v@) =~= seq![Seq::<char>::empty()]);
        v
    } else {
        lines(content)
    };
    let mut out: Vec<ShownLine> = Vec::new();
    let mut i: usize = 0;
    while i < texts.len()
        invariant
            i <= texts.len(),
            views(texts@) == content_texts(content@),
            line_views(out@) == lines_of(views(texts@).take(i as int), tone, opt_view(prefix)),
        decreases texts.len() - i,
    {
        let t = texts[i].clone();
        assert(t@ == views(texts@)[i as int]);
        let mut pieces: Vec<Piece> = Vec::new();
        match prefix {
            Some(p) => {
                pieces.push(piece(to_owned_str(p), Tone::Comment, false));
                pieces.push(piece(t, tone, false));
            },
            None => {
                pieces.push(piece(t, tone, false));
            },
        }
        assert(piece_views(pieces@) =~= content_line(views(texts@)[i as int], tone, opt_view(prefix)));
        let ghost prev = line_views(out@);
        push_line(&mut out, ShownLine { pieces });
        assert(lines_of(views(texts@).take(i + 1), tone, opt_view(prefix)) =~= prev.push(
            content_line(views(texts@)[i as int], tone, opt_view(prefix)),
        ));
        i = i + 1;
    }
    assert(views(texts@).take(texts.len() as int) =~= views(texts@));
    out
}

/// A message of the user: its lines after a bar, in green, without a label.
pub fn user_message_lines(content: &str) -> (r: Vec<ShownLine>)
    ensures
        line_views(r@) == content_spec(content@, Tone::Green, Some("▌ "@)),
{
    content_lines(content, Tone::Green, Some("▌ "))
}

/// A message in a box: a bold bar with its label, then its lines indented.
pub open spec fn boxed_spec(label: Seq<char>, content: Seq<char>, tone: Tone) -> Seq<LineView> {
    seq![one("▌ "@ + label, tone, true)] + content_spec(content, tone, Some("  "@))
}

pub fn boxed_message(label: &str, content: &str, tone: Tone) -> (r: Vec<ShownLine>)
    ensures
        line_views(r@) == boxed_spec(label@, content@, tone),
{
    let mut out: Vec<ShownLine> = Vec::new();
    push_line(&mut out, line1(cat("▌ ", label), tone, true));
    append_lines(&mut out, content_lines(content, tone, Some("  ")));
    out
}

/// The colour of an event's text.
pub open spec fn event_tone(e: EventMsg) -> Tone {
    match e {
        EventMsg::SystemMessage(_) => Tone::Comment,
        EventMsg::UserMessage(_) => Tone::Green,
        EventMsg::AssistantMessage(_) => Tone::Answer,
        EventMsg::ImageAttachment(_) => Tone::Cyan,
        EventMsg::ToolCall(_) => Tone::Purple,
        EventMsg::ToolResult(r) => result_tone(r),
        EventMsg::CommandRun(_) => Tone::Purple,
        EventMsg::CommandOutput(_) => Tone::Process,
        EventMsg::Compaction(_) | EventMsg::BranchSummary(_) => Tone::Yellow,
        EventMsg::FileEdit(_) => Tone::Cyan,
        EventMsg::Error(_) => Tone::Red,
        EventMsg::Final(_) => Tone::Cyan,
    }
}

/// A tool result is red when it failed, orange when truncated, else green.
pub open spec fn result_tone(r: ToolResultEvent) -> Tone {
    if r.status == ToolResultStatus::Error {
        Tone::Red
    } else if r.truncated {
        Tone::Orange
    } else {
        Tone::Green
    }
}

pub fn event_style(event: &EventMsg) -> (r: Tone)
    ensures
        r == event_tone(*event),
{
    match event {
        EventMsg::SystemMessage(_) => Tone::Comment,
        EventMsg::UserMessage(_) => Tone::Green,
        EventMsg::AssistantMessage(_) => Tone::Answer,
        EventMsg::ImageAttachment(_) => Tone::Cyan,
        EventMsg::ToolCall(_) => Tone::Purple,
        EventMsg::ToolResult(r) => tool_result_color(r),
        EventMsg::CommandRun(_) => Tone::Purple,
        EventMsg::CommandOutput(_) => Tone::Process,
        EventMsg::Compaction(_) | EventMsg::BranchSummary(_) => Tone::Yellow,
        EventMsg::FileEdit(_) => Tone::Cyan,
        EventMsg::Error(_) => Tone::Red,
        EventMsg::Final(_) => Tone::Cyan,
    }
}

pub fn tool_result_color(event: &ToolResultEvent) -> (r: Tone)
    ensures
        r == result_tone(*event),
{
    if matches!(event.status, ToolResultStatus::Error) {
        Tone::Red
    } else if event.truncated {
        Tone::Orange
    } else {
        Tone::Green
    }
}

/// A system or final message: its label in bold, then its lines.
pub open spec fn labeled_spec(e: EventMsg) -> Seq<LineView> {
    seq![one(e.label_spec(), event_tone(e), true)] + content_spec(e.content_spec(), event_tone(e), None)
}

pub fn labeled_content_lines(event: &EventMsg) -> (r: Vec<ShownLine>)
    ensures
        line_views(r@) == labeled_spec(*event),
{
    let tone = event_style(event);
    let mut out: Vec<ShownLine> = Vec::new();
    push_line(&mut out, line1(to_owned_str(event.label()), tone, true));
    append_lines(&mut out, content_lines(event.content(), tone, None));
    out
}

pub open spec fn image_spec(e: ImageAttachmentEvent) -> Seq<LineView> {
    seq![
        one("▌ image attached"@, Tone::Cyan, true),
        one("$ "@ + e.file_name@, Tone::Process, false),
        one(e.summary@, Tone::Process, false),
        one("source: "@ + e.source_path@ + "  mime: "@ + e.mime_type@, Tone::Comment, false),
        one("queued for the next prompt"@, Tone::Process, false),
    ]
}

/// An attached image: its name, summary and source, and that it waits for the next prompt.
pub fn image_attachment_lines(event: &ImageAttachmentEvent) -> (r: Vec<ShownLine>)
    ensures
        line_views(r@) == image_spec(*event),
{
    let mut out: Vec<ShownLine> = Vec::new();
    push_line(&mut out, line1(to_owned_str("▌ image attached"), Tone::Cyan, true));
    push_line(&mut out, line1(cat("$ ", event.file_name.as_str()), Tone::Process, false));
    push_line(&mut out, line1(event.summary.clone(), Tone::Process, false));
    let mut src = cat("source: ", event.source_path.as_str());
    push_str(&mut src, "  mime: ");
    push_str(&mut src, event.mime_type.as_str());
    push_line(&mut out, line1(src, Tone::Comment, false));
    push_line(&mut out, line1(to_owned_str("queued for the next prompt"), Tone::Process, false));
    assert(line_views(out@) =~= image_spec(*event));
    out
}

pub open spec fn folded_spec(title: Seq<char>, count: nat, summary: Seq<char>) -> Seq<LineView> {
    seq![one(title, Tone::Yellow, true), one("$ folded "@ + dec(count) + " event(s)"@, Tone::Comment, false)]
        + content_spec(summary, Tone::Process, Some("│ "@))
}

fn folded_lines(title: String, count: usize, summary: &str) -> (r: Vec<ShownLine>)
    ensures
        line_views(r@) == folded_spec(title@, count as nat, summary@),
{
    let mut out: Vec<ShownLine> = Vec::new();
    push_line(&mut out, line1(title, Tone::Yellow, true));
    let mut f = cat("$ folded ", usize_to_string(count).as_str());
    push_str(&mut f, " event(s)");
    push_line(&mut out, line1(f, Tone::Comment, false));
    append_lines(&mut out, content_lines(summary, Tone::Process, Some("│ ")));
    out
}

/// A compaction: how many events it folded, and its summary.
pub fn compaction_lines(event: &CompactionEvent) -> (r: Vec<ShownLine>)
    ensures
        line_views(r@) == folded_spec("session compacted · continue"@, event.folded_event_count as nat, event.summary@),
{
    folded_lines(to_owned_str("session compacted · continue"), event.folded_event_count, event.summary.as_str())
}

/// A branch summary: the session it came from, how many events it folded, and its summary.
pub fn branch_summary_lines(event: &BranchSummaryEvent) -> (r: Vec<ShownLine>)
    ensures
        line_views(r@) == folded_spec(
            "branch summary · from "@ + event.source_session_id@,
            event.folded_event_count as nat,
            event.summary@,
        ),
{
    folded_lines(cat("branch summary · from ", event.source_session_id.as_str()), event.folded_event_count, event.summary.as_str())
}

pub open spec fn file_edit_spec(e: FileEditEvent) -> Seq<LineView> {
    seq![
        one(
            match e.action {
                FileEditAction::Applied => "# Edit checkpoint"@,
                FileEditAction::RolledBack => "# Rewind edit"@,
            },
            Tone::Cyan,
            true,
        ),
        one("$ "@ + e.summary@, Tone::Process, false),
    ] + content_spec(e.checkpoint.diff@, Tone::Process, Some("│ "@))
}

/// A file edit: whether it was made or undone, its summary, and its diff.
pub fn file_edit_lines(event: &FileEditEvent) -> (r: Vec<ShownLine>)
    ensures
        line_views(r@) == file_edit_spec(*event),
{
    let title = match event.action {
        FileEditAction::Applied => "# Edit checkpoint",
        FileEditAction::RolledBack => "# Rewind edit",
    };
    let mut out: Vec<ShownLine> = Vec::new();
    push_line(&mut out, line1(to_owned_str(title), Tone::Cyan, true));
    push_line(&mut out, line1(cat("$ ", event.summary.as_str()), Tone::Process, false));
    append_lines(&mut out, content_lines(event.checkpoint.diff.as_str(), Tone::Process, Some("│ ")));
    out
}

pub open spec fn command_head_spec(e: CommandRunEvent) -> Seq<LineView> {
    seq![
        one("# Run command"@, Tone::Cyan, true),
        one("$ "@ + e.command@, Tone::Process, false),
        one("cwd: "@ + e.cwd@ + "  timeout: "@ + dec(e.timeout_seconds as nat) + "s"@, Tone::Comment, false),
    ]
}

/// A command that was run: the command, where, and its time limit.
pub fn command_run_lines(event: &CommandRunEvent) -> (r: Vec<ShownLine>)
    ensures
        line_views(r@) == command_head_spec(*event),
{
    let mut out: Vec<ShownLine> = Vec::new();
    push_line(&mut out, line1(to_owned_str("# Run command"), Tone::Cyan, true));
    push_line(&mut out, line1(cat("$ ", event.command.as_str()), Tone::Process, false));
    let mut c = cat("cwd: ", event.cwd.as_str());
    push_str(&mut c, "  timeout: ");
    push_str(&mut c, u64_to_string(event.timeout_seconds).as_str());
    push_str(&mut c, "s");
    push_line(&mut out, line1(c, Tone::Comment, false));
    assert(line_views(out@) =~= command_head_spec(*event));
    out
}

pub open spec fn output_spec(e: CommandOutputEvent) -> Seq<LineView> {
    seq![
        seq![
            (if e.stream@ == "stderr"@ { "stderr"@ } else { "stdout"@ }, Tone::Orange, false),
            (" "@, Tone::Plain, false),
            (e.content@, Tone::Process, false),
        ],
    ]
}

/// A line of a command's output on its own: the stream's name and the text.
pub fn command_output_lines(event: &CommandOutputEvent) -> (r: Vec<ShownLine>)
    ensures
        line_views(r@) == output_spec(*event),
{
    let prefix = if str_eq(event.stream.as_str(), "stderr") {
        "stderr"
    } else {
        "stdout"
    };
    let mut pieces: Vec<Piece> = Vec::new();
    pieces.push(piece(to_owned_str(prefix), Tone::Orange, false));
    pieces.push(piece(to_owned_str(" "), Tone::Plain, false));
    pieces.push(piece(event.content.clone(), Tone::Process, false));
    assert(piece_views(pieces@) =~= output_spec(*event)[0]);
    let mut out: Vec<ShownLine> = Vec::new();
    push_line(&mut out, ShownLine { pieces });
    assert(line_views(out@) =~= output_spec(*event));
    out
}

/// At most four lines of a stream, after how many it had.
pub open spec fn stream_spec(stream: Seq<char>, entries: Seq<Seq<char>>, tone: Tone) -> Seq<LineView> {
    if entries.len() == 0 {
        seq![one(stream + ": (empty)"@, Tone::Comment, false)]
    } else {
        let shown = if entries.len() < 4 { entries } else { entries.take(4) };
        seq![one(stream + ": "@ + dec(entries.len()) + " line(s)"@, Tone::Comment, false)]
            + shown.map_values(|l: Seq<char>| one("│ "@ + l, tone, false)) + if entries.len() > 4 {
            seq![one("│ ... "@ + dec((entries.len() - 4) as nat) + " more lines (collapsed)"@, Tone::Comment, false)]
        } else {
            Seq::empty()
        }
    }
}

pub fn command_stream_preview_lines(stream: &str, entries: &Vec<String>, tone: Tone) -> (r: Vec<ShownLine>)
    ensures
        line_views(r@) == stream_spec(stream@, views(entries@), tone),
{
    let mut out: Vec<ShownLine> = Vec::new();
    if entries.len() == 0 {
        push_line(&mut out, line1(cat(stream, ": (empty)"), Tone::Comment, false));
        assert(line_views(out@) =~= stream_spec(stream@, views(entries@), tone));
        return out;
    }
    let mut h = cat(stream, ": ");
    push_str(&mut h, usize_to_string(entries.len()).as_str());
    push_str(&mut h, " line(s)");
    push_line(&mut out, line1(h, Tone::Comment, false));
    let n = if entries.len() < 4 {
        entries.len()
    } else {
        4
    };
    let ghost shown = if entries@.len() < 4 { views(entries@) } else { views(entries@).take(4) };
    let mut i: usize = 0;
    while i < n
        invariant
            i <= n,
            n == shown.len(),
            n <= entries@.len(),
            shown == views(entries@).take(n as int),
            line_views(out@) == seq![one(stream@ + ": "@ + dec(entries@.len()) + " line(s)"@, Tone::Comment, false)]
                + shown.take(i as int).map_values(|l: Seq<char>| one("│ "@ + l, tone, false)),
        decreases n - i,
    {
        let ghost prev = line_views(out@);
        let t = cat("│ ", entries[i].as_str());
        push_line(&mut out, line1(t, tone, false));
        assert(shown.take(i + 1).map_values(|l: Seq<char>| one("│ "@ + l, tone, false)) =~= shown.take(i as int).map_values(
            |l: Seq<char>| one("│ "@ + l, tone, false),
        ).push(one("│ "@ + entries@[i as int]@, tone, false)));
        i = i + 1;
    }
    assert(shown.take(n as int) =~= shown);
    if entries.len() > 4 {
        let mut m = cat("│ ... ", usize_to_string(entries.len() - 4).as_str());
        push_str(&mut m, " more lines (collapsed)");
        push_line(&mut out, line1(m, Tone::Comment, false));
    }
    assert(line_views(out@) =~= stream_spec(stream@, views(entries@), tone));
    out
}

/// The texts of the outputs of a stream: `stderr`, or everything else.
pub open spec fn stream_texts(outputs: Seq<CommandOutputEvent>, stderr: bool) -> Seq<Seq<char>>
    decreases outputs.len(),
{
    if outputs.len() == 0 {
        Seq::empty()
    } else {
        let prev = stream_texts(outputs.drop_last(), stderr);
        if (outputs.last().stream@ == "stderr"@) == stderr {
            prev.push(outputs.last().content@)
        } else {
            prev
        }
    }
}

fn stream_texts_exec(outputs: &Vec<CommandOutputEvent>, stderr: bool) -> (r: Vec<String>)
    ensures
        views(r@) == stream_texts(outputs@, stderr),
{
    let mut out: Vec<String> = Vec::new();
    let mut i: usize = 0;
    while i < outputs.len()
        invariant
            i <= outputs.len(),
            views(out@) == stream_texts(outputs@.take(i as int), stderr),
        decreases outputs.len() - i,
    {
        assert(outputs@.take(i + 1).drop_last() =~= outputs@.take(i as int));
        if str_eq(outputs[i].stream.as_str(), "stderr") == stderr {
            let x = outputs[i].content.clone();
            let ghost prev = out@;
            out.push(x);
            assert(views(out@) =~= views(prev).push(x@));
        }
        i = i + 1;
    }
    assert(outputs@.take(outputs.len() as int) =~= outputs@);
    out
}

pub open spec fn command_block_spec(run: CommandRunEvent, outputs: Seq<CommandOutputEvent>) -> Seq<LineView> {
    command_head_spec(run) + stream_spec("stdout"@, stream_texts(outputs, false), Tone::Process) + stream_spec(
        "stderr"@,
        stream_texts(outputs, true),
        Tone::Orange,
    )
}

/// A command with its output gathered under it: the command, then a preview of each stream.
pub fn command_block_lines(run: &CommandRunEvent, outputs: &Vec<CommandOutputEvent>) -> (r: Vec<ShownLine>)
    ensures
        line_views(r@) == command_block_spec(*run, outputs@),
{
    let mut out = command_run_lines(run);
    let stdout = stream_texts_exec(outputs, false);
    let stderr = stream_texts_exec(outputs, true);
    append_lines(&mut out, command_stream_preview_lines("stdout", &stdout, Tone::Process));
    append_lines(&mut out, command_stream_preview_lines("stderr", &stderr, Tone::Orange));
    out
}

// ---------------------------------------------------------------------------
// Tools

/// The kind of a tool, as the transcript tells them apart.
#[derive(Debug, Clone, Copy, PartialEq, Eq)]
pub enum ToolName {
    FindFiles,
    SearchText,
    ProposeEdit,
    ProposeEditBatch,
    ApplyPatch,
    ApplyPatchBatch,
    RewindEdit,
    RunCommand,
    Read,
    Other,
    Unknown,
}

impl ToolName {
    pub open spec fn of(name: Seq<char>) -> ToolName {
        if name == "find_files"@ || name == "find"@ {
            ToolName::FindFiles
        } else if name == "search_text"@ || name == "grep"@ {
            ToolName::SearchText
        } else if name == "propose_edit"@ {
            ToolName::ProposeEdit
        } else if name == "propose_edit_batch"@ {
            ToolName::ProposeEditBatch
        } else if name == "apply_patch"@ {
            ToolName::ApplyPatch
        } else if name == "apply_patch_batch"@ {
            ToolName::ApplyPatchBatch
        } else if name == "rewind_edit"@ || name == "rollback_edit"@ {
            ToolName::RewindEdit
        } else if name == "run_command"@ {
            ToolName::RunCommand
        } else if name == "read"@ {
            ToolName::Read
        } else {
            ToolName::Other
        }
    }

    pub fn from_str(name: &str) -> (r: Self)
        ensures
            r == Self::of(name@),
    {
        if str_eq(name, "find_files") || str_eq(name, "find") {
            ToolName::FindFiles
        } else if str_eq(name, "search_text") || str_eq(name, "grep") {
            ToolName::SearchText
        } else if str_eq(name, "propose_edit") {
            ToolName::ProposeEdit
        } else if str_eq(name, "propose_edit_batch") {
            ToolName::ProposeEditBatch
        } else if str_eq(name, "apply_patch") {
            ToolName::ApplyPatch
        } else if str_eq(name, "apply_patch_batch") {
            ToolName::ApplyPatchBatch
        } else if str_eq(name, "rewind_edit") || str_eq(name, "rollback_edit") {
            ToolName::RewindEdit
        } else if str_eq(name, "run_command") {
            ToolName::RunCommand
        } else if str_eq(name, "read") {
            ToolName::Read
        } else {
            ToolName::Other
        }
    }
}

pub const DEFAULT_TOOL_RESULT_DISPLAY_LINES: usize = 20;
pub const FIND_RESULT_DISPLAY_LINES: usize = 20;
pub const GREP_RESULT_DISPLAY_LINES: usize = 15;
pub const READ_RESULT_DISPLAY_LINES: usize = 40;

/// How many lines of a tool's result the transcript shows: fewer for searches, more for
/// reads and edits.
pub open spec fn display_limit_spec(t: ToolName) -> usize {
    match t {
        ToolName::SearchText => GREP_RESULT_DISPLAY_LINES,
        ToolName::FindFiles => FIND_RESULT_DISPLAY_LINES,
        ToolName::ProposeEdit | ToolName::ProposeEditBatch | ToolName::ApplyPatch | ToolName::ApplyPatchBatch
        | ToolName::RewindEdit | ToolName::Read => READ_RESULT_DISPLAY_LINES,
        ToolName::RunCommand | ToolName::Other | ToolName::Unknown => DEFAULT_TOOL_RESULT_DISPLAY_LINES,
    }
}

pub fn tool_result_display_limit(tool_name: ToolName) -> (r: usize)
    ensures
        r == display_limit_spec(tool_name),
{
    match tool_name {
        ToolName::SearchText => GREP_RESULT_DISPLAY_LINES,
        ToolName::FindFiles => FIND_RESULT_DISPLAY_LINES,
        ToolName::ProposeEdit => READ_RESULT_DISPLAY_LINES,
        ToolName::ProposeEditBatch => READ_RESULT_DISPLAY_LINES,
        ToolName::ApplyPatch => READ_RESULT_DISPLAY_LINES,
        ToolName::ApplyPatchBatch => READ_RESULT_DISPLAY_LINES,
        ToolName::RewindEdit => READ_RESULT_DISPLAY_LINES,
        ToolName::RunCommand => DEFAULT_TOOL_RESULT_DISPLAY_LINES,
        ToolName::Read => READ_RESULT_DISPLAY_LINES,
        ToolName::Other | ToolName::Unknown => DEFAULT_TOOL_RESULT_DISPLAY_LINES,
    }
}

/// A tool's result cut to `limit` lines, with a note of how many were left out.
pub open spec fn folded_content_spec(content: Seq<char>, limit: nat) -> Seq<char> {
    let ls = lines_seq(content);
    if ls.len() <= limit {
        content
    } else {
        join_seq(ls.take(limit as int), "\n"@) + "\n"@ + "... "@ + dec((ls.len() - limit) as nat)
            + " more lines (collapsed)"@
    }
}

pub fn folded_tool_result_content(content: &str, display_limit: usize) -> (r: String)
    ensures
        r@ == folded_content_spec(content@, display_limit as nat),
{
    let mut ls = lines(content);
    if ls.len() <= display_limit {
        return to_owned_str(content);
    }
    let remaining = ls.len() - display_limit;
    let ghost all = views(ls@);
    ls.truncate(display_limit);
    assert(views(ls@) =~= all.take(display_limit as int));
    let mut folded = join(&ls, "\n");
    push_str(&mut folded, "\n");
    push_str(&mut folded, "... ");
    push_str(&mut folded, usize_to_string(remaining).as_str());
    push_str(&mut folded, " more lines (collapsed)");
    folded
}

pub open spec fn tool_result_spec(e: ToolResultEvent, t: ToolName) -> Seq<LineView> {
    seq![
        seq![
            ("tool result"@, Tone::Comment, false),
            (" "@, Tone::Plain, false),
            (e.status.name(), result_tone(e), false),
            if e.truncated { (" · truncated"@, Tone::Orange, false) } else { (Seq::empty(), Tone::Plain, false) },
        ],
    ] + content_spec(folded_content_spec(e.content@, display_limit_spec(t) as nat), Tone::Process, Some("│ "@))
}

/// A tool's result: its status, then its content folded to the tool's limit.
pub fn tool_result_lines(event: &ToolResultEvent, tool_name: ToolName) -> (r: Vec<ShownLine>)
    ensures
        line_views(r@) == tool_result_spec(*event, tool_name),
{
    let tone = tool_result_color(event);
    let mut pieces: Vec<Piece> = Vec::new();
    pieces.push(piece(to_owned_str("tool result"), Tone::Comment, false));
    pieces.push(piece(to_owned_str(" "), Tone::Plain, false));
    pieces.push(piece(to_owned_str(event.status.as_str()), tone, false));
    if event.truncated {
        pieces.push(piece(to_owned_str(" · truncated"), Tone::Orange, false));
    } else {
        pieces.push(piece(String::new(), Tone::Plain, false));
    }
    assert(piece_views(pieces@) =~= tool_result_spec(*event, tool_name)[0]);
    let mut out: Vec<ShownLine> = Vec::new();
    push_line(&mut out, ShownLine { pieces });
    let limit = tool_result_display_limit(tool_name);
    let folded = folded_tool_result_content(event.content.as_str(), limit);
    append_lines(&mut out, content_lines(folded.as_str(), Tone::Process, Some("│ ")));
    assert(line_views(out@) =~= tool_result_spec(*event, tool_name));
    out
}

/// What the transcript calls a tool.
pub open spec fn tool_title_spec(name: Seq<char>) -> Seq<char> {
    if name == "ls"@ {
        "List directory"@
    } else if name == "find_files"@ || name == "find"@ {
        "Find files"@
    } else if name == "search_text"@ || name == "grep"@ {
        "Search text"@
    } else if name == "propose_edit"@ {
        "Edit preview"@
    } else if name == "propose_edit_batch"@ {
        "Edit preview batch"@
    } else if name == "apply_patch"@ {
        "Apply patch"@
    } else if name == "apply_patch_batch"@ {
        "Apply patch batch"@
    } else if name == "rewind_edit"@ || name == "rollback_edit"@ {
        "Rewind edit"@
    } else if name == "run_command"@ {
        "Run command"@
    } else if name == "read"@ {
        "Read file"@
    } else {
        "Run tool"@
    }
}

pub fn tool_title(name: &str) -> (r: &'static str)
    ensures
        r@ == tool_title_spec(name@),
{
    if str_eq(name, "ls") {
        "List directory"
    } else if str_eq(name, "find_files") || str_eq(name, "find") {
        "Find files"
    } else if str_eq(name, "search_text") || str_eq(name, "grep") {
        "Search text"
    } else if str_eq(name, "propose_edit") {
        "Edit preview"
    } else if str_eq(name, "propose_edit_batch") {
        "Edit preview batch"
    } else if str_eq(name, "apply_patch") {
        "Apply patch"
    } else if str_eq(name, "apply_patch_batch") {
        "Apply patch batch"
    } else if str_eq(name, "rewind_edit") || str_eq(name, "rollback_edit") {
        "Rewind edit"
    } else if str_eq(name, "run_command") {
        "Run command"
    } else if str_eq(name, "read") {
        "Read file"
    } else {
        "Run tool"
    }
}

pub open spec fn tool_call_spec(e: ToolCallEvent) -> Seq<LineView> {
    seq![
        one("# "@ + tool_title_spec(e.name@), Tone::Purple, true),
        one("$ "@ + call_summary(e.name@, e.arguments@), Tone::Process, false),
    ]
}

/// A tool call: what the tool does, then the call on one line.
pub fn tool_call_lines(event: &ToolCallEvent) -> (r: Vec<ShownLine>)
    ensures
        line_views(r@) == tool_call_spec(*event),
{
    let mut out: Vec<ShownLine> = Vec::new();
    push_line(&mut out, line1(cat("# ", tool_title(event.name.as_str())), Tone::Purple, true));
    let cmd = summarize_call(event.name.as_str(), event.arguments.as_str());
    push_line(&mut out, line1(cat("$ ", cmd.as_str()), Tone::Process, false));
    assert(line_views(out@) =~= tool_call_spec(*event));
    out
}

// ---------------------------------------------------------------------------
// The whole transcript

/// The lines of one event, the result of a tool shown by the kind of the last tool call.
pub open spec fn event_lines_spec(e: EventMsg, last_tool: ToolName) -> Seq<LineView> {
    match e {
        EventMsg::UserMessage(m) => content_spec(m.content@, Tone::Green, Some("▌ "@)),
        EventMsg::AssistantMessage(m) => content_spec(m.content@, Tone::Answer, None),
        EventMsg::ImageAttachment(i) => image_spec(i),
        EventMsg::ToolCall(c) => tool_call_spec(c),
        EventMsg::ToolResult(r) => tool_result_spec(r, last_tool),
        EventMsg::CommandRun(c) => command_head_spec(c),
        EventMsg::CommandOutput(o) => output_spec(o),
        EventMsg::Compaction(c) => folded_spec("session compacted · continue"@, c.folded_event_count as nat, c.summary@),
        EventMsg::BranchSummary(b) => folded_spec(
            "branch summary · from "@ + b.source_session_id@,
            b.folded_event_count as nat,
            b.summary@,
        ),
        EventMsg::FileEdit(f) => file_edit_spec(f),
        EventMsg::Error(x) => boxed_spec("error"@, x.message@, Tone::Red),
        EventMsg::SystemMessage(_) | EventMsg::Final(_) => labeled_spec(e),
    }
}

pub fn event_lines(event: &EventMsg, last_tool_name: ToolName) -> (r: Vec<ShownLine>)
    ensures
        line_views(r@) == event_lines_spec(*event, last_tool_name),
{
    match event {
        EventMsg::UserMessage(m) => user_message_lines(m.content.as_str()),
        EventMsg::AssistantMessage(m) => content_lines(m.content.as_str(), Tone::Answer, None),
        EventMsg::ImageAttachment(i) => image_attachment_lines(i),
        EventMsg::ToolCall(c) => tool_call_lines(c),
        EventMsg::ToolResult(r) => tool_result_lines(r, last_tool_name),
        EventMsg::CommandRun(c) => command_run_lines(c),
        EventMsg::CommandOutput(o) => command_output_lines(o),
        EventMsg::Compaction(c) => compaction_lines(c),
        EventMsg::BranchSummary(b) => branch_summary_lines(b),
        EventMsg::FileEdit(f) => file_edit_lines(f),
        EventMsg::Error(x) => boxed_message("error", x.message.as_str(), Tone::Red),
        EventMsg::SystemMessage(_) | EventMsg::Final(_) => labeled_content_lines(event),
    }
}

/// The outputs of the command with call id `id`, in order.
pub open spec fn outputs_of(events: Seq<Event>, id: Seq<char>) -> Seq<CommandOutputEvent>
    decreases events.len(),
{
    if events.len() == 0 {
        Seq::empty()
    } else {
        let prev = outputs_of(events.drop_last(), id);
        match events.last().msg {
            EventMsg::CommandOutput(o) => if o.call_id@ == id {
                prev.push(o)
            } else {
                prev
            },
            _ => prev,
        }
    }
}

/// Some event runs the command with call id `id`.
pub open spec fn has_run(events: Seq<Event>, id: Seq<char>) -> bool {
    exists|k: int| 0 <= k < events.len() && ((#[trigger] events[k]).msg matches EventMsg::CommandRun(r) && r.call_id@ == id)
}

fn outputs_of_exec(events: &Vec<Event>, id: &str) -> (r: Vec<CommandOutputEvent>)
    ensures
        r@ == outputs_of(events@, id@),
{
    let mut out: Vec<CommandOutputEvent> = Vec::new();
    let mut i: usize = 0;
    while i < events.len()
        invariant
            i <= events.len(),
            out@ == outputs_of(events@.take(i as int), id@),
        decreases events.len() - i,
    {
        assert(events@.take(i + 1).drop_last() =~= events@.take(i as int));
        if let EventMsg::CommandOutput(o) = &events[i].msg {
            if str_eq(o.call_id.as_str(), id) {
                let c = CommandOutputEvent {
                    call_id: o.call_id.clone(),
                    stream: o.stream.clone(),
                    content: o.content.clone(),
                    summary: o.summary.clone(),
                };
                out.push(c);
            }
        }
        i = i + 1;
    }
    assert(events@.take(events.len() as int) =~= events@);
    out
}

fn has_run_exec(events: &Vec<Event>, id: &str) -> (r: bool)
    ensures
        r == has_run(events@, id@),
{
    let mut i: usize = 0;
    while i < events.len()
        invariant
            i <= events.len(),
            forall|k: int| 0 <= k < i ==> !((#[trigger] events@[k]).msg matches EventMsg::CommandRun(r) && r.call_id@ == id@),
        decreases events.len() - i,
    {
        if let EventMsg::CommandRun(r) = &events[i].msg {
            if str_eq(r.call_id.as_str(), id) {
                return true;
            }
        }
        i = i + 1;
    }
    false
}

/// Where the shown transcript starts: at the last compaction or branch summary.
pub open spec fn transcript_start(events: Seq<Event>) -> nat
    decreases events.len(),
{
    if events.len() == 0 {
        0
    } else if events.last().msg is Compaction || events.last().msg is BranchSummary {
        (events.len() - 1) as nat
    } else {
        transcript_start(events.drop_last())
    }
}

proof fn lemma_transcript_start(events: Seq<Event>)
    ensures
        transcript_start(events) <= events.len(),
        events.len() > 0 ==> transcript_start(events) < events.len(),
    decreases events.len(),
{
    if events.len() > 0 {
        lemma_transcript_start(events.drop_last());
    }
}

/// The lines of one event in the transcript, if it shows on its own: a command gathers its
/// outputs, and an output of a command that has a run event shows only there.
pub open spec fn shown_event(all: Seq<Event>, e: EventMsg, last_tool: ToolName) -> Option<Seq<LineView>> {
    match e {
        EventMsg::CommandRun(r) => Some(command_block_spec(r, outputs_of(all, r.call_id@))),
        EventMsg::CommandOutput(o) => if has_run(all, o.call_id@) {
            None
        } else {
            Some(output_spec(o))
        },
        _ => Some(event_lines_spec(e, last_tool)),
    }
}

/// The kind of the last tool called among the events.
pub open spec fn last_tool_after(events: Seq<Event>) -> ToolName
    decreases events.len(),
{
    if events.len() == 0 {
        ToolName::Unknown
    } else {
        match events.last().msg {
            EventMsg::ToolCall(c) => ToolName::of(c.name@),
            _ => last_tool_after(events.drop_last()),
        }
    }
}

/// The transcript's lines for the shown events `shown`, with a blank line between events.
pub open spec fn transcript_spec(all: Seq<Event>, shown: Seq<Event>) -> Seq<LineView>
    decreases shown.len(),
{
    if shown.len() == 0 {
        Seq::empty()
    } else {
        let prev = transcript_spec(all, shown.drop_last());
        match shown_event(all, shown.last().msg, last_tool_after(shown.drop_last())) {
            None => prev,
            Some(ls) => if prev.len() == 0 {
                ls
            } else {
                prev.push(one(Seq::empty(), Tone::Plain, false)) + ls
            },
        }
    }
}

/// The transcript from the last compaction or branch summary on.
pub fn transcript_lines(events: &Vec<Event>) -> (r: Vec<ShownLine>)
    ensures
        line_views(r@) == transcript_spec(events@, events@.skip(transcript_start(events@) as int)),
{
    let mut start: usize = events.len();
    let mut found = false;
    assert(events@.take(start as int) =~= events@);
    while start > 0
        invariant_except_break
            start <= events.len(),
            !found,
            transcript_start(events@) == transcript_start(events@.take(start as int)),
        ensures
            found ==> start < events.len() && transcript_start(events@) == start,
            !found ==> transcript_start(events@) == 0 && start == 0,
        decreases start,
    {
        assert(events@.take(start as int).drop_last() =~= events@.take(start - 1));
        if crate::event::is_summary_event(&events[start - 1]) {
            start = start - 1;
            found = true;
            break;
        }
        start = start - 1;
    }
    proof {
        if !found {
            assert(events@.take(0) =~= Seq::<Event>::empty());
        }
        assert(events@.take(events.len() as int) =~= events@);
    }
    let ghost shown = events@.skip(start as int);
    let mut out: Vec<ShownLine> = Vec::new();
    let mut last_tool = ToolName::Unknown;
    let mut i = start;
    assert(shown.take(0) =~= Seq::<Event>::empty());
    while i < events.len()
        invariant
            start <= i <= events.len(),
            shown == events@.skip(start as int),
            line_views(out@) == transcript_spec(events@, shown.take(i - start)),
            last_tool == last_tool_after(shown.take(i - start)),
        decreases events.len() - i,
    {
        let ghost t = shown.take(i - start + 1);
        assert(t.drop_last() =~= shown.take(i - start));
        assert(t.last() == events@[i as int]);
        let rendered: Option<Vec<ShownLine>> = match &events[i].msg {
            EventMsg::CommandRun(r) => {
                let outs = outputs_of_exec(events, r.call_id.as_str());
                Some(command_block_lines(r, &outs))
            },
            EventMsg::CommandOutput(o) => if has_run_exec(events, o.call_id.as_str()) {
                None
            } else {
                Some(command_output_lines(o))
            },
            other => Some(event_lines(other, last_tool)),
        };
        match rendered {
            None => {},
            Some(ls) => {
                if out.len() > 0 {
                    let mut pieces: Vec<Piece> = Vec::new();
                    pieces.push(piece(String::new(), Tone::Plain, false));
                    assert(piece_views(pieces@) =~= one(Seq::empty(), Tone::Plain, false));
                    push_line(&mut out, ShownLine { pieces });
                }
                append_lines(&mut out, ls);
            },
        }
        if let EventMsg::ToolCall(c) = &events[i].msg {
            last_tool = ToolName::from_str(c.name.as_str());
        }
        i = i + 1;
    }
    assert(shown.take(events.len() - start) =~= shown);
    out
}

// ---------------------------------------------------------------------------
// Windows

/// The lines of a transcript of `len` lines that fit in `height` rows, `scroll` rows up
/// from the bottom (clamped at the top).
pub open spec fn visible_window(len: nat, height: nat, scroll: nat) -> (nat, nat) {
    if height == 0 {
        (0, 0)
    } else {
        let max_start: nat = if len > height { (len - height) as nat } else { 0 };
        let back: nat = if scroll < max_start { scroll } else { max_start };
        let start: nat = (max_start - back) as nat;
        let end: nat = if start + height < len { start + height } else { len };
        (start, end)
    }
}

pub fn visible_transcript_lines(lines: &Vec<ShownLine>, visible_height: usize, scroll_from_bottom: usize) -> (r: Vec<ShownLine>)
    ensures
        line_views(r@) == line_views(lines@).subrange(
            visible_window(lines@.len(), visible_height as nat, scroll_from_bottom as nat).0 as int,
            visible_window(lines@.len(), visible_height as nat, scroll_from_bottom as nat).1 as int,
        ),
{
    let mut out: Vec<ShownLine> = Vec::new();
    if visible_height == 0 {
        assert(line_views(out@) =~= line_views(lines@).subrange(0, 0));
        return out;
    }
    let max_start = if lines.len() > visible_height {
        lines.len() - visible_height
    } else {
        0
    };
    let back = if scroll_from_bottom < max_start {
        scroll_from_bottom
    } else {
        max_start
    };
    let start = max_start - back;
    let end = if visible_height < lines.len() - start {
        start + visible_height
    } else {
        lines.len()
    };
    let mut i = start;
    while i < end
        invariant
            start <= i <= end <= lines.len(),
            line_views(out@) == line_views(lines@).subrange(start as int, i as int),
        decreases end - i,
    {
        let l = ShownLine { pieces: copy_pieces(&lines[i].pieces) };
        push_line(&mut out, l);
        i = i + 1;
        assert(line_views(out@) =~= line_views(lines@).subrange(start as int, i as int));
    }
    out
}

fn copy_pieces(v: &Vec<Piece>) -> (r: Vec<Piece>)
    ensures
        piece_views(r@) == piece_views(v@),
{
    let mut out: Vec<Piece> = Vec::new();
    let mut i: usize = 0;
    while i < v.len()
        invariant
            i <= v.len(),
            piece_views(out@) == piece_views(v@).take(i as int),
        decreases v.len() - i,
    {
        let p = piece(v[i].text.clone(), v[i].tone, v[i].bold);
        assert((p.text@, p.tone, p.bold) == piece_views(v@)[i as int]);
        let ghost prev = out@;
        out.push(p);
        assert(piece_views(out@) =~= piece_views(prev).push((p.text@, p.tone, p.bold)));
        i = i + 1;
        assert(piece_views(out@) =~= piece_views(v@).take(i as int));
    }
    assert(piece_views(v@).take(v.len() as int) =~= piece_views(v@));
    out
}

/// The rows of a list of `total` items shown in `height` rows around the selected one.
pub open spec fn picker_window_spec(total: nat, height: nat, selected: nat) -> (nat, nat) {
    if total == 0 || height == 0 {
        (0, 0)
    } else {
        let h: nat = if height < total { height } else { total };
        let s0: nat = if selected > h / 2 { (selected - h / 2) as nat } else { 0 };
        let s: nat = if s0 + h > total { (total - h) as nat } else { s0 };
        (s, s + h)
    }
}

pub fn picker_visible_window(total: usize, area_height: usize, selected: usize) -> (r: (usize, usize))
    ensures
        (r.0 as nat, r.1 as nat) == picker_window_spec(total as nat, area_height as nat, selected as nat),
        r.0 <= r.1 <= total,
{
    if total == 0 || area_height == 0 {
        return (0, 0);
    }
    let height = if area_height < total {
        area_height
    } else {
        total
    };
    let mut start = if selected > height / 2 {
        selected - height / 2
    } else {
        0
    };
    if start > total - height {
        start = total - height;
    }
    (start, start + height)
}

/// How long the model has been at work: seconds, or minutes and two-digit seconds.
pub open spec fn elapsed_spec(secs: u64) -> Seq<char> {
    if secs < 60 {
        dec(secs as nat) + "s"@
    } else {
        dec((secs / 60) as nat) + "m"@ + (if secs % 60 < 10 { "0"@ } else { Seq::empty() }) + dec((secs % 60) as nat)
            + "s"@
    }
}

pub fn runtime_elapsed_text(secs: u64) -> (r: String)
    ensures
        r@ == elapsed_spec(secs),
{
    if secs < 60 {
        return cat(u64_to_string(secs).as_str(), "s");
    }
    let mut r = cat(u64_to_string(secs / 60).as_str(), "m");
    if secs % 60 < 10 {
        push_str(&mut r, "0");
    } else {
        assert(r@ + Seq::<char>::empty() =~= r@);
    }
    push_str(&mut r, u64_to_string(secs % 60).as_str());
    push_str(&mut r, "s");
    r
}

/// The home screen shows while nothing but system messages has happened.
pub open spec fn show_home_spec(input: Seq<char>, submissions: nat, events: Seq<Event>) -> bool {
    input.len() == 0 && submissions == 0 && forall|k: int| 0 <= k < events.len() ==> (#[trigger] events[k]).msg is SystemMessage
}

pub fn show_home(app: &crate::app::AppState) -> (r: bool)
    ensures
        r == show_home_spec(app.input@, app.submissions@.len(), app.events@),
{
    if app.input.as_str().unicode_len() != 0 || app.submissions.len() != 0 {
        return false;
    }
    let mut i: usize = 0;
    while i < app.events.len()
        invariant
            i <= app.events.len(),
            forall|k: int| 0 <= k < i ==> (#[trigger] app.events@[k]).msg is SystemMessage,
        decreases app.events.len() - i,
    {
        match app.events[i].msg {
            EventMsg::SystemMessage(_) => {},
            _ => {
                return false;
            },
        }
        i = i + 1;
    }
    true
}


// ---------------------------------------------------------------------------
// The editor's cursor

/// How many columns a text takes on a terminal, by the Unicode width of its characters.
pub uninterp spec fn unicode_display_width(s: Seq<char>) -> usize;

/// `UnicodeWidthStr::width` of the `unicode-width` crate: the columns that the text takes.
#[verifier::external_body]
fn display_width(s: &str) -> (r: usize)
    ensures
        r == unicode_display_width(s@),
{
    unicode_width::UnicodeWidthStr::width(s)
}

/// A rectangle of the terminal.
#[derive(Debug, Clone, Copy, PartialEq, Eq)]
pub struct Area {
    pub x: u16,
    pub y: u16,
    pub width: u16,
    pub height: u16,
}

pub open spec fn sat_add16(a: int, b: int) -> int {
    if a + b > u16::MAX {
        u16::MAX as int
    } else {
        a + b
    }
}

pub open spec fn sat_sub16(a: int, b: int) -> int {
    if a < b {
        0
    } else {
        a - b
    }
}

/// Where the cursor stands in the editor: after the prompt and the input, inside the border.
pub open spec fn cursor_spec(area: Area, prompt_width: usize, input_width: usize) -> (int, int) {
    let x = sat_add16(sat_add16(sat_add16(area.x as int, 1), (prompt_width as u16) as int), (input_width as u16) as int);
    let right = sat_add16(area.x as int, area.width as int);
    let limit = sat_sub16(right, 2);
    (if x < limit { x } else { limit }, sat_add16(area.y as int, 1))
}

pub fn editor_cursor_position(area: Area, input: &str) -> (r: (u16, u16))
    ensures
        (r.0 as int, r.1 as int) == cursor_spec(area, unicode_display_width("> "@), unicode_display_width(input@)),
{
    let prompt_width = display_width("> ") as u16;
    let input_width = display_width(input) as u16;
    let x = area.x.saturating_add(1).saturating_add(prompt_width).saturating_add(input_width);
    let right = area.x.saturating_add(area.width);
    let limit = right.saturating_sub(2);
    let cx = if x < limit {
        x
    } else {
        limit
    };
    (cx, area.y.saturating_add(1))
}

} // verus!
