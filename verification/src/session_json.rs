//! The JSON lines of a session file.
//!
//! Each line is an object with a `timestamp`, a `type` and a `payload`: the first line of a
//! session is its `session_meta`, every later line an `event_msg` whose payload holds the
//! event's id, its type and its fields. Objects are written with their keys in sorted order.
use vstd::prelude::*;
use crate::ai::{hex_char, unicode_escape};
use crate::ai::openai::{json_object_raw, raw_fields, raw_get, scalar_fields};
use crate::event::{
    image_summary, tool_call_summary, BranchSummaryEvent, CommandOutputEvent, CommandRunEvent,
    CompactionEvent, Event, EventMsg, FileEditAction, FileEditEvent, ImageAttachmentEvent,
    ToolCallEvent, ToolResultEvent,
};
use crate::session::{SessionItem, SessionLine, SessionMeta};
use crate::text::{cat3, chars_of, dec, push_char, join, join_seq, push_str, str_eq, to_owned_str, u64_to_string, usize_to_string, views};
use crate::tool::{
    field_views, first_line_value, json_array_items, json_get, json_get_exec, json_object_fields,
    pair_views, serde_json_array_items, JsonField, JsonFieldView, ToolResultStatus,
};
use crate::workspace::EditCheckpoint;

verus! {

// ---------------------------------------------------------------------------
// Writing

/// The text of one character inside a JSON string, as `serde_json` writes it: the quote, the
/// backslash, backspace, form feed, newline, carriage return and tab by their short forms,
/// other characters below U+0020 as `\u` and four lower-case hexadecimal digits, and every
/// other character as it is.
pub open spec fn string_char(c: char) -> Seq<char> {
    if c == '"' {
        "\\\""@
    } else if c == '\\' {
        "\\\\"@
    } else if c == '\u{8}' {
        "\\b"@
    } else if c == '\u{c}' {
        "\\f"@
    } else if c == '\n' {
        "\\n"@
    } else if c == '\r' {
        "\\r"@
    } else if c == '\t' {
        "\\t"@
    } else if (c as u32) < 0x20 {
        unicode_escape((c as u32) as nat)
    } else {
        seq![c]
    }
}

/// Text as it stands between the quotes of a JSON string.
#[verifier::opaque]
pub open spec fn string_body(s: Seq<char>) -> Seq<char>
    decreases s.len(),
{
    if s.len() == 0 {
        Seq::empty()
    } else {
        string_body(s.drop_last()) + string_char(s.last())
    }
}

/// A JSON string holding `s`.
pub open spec fn jstr(s: Seq<char>) -> Seq<char> {
    "\""@ + string_body(s) + "\""@
}

/// A JSON string, or `null`.
pub open spec fn jopt(o: Option<String>) -> Seq<char> {
    match o {
        Some(s) => jstr(s@),
        None => "null"@,
    }
}

pub open spec fn jbool(b: bool) -> Seq<char> {
    if b {
        "true"@
    } else {
        "false"@
    }
}

/// One member of an object: the key, a colon, the value's text.
pub open spec fn member(key: Seq<char>, value: Seq<char>) -> Seq<char> {
    jstr(key) + ":"@ + value
}

/// An object of these members, in this order.
pub open spec fn jobj(members: Seq<Seq<char>>) -> Seq<char> {
    "{"@ + join_seq(members, ","@) + "}"@
}

/// An array of these items.
pub open spec fn jarr(items: Seq<Seq<char>>) -> Seq<char> {
    "["@ + join_seq(items, ","@) + "]"@
}

/// A member as written: its key, the text of its value, and the value as a reader of the JSON
/// object sees it.
pub open spec fn text_entry(key: Seq<char>, s: Seq<char>) -> (Seq<char>, Seq<char>, JsonFieldView) {
    (key, jstr(s), JsonFieldView::Text(s))
}

pub open spec fn opt_entry(key: Seq<char>, o: Option<String>) -> (Seq<char>, Seq<char>, JsonFieldView) {
    (key, jopt(o), match o {
        Some(s) => JsonFieldView::Text(s@),
        None => JsonFieldView::Other,
    })
}

pub open spec fn count_entry(key: Seq<char>, n: u64) -> (Seq<char>, Seq<char>, JsonFieldView) {
    (key, dec(n as nat), JsonFieldView::Unsigned(n))
}

pub open spec fn flag_entry(key: Seq<char>, b: bool) -> (Seq<char>, Seq<char>, JsonFieldView) {
    (key, jbool(b), JsonFieldView::Flag(b))
}

/// A member whose value is an object or an array.
pub open spec fn nested_entry(key: Seq<char>, t: Seq<char>) -> (Seq<char>, Seq<char>, JsonFieldView) {
    (key, t, JsonFieldView::Other)
}

pub open spec fn opt_number(o: Option<usize>) -> Seq<char> {
    match o {
        Some(n) => dec(n as nat),
        None => "null"@,
    }
}

pub open spec fn offset_entry(o: Option<usize>) -> (Seq<char>, Seq<char>, JsonFieldView) {
    ("next_offset"@, opt_number(o), match o {
        Some(n) => JsonFieldView::Unsigned(n as u64),
        None => JsonFieldView::Other,
    })
}

/// The members written for these entries.
pub open spec fn members(entries: Seq<(Seq<char>, Seq<char>, JsonFieldView)>) -> Seq<Seq<char>> {
    entries.map_values(|e: (Seq<char>, Seq<char>, JsonFieldView)| member(e.0, e.1))
}

pub open spec fn checkpoint_entries(c: EditCheckpoint) -> Seq<(Seq<char>, Seq<char>, JsonFieldView)> {
    seq![
        text_entry("after_content"@, c.after_content@),
        text_entry("base_hash"@, c.base_hash@),
        text_entry("before_content"@, c.before_content@),
        text_entry("checkpoint_id"@, c.checkpoint_id@),
        text_entry("diff"@, c.diff@),
        text_entry("path"@, c.path@),
        text_entry("result_hash"@, c.result_hash@),
    ]
}

pub open spec fn checkpoint_text(c: EditCheckpoint) -> Seq<char> {
    jobj(members(checkpoint_entries(c)))
}

pub open spec fn action_name(a: FileEditAction) -> Seq<char> {
    match a {
        FileEditAction::Applied => "applied"@,
        FileEditAction::RolledBack => "rolled_back"@,
    }
}

/// A file edit as an item of a tool result's `edits`.
pub open spec fn edit_entries(e: FileEditEvent) -> Seq<(Seq<char>, Seq<char>, JsonFieldView)> {
    seq![
        text_entry("action"@, action_name(e.action)),
        nested_entry("checkpoint"@, checkpoint_text(e.checkpoint)),
        opt_entry("rewound_checkpoint_id"@, e.rewound_checkpoint_id),
        text_entry("summary"@, e.summary@),
    ]
}

pub open spec fn edit_text(e: FileEditEvent) -> Seq<char> {
    jobj(members(edit_entries(e)))
}

pub open spec fn edits_text(s: Seq<FileEditEvent>) -> Seq<char> {
    jarr(s.map_values(|e: FileEditEvent| edit_text(e)))
}

/// The members of an event's payload, keys in sorted order.
pub open spec fn payload_entries(e: Event) -> Seq<(Seq<char>, Seq<char>, JsonFieldView)> {
    let id = text_entry("id"@, e.id@);
    match e.msg {
        EventMsg::SystemMessage(m) => seq![
            text_entry("content"@, m.content@),
            id,
            text_entry("type"@, "system_message"@),
        ],
        EventMsg::UserMessage(m) => seq![
            text_entry("content"@, m.content@),
            id,
            text_entry("type"@, "user_message"@),
        ],
        EventMsg::AssistantMessage(m) => seq![
            text_entry("content"@, m.content@),
            id,
            text_entry("type"@, "assistant_message"@),
        ],
        EventMsg::ImageAttachment(i) => seq![
            count_entry("byte_len"@, i.byte_len as u64),
            text_entry("data_url"@, i.data_url@),
            text_entry("file_name"@, i.file_name@),
            id,
            text_entry("mime_type"@, i.mime_type@),
            text_entry("source_path"@, i.source_path@),
            text_entry("summary"@, i.summary@),
            text_entry("type"@, "image_attachment"@),
        ],
        EventMsg::ToolCall(c) => seq![
            text_entry("arguments"@, c.arguments@),
            text_entry("call_id"@, c.call_id@),
            id,
            text_entry("name"@, c.name@),
            text_entry("type"@, "tool_call"@),
        ],
        EventMsg::ToolResult(r) => seq![
            text_entry("call_id"@, r.call_id@),
            text_entry("content"@, r.content@),
            nested_entry("edits"@, edits_text(r.edits@)),
            id,
            offset_entry(r.next_offset),
            text_entry("status"@, r.status.name()),
            flag_entry("truncated"@, r.truncated),
            text_entry("type"@, "tool_result"@),
        ],
        EventMsg::CommandRun(c) => seq![
            text_entry("call_id"@, c.call_id@),
            text_entry("command"@, c.command@),
            text_entry("cwd"@, c.cwd@),
            id,
            text_entry("summary"@, c.summary@),
            count_entry("timeout_seconds"@, c.timeout_seconds),
            text_entry("type"@, "command_run"@),
        ],
        EventMsg::CommandOutput(o) => seq![
            text_entry("call_id"@, o.call_id@),
            text_entry("content"@, o.content@),
            id,
            text_entry("stream"@, o.stream@),
            text_entry("summary"@, o.summary@),
            text_entry("type"@, "command_output"@),
        ],
        EventMsg::Compaction(c) => seq![
            count_entry("folded_event_count"@, c.folded_event_count as u64),
            id,
            text_entry("summary"@, c.summary@),
            text_entry("type"@, "compaction"@),
        ],
        EventMsg::BranchSummary(b) => seq![
            count_entry("folded_event_count"@, b.folded_event_count as u64),
            id,
            text_entry("source_session_id"@, b.source_session_id@),
            text_entry("summary"@, b.summary@),
            text_entry("type"@, "branch_summary"@),
        ],
        EventMsg::FileEdit(f) => seq![
            text_entry("action"@, action_name(f.action)),
            nested_entry("checkpoint"@, checkpoint_text(f.checkpoint)),
            id,
            opt_entry("rewound_checkpoint_id"@, f.rewound_checkpoint_id),
            text_entry("summary"@, f.summary@),
            text_entry("type"@, "file_edit"@),
        ],
        EventMsg::Error(m) => seq![id, text_entry("message"@, m.message@), text_entry("type"@, "error"@)],
        EventMsg::Final(m) => seq![id, text_entry("summary"@, m.summary@), text_entry("type"@, "final"@)],
    }
}

pub open spec fn payload_members(e: Event) -> Seq<Seq<char>> {
    members(payload_entries(e))
}

/// The text of an event's payload.
pub open spec fn payload_text(e: Event) -> Seq<char> {
    jobj(payload_members(e))
}

/// The members of a session's header payload; the format version is 1.
pub open spec fn meta_entries(m: SessionMeta) -> Seq<(Seq<char>, Seq<char>, JsonFieldView)> {
    seq![
        opt_entry("ai_model"@, m.ai_model),
        opt_entry("ai_provider"@, m.ai_provider),
        text_entry("app_version"@, m.app_version@),
        text_entry("cwd"@, m.cwd@),
        count_entry("format_version"@, 1),
        opt_entry("parent_session_id"@, m.parent_session_id),
        text_entry("session_id"@, m.session_id@),
    ]
}

pub open spec fn meta_text(m: SessionMeta) -> Seq<char> {
    jobj(members(meta_entries(m)))
}

pub open spec fn line_entries(l: SessionLine) -> Seq<(Seq<char>, Seq<char>, JsonFieldView)> {
    let (kind, payload) = match l.item {
        SessionItem::SessionMeta(m) => ("session_meta"@, meta_text(m)),
        SessionItem::EventMsg(e) => ("event_msg"@, payload_text(e)),
    };
    seq![nested_entry("payload"@, payload), text_entry("timestamp"@, l.timestamp@), text_entry("type"@, kind)]
}

/// The text of a session line.
pub open spec fn session_line_text(l: SessionLine) -> Seq<char> {
    jobj(members(line_entries(l)))
}

/// Escapes text for the inside of a JSON string, as `string_char` says.
fn string_escape(value: &str) -> (r: String)
    ensures
        r@ == string_body(value@),
{
    let v = chars_of(value);
    let mut out = String::new();
    let mut i: usize = 0;
    proof {
        reveal(string_body);
    }
    while i < v.len()
        invariant
            i <= v@.len(),
            v@ == value@,
            out@ == string_body(v@.take(i as int)),
        decreases v.len() - i,
    {
        assert(v@.take(i + 1).drop_last() =~= v@.take(i as int));
        proof {
            reveal(string_body);
        }
        let c = v[i];
        let u = c as u32;
        if c == '"' {
            push_str(&mut out, "\\\"");
        } else if c == '\\' {
            push_str(&mut out, "\\\\");
        } else if c == '\u{8}' {
            push_str(&mut out, "\\b");
        } else if c == '\u{c}' {
            push_str(&mut out, "\\f");
        } else if c == '\n' {
            push_str(&mut out, "\\n");
        } else if c == '\r' {
            push_str(&mut out, "\\r");
        } else if c == '\t' {
            push_str(&mut out, "\\t");
        } else if u < 0x20 {
            let ghost before = out@;
            push_str(&mut out, "\\u");
            push_char(&mut out, hex_char((u / 4096) % 16));
            push_char(&mut out, hex_char((u / 256) % 16));
            push_char(&mut out, hex_char((u / 16) % 16));
            push_char(&mut out, hex_char(u % 16));
            assert(out@ =~= before + unicode_escape((c as u32) as nat));
        } else {
            push_char(&mut out, c);
        }
        i = i + 1;
    }
    assert(v@.take(v@.len() as int) =~= v@);
    out
}

fn quoted(s: &str) -> (r: String)
    ensures
        r@ == jstr(s@),
{
    let e = string_escape(s);
    cat3("\"", e.as_str(), "\"")
}

fn quoted_opt(o: &Option<String>) -> (r: String)
    ensures
        r@ == jopt(*o),
{
    match o {
        Some(s) => quoted(s.as_str()),
        None => "null".to_string(),
    }
}

fn entry(key: &str, value: String) -> (r: String)
    ensures
        r@ == member(key@, value@),
{
    let mut s = quoted(key);
    push_str(&mut s, ":");
    push_str(&mut s, value.as_str());
    s
}

fn object(members: Vec<String>) -> (r: String)
    ensures
        r@ == jobj(views(members@)),
{
    let j = join(&members, ",");
    cat3("{", j.as_str(), "}")
}

fn checkpoint_json(c: &EditCheckpoint) -> (r: String)
    ensures
        r@ == checkpoint_text(*c),
{
    let m = vec![
        entry("after_content", quoted(c.after_content.as_str())),
        entry("base_hash", quoted(c.base_hash.as_str())),
        entry("before_content", quoted(c.before_content.as_str())),
        entry("checkpoint_id", quoted(c.checkpoint_id.as_str())),
        entry("diff", quoted(c.diff.as_str())),
        entry("path", quoted(c.path.as_str())),
        entry("result_hash", quoted(c.result_hash.as_str())),
    ];
    assert(views(m@) =~= members(checkpoint_entries(*c)));
    object(m)
}

fn action_str(a: FileEditAction) -> (r: &'static str)
    ensures
        r@ == action_name(a),
{
    match a {
        FileEditAction::Applied => "applied",
        FileEditAction::RolledBack => "rolled_back",
    }
}

fn edit_json(e: &FileEditEvent) -> (r: String)
    ensures
        r@ == edit_text(*e),
{
    let m = vec![
        entry("action", quoted(action_str(e.action))),
        entry("checkpoint", checkpoint_json(&e.checkpoint)),
        entry("rewound_checkpoint_id", quoted_opt(&e.rewound_checkpoint_id)),
        entry("summary", quoted(e.summary.as_str())),
    ];
    assert(views(m@) =~= members(edit_entries(*e)));
    object(m)
}

fn edits_json(edits: &Vec<FileEditEvent>) -> (r: String)
    ensures
        r@ == edits_text(edits@),
{
    let mut items: Vec<String> = Vec::new();
    let mut i: usize = 0;
    while i < edits.len()
        invariant
            i <= edits.len(),
            views(items@) == edits@.take(i as int).map_values(|e: FileEditEvent| edit_text(e)),
        decreases edits.len() - i,
    {
        let ghost prev = views(items@);
        items.push(edit_json(&edits[i]));
        assert(views(items@) =~= prev.push(edit_text(edits@[i as int])));
        assert(edits@.take(i + 1) =~= edits@.take(i as int).push(edits@[i as int]));
        i = i + 1;
        assert(views(items@) =~= edits@.take(i as int).map_values(|e: FileEditEvent| edit_text(e)));
    }
    assert(edits@.take(edits.len() as int) =~= edits@);
    let j = join(&items, ",");
    cat3("[", j.as_str(), "]")
}

fn number_opt(o: Option<usize>) -> (r: String)
    ensures
        r@ == opt_number(o),
{
    match o {
        Some(n) => usize_to_string(n),
        None => "null".to_string(),
    }
}

fn flag(b: bool) -> (r: String)
    ensures
        r@ == jbool(b),
{
    if b {
        "true".to_string()
    } else {
        "false".to_string()
    }
}

fn message_members(content: &str, id: &str, kind: &str) -> (r: Vec<String>)
    ensures
        views(r@) == members(seq![text_entry("content"@, content@), text_entry("id"@, id@), text_entry("type"@, kind@)]),
{
    let m = vec![entry("content", quoted(content)), entry("id", quoted(id)), entry("type", quoted(kind))];
    assert(views(m@) =~= members(seq![text_entry("content"@, content@), text_entry("id"@, id@), text_entry("type"@, kind@)]));
    m
}

fn message_payload(event: &Event) -> (m: Vec<String>)
    requires
        event.msg is SystemMessage || event.msg is UserMessage || event.msg is AssistantMessage
            || event.msg is Error || event.msg is Final,
    ensures
        views(m@) == payload_members(*event),
{
    let id = entry("id", quoted(event.id.as_str()));
    match &event.msg {
        EventMsg::SystemMessage(x) => message_members(x.content.as_str(), event.id.as_str(), "system_message"),
        EventMsg::UserMessage(x) => message_members(x.content.as_str(), event.id.as_str(), "user_message"),
        EventMsg::AssistantMessage(x) => message_members(x.content.as_str(), event.id.as_str(), "assistant_message"),
        EventMsg::Error(x) => {
            let m = vec![id, entry("message", quoted(x.message.as_str())), entry("type", quoted("error"))];
            assert(views(m@) =~= payload_members(*event));
            m
        },
        EventMsg::Final(x) => {
            let m = vec![id, entry("summary", quoted(x.summary.as_str())), entry("type", quoted("final"))];
            assert(views(m@) =~= payload_members(*event));
            m
        },
        _ => Vec::new(),
    }
}

fn image_payload(event: &Event) -> (m: Vec<String>)
    requires
        event.msg is ImageAttachment,
    ensures
        views(m@) == payload_members(*event),
{
    let id = entry("id", quoted(event.id.as_str()));
    match &event.msg {
        EventMsg::ImageAttachment(i) => {
            let m = vec![
                entry("byte_len", usize_to_string(i.byte_len)),
                entry("data_url", quoted(i.data_url.as_str())),
                entry("file_name", quoted(i.file_name.as_str())),
                id,
                entry("mime_type", quoted(i.mime_type.as_str())),
                entry("source_path", quoted(i.source_path.as_str())),
                entry("summary", quoted(i.summary.as_str())),
                entry("type", quoted("image_attachment")),
            ];
            assert(views(m@) =~= payload_members(*event));
            m
        },
        _ => Vec::new(),
    }
}

fn tool_call_payload(event: &Event) -> (m: Vec<String>)
    requires
        event.msg is ToolCall,
    ensures
        views(m@) == payload_members(*event),
{
    let id = entry("id", quoted(event.id.as_str()));
    match &event.msg {
        EventMsg::ToolCall(c) => {
            let m = vec![
                entry("arguments", quoted(c.arguments.as_str())),
                entry("call_id", quoted(c.call_id.as_str())),
                id,
                entry("name", quoted(c.name.as_str())),
                entry("type", quoted("tool_call")),
            ];
            assert(views(m@) =~= payload_members(*event));
            m
        },
        _ => Vec::new(),
    }
}

fn tool_result_payload(event: &Event) -> (m: Vec<String>)
    requires
        event.msg is ToolResult,
    ensures
        views(m@) == payload_members(*event),
{
    let id = entry("id", quoted(event.id.as_str()));
    match &event.msg {
        EventMsg::ToolResult(t) => {
            let m = vec![
                entry("call_id", quoted(t.call_id.as_str())),
                entry("content", quoted(t.content.as_str())),
                entry("edits", edits_json(&t.edits)),
                id,
                entry("next_offset", number_opt(t.next_offset)),
                entry("status", quoted(t.status.as_str())),
                entry("truncated", flag(t.truncated)),
                entry("type", quoted("tool_result")),
            ];
            assert(views(m@) =~= payload_members(*event));
            m
        },
        _ => Vec::new(),
    }
}

fn command_payload(event: &Event) -> (m: Vec<String>)
    requires
        event.msg is CommandRun || event.msg is CommandOutput,
    ensures
        views(m@) == payload_members(*event),
{
    let id = entry("id", quoted(event.id.as_str()));
    match &event.msg {
        EventMsg::CommandRun(c) => {
            let m = vec![
                entry("call_id", quoted(c.call_id.as_str())),
                entry("command", quoted(c.command.as_str())),
                entry("cwd", quoted(c.cwd.as_str())),
                id,
                entry("summary", quoted(c.summary.as_str())),
                entry("timeout_seconds", u64_to_string(c.timeout_seconds)),
                entry("type", quoted("command_run")),
            ];
            assert(views(m@) =~= payload_members(*event));
            m
        },
        EventMsg::CommandOutput(o) => {
            let m = vec![
                entry("call_id", quoted(o.call_id.as_str())),
                entry("content", quoted(o.content.as_str())),
                id,
                entry("stream", quoted(o.stream.as_str())),
                entry("summary", quoted(o.summary.as_str())),
                entry("type", quoted("command_output")),
            ];
            assert(views(m@) =~= payload_members(*event));
            m
        },
        _ => Vec::new(),
    }
}

fn summary_payload(event: &Event) -> (m: Vec<String>)
    requires
        event.msg is Compaction || event.msg is BranchSummary,
    ensures
        views(m@) == payload_members(*event),
{
    let id = entry("id", quoted(event.id.as_str()));
    match &event.msg {
        EventMsg::Compaction(c) => {
            let m = vec![
                entry("folded_event_count", usize_to_string(c.folded_event_count)),
                id,
                entry("summary", quoted(c.summary.as_str())),
                entry("type", quoted("compaction")),
            ];
            assert(views(m@) =~= payload_members(*event));
            m
        },
        EventMsg::BranchSummary(b) => {
            let m = vec![
                entry("folded_event_count", usize_to_string(b.folded_event_count)),
                id,
                entry("source_session_id", quoted(b.source_session_id.as_str())),
                entry("summary", quoted(b.summary.as_str())),
                entry("type", quoted("branch_summary")),
            ];
            assert(views(m@) =~= payload_members(*event));
            m
        },
        _ => Vec::new(),
    }
}

fn file_edit_payload(event: &Event) -> (m: Vec<String>)
    requires
        event.msg is FileEdit,
    ensures
        views(m@) == payload_members(*event),
{
    let id = entry("id", quoted(event.id.as_str()));
    match &event.msg {
        EventMsg::FileEdit(f) => {
            let m = vec![
                entry("action", quoted(action_str(f.action))),
                entry("checkpoint", checkpoint_json(&f.checkpoint)),
                id,
                entry("rewound_checkpoint_id", quoted_opt(&f.rewound_checkpoint_id)),
                entry("summary", quoted(f.summary.as_str())),
                entry("type", quoted("file_edit")),
            ];
            assert(views(m@) =~= payload_members(*event));
            m
        },
        _ => Vec::new(),
    }
}

/// The payload of an event as JSON text.
pub fn event_payload_to_json(event: &Event) -> (r: String)
    ensures
        r@ == payload_text(*event),
{
    let m = match &event.msg {
        EventMsg::ImageAttachment(_) => image_payload(event),
        EventMsg::ToolCall(_) => tool_call_payload(event),
        EventMsg::ToolResult(_) => tool_result_payload(event),
        EventMsg::CommandRun(_) | EventMsg::CommandOutput(_) => command_payload(event),
        EventMsg::Compaction(_) | EventMsg::BranchSummary(_) => summary_payload(event),
        EventMsg::FileEdit(_) => file_edit_payload(event),
        _ => message_payload(event),
    };
    object(m)
}

fn meta_json(meta: &SessionMeta) -> (r: String)
    ensures
        r@ == meta_text(*meta),
{
    let m = vec![
        entry("ai_model", quoted_opt(&meta.ai_model)),
        entry("ai_provider", quoted_opt(&meta.ai_provider)),
        entry("app_version", quoted(meta.app_version.as_str())),
        entry("cwd", quoted(meta.cwd.as_str())),
        entry("format_version", "1".to_string()),
        entry("parent_session_id", quoted_opt(&meta.parent_session_id)),
        entry("session_id", quoted(meta.session_id.as_str())),
    ];
    proof {
        reveal_strlit("1");
        assert(dec(1) =~= "1"@);
    }
    assert(views(m@) =~= members(meta_entries(*meta)));
    object(m)
}

/// A session line as one line of JSON text.
pub fn session_line_to_json(line: &SessionLine) -> (r: String)
    ensures
        r@ == session_line_text(*line),
{
    let (kind, payload) = match &line.item {
        SessionItem::SessionMeta(meta) => ("session_meta", meta_json(meta)),
        SessionItem::EventMsg(event) => ("event_msg", event_payload_to_json(event)),
    };
    let m = vec![
        entry("payload", payload),
        entry("timestamp", quoted(line.timestamp.as_str())),
        entry("type", quoted(kind)),
    ];
    assert(views(m@) =~= members(line_entries(*line)));
    object(m)
}

// ---------------------------------------------------------------------------
// Reading

/// The string value of a member of the object in the text.
pub open spec fn text_of(t: Seq<char>, key: Seq<char>) -> Option<Seq<char>> {
    match json_get(scalar_fields(t), key) {
        Some(JsonFieldView::Text(s)) => Some(s),
        _ => None,
    }
}

/// The string value of a member, or the empty string.
pub open spec fn text_or_empty(t: Seq<char>, key: Seq<char>) -> Seq<char> {
    match text_of(t, key) {
        Some(s) => s,
        None => Seq::empty(),
    }
}

/// The unsigned integer value of a member, or 0.
pub open spec fn count_of(t: Seq<char>, key: Seq<char>) -> u64 {
    match json_get(scalar_fields(t), key) {
        Some(JsonFieldView::Unsigned(n)) => n,
        _ => 0,
    }
}

/// The boolean value of a member, or `false`.
pub open spec fn flag_of(t: Seq<char>, key: Seq<char>) -> bool {
    match json_get(scalar_fields(t), key) {
        Some(JsonFieldView::Flag(b)) => b,
        _ => false,
    }
}

/// Whether the object in the text has the member, whatever its value.
pub open spec fn has_member(t: Seq<char>, key: Seq<char>) -> bool {
    json_get(scalar_fields(t), key) is Some
}

/// The JSON text of a member's value.
pub open spec fn raw_of(t: Seq<char>, key: Seq<char>) -> Option<Seq<char>> {
    first_line_value(raw_fields(t), key)
}

/// An optional string read from an optional member.
pub open spec fn opt_read(o: Option<String>, v: Option<Seq<char>>) -> bool {
    match o {
        Some(s) => v == Some(s@),
        None => v is None,
    }
}

pub open spec fn checkpoint_readable(t: Seq<char>) -> bool {
    text_of(t, "checkpoint_id"@) is Some && text_of(t, "path"@) is Some
}

/// A checkpoint object: its id and path are needed, the other texts default to empty.
pub open spec fn checkpoint_reads(t: Seq<char>, c: EditCheckpoint) -> bool {
    &&& text_of(t, "checkpoint_id"@) == Some(c.checkpoint_id@)
    &&& text_of(t, "path"@) == Some(c.path@)
    &&& c.base_hash@ == text_or_empty(t, "base_hash"@)
    &&& c.result_hash@ == text_or_empty(t, "result_hash"@)
    &&& c.before_content@ == text_or_empty(t, "before_content"@)
    &&& c.after_content@ == text_or_empty(t, "after_content"@)
    &&& c.diff@ == text_or_empty(t, "diff"@)
}

/// An older file edit keeps its checkpoint's fields on itself: the path is needed, the id is
/// `checkpoint_id`, else `backup_path`, else `legacy-checkpoint`.
pub open spec fn legacy_checkpoint_reads(t: Seq<char>, c: EditCheckpoint) -> bool {
    &&& text_of(t, "path"@) == Some(c.path@)
    &&& c.checkpoint_id@ == match text_of(t, "checkpoint_id"@) {
        Some(x) => x,
        None => match text_of(t, "backup_path"@) {
            Some(x) => x,
            None => "legacy-checkpoint"@,
        },
    }
    &&& c.base_hash@ == text_or_empty(t, "base_hash"@)
    &&& c.result_hash@ == text_or_empty(t, "result_hash"@)
    &&& c.before_content@ == text_or_empty(t, "before_content"@)
    &&& c.after_content@ == text_or_empty(t, "after_content"@)
    &&& c.diff@ == text_or_empty(t, "diff"@)
}

/// The `checkpoint` member of a file edit, when it reads as a checkpoint.
pub open spec fn nested_checkpoint(t: Seq<char>) -> Option<Seq<char>> {
    match raw_of(t, "checkpoint"@) {
        Some(c) => if checkpoint_readable(c) {
            Some(c)
        } else {
            None
        },
        None => None,
    }
}

pub open spec fn edit_action(t: Seq<char>) -> Option<FileEditAction> {
    match text_of(t, "action"@) {
        Some(a) => if a == "applied"@ {
            Some(FileEditAction::Applied)
        } else if a == "rolled_back"@ {
            Some(FileEditAction::RolledBack)
        } else {
            None
        },
        None => None,
    }
}

/// A file edit object reads when its action is known, it has a checkpoint (its own member,
/// else the legacy fields) and a summary.
pub open spec fn edit_readable(t: Seq<char>) -> bool {
    &&& edit_action(t) is Some
    &&& nested_checkpoint(t) is Some || text_of(t, "path"@) is Some
    &&& text_of(t, "summary"@) is Some
}

pub open spec fn edit_reads(t: Seq<char>, e: FileEditEvent) -> bool {
    &&& edit_action(t) == Some(e.action)
    &&& match nested_checkpoint(t) {
        Some(c) => checkpoint_reads(c, e.checkpoint),
        None => legacy_checkpoint_reads(t, e.checkpoint),
    }
    &&& opt_read(e.rewound_checkpoint_id, text_of(t, "rewound_checkpoint_id"@))
    &&& text_of(t, "summary"@) == Some(e.summary@)
}

/// The items that read as file edits, in order.
pub open spec fn readable_edits(items: Seq<Seq<char>>) -> Seq<Seq<char>>
    decreases items.len(),
{
    if items.len() == 0 {
        Seq::empty()
    } else if edit_readable(items.last()) {
        readable_edits(items.drop_last()).push(items.last())
    } else {
        readable_edits(items.drop_last())
    }
}

/// The file edits of a tool result: the readable items of its `edits` array, else its older
/// single `edit`, if that reads.
pub open spec fn edit_sources(t: Seq<char>) -> Seq<Seq<char>> {
    let single = match raw_of(t, "edit"@) {
        Some(e) => if edit_readable(e) {
            seq![e]
        } else {
            Seq::empty()
        },
        None => Seq::empty(),
    };
    match raw_of(t, "edits"@) {
        Some(a) => match serde_json_array_items(a) {
            Ok(Some(items)) => readable_edits(items),
            _ => single,
        },
        None => single,
    }
}

pub open spec fn edits_read(t: Seq<char>, v: Seq<FileEditEvent>) -> bool {
    &&& v.len() == edit_sources(t).len()
    &&& forall|k: int| 0 <= k < v.len() ==> edit_reads(#[trigger] edit_sources(t)[k], v[k])
}

/// The name of some result status.
pub open spec fn status_named(s: Seq<char>) -> bool {
    s == "success"@ || s == "error"@ || s == "denied"@ || s == "truncated"@
}

pub open spec fn offset_of(t: Seq<char>) -> Option<usize> {
    match json_get(scalar_fields(t), "next_offset"@) {
        Some(JsonFieldView::Unsigned(n)) => Some(n as usize),
        _ => None,
    }
}

/// Whether a payload of this type has what the event needs.
pub open spec fn kind_readable(p: Seq<char>, k: Seq<char>) -> bool {
    if k == "system_message"@ || k == "user_message"@ || k == "assistant_message"@ {
        text_of(p, "content"@) is Some
    } else if k == "image_attachment"@ {
        &&& text_of(p, "source_path"@) is Some
        &&& text_of(p, "file_name"@) is Some
        &&& text_of(p, "mime_type"@) is Some
        &&& has_member(p, "byte_len"@)
        &&& text_of(p, "data_url"@) is Some
    } else if k == "tool_call"@ {
        text_of(p, "call_id"@) is Some && text_of(p, "name"@) is Some && text_of(p, "arguments"@) is Some
    } else if k == "tool_result"@ {
        &&& text_of(p, "call_id"@) is Some
        &&& text_of(p, "status"@) matches Some(s) && status_named(s)
        &&& text_of(p, "content"@) is Some
    } else if k == "command_run"@ {
        &&& text_of(p, "call_id"@) is Some
        &&& text_of(p, "command"@) is Some
        &&& text_of(p, "cwd"@) is Some
        &&& text_of(p, "summary"@) is Some
    } else if k == "command_output"@ {
        &&& text_of(p, "call_id"@) is Some
        &&& text_of(p, "stream"@) is Some
        &&& text_of(p, "content"@) is Some
        &&& text_of(p, "summary"@) is Some
    } else if k == "compaction"@ {
        text_of(p, "summary"@) is Some
    } else if k == "branch_summary"@ {
        text_of(p, "source_session_id"@) is Some && text_of(p, "summary"@) is Some
    } else if k == "file_edit"@ {
        edit_readable(p)
    } else if k == "error"@ {
        text_of(p, "message"@) is Some
    } else if k == "final"@ {
        text_of(p, "summary"@) is Some
    } else {
        false
    }
}

/// The event a payload of this type reads as.
pub open spec fn kind_reads(p: Seq<char>, k: Seq<char>, msg: EventMsg) -> bool {
    if k == "system_message"@ {
        msg matches EventMsg::SystemMessage(m) && text_of(p, "content"@) == Some(m.content@)
    } else if k == "user_message"@ {
        msg matches EventMsg::UserMessage(m) && text_of(p, "content"@) == Some(m.content@)
    } else if k == "assistant_message"@ {
        msg matches EventMsg::AssistantMessage(m) && text_of(p, "content"@) == Some(m.content@)
    } else if k == "image_attachment"@ {
        &&& msg matches EventMsg::ImageAttachment(i)
        &&& text_of(p, "source_path"@) == Some(i.source_path@)
        &&& text_of(p, "file_name"@) == Some(i.file_name@)
        &&& text_of(p, "mime_type"@) == Some(i.mime_type@)
        &&& text_of(p, "data_url"@) == Some(i.data_url@)
        &&& i.byte_len == count_of(p, "byte_len"@) as usize
        &&& i.summary@ == image_summary(i.file_name@, i.mime_type@, i.byte_len as nat)
    } else if k == "tool_call"@ {
        &&& msg matches EventMsg::ToolCall(c)
        &&& text_of(p, "call_id"@) == Some(c.call_id@)
        &&& text_of(p, "name"@) == Some(c.name@)
        &&& text_of(p, "arguments"@) == Some(c.arguments@)
        &&& c.summary@ == tool_call_summary(c.name@, c.arguments@)
    } else if k == "tool_result"@ {
        &&& msg matches EventMsg::ToolResult(r)
        &&& text_of(p, "call_id"@) == Some(r.call_id@)
        &&& text_of(p, "status"@) == Some(r.status.name())
        &&& text_of(p, "content"@) == Some(r.content@)
        &&& r.truncated == flag_of(p, "truncated"@)
        &&& r.next_offset == offset_of(p)
        &&& edits_read(p, r.edits@)
    } else if k == "command_run"@ {
        &&& msg matches EventMsg::CommandRun(c)
        &&& text_of(p, "call_id"@) == Some(c.call_id@)
        &&& text_of(p, "command"@) == Some(c.command@)
        &&& text_of(p, "cwd"@) == Some(c.cwd@)
        &&& c.timeout_seconds == count_of(p, "timeout_seconds"@)
        &&& text_of(p, "summary"@) == Some(c.summary@)
    } else if k == "command_output"@ {
        &&& msg matches EventMsg::CommandOutput(o)
        &&& text_of(p, "call_id"@) == Some(o.call_id@)
        &&& text_of(p, "stream"@) == Some(o.stream@)
        &&& text_of(p, "content"@) == Some(o.content@)
        &&& text_of(p, "summary"@) == Some(o.summary@)
    } else if k == "compaction"@ {
        &&& msg matches EventMsg::Compaction(c)
        &&& text_of(p, "summary"@) == Some(c.summary@)
        &&& c.folded_event_count == count_of(p, "folded_event_count"@) as usize
    } else if k == "branch_summary"@ {
        &&& msg matches EventMsg::BranchSummary(b)
        &&& text_of(p, "source_session_id"@) == Some(b.source_session_id@)
        &&& text_of(p, "summary"@) == Some(b.summary@)
        &&& b.folded_event_count == count_of(p, "folded_event_count"@) as usize
    } else if k == "file_edit"@ {
        msg matches EventMsg::FileEdit(f) && edit_reads(p, f)
    } else if k == "error"@ {
        msg matches EventMsg::Error(m) && text_of(p, "message"@) == Some(m.message@)
    } else if k == "final"@ {
        msg matches EventMsg::Final(m) && text_of(p, "summary"@) == Some(m.summary@)
    } else {
        false
    }
}

/// An event payload reads when it has an id and a known type with what that type needs.
pub open spec fn event_readable(p: Seq<char>) -> bool {
    &&& text_of(p, "id"@) is Some
    &&& text_of(p, "type"@) matches Some(k) && kind_readable(p, k)
}

pub open spec fn event_reads(p: Seq<char>, e: Event) -> bool {
    &&& text_of(p, "id"@) == Some(e.id@)
    &&& text_of(p, "type"@) matches Some(k) && kind_reads(p, k, e.msg)
}

pub open spec fn meta_readable(p: Seq<char>) -> bool {
    &&& text_of(p, "session_id"@) is Some
    &&& text_of(p, "cwd"@) is Some
    &&& text_of(p, "app_version"@) is Some
}

pub open spec fn meta_reads(p: Seq<char>, m: SessionMeta) -> bool {
    &&& text_of(p, "session_id"@) == Some(m.session_id@)
    &&& opt_read(m.parent_session_id, text_of(p, "parent_session_id"@))
    &&& text_of(p, "cwd"@) == Some(m.cwd@)
    &&& text_of(p, "app_version"@) == Some(m.app_version@)
    &&& opt_read(m.ai_provider, text_of(p, "ai_provider"@))
    &&& opt_read(m.ai_model, text_of(p, "ai_model"@))
}

/// A line reads when it has a timestamp, a payload, and a type of `session_meta` or
/// `event_msg` whose payload reads.
pub open spec fn line_readable(t: Seq<char>) -> bool {
    &&& text_of(t, "timestamp"@) is Some
    &&& raw_of(t, "payload"@) matches Some(p) && match text_of(t, "type"@) {
        Some(k) => (k == "session_meta"@ && meta_readable(p)) || (k == "event_msg"@ && event_readable(p)),
        None => false,
    }
}

pub open spec fn line_reads(t: Seq<char>, l: SessionLine) -> bool {
    &&& text_of(t, "timestamp"@) == Some(l.timestamp@)
    &&& raw_of(t, "payload"@) matches Some(p) && match text_of(t, "type"@) {
        Some(k) => if k == "session_meta"@ {
            l.item matches SessionItem::SessionMeta(m) && meta_reads(p, m)
        } else {
            k == "event_msg"@ && (l.item matches SessionItem::EventMsg(e) && event_reads(p, e))
        },
        None => false,
    }
}

fn fields_of(text: &str) -> (r: Vec<(String, JsonField)>)
    ensures
        field_views(r@) == scalar_fields(text@),
{
    match json_object_fields(text) {
        Some(v) => v,
        None => {
            let v: Vec<(String, JsonField)> = Vec::new();
            assert(field_views(v@) =~= Seq::empty());
            v
        },
    }
}

fn raws_of(text: &str) -> (r: Vec<(String, String)>)
    ensures
        pair_views(r@) == raw_fields(text@),
{
    match json_object_raw(text) {
        Ok(Some(v)) => v,
        _ => {
            let v: Vec<(String, String)> = Vec::new();
            assert(pair_views(v@) =~= Seq::empty());
            v
        },
    }
}

fn get_text(f: &Vec<(String, JsonField)>, key: &str) -> (r: Option<String>)
    ensures
        match json_get(field_views(f@), key@) {
            Some(JsonFieldView::Text(s)) => r matches Some(x) && x@ == s,
            _ => r is None,
        },
{
    match json_get_exec(f, key) {
        Some(JsonField::Text(s)) => Some(s),
        _ => None,
    }
}

fn get_count(f: &Vec<(String, JsonField)>, key: &str) -> (r: u64)
    ensures
        r == match json_get(field_views(f@), key@) {
            Some(JsonFieldView::Unsigned(n)) => n,
            _ => 0,
        },
{
    match json_get_exec(f, key) {
        Some(JsonField::Unsigned(n)) => n,
        _ => 0,
    }
}

fn get_flag(f: &Vec<(String, JsonField)>, key: &str) -> (r: bool)
    ensures
        r == match json_get(field_views(f@), key@) {
            Some(JsonFieldView::Flag(b)) => b,
            _ => false,
        },
{
    match json_get_exec(f, key) {
        Some(JsonField::Flag(b)) => b,
        _ => false,
    }
}

fn get_offset(f: &Vec<(String, JsonField)>) -> (r: Option<usize>)
    ensures
        r == match json_get(field_views(f@), "next_offset"@) {
            Some(JsonFieldView::Unsigned(n)) => Some(n as usize),
            _ => None,
        },
{
    match json_get_exec(f, "next_offset") {
        Some(JsonField::Unsigned(n)) => Some(n as usize),
        _ => None,
    }
}

fn or_empty(o: Option<String>) -> (r: String)
    ensures
        r@ == match o {
            Some(s) => s@,
            None => Seq::<char>::empty(),
        },
{
    match o {
        Some(s) => s,
        None => String::new(),
    }
}

fn checkpoint_from(t: &str) -> (r: Option<EditCheckpoint>)
    ensures
        checkpoint_readable(t@) <==> r is Some,
        r matches Some(c) ==> checkpoint_reads(t@, c),
{
    let f = fields_of(t);
    let checkpoint_id = match get_text(&f, "checkpoint_id") {
        Some(x) => x,
        None => {
            return None;
        },
    };
    let path = match get_text(&f, "path") {
        Some(x) => x,
        None => {
            return None;
        },
    };
    Some(
        EditCheckpoint {
            path,
            checkpoint_id,
            base_hash: or_empty(get_text(&f, "base_hash")),
            result_hash: or_empty(get_text(&f, "result_hash")),
            before_content: or_empty(get_text(&f, "before_content")),
            after_content: or_empty(get_text(&f, "after_content")),
            diff: or_empty(get_text(&f, "diff")),
        },
    )
}

fn legacy_checkpoint_from(f: &Vec<(String, JsonField)>, Ghost(t): Ghost<Seq<char>>) -> (r: Option<EditCheckpoint>)
    requires
        field_views(f@) == scalar_fields(t),
    ensures
        text_of(t, "path"@) is Some <==> r is Some,
        r matches Some(c) ==> legacy_checkpoint_reads(t, c),
{
    let path = match get_text(f, "path") {
        Some(x) => x,
        None => {
            return None;
        },
    };
    let checkpoint_id = match get_text(f, "checkpoint_id") {
        Some(x) => x,
        None => match get_text(f, "backup_path") {
            Some(x) => x,
            None => to_owned_str("legacy-checkpoint"),
        },
    };
    Some(
        EditCheckpoint {
            path,
            checkpoint_id,
            base_hash: or_empty(get_text(f, "base_hash")),
            result_hash: or_empty(get_text(f, "result_hash")),
            before_content: or_empty(get_text(f, "before_content")),
            after_content: or_empty(get_text(f, "after_content")),
            diff: or_empty(get_text(f, "diff")),
        },
    )
}

fn file_edit_from(t: &str) -> (r: Option<FileEditEvent>)
    ensures
        edit_readable(t@) <==> r is Some,
        r matches Some(e) ==> edit_reads(t@, e),
{
    let f = fields_of(t);
    let raw = raws_of(t);
    let action = match get_text(&f, "action") {
        Some(a) => if str_eq(a.as_str(), "applied") {
            FileEditAction::Applied
        } else if str_eq(a.as_str(), "rolled_back") {
            FileEditAction::RolledBack
        } else {
            return None;
        },
        None => {
            return None;
        },
    };
    let nested = match raw_get(&raw, "checkpoint") {
        Some(c) => checkpoint_from(c.as_str()),
        None => None,
    };
    let checkpoint = match nested {
        Some(c) => c,
        None => match legacy_checkpoint_from(&f, Ghost(t@)) {
            Some(c) => c,
            None => {
                return None;
            },
        },
    };
    let rewound_checkpoint_id = get_text(&f, "rewound_checkpoint_id");
    let summary = match get_text(&f, "summary") {
        Some(x) => x,
        None => {
            return None;
        },
    };
    Some(FileEditEvent { action, checkpoint, rewound_checkpoint_id, summary })
}

fn readable_edits_from(items: &Vec<String>) -> (r: Vec<FileEditEvent>)
    ensures
        r@.len() == readable_edits(views(items@)).len(),
        forall|k: int| 0 <= k < r@.len() ==> edit_reads(#[trigger] readable_edits(views(items@))[k], r@[k]),
{
    let mut out: Vec<FileEditEvent> = Vec::new();
    let mut i: usize = 0;
    while i < items.len()
        invariant
            i <= items.len(),
            out@.len() == readable_edits(views(items@).take(i as int)).len(),
            forall|k: int|
                0 <= k < out@.len() ==> edit_reads(#[trigger] readable_edits(views(items@).take(i as int))[k], out@[k]),
        decreases items.len() - i,
    {
        let ghost before = readable_edits(views(items@).take(i as int));
        assert(views(items@).take(i + 1).drop_last() =~= views(items@).take(i as int));
        assert(views(items@).take(i + 1).last() == items@[i as int]@);
        match file_edit_from(items[i].as_str()) {
            Some(e) => {
                out.push(e);
                assert(readable_edits(views(items@).take(i + 1)) == before.push(items@[i as int]@));
                assert forall|k: int| 0 <= k < out@.len() implies edit_reads(
                    #[trigger] readable_edits(views(items@).take(i + 1))[k],
                    out@[k],
                ) by {
                    if k < before.len() {
                        assert(readable_edits(views(items@).take(i + 1))[k] == before[k]);
                    }
                }
            },
            None => {
                assert(readable_edits(views(items@).take(i + 1)) == before);
            },
        }
        i = i + 1;
    }
    assert(views(items@).take(items.len() as int) =~= views(items@));
    out
}

fn edits_from(raw: &Vec<(String, String)>, Ghost(t): Ghost<Seq<char>>) -> (r: Vec<FileEditEvent>)
    requires
        pair_views(raw@) == raw_fields(t),
    ensures
        edits_read(t, r@),
{
    let single = match raw_get(raw, "edit") {
        Some(e) => match file_edit_from(e.as_str()) {
            Some(x) => vec![x],
            None => Vec::new(),
        },
        None => Vec::new(),
    };
    match raw_get(raw, "edits") {
        Some(a) => match json_array_items(a.as_str()) {
            Ok(Some(items)) => readable_edits_from(&items),
            _ => single,
        },
        None => single,
    }
}

/// The event of a payload of a message, tool call, command or summary type.
fn plain_message(f: &Vec<(String, JsonField)>, Ghost(p): Ghost<Seq<char>>, kind: &str) -> (r: Option<EventMsg>)
    requires
        field_views(f@) == scalar_fields(p),
        kind@ != "image_attachment"@,
        kind@ != "tool_result"@,
        kind@ != "file_edit"@,
    ensures
        kind_readable(p, kind@) <==> r is Some,
        r matches Some(m) ==> kind_reads(p, kind@, m),
{
    if str_eq(kind, "system_message") {
        let c = get_text(f, "content")?;
        Some(EventMsg::system(c.as_str()))
    } else if str_eq(kind, "user_message") {
        let c = get_text(f, "content")?;
        Some(EventMsg::user(c.as_str()))
    } else if str_eq(kind, "assistant_message") {
        let c = get_text(f, "content")?;
        Some(EventMsg::assistant(c.as_str()))
    } else if str_eq(kind, "tool_call") {
        let call_id = get_text(f, "call_id")?;
        let name = get_text(f, "name")?;
        let arguments = get_text(f, "arguments")?;
        Some(EventMsg::ToolCall(ToolCallEvent::new(call_id.as_str(), name.as_str(), arguments.as_str())))
    } else if str_eq(kind, "command_run") {
        let call_id = get_text(f, "call_id")?;
        let command = get_text(f, "command")?;
        let cwd = get_text(f, "cwd")?;
        let timeout_seconds = get_count(f, "timeout_seconds");
        let summary = get_text(f, "summary")?;
        Some(EventMsg::command_run(CommandRunEvent { call_id, command, cwd, timeout_seconds, summary }))
    } else if str_eq(kind, "command_output") {
        let call_id = get_text(f, "call_id")?;
        let stream = get_text(f, "stream")?;
        let content = get_text(f, "content")?;
        let summary = get_text(f, "summary")?;
        Some(EventMsg::command_output(CommandOutputEvent { call_id, stream, content, summary }))
    } else if str_eq(kind, "compaction") {
        let summary = get_text(f, "summary")?;
        let folded_event_count = get_count(f, "folded_event_count") as usize;
        Some(EventMsg::compaction(CompactionEvent { summary, folded_event_count }))
    } else if str_eq(kind, "branch_summary") {
        let source_session_id = get_text(f, "source_session_id")?;
        let summary = get_text(f, "summary")?;
        let folded_event_count = get_count(f, "folded_event_count") as usize;
        Some(EventMsg::branch_summary(BranchSummaryEvent { source_session_id, summary, folded_event_count }))
    } else if str_eq(kind, "error") {
        let m = get_text(f, "message")?;
        Some(EventMsg::error(m.as_str()))
    } else if str_eq(kind, "final") {
        let m = get_text(f, "summary")?;
        Some(EventMsg::final_summary(m.as_str()))
    } else {
        None
    }
}

/// The event of an image, tool result or file edit payload.
fn rich_message(t: &str, f: &Vec<(String, JsonField)>, kind: &str) -> (r: Option<EventMsg>)
    requires
        field_views(f@) == scalar_fields(t@),
        kind@ == "image_attachment"@ || kind@ == "tool_result"@ || kind@ == "file_edit"@,
    ensures
        kind_readable(t@, kind@) <==> r is Some,
        r matches Some(m) ==> kind_reads(t@, kind@, m),
{
    proof {
        reveal_strlit("system_message");
        reveal_strlit("user_message");
        reveal_strlit("assistant_message");
        reveal_strlit("image_attachment");
        reveal_strlit("tool_call");
        reveal_strlit("tool_result");
        reveal_strlit("command_run");
        reveal_strlit("command_output");
        reveal_strlit("compaction");
        reveal_strlit("branch_summary");
        reveal_strlit("file_edit");
        assert("system_message"@.len() == 14 && "user_message"@.len() == 12 && "assistant_message"@.len() == 17);
        assert("image_attachment"@.len() == 16 && "tool_call"@.len() == 9 && "tool_result"@.len() == 11);
        assert("command_run"@.len() == 11 && "command_output"@.len() == 14 && "compaction"@.len() == 10);
        assert("branch_summary"@.len() == 14 && "file_edit"@.len() == 9);
        assert("tool_call"@[0] == 't' && "file_edit"@[0] == 'f');
        assert("tool_result"@[0] == 't' && "command_run"@[0] == 'c');
        assert("command_output"@[0] == 'c' && "system_message"@[0] == 's' && "branch_summary"@[0] == 'b');
    }
    if str_eq(kind, "image_attachment") {
        let source_path = get_text(f, "source_path")?;
        let file_name = get_text(f, "file_name")?;
        let mime_type = get_text(f, "mime_type")?;
        let byte_len = match json_get_exec(f, "byte_len") {
            Some(JsonField::Unsigned(n)) => n as usize,
            Some(_) => 0,
            None => {
                return None;
            },
        };
        let data_url = get_text(f, "data_url")?;
        Some(
            EventMsg::ImageAttachment(
                ImageAttachmentEvent::new(
                    source_path.as_str(),
                    file_name.as_str(),
                    mime_type.as_str(),
                    byte_len,
                    data_url.as_str(),
                ),
            ),
        )
    } else if str_eq(kind, "tool_result") {
        let call_id = get_text(f, "call_id")?;
        let status_text = get_text(f, "status")?;
        let status = match ToolResultStatus::from_str(status_text.as_str()) {
            Some(s) => s,
            None => {
                assert(ToolResultStatus::Success.name() != status_text@);
                assert(ToolResultStatus::Error.name() != status_text@);
                assert(ToolResultStatus::Denied.name() != status_text@);
                assert(ToolResultStatus::Truncated.name() != status_text@);
                return None;
            },
        };
        let content = get_text(f, "content")?;
        let truncated = get_flag(f, "truncated");
        let next_offset = get_offset(f);
        let raw = raws_of(t);
        let edits = edits_from(&raw, Ghost(t@));
        Some(EventMsg::ToolResult(ToolResultEvent { call_id, status, content, truncated, next_offset, edits }))
    } else {
        let e = file_edit_from(t)?;
        Some(EventMsg::file_edit(e))
    }
}

/// Reads an event from the text of its payload.
pub fn event_from_payload_json(payload: &str) -> (r: Option<Event>)
    ensures
        event_readable(payload@) <==> r is Some,
        r matches Some(e) ==> event_reads(payload@, e),
{
    let f = fields_of(payload);
    let id = get_text(&f, "id")?;
    let kind = get_text(&f, "type")?;
    let rich = str_eq(kind.as_str(), "image_attachment") || str_eq(kind.as_str(), "tool_result") || str_eq(
        kind.as_str(),
        "file_edit",
    );
    let msg = if rich {
        rich_message(payload, &f, kind.as_str())?
    } else {
        plain_message(&f, Ghost(payload@), kind.as_str())?
    };
    Some(Event::new(id.as_str(), msg))
}

fn meta_from(p: &str) -> (r: Option<SessionMeta>)
    ensures
        meta_readable(p@) <==> r is Some,
        r matches Some(m) ==> meta_reads(p@, m),
{
    let f = fields_of(p);
    let session_id = get_text(&f, "session_id")?;
    let parent_session_id = get_text(&f, "parent_session_id");
    let cwd = get_text(&f, "cwd")?;
    let app_version = get_text(&f, "app_version")?;
    let ai_provider = get_text(&f, "ai_provider");
    let ai_model = get_text(&f, "ai_model");
    Some(SessionMeta { session_id, parent_session_id, cwd, app_version, ai_provider, ai_model })
}

/// Reads a session line from its JSON text: `None` when the text is no object, lacks the
/// timestamp, the type or the payload, has another type, or its payload does not read.
pub fn session_line_from_json(text: &str) -> (r: Option<SessionLine>)
    ensures
        line_readable(text@) <==> r is Some,
        r matches Some(l) ==> line_reads(text@, l),
{
    let f = fields_of(text);
    let raw = raws_of(text);
    let timestamp = get_text(&f, "timestamp")?;
    let kind = get_text(&f, "type")?;
    let payload = raw_get(&raw, "payload")?;
    proof {
        reveal_strlit("session_meta");
        reveal_strlit("event_msg");
        assert("session_meta"@.len() == 12 && "event_msg"@.len() == 9);
    }
    let item = if str_eq(kind.as_str(), "session_meta") {
        SessionItem::SessionMeta(meta_from(payload.as_str())?)
    } else if str_eq(kind.as_str(), "event_msg") {
        SessionItem::EventMsg(event_from_payload_json(payload.as_str())?)
    } else {
        return None;
    };
    Some(SessionLine { timestamp, item })
}

// ---------------------------------------------------------------------------
// Reading back what was written

/// `serde_json` reads the object in `t` with each scalar member of `entries` under its key:
/// a string, a number or a boolean as written, anything else as some other value.
pub open spec fn reads_scalars(t: Seq<char>, entries: Seq<(Seq<char>, Seq<char>, JsonFieldView)>) -> bool {
    forall|i: int|
        #![trigger entries[i]]
        0 <= i < entries.len() ==> json_get(scalar_fields(t), entries[i].0) == Some(entries[i].2)
}

/// `serde_json` reads a written checkpoint back.
pub open spec fn checkpoint_reads_back(x: Seq<char>, c: EditCheckpoint) -> bool {
    reads_scalars(x, checkpoint_entries(c))
}

/// `serde_json` reads a written file edit back, its checkpoint included.
pub open spec fn edit_reads_back(x: Seq<char>, e: FileEditEvent) -> bool {
    &&& reads_scalars(x, edit_entries(e))
    &&& raw_of(x, "checkpoint"@) matches Some(c) && checkpoint_reads_back(c, e.checkpoint)
}

/// `serde_json` reads a written event payload back, with what it nests.
pub open spec fn payload_reads_back(p: Seq<char>, e: Event) -> bool {
    &&& reads_scalars(p, payload_entries(e))
    &&& match e.msg {
        EventMsg::FileEdit(f) => raw_of(p, "checkpoint"@) matches Some(c) && checkpoint_reads_back(c, f.checkpoint),
        EventMsg::ToolResult(r) => raw_of(p, "edits"@) matches Some(a) && (serde_json_array_items(a) matches Ok(Some(items))
            && items.len() == r.edits@.len()
            && forall|k: int| 0 <= k < items.len() ==> edit_reads_back(#[trigger] items[k], r.edits@[k])),
        _ => true,
    }
}

/// `serde_json` reads a written session line back, with its payload.
pub open spec fn line_reads_back(t: Seq<char>, l: SessionLine) -> bool {
    &&& reads_scalars(t, line_entries(l))
    &&& raw_of(t, "payload"@) matches Some(p) && match l.item {
        SessionItem::SessionMeta(m) => reads_scalars(p, meta_entries(m)),
        SessionItem::EventMsg(e) => payload_reads_back(p, e),
    }
}

/// The summaries that an event's constructor computes: what reading an event rebuilds.
pub open spec fn as_constructed(e: Event) -> bool {
    match e.msg {
        EventMsg::ImageAttachment(i) => i.summary@ == image_summary(
            i.file_name@,
            i.mime_type@,
            i.byte_len as nat,
        ),
        EventMsg::ToolCall(c) => c.summary@ == tool_call_summary(c.name@, c.arguments@),
        _ => true,
    }
}

proof fn lemma_names_differ()
    ensures
        "system_message"@.len() == 14 && "system_message"@[0] == 's',
        "user_message"@.len() == 12,
        "assistant_message"@.len() == 17,
        "image_attachment"@.len() == 16,
        "tool_call"@.len() == 9 && "tool_call"@[0] == 't',
        "tool_result"@.len() == 11 && "tool_result"@[0] == 't',
        "command_run"@.len() == 11 && "command_run"@[0] == 'c',
        "command_output"@.len() == 14 && "command_output"@[0] == 'c',
        "compaction"@.len() == 10,
        "branch_summary"@.len() == 14 && "branch_summary"@[0] == 'b',
        "file_edit"@.len() == 9 && "file_edit"@[0] == 'f',
        "error"@.len() == 5 && "error"@[0] == 'e',
        "final"@.len() == 5 && "final"@[0] == 'f',
        "applied"@.len() == 7,
        "rolled_back"@.len() == 11,
        "session_meta"@.len() == 12,
        "event_msg"@.len() == 9,
{
    reveal_strlit("system_message");
    reveal_strlit("user_message");
    reveal_strlit("assistant_message");
    reveal_strlit("image_attachment");
    reveal_strlit("tool_call");
    reveal_strlit("tool_result");
    reveal_strlit("command_run");
    reveal_strlit("command_output");
    reveal_strlit("compaction");
    reveal_strlit("branch_summary");
    reveal_strlit("file_edit");
    reveal_strlit("error");
    reveal_strlit("final");
    reveal_strlit("applied");
    reveal_strlit("rolled_back");
    reveal_strlit("session_meta");
    reveal_strlit("event_msg");
}

proof fn lemma_checkpoint_read_back(x: Seq<char>, c: EditCheckpoint)
    requires
        checkpoint_reads_back(x, c),
    ensures
        checkpoint_readable(x),
        checkpoint_reads(x, c),
{
    let es = checkpoint_entries(c);
    assert(es[0] == text_entry("after_content"@, c.after_content@));
    assert(es[1] == text_entry("base_hash"@, c.base_hash@));
    assert(es[2] == text_entry("before_content"@, c.before_content@));
    assert(es[3] == text_entry("checkpoint_id"@, c.checkpoint_id@));
    assert(es[4] == text_entry("diff"@, c.diff@));
    assert(es[5] == text_entry("path"@, c.path@));
    assert(es[6] == text_entry("result_hash"@, c.result_hash@));
}

proof fn lemma_edit_read_back(x: Seq<char>, e: FileEditEvent)
    requires
        edit_reads_back(x, e),
    ensures
        edit_readable(x),
        edit_reads(x, e),
{
    lemma_names_differ();
    let es = edit_entries(e);
    assert(es[0] == text_entry("action"@, action_name(e.action)));
    assert(es[2] == opt_entry("rewound_checkpoint_id"@, e.rewound_checkpoint_id));
    assert(es[3] == text_entry("summary"@, e.summary@));
    let c = raw_of(x, "checkpoint"@)->0;
    lemma_checkpoint_read_back(c, e.checkpoint);
    assert(nested_checkpoint(x) == Some(c));
}

proof fn lemma_edits_read_back(items: Seq<Seq<char>>, edits: Seq<FileEditEvent>)
    requires
        items.len() == edits.len(),
        forall|k: int| 0 <= k < items.len() ==> edit_reads_back(#[trigger] items[k], edits[k]),
    ensures
        readable_edits(items) == items,
        forall|k: int| 0 <= k < items.len() ==> edit_reads(#[trigger] items[k], edits[k]),
    decreases items.len(),
{
    if items.len() > 0 {
        let n = items.len() - 1;
        assert forall|k: int| 0 <= k < n implies edit_reads_back(#[trigger] items.drop_last()[k], edits.drop_last()[k]) by {
            assert(items.drop_last()[k] == items[k]);
        }
        lemma_edits_read_back(items.drop_last(), edits.drop_last());
        lemma_edit_read_back(items[n], edits[n]);
        assert(items.drop_last().push(items.last()) =~= items);
        assert forall|k: int| 0 <= k < items.len() implies edit_reads(#[trigger] items[k], edits[k]) by {
            if k < n {
                assert(items.drop_last()[k] == items[k]);
                assert(edits.drop_last()[k] == edits[k]);
                lemma_edit_read_back(items[k], edits[k]);
            }
        }
    }
}

proof fn lemma_message_read_back(p: Seq<char>, e: Event)
    requires
        payload_reads_back(p, e),
        as_constructed(e),
        e.msg is SystemMessage || e.msg is UserMessage || e.msg is AssistantMessage || e.msg is Error || e.msg is Final,
    ensures
        event_readable(p),
        event_reads(p, e),
{
    lemma_names_differ();
    let es = payload_entries(e);
    match e.msg {
        EventMsg::SystemMessage(_) | EventMsg::UserMessage(_) | EventMsg::AssistantMessage(_) => {
            assert(es[0].0 == "content"@ && es[1].0 == "id"@ && es[2].0 == "type"@);
        },
        EventMsg::Error(_) | EventMsg::Final(_) => {
            assert(es[0].0 == "id"@ && es[1].0 == "message"@ || es[1].0 == "summary"@);
            assert(es[2].0 == "type"@);
        },
        _ => {},
    }
}

proof fn lemma_image_read_back(p: Seq<char>, e: Event)
    requires
        payload_reads_back(p, e),
        as_constructed(e),
        e.msg is ImageAttachment,
    ensures
        event_readable(p),
        event_reads(p, e),
{
    lemma_names_differ();
    let es = payload_entries(e);
    match e.msg {
        EventMsg::ImageAttachment(i) => {
            assert(es[0] == count_entry("byte_len"@, i.byte_len as u64));
            assert(es[1].0 == "data_url"@ && es[2].0 == "file_name"@ && es[3].0 == "id"@);
            assert(es[4].0 == "mime_type"@ && es[5].0 == "source_path"@ && es[6].0 == "summary"@);
            assert(es[7].0 == "type"@);
            assert((i.byte_len as u64) as usize == i.byte_len);
        },
        _ => {},
    }
}

proof fn lemma_tool_call_read_back(p: Seq<char>, e: Event)
    requires
        payload_reads_back(p, e),
        as_constructed(e),
        e.msg is ToolCall,
    ensures
        event_readable(p),
        event_reads(p, e),
{
    lemma_names_differ();
    let es = payload_entries(e);
    match e.msg {
        EventMsg::ToolCall(_) => {
            assert(es[0].0 == "arguments"@ && es[1].0 == "call_id"@ && es[2].0 == "id"@);
            assert(es[3].0 == "name"@ && es[4].0 == "type"@);
        },
        _ => {},
    }
}

proof fn lemma_tool_result_read_back(p: Seq<char>, e: Event)
    requires
        payload_reads_back(p, e),
        as_constructed(e),
        e.msg is ToolResult,
    ensures
        event_readable(p),
        event_reads(p, e),
{
    lemma_names_differ();
    let es = payload_entries(e);
    match e.msg {
        EventMsg::ToolResult(r) => {
            assert(es[0].0 == "call_id"@ && es[1].0 == "content"@ && es[3].0 == "id"@);
            assert(es[4] == offset_entry(r.next_offset));
            assert(es[5].0 == "status"@ && es[6].0 == "truncated"@ && es[7].0 == "type"@);
            let items = serde_json_array_items(raw_of(p, "edits"@)->0)->Ok_0->0;
            lemma_edits_read_back(items, r.edits@);
            assert(edit_sources(p) == items);
            match r.status {
                ToolResultStatus::Success => {},
                ToolResultStatus::Error => {},
                ToolResultStatus::Denied => {},
                ToolResultStatus::Truncated => {},
            }
        },
        _ => {},
    }
}

proof fn lemma_command_read_back(p: Seq<char>, e: Event)
    requires
        payload_reads_back(p, e),
        as_constructed(e),
        e.msg is CommandRun || e.msg is CommandOutput,
    ensures
        event_readable(p),
        event_reads(p, e),
{
    lemma_names_differ();
    let es = payload_entries(e);
    match e.msg {
        EventMsg::CommandRun(_) => {
            assert(es[0].0 == "call_id"@ && es[1].0 == "command"@ && es[2].0 == "cwd"@);
            assert(es[3].0 == "id"@ && es[4].0 == "summary"@ && es[5].0 == "timeout_seconds"@);
            assert(es[6].0 == "type"@);
        },
        EventMsg::CommandOutput(_) => {
            assert(es[0].0 == "call_id"@ && es[1].0 == "content"@ && es[2].0 == "id"@);
            assert(es[3].0 == "stream"@ && es[4].0 == "summary"@ && es[5].0 == "type"@);
        },
        _ => {},
    }
}

proof fn lemma_summary_read_back(p: Seq<char>, e: Event)
    requires
        payload_reads_back(p, e),
        as_constructed(e),
        e.msg is Compaction || e.msg is BranchSummary,
    ensures
        event_readable(p),
        event_reads(p, e),
{
    lemma_names_differ();
    let es = payload_entries(e);
    match e.msg {
        EventMsg::Compaction(_) => {
            assert(es[0].0 == "folded_event_count"@ && es[1].0 == "id"@ && es[2].0 == "summary"@);
            assert(es[3].0 == "type"@);
        },
        EventMsg::BranchSummary(_) => {
            assert(es[0].0 == "folded_event_count"@ && es[1].0 == "id"@);
            assert(es[2].0 == "source_session_id"@ && es[3].0 == "summary"@ && es[4].0 == "type"@);
        },
        _ => {},
    }
}

proof fn lemma_file_edit_read_back(p: Seq<char>, e: Event)
    requires
        payload_reads_back(p, e),
        as_constructed(e),
        e.msg is FileEdit,
    ensures
        event_readable(p),
        event_reads(p, e),
{
    lemma_names_differ();
    let es = payload_entries(e);
    match e.msg {
        EventMsg::FileEdit(f) => {
            assert(es[0].0 == "action"@ && es[2].0 == "id"@ && es[3].0 == "rewound_checkpoint_id"@);
            assert(es[4].0 == "summary"@ && es[5].0 == "type"@);
            let c = raw_of(p, "checkpoint"@)->0;
            lemma_checkpoint_read_back(c, f.checkpoint);
            assert(nested_checkpoint(p) == Some(c));
        },
        _ => {},
    }
}

proof fn lemma_payload_read_back(p: Seq<char>, e: Event)
    requires
        payload_reads_back(p, e),
        as_constructed(e),
    ensures
        event_readable(p),
        event_reads(p, e),
{
    match e.msg {
        EventMsg::ImageAttachment(_) => lemma_image_read_back(p, e),
        EventMsg::ToolCall(_) => lemma_tool_call_read_back(p, e),
        EventMsg::ToolResult(_) => lemma_tool_result_read_back(p, e),
        EventMsg::CommandRun(_) | EventMsg::CommandOutput(_) => lemma_command_read_back(p, e),
        EventMsg::Compaction(_) | EventMsg::BranchSummary(_) => lemma_summary_read_back(p, e),
        EventMsg::FileEdit(_) => lemma_file_edit_read_back(p, e),
        _ => lemma_message_read_back(p, e),
    }
}

/// Reading a written session line gives the line back. The line is read through
/// `serde_json`, whose results this library only names; so the law assumes of them what
/// `serde_json` does with JSON text: it reads each object written back with the members
/// written. It holds of events as their constructors make them (summaries computed from the
/// other fields).
pub proof fn law_session_line_round_trip(l: SessionLine)
    requires
        line_reads_back(session_line_text(l), l),
        l.item matches SessionItem::EventMsg(e) ==> as_constructed(e),
    ensures
        line_readable(session_line_text(l)),
        line_reads(session_line_text(l), l),
{
    lemma_names_differ();
    let t = session_line_text(l);
    let es = line_entries(l);
    assert(es[1].0 == "timestamp"@ && es[2].0 == "type"@);
    let p = raw_of(t, "payload"@)->0;
    match l.item {
        SessionItem::SessionMeta(m) => {
            let ms = meta_entries(m);
            assert(ms[0].0 == "ai_model"@ && ms[1].0 == "ai_provider"@ && ms[2].0 == "app_version"@);
            assert(ms[3].0 == "cwd"@ && ms[5].0 == "parent_session_id"@ && ms[6].0 == "session_id"@);
        },
        SessionItem::EventMsg(e) => {
            lemma_payload_read_back(p, e);
        },
    }
}

} // verus!
