//! Tool calls, tool results and the tool runtime's decisions.
use vstd::prelude::*;
use crate::ai::{json_escape, json_escape_spec, ToolSpec};
use crate::event::{Event, EventMsg, FileEditAction, FileEditEvent};
use crate::instruction::{CommandApproval, ProjectCommandConfig};
use crate::workspace::{EditBatchPreviewResult, EditCheckpoint, EditRequest, EditPreviewResult, FindResult, GrepMatch, GrepResult, ListResult, ReadResult, WorkspaceEntry, WorkspaceError};
use crate::text::{cat, cat3, chars_of, dec, is_blank, is_blank_seq, join, join_seq, lines, lines_seq, push_str, string_of, str_eq, to_owned_str, u64_to_string, usize_to_string, views};

verus! {

/// A request from the model to run one tool.
#[derive(Debug, Clone, PartialEq, Eq)]
pub struct ToolCall {
    pub id: String,
    pub name: String,
    pub arguments: String,
}

/// The non-blank argument lines of a call joined by single spaces.
pub open spec fn nonblank_lines(lines: Seq<Seq<char>>) -> Seq<Seq<char>>
    decreases lines.len(),
{
    if lines.len() == 0 {
        Seq::empty()
    } else {
        let p = nonblank_lines(lines.drop_last());
        if is_blank_seq(lines.last()) {
            p
        } else {
            p.push(lines.last())
        }
    }
}

/// `name` followed by the non-blank argument lines, space separated.
pub open spec fn call_summary(name: Seq<char>, arguments: Seq<char>) -> Seq<char> {
    let args = join_seq(nonblank_lines(lines_seq(arguments)), seq![' ']);
    if args.len() == 0 {
        name
    } else {
        name + seq![' '] + args
    }
}

/// The lines of `arguments` that are not blank.
pub fn nonblank_argument_lines(arguments: &str) -> (r: Vec<String>)
    ensures
        views(r@) == nonblank_lines(lines_seq(arguments@)),
{
    let all = lines(arguments);
    let mut out: Vec<String> = Vec::new();
    let mut i: usize = 0;
    while i < all.len()
        invariant
            views(all@) == lines_seq(arguments@),
            i <= all.len(),
            views(out@) == nonblank_lines(views(all@).take(i as int)),
        decreases all.len() - i,
    {
        proof {
            assert(views(all@).take(i as int + 1).drop_last() =~= views(all@).take(i as int));
        }
        if !is_blank(all[i].as_str()) {
            out.push(all[i].clone());
            assert(views(out@) =~= nonblank_lines(views(all@).take(i as int + 1)));
        }
        i = i + 1;
    }
    assert(views(all@).take(all.len() as int) =~= views(all@));
    out
}

/// A tool's name and its non-blank argument lines on one line.
pub fn summarize_call(name: &str, arguments: &str) -> (r: String)
    ensures
        r@ == call_summary(name@, arguments@),
{
    let parts = nonblank_argument_lines(arguments);
    let args = join(&parts, " ");
    proof {
        reveal_strlit(" ");
        assert(" "@ =~= seq![' ']);
    }
    if args.as_str().is_empty() {
        to_owned_str(name)
    } else {
        cat3(name, " ", args.as_str())
    }
}

impl ToolCall {
    pub fn new(id: &str, name: &str, arguments: &str) -> (r: Self)
        ensures
            r.id@ == id@,
            r.name@ == name@,
            r.arguments@ == arguments@,
    {
        ToolCall { id: to_owned_str(id), name: to_owned_str(name), arguments: to_owned_str(arguments) }
    }

    /// The tool name and its non-blank argument lines on one line.
    pub fn summary(&self) -> (r: String)
        ensures
            r@ == call_summary(self.name@, self.arguments@),
    {
        summarize_call(self.name.as_str(), self.arguments.as_str())
    }
}

#[derive(Debug, Clone, Copy, PartialEq, Eq, Structural)]
pub enum ToolResultStatus {
    Success,
    Error,
    Denied,
    Truncated,
}

impl ToolResultStatus {
    pub open spec fn name(self) -> Seq<char> {
        match self {
            ToolResultStatus::Success => "success"@,
            ToolResultStatus::Error => "error"@,
            ToolResultStatus::Denied => "denied"@,
            ToolResultStatus::Truncated => "truncated"@,
        }
    }

    pub fn as_str(self) -> (r: &'static str)
        ensures
            r@ == self.name(),
    {
        match self {
            ToolResultStatus::Success => "success",
            ToolResultStatus::Error => "error",
            ToolResultStatus::Denied => "denied",
            ToolResultStatus::Truncated => "truncated",
        }
    }

    pub fn from_str(value: &str) -> (r: Option<Self>)
        ensures
            r matches Some(s) ==> s.name() == value@,
            r is None ==> forall|s: ToolResultStatus| s.name() != value@,
    {
        if str_eq(value, "success") {
            Some(ToolResultStatus::Success)
        } else if str_eq(value, "error") {
            Some(ToolResultStatus::Error)
        } else if str_eq(value, "denied") {
            Some(ToolResultStatus::Denied)
        } else if str_eq(value, "truncated") {
            Some(ToolResultStatus::Truncated)
        } else {
            None
        }
    }
}

/// Reading a status back from its name gives the status again.
pub proof fn status_name_round_trip(s: ToolResultStatus, t: ToolResultStatus)
    ensures
        s.name() == t.name() <==> s == t,
{
    reveal_strlit("success");
    reveal_strlit("error");
    reveal_strlit("denied");
    reveal_strlit("truncated");
    if s != t {
        assert(s.name()[0] != t.name()[0] || s.name().len() != t.name().len());
    }
}

/// The outcome of one tool call.
#[derive(Debug, Clone, PartialEq, Eq)]
pub struct ToolResult {
    pub call_id: String,
    pub status: ToolResultStatus,
    pub content: String,
    pub truncated: bool,
    pub next_offset: Option<usize>,
    pub edits: Vec<FileEditEvent>,
}

// ---------------------------------------------------------------------------
// Command results

/// What running a shell command gave.
#[derive(Debug, Clone, PartialEq, Eq)]
pub struct CommandExecutionResult {
    pub command: String,
    pub cwd: String,
    pub exit_code: Option<i32>,
    pub timed_out: bool,
    pub duration_ms: u128,
    pub stdout: String,
    pub stderr: String,
    pub truncated: bool,
}

/// The marker of lines left out.
pub open spec fn collapsed() -> Seq<char> {
    "... (collapsed)"@
}

/// At most `limit` lines of the text, and the marker when there were more.
pub open spec fn preview_spec(content: Seq<char>, limit: nat) -> Seq<Seq<char>> {
    let ls = lines_seq(content);
    if ls.len() > limit {
        ls.take(limit as int).push(collapsed())
    } else {
        ls
    }
}

pub fn preview_lines(content: &str, limit: usize) -> (r: Vec<String>)
    ensures
        views(r@) == preview_spec(content@, limit as nat),
{
    let mut ls = lines(content);
    if ls.len() > limit {
        let ghost all = views(ls@);
        ls.truncate(limit);
        ls.push(to_owned_str("... (collapsed)"));
        assert(views(ls@) =~= all.take(limit as int).push(collapsed()));
    }
    ls
}

/// The number of lines of a text, 0 for blank text.
pub open spec fn line_total(content: Seq<char>) -> nat {
    if is_blank_seq(content) {
        0
    } else {
        lines_seq(content).len()
    }
}

pub fn count_lines(content: &str) -> (r: usize)
    ensures
        r == line_total(content@),
{
    if is_blank(content) {
        0
    } else {
        lines(content).len()
    }
}

/// An integer as `to_string` writes it.
pub open spec fn int_text(n: int) -> Seq<char> {
    if n < 0 {
        "-"@ + dec((-n) as nat)
    } else {
        dec(n as nat)
    }
}

fn i32_to_string(n: i32) -> (r: String)
    ensures
        r@ == int_text(n as int),
{
    if n < 0 {
        let m: u64 = (0i64 - n as i64) as u64;
        cat("-", u64_to_string(m).as_str())
    } else {
        u64_to_string(n as u64)
    }
}

pub open spec fn indent_all(s: Seq<Seq<char>>) -> Seq<Seq<char>> {
    s.map_values(|l: Seq<char>| "  "@ + l)
}

pub open spec fn command_failed(r: CommandExecutionResult) -> bool {
    r.exit_code != Some(0i32) || r.timed_out
}

pub open spec fn report_head(r: CommandExecutionResult) -> Seq<Seq<char>> {
    seq![
        "command: "@ + r.command@,
        "cwd: "@ + r.cwd@,
        "status: "@ + if r.timed_out {
            "timeout"@
        } else if r.exit_code == Some(0i32) {
            "success"@
        } else {
            "error"@
        },
        "exit_code: "@ + match r.exit_code {
            Some(c) => int_text(c as int),
            None => "unknown"@,
        },
    ]
}

pub open spec fn report_preview(r: CommandExecutionResult) -> Seq<Seq<char>> {
    let err = preview_spec(r.stderr@, 5);
    let out = preview_spec(r.stdout@, 3);
    if err.len() > 0 {
        seq!["stderr_preview:"@] + indent_all(err)
    } else if out.len() > 0 {
        seq!["stdout_preview:"@] + indent_all(out)
    } else {
        Seq::empty()
    }
}

pub open spec fn report_body(r: CommandExecutionResult) -> Seq<Seq<char>> {
    if command_failed(r) {
        report_preview(r) + if r.timed_out {
            seq!["note: command timed out"@]
        } else {
            Seq::empty()
        }
    } else {
        seq![
            "duration_ms: "@ + dec(r.duration_ms as nat),
            "stdout_lines: "@ + dec(line_total(r.stdout@)),
            "stderr_lines: "@ + dec(line_total(r.stderr@)),
        ]
    }
}

/// The lines that report a command: what ran where and how it ended; after a failure a preview
/// of stderr (of stdout when stderr is empty), after a success the duration and line counts.
pub open spec fn command_report(r: CommandExecutionResult) -> Seq<Seq<char>> {
    report_head(r) + report_body(r) + if r.truncated {
        seq!["note: output was truncated for display"@]
    } else {
        Seq::empty()
    }
}

fn push_indented(out: &mut Vec<String>, ls: &Vec<String>)
    ensures
        views(final(out)@) == views(old(out)@) + indent_all(views(ls@)),
{
    let ghost start = views(out@);
    let mut i: usize = 0;
    while i < ls.len()
        invariant
            i <= ls@.len(),
            views(out@) == start + indent_all(views(ls@).take(i as int)),
        decreases ls.len() - i,
    {
        let ghost before = views(out@);
        out.push(cat("  ", ls[i].as_str()));
        assert(views(out@) =~= before.push("  "@ + ls@[i as int]@));
        assert(views(ls@).take(i + 1) =~= views(ls@).take(i as int).push(ls@[i as int]@));
        assert(indent_all(views(ls@).take(i + 1)) =~= indent_all(views(ls@).take(i as int)).push(
            "  "@ + ls@[i as int]@,
        ));
        i = i + 1;
        assert(views(out@) =~= start + indent_all(views(ls@).take(i as int)));
    }
    assert(views(ls@).take(ls@.len() as int) =~= views(ls@));
}

/// The report of a command, one line per fact.
pub fn format_command_result(result: &CommandExecutionResult) -> (r: String)
    ensures
        r@ == join_seq(command_report(*result), "\n"@),
{
    let mut out: Vec<String> = Vec::new();
    out.push(cat("command: ", result.command.as_str()));
    out.push(cat("cwd: ", result.cwd.as_str()));
    let exit_ok = match result.exit_code {
        Some(c) => c == 0,
        None => false,
    };
    let status = if result.timed_out {
        "timeout"
    } else if exit_ok {
        "success"
    } else {
        "error"
    };
    out.push(cat("status: ", status));
    let code = match result.exit_code {
        Some(c) => i32_to_string(c),
        None => to_owned_str("unknown"),
    };
    out.push(cat("exit_code: ", code.as_str()));
    assert(views(out@) =~= report_head(*result));
    let failed = !exit_ok || result.timed_out;
    if failed {
        let err = preview_lines(result.stderr.as_str(), 5);
        if err.len() > 0 {
            out.push(to_owned_str("stderr_preview:"));
            push_indented(&mut out, &err);
        } else {
            let outp = preview_lines(result.stdout.as_str(), 3);
            if outp.len() > 0 {
                out.push(to_owned_str("stdout_preview:"));
                push_indented(&mut out, &outp);
            }
        }
        assert(views(out@) =~= report_head(*result) + report_preview(*result));
        let ghost hp = views(out@);
        if result.timed_out {
            out.push(to_owned_str("note: command timed out"));
        }
        let ghost note: Seq<Seq<char>> = if result.timed_out {
            seq!["note: command timed out"@]
        } else {
            Seq::empty()
        };
        assert(views(out@) =~= hp + note);
        assert(command_failed(*result));
        assert(report_body(*result) == report_preview(*result) + note);
        assert(views(out@) =~= report_head(*result) + report_body(*result));
    } else {
        out.push(cat("duration_ms: ", crate::text::u128_to_string(result.duration_ms).as_str()));
        out.push(cat("stdout_lines: ", usize_to_string(count_lines(result.stdout.as_str())).as_str()));
        out.push(cat("stderr_lines: ", usize_to_string(count_lines(result.stderr.as_str())).as_str()));
        assert(views(out@) =~= report_head(*result) + report_body(*result));
    }
    assert(views(out@) =~= report_head(*result) + report_body(*result));
    if result.truncated {
        out.push(to_owned_str("note: output was truncated for display"));
    }
    assert(views(out@) =~= command_report(*result));
    join(&out, "\n")
}


// ---------------------------------------------------------------------------
// Tool definitions

#[derive(Debug, Clone, Copy, PartialEq, Eq)]
pub enum ToolInputKind {
    String,
    Number,
    Boolean,
}

impl ToolInputKind {
    pub open spec fn json_type(self) -> Seq<char> {
        match self {
            ToolInputKind::String => "string"@,
            ToolInputKind::Number => "number"@,
            ToolInputKind::Boolean => "boolean"@,
        }
    }

    pub fn as_json_type(self) -> (r: &'static str)
        ensures
            r@ == self.json_type(),
    {
        match self {
            ToolInputKind::String => "string",
            ToolInputKind::Number => "number",
            ToolInputKind::Boolean => "boolean",
        }
    }
}

/// What a tool may do to the machine it runs on.
#[derive(Debug, Clone, Copy, PartialEq, Eq)]
pub enum PermissionKind {
    Read,
    Write,
    Execute,
    Network,
}

impl PermissionKind {
    pub open spec fn label_spec(self) -> Seq<char> {
        match self {
            PermissionKind::Read => "read"@,
            PermissionKind::Write => "write"@,
            PermissionKind::Execute => "execute"@,
            PermissionKind::Network => "network"@,
        }
    }

    /// The permission's name in a tool listing.
    pub fn label(self) -> (r: &'static str)
        ensures
            r@ == self.label_spec(),
    {
        match self {
            PermissionKind::Read => "read",
            PermissionKind::Write => "write",
            PermissionKind::Execute => "execute",
            PermissionKind::Network => "network",
        }
    }
}

/// One input of a tool.
#[derive(Debug, Clone, PartialEq, Eq)]
pub struct ToolInputProperty {
    pub name: String,
    pub kind: ToolInputKind,
    pub description: String,
}

/// A property as plain values: name, kind, description.
pub type PropView = (Seq<char>, ToolInputKind, Seq<char>);

impl ToolInputProperty {
    pub open spec fn view_prop(self) -> PropView {
        (self.name@, self.kind, self.description@)
    }

    pub fn string(name: &str, description: &str) -> (r: Self)
        ensures
            r.view_prop() == (name@, ToolInputKind::String, description@),
    {
        ToolInputProperty { name: to_owned_str(name), kind: ToolInputKind::String, description: to_owned_str(description) }
    }

    pub fn number(name: &str, description: &str) -> (r: Self)
        ensures
            r.view_prop() == (name@, ToolInputKind::Number, description@),
    {
        ToolInputProperty { name: to_owned_str(name), kind: ToolInputKind::Number, description: to_owned_str(description) }
    }

    pub fn boolean(name: &str, description: &str) -> (r: Self)
        ensures
            r.view_prop() == (name@, ToolInputKind::Boolean, description@),
    {
        ToolInputProperty { name: to_owned_str(name), kind: ToolInputKind::Boolean, description: to_owned_str(description) }
    }

    pub open spec fn json_entry(p: PropView) -> Seq<char> {
        "\""@ + json_escape_spec(p.0) + "\":{\"type\":\""@ + p.1.json_type() + "\",\"description\":\""@
            + json_escape_spec(p.2) + "\"}"@
    }

    /// The property as a JSON schema entry.
    pub fn to_json_entry(&self) -> (r: String)
        ensures
            r@ == Self::json_entry(self.view_prop()),
    {
        let mut r = cat("\"", json_escape(self.name.as_str()).as_str());
        push_str(&mut r, "\":{\"type\":\"");
        push_str(&mut r, self.kind.as_json_type());
        push_str(&mut r, "\",\"description\":\"");
        push_str(&mut r, json_escape(self.description.as_str()).as_str());
        push_str(&mut r, "\"}");
        r
    }
}

/// The inputs of a tool: its properties and the names of those it requires.
#[derive(Debug, Clone, PartialEq, Eq)]
pub struct ToolInputSchema {
    pub properties: Vec<ToolInputProperty>,
    pub required: Vec<String>,
}

pub open spec fn prop_views(v: Seq<ToolInputProperty>) -> Seq<PropView> {
    v.map_values(|p: ToolInputProperty| p.view_prop())
}

pub open spec fn str_views(v: Seq<&str>) -> Seq<Seq<char>> {
    v.map_values(|s: &str| s@)
}

pub open spec fn entry_jsons(props: Seq<PropView>) -> Seq<Seq<char>> {
    props.map_values(|p: PropView| ToolInputProperty::json_entry(p))
}

pub open spec fn quoted_jsons(fields: Seq<Seq<char>>) -> Seq<Seq<char>> {
    fields.map_values(|f: Seq<char>| "\""@ + json_escape_spec(f) + "\""@)
}

/// The schema as JSON: an object of the properties, with the required ones listed and no
/// others allowed.
pub open spec fn schema_json(props: Seq<PropView>, required: Seq<Seq<char>>) -> Seq<char> {
    "{\"type\":\"object\",\"properties\":{"@ + join_seq(entry_jsons(props), ","@)
        + "},\"required\":["@ + join_seq(quoted_jsons(required), ","@)
        + "],\"additionalProperties\":false}"@
}

impl ToolInputSchema {
    pub fn object(properties: Vec<ToolInputProperty>, required: Vec<&str>) -> (r: Self)
        ensures
            r.properties@ == properties@,
            views(r.required@) == str_views(required@),
    {
        let mut req: Vec<String> = Vec::new();
        let mut i: usize = 0;
        while i < required.len()
            invariant
                i <= required.len(),
                views(req@) == str_views(required@.take(i as int)),
            decreases required.len() - i,
        {
            let x = to_owned_str(required[i]);
            let ghost prev = req@;
            req.push(x);
            assert(views(req@) =~= views(prev).push(x@));
            assert(str_views(required@.take(i + 1)) =~= str_views(required@.take(i as int)).push(x@));
            i = i + 1;
            assert(views(req@) =~= str_views(required@.take(i as int)));
        }
        assert(required@.take(required.len() as int) =~= required@);
        ToolInputSchema { properties, required: req }
    }

    pub fn to_json(&self) -> (r: String)
        ensures
            r@ == schema_json(prop_views(self.properties@), views(self.required@)),
    {
        let mut entries: Vec<String> = Vec::new();
        let mut i: usize = 0;
        while i < self.properties.len()
            invariant
                i <= self.properties.len(),
                views(entries@) == entry_jsons(prop_views(self.properties@).take(i as int)),
            decreases self.properties.len() - i,
        {
            let x = self.properties[i].to_json_entry();
            let ghost prev = entries@;
            entries.push(x);
            assert(views(entries@) =~= views(prev).push(x@));
            assert(entry_jsons(prop_views(self.properties@).take(i + 1)) =~= entry_jsons(prop_views(self.properties@).take(i as int)).push(x@));
            i = i + 1;
            assert(views(entries@) =~= entry_jsons(prop_views(self.properties@).take(i as int)));
        }
        let mut quoted: Vec<String> = Vec::new();
        let mut j: usize = 0;
        while j < self.required.len()
            invariant
                j <= self.required.len(),
                views(quoted@) == quoted_jsons(views(self.required@).take(j as int)),
            decreases self.required.len() - j,
        {
            let x = cat3("\"", json_escape(self.required[j].as_str()).as_str(), "\"");
            let ghost prev = quoted@;
            quoted.push(x);
            assert(views(quoted@) =~= views(prev).push(x@));
            assert(quoted_jsons(views(self.required@).take(j + 1)) =~= quoted_jsons(views(self.required@).take(j as int)).push(x@));
            j = j + 1;
            assert(views(quoted@) =~= quoted_jsons(views(self.required@).take(j as int)));
        }
        assert(prop_views(self.properties@).take(self.properties.len() as int) =~= prop_views(self.properties@));
        assert(views(self.required@).take(self.required.len() as int) =~= views(self.required@));
        let mut r = to_owned_str("{\"type\":\"object\",\"properties\":{");
        push_str(&mut r, join(&entries, ",").as_str());
        push_str(&mut r, "},\"required\":[");
        push_str(&mut r, join(&quoted, ",").as_str());
        push_str(&mut r, "],\"additionalProperties\":false}");
        r
    }
}

/// A tool that the model may call.
#[derive(Debug, Clone, PartialEq, Eq)]
pub struct ToolDefinition {
    pub name: String,
    pub description: String,
    pub input_schema: ToolInputSchema,
    pub permission: PermissionKind,
}

/// A definition as plain values.
pub ghost struct DefView {
    pub name: Seq<char>,
    pub description: Seq<char>,
    pub properties: Seq<PropView>,
    pub required: Seq<Seq<char>>,
    pub permission: PermissionKind,
}

impl ToolDefinition {
    pub open spec fn view_def(self) -> DefView {
        DefView {
            name: self.name@,
            description: self.description@,
            properties: prop_views(self.input_schema.properties@),
            required: views(self.input_schema.required@),
            permission: self.permission,
        }
    }

    /// The definition as the AI provider takes it.
    pub fn to_ai_spec(&self) -> (r: ToolSpec)
        ensures
            r.name@ == self.name@,
            r.description@ == self.description@,
            r.input_schema_json@ == schema_json(prop_views(self.input_schema.properties@), views(self.input_schema.required@)),
    {
        ToolSpec {
            name: self.name.clone(),
            description: self.description.clone(),
            input_schema_json: self.input_schema.to_json(),
        }
    }
}

fn definition(name: &str, description: &str, properties: Vec<ToolInputProperty>, required: Vec<&str>, permission: PermissionKind) -> (r: ToolDefinition)
    ensures
        r.view_def() == (DefView {
            name: name@,
            description: description@,
            properties: prop_views(properties@),
            required: str_views(required@),
            permission,
        }),
{
    ToolDefinition {
        name: to_owned_str(name),
        description: to_owned_str(description),
        input_schema: ToolInputSchema::object(properties, required),
        permission,
    }
}


pub open spec fn ls_def() -> DefView {
    DefView {
        name: "ls"@,
        description: "List entries in a workspace directory."@,
        properties: seq![("path"@, ToolInputKind::String, "Workspace directory to list."@), ("limit"@, ToolInputKind::Number, "Maximum number of entries to return."@)],
        required: seq!["path"@],
        permission: PermissionKind::Read,
    }
}

pub open spec fn read_def() -> DefView {
    DefView {
        name: "read"@,
        description: "Read a UTF-8 text file from the workspace."@,
        properties: seq![("path"@, ToolInputKind::String, "Workspace file to read."@), ("offset"@, ToolInputKind::Number, "Character offset to start reading from."@), ("limit"@, ToolInputKind::Number, "Maximum number of characters to return."@)],
        required: seq!["path"@],
        permission: PermissionKind::Read,
    }
}

pub open spec fn find_files_def() -> DefView {
    DefView {
        name: "find_files"@,
        description: "Recursively find workspace files and directories by path substring."@,
        properties: seq![("query"@, ToolInputKind::String, "Case-insensitive substring to match against workspace-relative paths."@), ("path"@, ToolInputKind::String, "Workspace directory to search from."@), ("limit"@, ToolInputKind::Number, "Maximum number of matches to return."@)],
        required: seq!["query"@],
        permission: PermissionKind::Read,
    }
}

pub open spec fn search_text_def() -> DefView {
    DefView {
        name: "search_text"@,
        description: "Search UTF-8 workspace files for literal text and return matching lines."@,
        properties: seq![("query"@, ToolInputKind::String, "Literal text to search for."@), ("path"@, ToolInputKind::String, "Workspace file or directory to search from."@), ("limit"@, ToolInputKind::Number, "Maximum number of matching lines to return."@), ("ignore_case"@, ToolInputKind::Boolean, "Whether to match text case-insensitively."@)],
        required: seq!["query"@],
        permission: PermissionKind::Read,
    }
}

pub open spec fn propose_edit_def() -> DefView {
    DefView {
        name: "propose_edit"@,
        description: "Preview a deterministic text edit as a diff without changing workspace files."@,
        properties: seq![("path"@, ToolInputKind::String, "Workspace file to preview for editing."@), ("find"@, ToolInputKind::String, "Exact text to search for in the current file content."@), ("replace"@, ToolInputKind::String, "Replacement text to preview."@)],
        required: seq!["path"@, "find"@, "replace"@],
        permission: PermissionKind::Read,
    }
}

pub open spec fn propose_edit_batch_def() -> DefView {
    DefView {
        name: "propose_edit_batch"@,
        description: "Preview a batch of deterministic text edits as diffs without changing workspace files. The preview includes a base_hash for each file."@,
        properties: seq![("edits_json"@, ToolInputKind::String, "JSON array string containing batch edit objects with path, find, and replace."@)],
        required: seq!["edits_json"@],
        permission: PermissionKind::Read,
    }
}

pub open spec fn apply_patch_def() -> DefView {
    DefView {
        name: "apply_patch"@,
        description: "Apply a deterministic text edit to a workspace file and record a reversible checkpoint."@,
        properties: seq![("path"@, ToolInputKind::String, "Workspace file to edit."@), ("find"@, ToolInputKind::String, "Exact text to replace in the current file content."@), ("replace"@, ToolInputKind::String, "Replacement text to write into the file."@)],
        required: seq!["path"@, "find"@, "replace"@],
        permission: PermissionKind::Write,
    }
}

pub open spec fn apply_patch_batch_def() -> DefView {
    DefView {
        name: "apply_patch_batch"@,
        description: "Apply a batch of deterministic text edits and record reversible checkpoints for each file. Optional expected_hash values enable conflict detection against the previewed base_hash."@,
        properties: seq![("edits_json"@, ToolInputKind::String, "JSON array string containing batch edit objects with path, find, and replace."@)],
        required: seq!["edits_json"@],
        permission: PermissionKind::Write,
    }
}

pub open spec fn rewind_edit_def() -> DefView {
    DefView {
        name: "rewind_edit"@,
        description: "Rewind the latest reversible checkpoint for a workspace file."@,
        properties: seq![("path"@, ToolInputKind::String, "Workspace file whose latest reversible checkpoint should be rewound."@)],
        required: seq!["path"@],
        permission: PermissionKind::Write,
    }
}

pub open spec fn run_command_def() -> DefView {
    DefView {
        name: "run_command"@,
        description: "Run a shell command in the workspace root, capture stdout/stderr, and return the exit status."@,
        properties: seq![("command"@, ToolInputKind::String, "Shell command to run."@), ("cwd"@, ToolInputKind::String, "Optional workspace-relative working directory for the command."@), ("timeout_seconds"@, ToolInputKind::Number, "Optional timeout in seconds; falls back to project command.timeout when omitted."@)],
        required: seq!["command"@],
        permission: PermissionKind::Execute,
    }
}

pub open spec fn all_defs() -> Seq<DefView> {
    seq![ls_def(), read_def(), find_files_def(), search_text_def(), propose_edit_def(), propose_edit_batch_def(), apply_patch_def(), apply_patch_batch_def(), rewind_edit_def(), run_command_def()]
}

pub open spec fn def_views(v: Seq<ToolDefinition>) -> Seq<DefView> {
    v.map_values(|d: ToolDefinition| d.view_def())
}

pub fn ls_definition() -> (r: ToolDefinition)
    ensures
        r.view_def() == ls_def(),
{
    let mut props: Vec<ToolInputProperty> = Vec::new();
    props.push(ToolInputProperty::string("path", "Workspace directory to list."));
    props.push(ToolInputProperty::number("limit", "Maximum number of entries to return."));
    let mut required: Vec<&str> = Vec::new();
    required.push("path");
    let r = definition("ls", "List entries in a workspace directory.", props, required, PermissionKind::Read);
    assert(r.view_def().properties =~= ls_def().properties);
    assert(r.view_def().required =~= ls_def().required);
    r
}

pub fn read_definition() -> (r: ToolDefinition)
    ensures
        r.view_def() == read_def(),
{
    let mut props: Vec<ToolInputProperty> = Vec::new();
    props.push(ToolInputProperty::string("path", "Workspace file to read."));
    props.push(ToolInputProperty::number("offset", "Character offset to start reading from."));
    props.push(ToolInputProperty::number("limit", "Maximum number of characters to return."));
    let mut required: Vec<&str> = Vec::new();
    required.push("path");
    let r = definition("read", "Read a UTF-8 text file from the workspace.", props, required, PermissionKind::Read);
    assert(r.view_def().properties =~= read_def().properties);
    assert(r.view_def().required =~= read_def().required);
    r
}

pub fn find_files_definition() -> (r: ToolDefinition)
    ensures
        r.view_def() == find_files_def(),
{
    let mut props: Vec<ToolInputProperty> = Vec::new();
    props.push(ToolInputProperty::string("query", "Case-insensitive substring to match against workspace-relative paths."));
    props.push(ToolInputProperty::string("path", "Workspace directory to search from."));
    props.push(ToolInputProperty::number("limit", "Maximum number of matches to return."));
    let mut required: Vec<&str> = Vec::new();
    required.push("query");
    let r = definition("find_files", "Recursively find workspace files and directories by path substring.", props, required, PermissionKind::Read);
    assert(r.view_def().properties =~= find_files_def().properties);
    assert(r.view_def().required =~= find_files_def().required);
    r
}

pub fn search_text_definition() -> (r: ToolDefinition)
    ensures
        r.view_def() == search_text_def(),
{
    let mut props: Vec<ToolInputProperty> = Vec::new();
    props.push(ToolInputProperty::string("query", "Literal text to search for."));
    props.push(ToolInputProperty::string("path", "Workspace file or directory to search from."));
    props.push(ToolInputProperty::number("limit", "Maximum number of matching lines to return."));
    props.push(ToolInputProperty::boolean("ignore_case", "Whether to match text case-insensitively."));
    let mut required: Vec<&str> = Vec::new();
    required.push("query");
    let r = definition("search_text", "Search UTF-8 workspace files for literal text and return matching lines.", props, required, PermissionKind::Read);
    assert(r.view_def().properties =~= search_text_def().properties);
    assert(r.view_def().required =~= search_text_def().required);
    r
}

pub fn propose_edit_definition() -> (r: ToolDefinition)
    ensures
        r.view_def() == propose_edit_def(),
{
    let mut props: Vec<ToolInputProperty> = Vec::new();
    props.push(ToolInputProperty::string("path", "Workspace file to preview for editing."));
    props.push(ToolInputProperty::string("find", "Exact text to search for in the current file content."));
    props.push(ToolInputProperty::string("replace", "Replacement text to preview."));
    let mut required: Vec<&str> = Vec::new();
    required.push("path");
    required.push("find");
    required.push("replace");
    let r = definition("propose_edit", "Preview a deterministic text edit as a diff without changing workspace files.", props, required, PermissionKind::Read);
    assert(r.view_def().properties =~= propose_edit_def().properties);
    assert(r.view_def().required =~= propose_edit_def().required);
    r
}

pub fn propose_edit_batch_definition() -> (r: ToolDefinition)
    ensures
        r.view_def() == propose_edit_batch_def(),
{
    let mut props: Vec<ToolInputProperty> = Vec::new();
    props.push(ToolInputProperty::string("edits_json", "JSON array string containing batch edit objects with path, find, and replace."));
    let mut required: Vec<&str> = Vec::new();
    required.push("edits_json");
    let r = definition("propose_edit_batch", "Preview a batch of deterministic text edits as diffs without changing workspace files. The preview includes a base_hash for each file.", props, required, PermissionKind::Read);
    assert(r.view_def().properties =~= propose_edit_batch_def().properties);
    assert(r.view_def().required =~= propose_edit_batch_def().required);
    r
}

pub fn apply_patch_definition() -> (r: ToolDefinition)
    ensures
        r.view_def() == apply_patch_def(),
{
    let mut props: Vec<ToolInputProperty> = Vec::new();
    props.push(ToolInputProperty::string("path", "Workspace file to edit."));
    props.push(ToolInputProperty::string("find", "Exact text to replace in the current file content."));
    props.push(ToolInputProperty::string("replace", "Replacement text to write into the file."));
    let mut required: Vec<&str> = Vec::new();
    required.push("path");
    required.push("find");
    required.push("replace");
    let r = definition("apply_patch", "Apply a deterministic text edit to a workspace file and record a reversible checkpoint.", props, required, PermissionKind::Write);
    assert(r.view_def().properties =~= apply_patch_def().properties);
    assert(r.view_def().required =~= apply_patch_def().required);
    r
}

pub fn apply_patch_batch_definition() -> (r: ToolDefinition)
    ensures
        r.view_def() == apply_patch_batch_def(),
{
    let mut props: Vec<ToolInputProperty> = Vec::new();
    props.push(ToolInputProperty::string("edits_json", "JSON array string containing batch edit objects with path, find, and replace."));
    let mut required: Vec<&str> = Vec::new();
    required.push("edits_json");
    let r = definition("apply_patch_batch", "Apply a batch of deterministic text edits and record reversible checkpoints for each file. Optional expected_hash values enable conflict detection against the previewed base_hash.", props, required, PermissionKind::Write);
    assert(r.view_def().properties =~= apply_patch_batch_def().properties);
    assert(r.view_def().required =~= apply_patch_batch_def().required);
    r
}

pub fn rewind_edit_definition() -> (r: ToolDefinition)
    ensures
        r.view_def() == rewind_edit_def(),
{
    let mut props: Vec<ToolInputProperty> = Vec::new();
    props.push(ToolInputProperty::string("path", "Workspace file whose latest reversible checkpoint should be rewound."));
    let mut required: Vec<&str> = Vec::new();
    required.push("path");
    let r = definition("rewind_edit", "Rewind the latest reversible checkpoint for a workspace file.", props, required, PermissionKind::Write);
    assert(r.view_def().properties =~= rewind_edit_def().properties);
    assert(r.view_def().required =~= rewind_edit_def().required);
    r
}

pub fn run_command_definition() -> (r: ToolDefinition)
    ensures
        r.view_def() == run_command_def(),
{
    let mut props: Vec<ToolInputProperty> = Vec::new();
    props.push(ToolInputProperty::string("command", "Shell command to run."));
    props.push(ToolInputProperty::string("cwd", "Optional workspace-relative working directory for the command."));
    props.push(ToolInputProperty::number("timeout_seconds", "Optional timeout in seconds; falls back to project command.timeout when omitted."));
    let mut required: Vec<&str> = Vec::new();
    required.push("command");
    let r = definition("run_command", "Run a shell command in the workspace root, capture stdout/stderr, and return the exit status.", props, required, PermissionKind::Execute);
    assert(r.view_def().properties =~= run_command_def().properties);
    assert(r.view_def().required =~= run_command_def().required);
    r
}

/// The tools that the runtime offers, in the order the model sees them.
pub fn tool_definitions() -> (r: Vec<ToolDefinition>)
    ensures
        def_views(r@) == all_defs(),
{
    let mut r: Vec<ToolDefinition> = Vec::new();
    r.push(ls_definition());
    r.push(read_definition());
    r.push(find_files_definition());
    r.push(search_text_definition());
    r.push(propose_edit_definition());
    r.push(propose_edit_batch_definition());
    r.push(apply_patch_definition());
    r.push(apply_patch_batch_definition());
    r.push(rewind_edit_definition());
    r.push(run_command_definition());
    assert(def_views(r@) =~= all_defs());
    r
}

/// The definitions as the AI provider takes them.
pub fn tool_specs() -> (r: Vec<ToolSpec>)
    ensures
        r@.len() == all_defs().len(),
        forall|i: int| 0 <= i < r@.len() ==> (#[trigger] r@[i]).name@ == all_defs()[i].name
            && r@[i].description@ == all_defs()[i].description
            && r@[i].input_schema_json@ == schema_json(all_defs()[i].properties, all_defs()[i].required),
{
    let defs = tool_definitions();
    let mut r: Vec<ToolSpec> = Vec::new();
    let mut i: usize = 0;
    while i < defs.len()
        invariant
            i <= defs.len(),
            def_views(defs@) == all_defs(),
            r@.len() == i,
            forall|j: int| 0 <= j < i ==> (#[trigger] r@[j]).name@ == all_defs()[j].name
                && r@[j].description@ == all_defs()[j].description
                && r@[j].input_schema_json@ == schema_json(all_defs()[j].properties, all_defs()[j].required),
        decreases defs.len() - i,
    {
        assert(defs@[i as int].view_def() == all_defs()[i as int]);
        r.push(defs[i].to_ai_spec());
        i = i + 1;
    }
    r
}


// ---------------------------------------------------------------------------
// Diff digests

/// `s` without the leading repetitions of `p` (`str::trim_start_matches` with a string).
pub open spec fn strip_leading_str(s: Seq<char>, p: Seq<char>) -> Seq<char>
    decreases s.len(),
{
    if p.len() > 0 && p.is_prefix_of(s) {
        strip_leading_str(s.skip(p.len() as int), p)
    } else {
        s
    }
}

pub fn trim_start_str(s: &str, p: &str) -> (r: String)
    ensures
        r@ == strip_leading_str(s@, p@),
{
    let v = chars_of(s);
    let pv = chars_of(p);
    let mut i: usize = 0;
    assert(v@.skip(0) =~= v@);
    if pv.len() == 0 {
        return to_owned_str(s);
    }
    loop
        invariant
            i <= v.len(),
            pv@ == p@,
            pv.len() > 0,
            strip_leading_str(v@.skip(i as int), p@) == strip_leading_str(s@, p@),
            v@ == s@,
        decreases v.len() - i,
    {
        let rest = crate::text::subrange_string(&v, i, v.len());
        assert(rest@ == v@.skip(i as int));
        if crate::text::starts_with(rest.as_str(), p) {
            assert(v@.skip(i as int).skip(p@.len() as int) =~= v@.skip(i + p@.len()));
            i = i + pv.len();
        } else {
            return rest;
        }
    }
}

/// What an edit's diff shows in brief: its added and removed lines, its hunks, the position
/// of its match, and its first lines.
pub ghost struct DigestView {
    pub added: nat,
    pub removed: nat,
    pub hunks: nat,
    pub match_line: Option<Seq<char>>,
}

pub open spec fn is_added_line(l: Seq<char>) -> bool {
    "+"@.is_prefix_of(l) && !"+++"@.is_prefix_of(l)
}

pub open spec fn is_removed_line(l: Seq<char>) -> bool {
    "-"@.is_prefix_of(l) && !"---"@.is_prefix_of(l)
}

/// The counts of a diff's lines, as reading them one after another gives them.
pub open spec fn digest_counts(ls: Seq<Seq<char>>) -> DigestView
    decreases ls.len(),
{
    if ls.len() == 0 {
        DigestView { added: 0, removed: 0, hunks: 0, match_line: None }
    } else {
        let d = digest_counts(ls.drop_last());
        let l = ls.last();
        DigestView {
            added: d.added + if is_added_line(l) { 1nat } else { 0nat },
            removed: d.removed + if !is_added_line(l) && is_removed_line(l) { 1nat } else { 0nat },
            hunks: d.hunks + if "@@"@.is_prefix_of(l) { 1nat } else { 0nat },
            match_line: if "match: "@.is_prefix_of(l) {
                Some(strip_leading_str(l, "match: "@))
            } else {
                d.match_line
            },
        }
    }
}

proof fn lemma_digest_bound(ls: Seq<Seq<char>>)
    ensures
        digest_counts(ls).added <= ls.len(),
        digest_counts(ls).removed <= ls.len(),
        digest_counts(ls).hunks <= ls.len(),
    decreases ls.len(),
{
    if ls.len() > 0 {
        lemma_digest_bound(ls.drop_last());
    }
}

/// The first six lines of a diff, and the marker when it has more.
pub open spec fn digest_preview(ls: Seq<Seq<char>>) -> Seq<Seq<char>> {
    if ls.len() > 6 {
        ls.take(6).push(collapsed())
    } else {
        ls
    }
}

/// The digest's line: hunks, added and removed counts, and where the match is.
pub open spec fn summary_line_spec(diff: Seq<char>) -> Seq<char> {
    let d = digest_counts(lines_seq(diff));
    let hunks = if d.hunks == 0 { 1 } else { d.hunks };
    dec(hunks) + " hunk(s) +"@ + dec(d.added) + " -"@ + dec(d.removed) + match d.match_line {
        Some(m) => " "@ + m,
        None => Seq::empty(),
    }
}

/// The brief account of an edit's diff.
pub struct EditDiffDigest {
    pub added: usize,
    pub removed: usize,
    pub hunk_count: usize,
    pub match_line: Option<String>,
    pub preview_lines: Vec<String>,
}

impl EditDiffDigest {
    pub fn summary_line(&self) -> (r: String)
        ensures
            r@ == dec(self.hunk_count as nat) + " hunk(s) +"@ + dec(self.added as nat) + " -"@ + dec(
                self.removed as nat,
            ) + match self.match_line {
                Some(m) => " "@ + m@,
                None => Seq::empty(),
            },
    {
        let mut r = usize_to_string(self.hunk_count);
        push_str(&mut r, " hunk(s) +");
        push_str(&mut r, usize_to_string(self.added).as_str());
        push_str(&mut r, " -");
        push_str(&mut r, usize_to_string(self.removed).as_str());
        match &self.match_line {
            Some(m) => {
                push_str(&mut r, " ");
                push_str(&mut r, m.as_str());
            },
            None => {
                assert(r@ + Seq::<char>::empty() =~= r@);
            },
        }
        r
    }
}

pub fn edit_diff_digest(diff: &str) -> (r: EditDiffDigest)
    ensures
        ({
            let ls = lines_seq(diff@);
            let d = digest_counts(ls);
            &&& r.added == d.added
            &&& r.removed == d.removed
            &&& r.hunk_count == if d.hunks == 0 { 1 } else { d.hunks }
            &&& match d.match_line {
                Some(m) => r.match_line matches Some(x) && x@ == m,
                None => r.match_line is None,
            }
            &&& views(r.preview_lines@) == digest_preview(ls)
        }),
{
    let ls = lines(diff);
    proof {
        lemma_digest_bound(views(ls@));
        crate::workspace::lemma_lines_len(diff@);
    }
    let mut added: usize = 0;
    let mut removed: usize = 0;
    let mut hunks: usize = 0;
    let mut match_line: Option<String> = None;
    let mut preview: Vec<String> = Vec::new();
    let mut i: usize = 0;
    while i < ls.len()
        invariant
            i <= ls.len(),
            views(ls@) == lines_seq(diff@),
            ({
                let d = digest_counts(views(ls@).take(i as int));
                &&& added == d.added
                &&& removed == d.removed
                &&& hunks == d.hunks
                &&& match d.match_line {
                    Some(m) => match_line matches Some(x) && x@ == m,
                    None => match_line is None,
                }
            }),
            views(preview@) == views(ls@).take(if i < 6 { i as int } else { 6 }),
        decreases ls.len() - i,
    {
        proof {
            let t = views(ls@).take(i + 1);
            assert(t.drop_last() =~= views(ls@).take(i as int));
            assert(t.last() == ls@[i as int]@);
            lemma_digest_bound(views(ls@).take(i as int));
        }
        let l = ls[i].as_str();
        if crate::text::starts_with(l, "@@") {
            hunks = hunks + 1;
        }
        if crate::text::starts_with(l, "match: ") {
            match_line = Some(trim_start_str(l, "match: "));
        }
        if crate::text::starts_with(l, "+") && !crate::text::starts_with(l, "+++") {
            added = added + 1;
        } else if crate::text::starts_with(l, "-") && !crate::text::starts_with(l, "---") {
            removed = removed + 1;
        }
        if preview.len() < 6 {
            preview.push(ls[i].clone());
            proof {
                assert(views(preview@) =~= views(ls@).take(i + 1));
            }
        }
        i = i + 1;
    }
    assert(views(ls@).take(ls.len() as int) =~= views(ls@));
    if ls.len() > preview.len() {
        preview.push(to_owned_str("... (collapsed)"));
    }
    let hunk_count = if hunks == 0 {
        1
    } else {
        hunks
    };
    EditDiffDigest { added, removed, hunk_count, match_line, preview_lines: preview }
}

/// The digest's line for a diff.
pub fn diff_summary_line(diff: &str) -> (r: String)
    ensures
        r@ == summary_line_spec(diff@),
{
    edit_diff_digest(diff).summary_line()
}


// ---------------------------------------------------------------------------
// Tool result texts

pub open spec fn header_path(path: Seq<char>) -> Seq<char> {
    if path.len() == 0 {
        "."@
    } else {
        path
    }
}

fn header_path_exec(path: &String) -> (r: String)
    ensures
        r@ == header_path(path@),
{
    if path.as_str().unicode_len() == 0 {
        to_owned_str(".")
    } else {
        path.clone()
    }
}

pub open spec fn entry_names(v: Seq<WorkspaceEntry>) -> Seq<Seq<char>> {
    v.map_values(|e: WorkspaceEntry| e.display_spec())
}

pub open spec fn list_text(r: ListResult) -> Seq<char> {
    let head = seq!["path: "@ + header_path(r.path@)] + entry_names(r.entries@);
    join_seq(
        if r.truncated {
            head.push("truncated: entry_limit="@ + dec(r.entry_limit as nat))
        } else {
            head
        },
        "\n"@,
    )
}

/// A listing as the model reads it.
pub fn format_list_result(result: &ListResult) -> (r: String)
    ensures
        r@ == list_text(*result),
{
    let mut out: Vec<String> = Vec::new();
    out.push(cat("path: ", header_path_exec(&result.path).as_str()));
    let mut i: usize = 0;
    while i < result.entries.len()
        invariant
            i <= result.entries.len(),
            views(out@) == seq!["path: "@ + header_path(result.path@)] + entry_names(result.entries@.take(i as int)),
        decreases result.entries.len() - i,
    {
        let x = result.entries[i].display_name();
        let ghost prev = out@;
        out.push(x);
        assert(views(out@) =~= views(prev).push(x@));
        assert(entry_names(result.entries@.take(i + 1)) =~= entry_names(result.entries@.take(i as int)).push(x@));
        i = i + 1;
    }
    assert(result.entries@.take(result.entries.len() as int) =~= result.entries@);
    if result.truncated {
        let x = cat("truncated: entry_limit=", usize_to_string(result.entry_limit).as_str());
        let ghost prev = out@;
        out.push(x);
        assert(views(out@) =~= views(prev).push(x@));
    }
    join(&out, "\n")
}

pub open spec fn read_text(r: ReadResult) -> Seq<char> {
    let head = seq!["path: "@ + r.path@, r.content@];
    join_seq(
        match r.next_offset {
            Some(n) => head.push("truncated: next_offset="@ + dec(n as nat)),
            None => head,
        },
        "\n"@,
    )
}

pub fn format_read_result(result: &ReadResult) -> (r: String)
    ensures
        r@ == read_text(*result),
{
    let mut out: Vec<String> = Vec::new();
    out.push(cat("path: ", result.path.as_str()));
    out.push(result.content.clone());
    if let Some(n) = result.next_offset {
        out.push(cat("truncated: next_offset=", usize_to_string(n).as_str()));
    }
    assert(views(out@) =~= match result.next_offset {
        Some(n) => seq!["path: "@ + result.path@, result.content@].push("truncated: next_offset="@ + dec(n as nat)),
        None => seq!["path: "@ + result.path@, result.content@],
    });
    join(&out, "\n")
}

pub open spec fn found_path(e: WorkspaceEntry) -> Seq<char> {
    if e.is_dir {
        e.path@ + "/"@
    } else {
        e.path@
    }
}

pub open spec fn found_paths(v: Seq<WorkspaceEntry>) -> Seq<Seq<char>> {
    v.map_values(|e: WorkspaceEntry| found_path(e))
}

pub open spec fn find_text(r: FindResult) -> Seq<char> {
    let head = seq!["path: "@ + header_path(r.path@)] + found_paths(r.matches@);
    join_seq(
        if r.truncated {
            head.push("truncated: match_limit="@ + dec(r.match_limit as nat))
        } else {
            head
        },
        "\n"@,
    )
}

pub fn format_find_result(result: &FindResult) -> (r: String)
    ensures
        r@ == find_text(*result),
{
    let mut out: Vec<String> = Vec::new();
    out.push(cat("path: ", header_path_exec(&result.path).as_str()));
    let mut i: usize = 0;
    while i < result.matches.len()
        invariant
            i <= result.matches.len(),
            views(out@) == seq!["path: "@ + header_path(result.path@)] + found_paths(result.matches@.take(i as int)),
        decreases result.matches.len() - i,
    {
        let e = &result.matches[i];
        let x = if e.is_dir {
            cat(e.path.as_str(), "/")
        } else {
            e.path.clone()
        };
        let ghost prev = out@;
        out.push(x);
        assert(views(out@) =~= views(prev).push(x@));
        assert(found_paths(result.matches@.take(i + 1)) =~= found_paths(result.matches@.take(i as int)).push(x@));
        i = i + 1;
    }
    assert(result.matches@.take(result.matches.len() as int) =~= result.matches@);
    if result.truncated {
        let x = cat("truncated: match_limit=", usize_to_string(result.match_limit).as_str());
        let ghost prev = out@;
        out.push(x);
        assert(views(out@) =~= views(prev).push(x@));
    }
    join(&out, "\n")
}

pub open spec fn hit_line(m: GrepMatch) -> Seq<char> {
    m.path@ + ":"@ + dec(m.line_number as nat) + ":"@ + m.line@
}

pub open spec fn hit_lines(v: Seq<GrepMatch>) -> Seq<Seq<char>> {
    v.map_values(|m: GrepMatch| hit_line(m))
}

pub open spec fn grep_text(r: GrepResult) -> Seq<char> {
    let head = seq!["path: "@ + header_path(r.path@)] + hit_lines(r.matches@);
    join_seq(
        if r.truncated {
            head.push("truncated: match_limit="@ + dec(r.match_limit as nat))
        } else {
            head
        },
        "\n"@,
    )
}

pub fn format_grep_result(result: &GrepResult) -> (r: String)
    ensures
        r@ == grep_text(*result),
{
    let mut out: Vec<String> = Vec::new();
    out.push(cat("path: ", header_path_exec(&result.path).as_str()));
    let mut i: usize = 0;
    while i < result.matches.len()
        invariant
            i <= result.matches.len(),
            views(out@) == seq!["path: "@ + header_path(result.path@)] + hit_lines(result.matches@.take(i as int)),
        decreases result.matches.len() - i,
    {
        let m = &result.matches[i];
        let mut x = cat(m.path.as_str(), ":");
        push_str(&mut x, usize_to_string(m.line_number).as_str());
        push_str(&mut x, ":");
        push_str(&mut x, m.line.as_str());
        let ghost prev = out@;
        out.push(x);
        assert(views(out@) =~= views(prev).push(x@));
        assert(hit_lines(result.matches@.take(i + 1)) =~= hit_lines(result.matches@.take(i as int)).push(x@));
        i = i + 1;
    }
    assert(result.matches@.take(result.matches.len() as int) =~= result.matches@);
    if result.truncated {
        let x = cat("truncated: match_limit=", usize_to_string(result.match_limit).as_str());
        let ghost prev = out@;
        out.push(x);
        assert(views(out@) =~= views(prev).push(x@));
    }
    join(&out, "\n")
}

pub open spec fn preview_text(r: EditPreviewResult) -> Seq<char> {
    join_seq(
        seq!["path: "@ + r.path@, "base_hash: "@ + r.base_hash@, "summary: "@ + summary_line_spec(r.diff@)]
            + indent_all(digest_preview(lines_seq(r.diff@))),
        "\n"@,
    )
}

fn push_indented_lines(out: &mut Vec<String>, ls: &Vec<String>)
    ensures
        views(final(out)@) == views(old(out)@) + indent_all(views(ls@)),
{
    let mut i: usize = 0;
    while i < ls.len()
        invariant
            i <= ls.len(),
            views(out@) == views(old(out)@) + indent_all(views(ls@).take(i as int)),
        decreases ls.len() - i,
    {
        let x = cat("  ", ls[i].as_str());
        let ghost prev = out@;
        out.push(x);
        assert(views(out@) =~= views(prev).push(x@));
        assert(indent_all(views(ls@).take(i + 1)) =~= indent_all(views(ls@).take(i as int)).push(x@));
        i = i + 1;
    }
    assert(views(ls@).take(ls.len() as int) =~= views(ls@));
}

/// An edit preview as the model reads it: the file, its hash, the digest and the diff's
/// first lines.
pub fn format_edit_preview_result(result: &EditPreviewResult) -> (r: String)
    ensures
        r@ == preview_text(*result),
{
    let digest = edit_diff_digest(result.diff.as_str());
    let mut out: Vec<String> = Vec::new();
    out.push(cat("path: ", result.path.as_str()));
    out.push(cat("base_hash: ", result.base_hash.as_str()));
    out.push(cat("summary: ", digest.summary_line().as_str()));
    assert(views(out@) =~= seq!["path: "@ + result.path@, "base_hash: "@ + result.base_hash@, "summary: "@ + summary_line_spec(result.diff@)]);
    push_indented_lines(&mut out, &digest.preview_lines);
    join(&out, "\n")
}

/// The lines of one preview of a batch, and the blank line after it.
pub open spec fn batch_block(p: EditPreviewResult) -> Seq<Seq<char>> {
    seq!["--- "@ + p.path@ + " base_hash="@ + p.base_hash@ + " ---"@, "  summary: "@ + summary_line_spec(p.diff@)]
        + indent_all(digest_preview(lines_seq(p.diff@))) + seq![Seq::empty()]
}

pub open spec fn batch_blocks(v: Seq<EditPreviewResult>) -> Seq<Seq<char>>
    decreases v.len(),
{
    if v.len() == 0 {
        Seq::empty()
    } else {
        batch_blocks(v.drop_last()) + batch_block(v.last())
    }
}

pub open spec fn batch_preview_text(r: EditBatchPreviewResult) -> Seq<char> {
    let ls = batch_blocks(r.previews@);
    join_seq(
        if ls.len() > 0 && ls.last().len() == 0 {
            ls.drop_last()
        } else {
            ls
        },
        "\n"@,
    )
}

pub fn format_edit_batch_preview_result(result: &EditBatchPreviewResult) -> (r: String)
    ensures
        r@ == batch_preview_text(*result),
{
    let mut out: Vec<String> = Vec::new();
    let mut i: usize = 0;
    while i < result.previews.len()
        invariant
            i <= result.previews.len(),
            views(out@) == batch_blocks(result.previews@.take(i as int)),
        decreases result.previews.len() - i,
    {
        let p = &result.previews[i];
        let digest = edit_diff_digest(p.diff.as_str());
        let ghost before = views(out@);
        let mut h = cat3("--- ", p.path.as_str(), " base_hash=");
        push_str(&mut h, p.base_hash.as_str());
        push_str(&mut h, " ---");
        out.push(h);
        out.push(cat("  summary: ", digest.summary_line().as_str()));
        assert(views(out@) =~= before + seq!["--- "@ + p.path@ + " base_hash="@ + p.base_hash@ + " ---"@, "  summary: "@ + summary_line_spec(p.diff@)]);
        push_indented_lines(&mut out, &digest.preview_lines);
        let ghost mid = out@;
        let e = String::new();
        assert(e@ == Seq::<char>::empty());
        out.push(e);
        assert(views(out@) =~= views(mid).push(Seq::empty()));
        proof {
            assert(result.previews@.take(i + 1).drop_last() =~= result.previews@.take(i as int));
            assert(views(out@) =~= before + batch_block(result.previews@[i as int]));
        }
        i = i + 1;
    }
    assert(result.previews@.take(result.previews.len() as int) =~= result.previews@);
    if out.len() > 0 && out[out.len() - 1].as_str().unicode_len() == 0 {
        let ghost all = views(out@);
        out.pop();
        assert(views(out@) =~= all.drop_last());
    }
    join(&out, "\n")
}

pub open spec fn apply_text(e: FileEditEvent) -> Seq<char> {
    "modified: "@ + e.checkpoint.path@ + "\ncheckpoint: "@ + e.checkpoint.checkpoint_id@ + "\nsummary: "@
        + summary_line_spec(e.checkpoint.diff@)
}

pub fn format_edit_apply_result(edit: &FileEditEvent) -> (r: String)
    ensures
        r@ == apply_text(*edit),
{
    let mut r = cat("modified: ", edit.checkpoint.path.as_str());
    push_str(&mut r, "\ncheckpoint: ");
    push_str(&mut r, edit.checkpoint.checkpoint_id.as_str());
    push_str(&mut r, "\nsummary: ");
    push_str(&mut r, diff_summary_line(edit.checkpoint.diff.as_str()).as_str());
    r
}

pub open spec fn applied_line(e: FileEditEvent) -> Seq<char> {
    "- "@ + e.checkpoint.path@ + " ("@ + e.checkpoint.checkpoint_id@ + ") "@ + summary_line_spec(e.checkpoint.diff@)
}

pub open spec fn applied_lines(v: Seq<FileEditEvent>) -> Seq<Seq<char>> {
    v.map_values(|e: FileEditEvent| applied_line(e))
}

pub open spec fn batch_apply_text(v: Seq<FileEditEvent>) -> Seq<char> {
    join_seq(seq!["modified "@ + dec(v.len()) + " files"@] + applied_lines(v), "\n"@)
}

pub fn format_edit_batch_apply_result(edits: &Vec<FileEditEvent>) -> (r: String)
    ensures
        r@ == batch_apply_text(edits@),
{
    let mut head = cat("modified ", usize_to_string(edits.len()).as_str());
    push_str(&mut head, " files");
    let mut out: Vec<String> = Vec::new();
    out.push(head);
    let mut i: usize = 0;
    while i < edits.len()
        invariant
            i <= edits.len(),
            views(out@) == seq!["modified "@ + dec(edits@.len()) + " files"@] + applied_lines(edits@.take(i as int)),
        decreases edits.len() - i,
    {
        let e = &edits[i];
        let mut x = cat3("- ", e.checkpoint.path.as_str(), " (");
        push_str(&mut x, e.checkpoint.checkpoint_id.as_str());
        push_str(&mut x, ") ");
        push_str(&mut x, diff_summary_line(e.checkpoint.diff.as_str()).as_str());
        let ghost prev = out@;
        out.push(x);
        assert(views(out@) =~= views(prev).push(x@));
        assert(applied_lines(edits@.take(i + 1)) =~= applied_lines(edits@.take(i as int)).push(x@));
        i = i + 1;
    }
    assert(edits@.take(edits.len() as int) =~= edits@);
    join(&out, "\n")
}

pub open spec fn rewind_text(e: FileEditEvent) -> Seq<char> {
    "rewound: "@ + e.checkpoint.path@ + "\ncheckpoint: "@ + match e.rewound_checkpoint_id {
        Some(id) => id@,
        None => "unknown"@,
    } + "\nsummary: "@ + summary_line_spec(e.checkpoint.diff@)
}

pub fn format_edit_rewind_result(edit: &FileEditEvent) -> (r: String)
    ensures
        r@ == rewind_text(*edit),
{
    let mut r = cat("rewound: ", edit.checkpoint.path.as_str());
    push_str(&mut r, "\ncheckpoint: ");
    match &edit.rewound_checkpoint_id {
        Some(id) => push_str(&mut r, id.as_str()),
        None => push_str(&mut r, "unknown"),
    }
    push_str(&mut r, "\nsummary: ");
    push_str(&mut r, diff_summary_line(edit.checkpoint.diff.as_str()).as_str());
    r
}


// ---------------------------------------------------------------------------
// Tool results

impl ToolResult {
    /// A result of a tool that worked; a truncated one has the status that says so.
    pub fn success(call_id: &str, content: String, truncated: bool) -> (r: Self)
        ensures
            r.call_id@ == call_id@,
            r.status == if truncated { ToolResultStatus::Truncated } else { ToolResultStatus::Success },
            r.content == content,
            r.truncated == truncated,
            r.next_offset is None,
            r.edits@.len() == 0,
    {
        ToolResult {
            call_id: to_owned_str(call_id),
            status: if truncated {
                ToolResultStatus::Truncated
            } else {
                ToolResultStatus::Success
            },
            content,
            truncated,
            next_offset: None,
            edits: Vec::new(),
        }
    }

    /// The result of a read, which says where the next read starts.
    pub fn read_success(call_id: &str, result: &ReadResult) -> (r: Self)
        ensures
            r.call_id@ == call_id@,
            r.status == if result.truncated { ToolResultStatus::Truncated } else { ToolResultStatus::Success },
            r.content@ == read_text(*result),
            r.truncated == result.truncated,
            r.next_offset == result.next_offset,
            r.edits@.len() == 0,
    {
        ToolResult {
            call_id: to_owned_str(call_id),
            status: if result.truncated {
                ToolResultStatus::Truncated
            } else {
                ToolResultStatus::Success
            },
            content: format_read_result(result),
            truncated: result.truncated,
            next_offset: result.next_offset,
            edits: Vec::new(),
        }
    }

    /// A failed call, with the reason as its content.
    pub fn error(call_id: &str, message: &str) -> (r: Self)
        ensures
            r.call_id@ == call_id@,
            r.status == ToolResultStatus::Error,
            r.content@ == message@,
            !r.truncated,
            r.next_offset is None,
            r.edits@.len() == 0,
    {
        ToolResult {
            call_id: to_owned_str(call_id),
            status: ToolResultStatus::Error,
            content: to_owned_str(message),
            truncated: false,
            next_offset: None,
            edits: Vec::new(),
        }
    }

    /// A workspace failure as a tool result without a call.
    pub fn from_workspace_error(error: &WorkspaceError) -> (r: Self)
        ensures
            r.call_id@ == Seq::<char>::empty(),
            r.status == ToolResultStatus::Error,
            r.content@ == error.message_spec(),
            !r.truncated,
            r.next_offset is None,
            r.edits@.len() == 0,
    {
        let m = error.message();
        proof {
            reveal_strlit("");
        }
        Self::error("", m.as_str())
    }
}

/// A command's output cut to `limit` characters, and whether it was cut.
pub fn truncate_output(content: String, limit: usize) -> (r: (String, bool))
    ensures
        content@.len() <= limit ==> r.0@ == content@ && !r.1,
        content@.len() > limit ==> r.0@ == content@.take(limit as int) && r.1,
{
    let v = chars_of(content.as_str());
    if v.len() <= limit {
        return (content, false);
    }
    let t = crate::text::subrange_string(&v, 0, limit);
    assert(v@.subrange(0, limit as int) =~= content@.take(limit as int));
    (t, true)
}

/// The first word of a text: its characters up to the first white space.
pub open spec fn first_word(s: Seq<char>) -> Seq<char>
    decreases s.len(),
{
    if s.len() == 0 || crate::text::is_ws(s[0]) {
        Seq::empty()
    } else {
        seq![s[0]] + first_word(s.drop_first())
    }
}

/// Programs that destroy data or stop the machine.
pub open spec fn is_destructive_program(w: Seq<char>) -> bool {
    w == "rm"@ || w == "sudo"@ || w == "mkfs"@ || w == "dd"@ || w == "shutdown"@ || w == "reboot"@
        || w == "halt"@ || w == "poweroff"@
}

/// Why a shell command needs the user's approval, if it does.
pub open spec fn risk_reason_spec(command: Seq<char>) -> Option<Seq<char>> {
    let t = crate::text::trim_seq(command);
    let w = first_word(t);
    let l = crate::text::unicode_lowercase(t);
    if t.len() == 0 {
        Some("empty command"@)
    } else if is_destructive_program(w) {
        Some("destructive command '"@ + w + "'"@)
    } else if crate::text::contains_seq(l, "rm -rf"@) || crate::text::contains_seq(l, "rm -fr"@) {
        Some("recursive deletion"@)
    } else if crate::text::contains_seq(l, "git reset --hard"@) || crate::text::contains_seq(l, "git clean -fd"@) {
        Some("destructive git operation"@)
    } else if crate::text::contains_seq(l, "curl"@) && (crate::text::contains_seq(l, "| sh"@)
        || crate::text::contains_seq(l, "| bash"@)) {
        Some("piping network output into a shell"@)
    } else {
        None
    }
}

fn first_word_exec(s: &str) -> (r: String)
    ensures
        r@ == first_word(s@),
{
    let v = chars_of(s);
    let mut i: usize = 0;
    while i < v.len() && !crate::text::is_whitespace(v[i])
        invariant
            i <= v.len(),
            v@ == s@,
            forall|j: int| 0 <= j < i ==> !crate::text::is_ws(#[trigger] v@[j]),
        decreases v.len() - i,
    {
        i = i + 1;
    }
    proof {
        lemma_first_word_at(v@, i as int);
    }
    crate::text::subrange_string(&v, 0, i)
}

proof fn lemma_first_word_at(s: Seq<char>, i: int)
    requires
        0 <= i <= s.len(),
        forall|j: int| 0 <= j < i ==> !crate::text::is_ws(#[trigger] s[j]),
        i == s.len() || crate::text::is_ws(s[i]),
    ensures
        first_word(s) == s.subrange(0, i),
    decreases i,
{
    if i == 0 {
        assert(s.subrange(0, 0) =~= Seq::<char>::empty());
    } else {
        let t = s.drop_first();
        assert forall|j: int| 0 <= j < i - 1 implies !crate::text::is_ws(#[trigger] t[j]) by {
            assert(t[j] == s[j + 1]);
        }
        lemma_first_word_at(t, i - 1);
        assert(seq![s[0]] + t.subrange(0, i - 1) =~= s.subrange(0, i));
    }
}

/// Why a shell command needs approval: an empty command, a destructive program, a recursive
/// deletion, a destructive git operation, or network output piped into a shell.
pub fn command_risk_reason(command: &str) -> (r: Option<String>)
    ensures
        match risk_reason_spec(command@) {
            Some(m) => r matches Some(x) && x@ == m,
            None => r is None,
        },
{
    let trimmed = crate::text::trim(command);
    let w = first_word_exec(trimmed.as_str());
    let lowered = crate::text::to_lowercase(trimmed.as_str());
    let l = lowered.as_str();
    let ws = w.as_str();
    if trimmed.as_str().unicode_len() == 0 {
        return Some(to_owned_str("empty command"));
    }
    if str_eq(ws, "rm") || str_eq(ws, "sudo") || str_eq(ws, "mkfs") || str_eq(ws, "dd") || str_eq(ws, "shutdown")
        || str_eq(ws, "reboot") || str_eq(ws, "halt") || str_eq(ws, "poweroff") {
        return Some(cat3("destructive command '", ws, "'"));
    }
    if crate::text::contains(l, "rm -rf") || crate::text::contains(l, "rm -fr") {
        return Some(to_owned_str("recursive deletion"));
    }
    if crate::text::contains(l, "git reset --hard") || crate::text::contains(l, "git clean -fd") {
        return Some(to_owned_str("destructive git operation"));
    }
    if crate::text::contains(l, "curl") && (crate::text::contains(l, "| sh") || crate::text::contains(l, "| bash")) {
        return Some(to_owned_str("piping network output into a shell"));
    }
    None
}

/// Whether the approval setting lets a command run, and why not when it does not.
pub open spec fn command_allowed_spec(approval: CommandApproval, command: Seq<char>) -> Result<(), Seq<char>> {
    match approval {
        CommandApproval::Always => Ok(()),
        CommandApproval::Never => Err("command execution is disabled by project config"@),
        CommandApproval::OnRisky => match risk_reason_spec(command) {
            Some(reason) => Err("command requires approval: "@ + reason),
            None => Ok(()),
        },
    }
}

pub fn command_is_allowed(approval: &CommandApproval, command: &str) -> (r: Result<(), String>)
    ensures
        match command_allowed_spec(*approval, command@) {
            Ok(()) => r is Ok,
            Err(m) => r matches Err(x) && x@ == m,
        },
{
    match approval {
        CommandApproval::Always => Ok(()),
        CommandApproval::Never => Err(to_owned_str("command execution is disabled by project config")),
        CommandApproval::OnRisky => match command_risk_reason(command) {
            Some(reason) => Err(cat("command requires approval: ", reason.as_str())),
            None => Ok(()),
        },
    }
}

/// The status of a command's result: an error when it timed out or did not exit with 0,
/// truncated when its output was cut, else a success.
pub open spec fn command_status_spec(r: CommandExecutionResult) -> ToolResultStatus {
    if r.timed_out || r.exit_code != Some(0i32) {
        ToolResultStatus::Error
    } else if r.truncated {
        ToolResultStatus::Truncated
    } else {
        ToolResultStatus::Success
    }
}

/// The tool result of a command that ran.
pub fn command_tool_result(call_id: &str, result: &CommandExecutionResult) -> (r: ToolResult)
    ensures
        r.call_id@ == call_id@,
        r.status == command_status_spec(*result),
        r.content@ == join_seq(command_report(*result), "\n"@),
        r.truncated == result.truncated,
        r.next_offset is None,
        r.edits@.len() == 0,
{
    let status = if result.timed_out || result.exit_code != Some(0i32) {
        ToolResultStatus::Error
    } else if result.truncated {
        ToolResultStatus::Truncated
    } else {
        ToolResultStatus::Success
    };
    ToolResult {
        call_id: to_owned_str(call_id),
        status,
        content: format_command_result(result),
        truncated: result.truncated,
        next_offset: None,
        edits: Vec::new(),
    }
}

/// How the runtime runs commands: the approval setting and the time limit.
#[derive(Debug, Clone, PartialEq, Eq)]
pub struct CommandRuntimeOptions {
    pub approval: CommandApproval,
    pub timeout_seconds: u64,
}

impl Default for CommandRuntimeOptions {
    fn default() -> (r: Self)
        ensures
            r.approval == CommandApproval::OnRisky,
            r.timeout_seconds == 120,
    {
        CommandRuntimeOptions { approval: CommandApproval::OnRisky, timeout_seconds: 120 }
    }
}

#[derive(Debug, Clone, PartialEq, Eq)]
pub struct ToolRuntimeOptions {
    pub command: CommandRuntimeOptions,
}

impl Default for ToolRuntimeOptions {
    fn default() -> (r: Self)
        ensures
            r.command.approval == CommandApproval::OnRisky,
            r.command.timeout_seconds == 120,
    {
        ToolRuntimeOptions { command: CommandRuntimeOptions::default() }
    }
}

impl ToolRuntimeOptions {
    /// The options that a project's command settings give: those it sets, the defaults for
    /// the rest, and a time limit of at least one second.
    pub fn from_project_config(config: Option<&ProjectCommandConfig>) -> (r: Self)
        ensures
            match config {
                Some(c) => {
                    &&& r.command.approval == match c.approval {
                        Some(a) => a,
                        None => CommandApproval::OnRisky,
                    }
                    &&& r.command.timeout_seconds == match c.timeout {
                        Some(t) => if t < 1 { 1 } else { t },
                        None => 120,
                    }
                },
                None => r.command.approval == CommandApproval::OnRisky && r.command.timeout_seconds == 120,
            },
    {
        match config {
            Some(c) => {
                let approval = match &c.approval {
                    Some(a) => a.copy(),
                    None => CommandApproval::OnRisky,
                };
                let timeout_seconds = match c.timeout {
                    Some(t) => if t < 1 {
                        1
                    } else {
                        t
                    },
                    None => 120,
                };
                ToolRuntimeOptions { command: CommandRuntimeOptions { approval, timeout_seconds } }
            },
            None => ToolRuntimeOptions::default(),
        }
    }
}


// ---------------------------------------------------------------------------
// Edit journal

/// A checkpoint that can be rewound: it has an id, a path and both hashes.
pub open spec fn is_complete(c: EditCheckpoint) -> bool {
    c.checkpoint_id@.len() > 0 && c.path@.len() > 0 && c.base_hash@.len() > 0 && c.result_hash@.len() > 0
}

pub fn checkpoint_is_complete(checkpoint: &EditCheckpoint) -> (r: bool)
    ensures
        r == is_complete(*checkpoint),
{
    checkpoint.checkpoint_id.as_str().unicode_len() > 0 && checkpoint.path.as_str().unicode_len() > 0
        && checkpoint.base_hash.as_str().unicode_len() > 0 && checkpoint.result_hash.as_str().unicode_len() > 0
}

pub fn copy_checkpoint(c: &EditCheckpoint) -> (r: EditCheckpoint)
    ensures
        r == *c,
{
    EditCheckpoint {
        path: c.path.clone(),
        checkpoint_id: c.checkpoint_id.clone(),
        base_hash: c.base_hash.clone(),
        result_hash: c.result_hash.clone(),
        before_content: c.before_content.clone(),
        after_content: c.after_content.clone(),
        diff: c.diff.clone(),
    }
}

/// The last position of a checkpoint of `path` with the id `id`.
pub open spec fn last_position(s: Seq<EditCheckpoint>, path: Seq<char>, id: Seq<char>) -> Option<int>
    decreases s.len(),
{
    if s.len() == 0 {
        None
    } else if s.last().path@ == path && s.last().checkpoint_id@ == id {
        Some(s.len() - 1)
    } else {
        last_position(s.drop_last(), path, id)
    }
}

pub proof fn lemma_last_position(s: Seq<EditCheckpoint>, path: Seq<char>, id: Seq<char>)
    ensures
        last_position(s, path, id) matches Some(j) ==> 0 <= j < s.len() && s[j].path@ == path
            && s[j].checkpoint_id@ == id && forall|k: int| j < k < s.len() ==> !(s[k].path@ == path && s[k].checkpoint_id@ == id),
        last_position(s, path, id) is None ==> forall|k: int| 0 <= k < s.len() ==> !(s[k].path@ == path && s[k].checkpoint_id@ == id),
    decreases s.len(),
{
    if s.len() > 0 {
        lemma_last_position(s.drop_last(), path, id);
        assert forall|k: int| 0 <= k < s.len() - 1 implies s.drop_last()[k] == s[k] by {}
    }
}

/// The journal after an edit: an applied edit with a complete checkpoint is added unless the
/// journal already has that checkpoint for the file; a rewind takes out the last entry of the
/// checkpoint that it undid.
pub open spec fn record_spec(s: Seq<EditCheckpoint>, edit: FileEditEvent) -> Seq<EditCheckpoint> {
    let c = edit.checkpoint;
    match edit.action {
        FileEditAction::Applied => if is_complete(c) && last_position(s, c.path@, c.checkpoint_id@) is None {
            s.push(c)
        } else {
            s
        },
        FileEditAction::RolledBack => match edit.rewound_checkpoint_id {
            Some(t) => match last_position(s, c.path@, t@) {
                Some(j) => s.remove(j),
                None => s,
            },
            None => s,
        },
    }
}

pub open spec fn record_all(s: Seq<EditCheckpoint>, edits: Seq<FileEditEvent>) -> Seq<EditCheckpoint>
    decreases edits.len(),
{
    if edits.len() == 0 {
        s
    } else {
        record_spec(record_all(s, edits.drop_last()), edits.last())
    }
}

/// Recording an edit makes its checkpoint the latest of its file, and recording the rewind of
/// that edit next leaves the journal as it was before the edit.
pub proof fn law_rewind_undoes_record(s: Seq<EditCheckpoint>, applied: FileEditEvent, rewind: FileEditEvent)
    requires
        applied.action == FileEditAction::Applied,
        is_complete(applied.checkpoint),
        last_position(s, applied.checkpoint.path@, applied.checkpoint.checkpoint_id@) is None,
        rewind.action == FileEditAction::RolledBack,
        rewind.checkpoint.path@ == applied.checkpoint.path@,
        rewind.rewound_checkpoint_id matches Some(t) && t@ == applied.checkpoint.checkpoint_id@,
    ensures
        latest_for(record_spec(s, applied), applied.checkpoint.path@) == Some(applied.checkpoint),
        record_spec(record_spec(s, applied), rewind) == s,
{
    let t = s.push(applied.checkpoint);
    assert(record_spec(s, applied) == t);
    assert(t.drop_last() =~= s);
    assert(last_position(t, applied.checkpoint.path@, applied.checkpoint.checkpoint_id@) == Some(s.len() as int));
    assert(t.remove(s.len() as int) =~= s);
}

/// The edits that an event carries: a file edit, or those of a tool result.
pub open spec fn event_edits(e: Event) -> Seq<FileEditEvent> {
    match e.msg {
        EventMsg::FileEdit(edit) => seq![edit],
        EventMsg::ToolResult(r) => r.edits@,
        _ => Seq::empty(),
    }
}

pub open spec fn journal_of(events: Seq<Event>) -> Seq<EditCheckpoint>
    decreases events.len(),
{
    if events.len() == 0 {
        Seq::empty()
    } else {
        record_all(journal_of(events.drop_last()), event_edits(events.last()))
    }
}

/// The latest checkpoint of a file.
pub open spec fn latest_for(s: Seq<EditCheckpoint>, path: Seq<char>) -> Option<EditCheckpoint>
    decreases s.len(),
{
    if s.len() == 0 {
        None
    } else if s.last().path@ == path {
        Some(s.last())
    } else {
        latest_for(s.drop_last(), path)
    }
}

/// The checkpoints of the edits of a thread that can still be rewound, oldest first.
#[derive(Debug, Clone, Default)]
pub struct EditJournal {
    pub entries: Vec<EditCheckpoint>,
}

impl EditJournal {
    pub fn new() -> (r: Self)
        ensures
            r.entries@.len() == 0,
    {
        EditJournal { entries: Vec::new() }
    }

    /// The journal that the events of a thread leave.
    pub fn from_events(events: &Vec<Event>) -> (r: Self)
        ensures
            r.entries@ == journal_of(events@),
    {
        let mut j = EditJournal::new();
        let mut i: usize = 0;
        assert(journal_of(events@.take(0)) =~= j.entries@);
        while i < events.len()
            invariant
                i <= events.len(),
                j.entries@ == journal_of(events@.take(i as int)),
            decreases events.len() - i,
        {
            assert(events@.take(i + 1).drop_last() =~= events@.take(i as int));
            assert(events@.take(i + 1).last() == events@[i as int]);
            let ghost start = j.entries@;
            let ghost es = event_edits(events@[i as int]);
            match &events[i].msg {
                EventMsg::FileEdit(edit) => {
                    j.record(edit);
                    assert(es == seq![*edit]);
                    assert(seq![*edit].drop_last() =~= Seq::<FileEditEvent>::empty());
                    assert(seq![*edit].last() == *edit);
                    assert(record_all(start, Seq::<FileEditEvent>::empty()) == start);
                    assert(j.entries@ == record_all(start, es));
                },
                EventMsg::ToolResult(result) => {
                    let mut k: usize = 0;
                    while k < result.edits.len()
                        invariant
                            k <= result.edits.len(),
                            j.entries@ == record_all(start, result.edits@.take(k as int)),
                        decreases result.edits.len() - k,
                    {
                        assert(result.edits@.take(k + 1).drop_last() =~= result.edits@.take(k as int));
                        j.record(&result.edits[k]);
                        k = k + 1;
                    }
                    assert(result.edits@.take(result.edits.len() as int) =~= result.edits@);
                    assert(j.entries@ == record_all(start, es));
                },
                _ => {
                    assert(es =~= Seq::<FileEditEvent>::empty());
                },
            }
            i = i + 1;
        }
        assert(events@.take(events.len() as int) =~= events@);
        j
    }

    /// Takes one edit into account.
    pub fn record(&mut self, edit: &FileEditEvent)
        ensures
            final(self).entries@ == record_spec(old(self).entries@, *edit),
    {
        let c = &edit.checkpoint;
        proof {
            lemma_last_position(self.entries@, c.path@, c.checkpoint_id@);
        }
        match edit.action {
            FileEditAction::Applied => {
                if checkpoint_is_complete(c) {
                    match self.last_position_of(c.path.as_str(), c.checkpoint_id.as_str()) {
                        Some(_) => {},
                        None => {
                            self.entries.push(copy_checkpoint(c));
                        },
                    }
                }
                assert(self.entries@ == record_spec(old(self).entries@, *edit));
            },
            FileEditAction::RolledBack => {
                if let Some(t) = &edit.rewound_checkpoint_id {
                    proof {
                        lemma_last_position(self.entries@, c.path@, t@);
                    }
                    if let Some(j) = self.last_position_of(c.path.as_str(), t.as_str()) {
                        self.entries.remove(j);
                    }
                    assert(self.entries@ == record_spec(old(self).entries@, *edit));
                }
            },
        }
    }

    fn last_position_of(&self, path: &str, id: &str) -> (r: Option<usize>)
        ensures
            match last_position(self.entries@, path@, id@) {
                Some(j) => r == Some(j as usize),
                None => r is None,
            },
    {
        let mut i = self.entries.len();
        assert(self.entries@.take(i as int) =~= self.entries@);
        while i > 0
            invariant
                i <= self.entries.len(),
                last_position(self.entries@, path@, id@) == last_position(self.entries@.take(i as int), path@, id@),
            decreases i,
        {
            let e = &self.entries[i - 1];
            assert(self.entries@.take(i as int).drop_last() =~= self.entries@.take(i - 1));
            if str_eq(e.path.as_str(), path) && str_eq(e.checkpoint_id.as_str(), id) {
                return Some(i - 1);
            }
            i = i - 1;
        }
        None
    }

    /// The latest checkpoint of a file that can be rewound.
    pub fn latest_checkpoint_for_path(&self, path: &str) -> (r: Option<EditCheckpoint>)
        ensures
            r == latest_for(self.entries@, path@),
    {
        let mut i = self.entries.len();
        assert(self.entries@.take(i as int) =~= self.entries@);
        while i > 0
            invariant
                i <= self.entries.len(),
                latest_for(self.entries@, path@) == latest_for(self.entries@.take(i as int), path@),
            decreases i,
        {
            assert(self.entries@.take(i as int).drop_last() =~= self.entries@.take(i - 1));
            if str_eq(self.entries[i - 1].path.as_str(), path) {
                return Some(copy_checkpoint(&self.entries[i - 1]));
            }
            i = i - 1;
        }
        None
    }
}


// ---------------------------------------------------------------------------
// Tool arguments

/// A value of a JSON object's field, as the tool arguments read it.
#[derive(Debug, Clone, PartialEq, Eq)]
pub enum JsonField {
    Text(String),
    Unsigned(u64),
    Flag(bool),
    Other,
}

pub ghost enum JsonFieldView {
    Text(Seq<char>),
    Unsigned(u64),
    Flag(bool),
    Other,
}

impl JsonField {
    pub open spec fn view_field(self) -> JsonFieldView {
        match self {
            JsonField::Text(t) => JsonFieldView::Text(t@),
            JsonField::Unsigned(n) => JsonFieldView::Unsigned(n),
            JsonField::Flag(b) => JsonFieldView::Flag(b),
            JsonField::Other => JsonFieldView::Other,
        }
    }
}

pub open spec fn field_views(v: Seq<(String, JsonField)>) -> Seq<(Seq<char>, JsonFieldView)> {
    v.map_values(|e: (String, JsonField)| (e.0@, e.1.view_field()))
}

/// The fields of the JSON object that `serde_json` reads from the text (`None` when the text
/// is not a JSON object): each key with its value as a string, an unsigned integer, a boolean,
/// or something else.
pub uninterp spec fn serde_json_object_fields(text: Seq<char>) -> Option<Seq<(Seq<char>, JsonFieldView)>>;

/// `serde_json::from_str::<serde_json::Value>`, taken apart when it gives an object: each
/// field's value as a string, an unsigned integer (`as_u64`), a boolean, or something else.
#[verifier::external_body]
pub(crate) fn json_object_fields(text: &str) -> (r: Option<Vec<(String, JsonField)>>)
    ensures
        match serde_json_object_fields(text@) {
            Some(f) => r matches Some(v) && field_views(v@) == f,
            None => r is None,
        },
{
    let Ok(serde_json::Value::Object(map)) = serde_json::from_str::<serde_json::Value>(text) else {
        return None;
    };
    let mut out = Vec::new();
    for (k, v) in map {
        let f = match v {
            serde_json::Value::String(s) => JsonField::Text(s),
            serde_json::Value::Bool(b) => JsonField::Flag(b),
            serde_json::Value::Number(n) => n.as_u64().map_or(JsonField::Other, JsonField::Unsigned),
            _ => JsonField::Other,
        };
        out.push((k, f));
    }
    Some(out)
}

/// The key and value of an argument line: split at the first `=`, both trimmed.
pub open spec fn kv_pair(line: Seq<char>) -> Option<(Seq<char>, Seq<char>)> {
    match crate::text::find_seq(line, "="@) {
        Some(i) => Some((crate::text::trim_seq(line.take(i)), crate::text::trim_seq(line.skip(i + 1)))),
        None => None,
    }
}

pub open spec fn kv_pairs(ls: Seq<Seq<char>>) -> Seq<(Seq<char>, Seq<char>)>
    decreases ls.len(),
{
    if ls.len() == 0 {
        Seq::empty()
    } else {
        let prev = kv_pairs(ls.drop_last());
        match kv_pair(ls.last()) {
            Some(p) => prev.push(p),
            None => prev,
        }
    }
}

/// How the arguments of a call were given: as `key=value` lines or as a JSON object.
pub ghost enum ArgsView {
    Lines(Seq<(Seq<char>, Seq<char>)>),
    Json(Seq<(Seq<char>, JsonFieldView)>),
}

/// The arguments that a call's text gives: a JSON object when the trimmed text starts with
/// `{` and reads as one, else the `key=value` lines.
pub open spec fn args_of(input: Seq<char>) -> ArgsView {
    let t = crate::text::trim_seq(input);
    if "{"@.is_prefix_of(t) && serde_json_object_fields(t) is Some {
        ArgsView::Json(serde_json_object_fields(t).unwrap())
    } else {
        ArgsView::Lines(kv_pairs(lines_seq(input)))
    }
}

pub open spec fn first_line_value(v: Seq<(Seq<char>, Seq<char>)>, key: Seq<char>) -> Option<Seq<char>>
    decreases v.len(),
{
    if v.len() == 0 {
        None
    } else if v[0].0 == key {
        Some(v[0].1)
    } else {
        first_line_value(v.drop_first(), key)
    }
}

pub open spec fn json_get(v: Seq<(Seq<char>, JsonFieldView)>, key: Seq<char>) -> Option<JsonFieldView>
    decreases v.len(),
{
    if v.len() == 0 {
        None
    } else if v[0].0 == key {
        Some(v[0].1)
    } else {
        json_get(v.drop_first(), key)
    }
}

/// The text value of an argument.
pub open spec fn arg_text(a: ArgsView, key: Seq<char>) -> Option<Seq<char>> {
    match a {
        ArgsView::Lines(v) => first_line_value(v, key),
        ArgsView::Json(v) => match json_get(v, key) {
            Some(JsonFieldView::Text(t)) => Some(t),
            _ => None,
        },
    }
}

/// What `str::parse::<usize>` gives.
pub open spec fn parsed_usize(v: Seq<char>) -> Option<usize> {
    if exists|n: int| crate::text::parses_as_usize(v, n) {
        Some((choose|n: int| crate::text::parses_as_usize(v, n)) as usize)
    } else {
        None
    }
}

pub open spec fn parsed_bool(v: Seq<char>) -> Option<bool> {
    if v == "true"@ {
        Some(true)
    } else if v == "false"@ {
        Some(false)
    } else {
        None
    }
}

/// The number value of an argument: a JSON unsigned integer, else its text read as a number.
pub open spec fn arg_usize(a: ArgsView, key: Seq<char>) -> Option<usize> {
    let from_text = match arg_text(a, key) {
        Some(t) => parsed_usize(t),
        None => None,
    };
    match a {
        ArgsView::Json(v) => match json_get(v, key) {
            Some(JsonFieldView::Unsigned(n)) => Some(n as usize),
            _ => from_text,
        },
        ArgsView::Lines(_) => from_text,
    }
}

/// The boolean value of an argument: a JSON boolean, else its text `true` or `false`.
pub open spec fn arg_bool(a: ArgsView, key: Seq<char>) -> Option<bool> {
    let from_text = match arg_text(a, key) {
        Some(t) => parsed_bool(t),
        None => None,
    };
    match a {
        ArgsView::Json(v) => match json_get(v, key) {
            Some(JsonFieldView::Flag(b)) => Some(b),
            _ => from_text,
        },
        ArgsView::Lines(_) => from_text,
    }
}

#[derive(Debug, Clone, PartialEq, Eq)]
pub enum ToolArgValues {
    Lines(Vec<(String, String)>),
    Json(Vec<(String, JsonField)>),
}

pub open spec fn pair_views(v: Seq<(String, String)>) -> Seq<(Seq<char>, Seq<char>)> {
    v.map_values(|e: (String, String)| (e.0@, e.1@))
}

/// The arguments of a tool call.
#[derive(Debug, Clone, PartialEq, Eq)]
pub struct ToolArgs {
    pub values: ToolArgValues,
}

fn split_key_value(line: &str) -> (r: Option<(String, String)>)
    ensures
        match kv_pair(line@) {
            Some(p) => r matches Some(x) && x.0@ == p.0 && x.1@ == p.1,
            None => r is None,
        },
{
    let v = chars_of(line);
    let eq = chars_of("=");
    proof {
        reveal_strlit("=");
    }
    match crate::text::find_chars(&v, &eq) {
        Some(i) => {
            let n = v.len();
            let k = crate::text::subrange_string(&v, 0, i);
            let rest = crate::text::subrange_string(&v, i + 1, n);
            assert(v@.subrange(0, i as int) =~= line@.take(i as int));
            assert(v@.subrange(i + 1, n as int) =~= line@.skip(i + 1));
            Some((crate::text::trim(k.as_str()), crate::text::trim(rest.as_str())))
        },
        None => None,
    }
}

pub(crate) fn json_get_exec(v: &Vec<(String, JsonField)>, key: &str) -> (r: Option<JsonField>)
    ensures
        match json_get(field_views(v@), key@) {
            Some(f) => r matches Some(x) && x.view_field() == f,
            None => r is None,
        },
{
    let mut i: usize = 0;
    assert(field_views(v@).skip(0) =~= field_views(v@));
    while i < v.len()
        invariant
            i <= v.len(),
            json_get(field_views(v@), key@) == json_get(field_views(v@).skip(i as int), key@),
        decreases v.len() - i,
    {
        assert(field_views(v@).skip(i as int)[0] == (v@[i as int].0@, v@[i as int].1.view_field()));
        assert(field_views(v@).skip(i as int).drop_first() =~= field_views(v@).skip(i + 1));
        if str_eq(v[i].0.as_str(), key) {
            let f = match &v[i].1 {
                JsonField::Text(t) => JsonField::Text(t.clone()),
                JsonField::Unsigned(n) => JsonField::Unsigned(*n),
                JsonField::Flag(b) => JsonField::Flag(*b),
                JsonField::Other => JsonField::Other,
            };
            return Some(f);
        }
        i = i + 1;
    }
    None
}

fn usize_of_text(t: &str) -> (r: Option<usize>)
    ensures
        r == parsed_usize(t@),
{
    let r = crate::text::parse_usize(t);
    proof {
        if let Some(n) = r {
            let m = choose|m: int| crate::text::parses_as_usize(t@, m);
            assert(crate::text::parses_as_usize(t@, m));
        }
    }
    r
}

fn bool_of_text(t: &str) -> (r: Option<bool>)
    ensures
        r == parsed_bool(t@),
{
    if str_eq(t, "true") {
        Some(true)
    } else if str_eq(t, "false") {
        Some(false)
    } else {
        None
    }
}

fn collect_pairs(ls: &Vec<String>) -> (out: Vec<(String, String)>)
    ensures
        pair_views(out@) == kv_pairs(views(ls@)),
{
    let mut out: Vec<(String, String)> = Vec::new();
    let mut i: usize = 0;
    while i < ls.len()
        invariant
            i <= ls.len(),
            pair_views(out@) == kv_pairs(views(ls@).take(i as int)),
        decreases ls.len() - i,
    {
        assert(views(ls@).take(i + 1).drop_last() =~= views(ls@).take(i as int));
        assert(views(ls@).take(i + 1).last() == ls@[i as int]@);
        match split_key_value(ls[i].as_str()) {
            Some(p) => {
                let ghost prev = out@;
                out.push(p);
                assert(pair_views(out@) =~= pair_views(prev).push((p.0@, p.1@)));
            },
            None => {},
        }
        i = i + 1;
    }
    assert(views(ls@).take(ls.len() as int) =~= views(ls@));
    out
}

impl ToolArgs {
    pub open spec fn view_args(self) -> ArgsView {
        match self.values {
            ToolArgValues::Lines(v) => ArgsView::Lines(pair_views(v@)),
            ToolArgValues::Json(v) => ArgsView::Json(field_views(v@)),
        }
    }

    /// Reads the arguments of a call.
    pub fn parse(input: &str) -> (r: Self)
        ensures
            r.view_args() == args_of(input@),
    {
        let t = crate::text::trim(input);
        if crate::text::starts_with(t.as_str(), "{") {
            if let Some(fields) = json_object_fields(t.as_str()) {
                return ToolArgs { values: ToolArgValues::Json(fields) };
            }
        }
        let ls = lines(input);
        let out = collect_pairs(&ls);
        ToolArgs { values: ToolArgValues::Lines(out) }
    }

    /// The text value of an argument.
    pub fn value(&self, key: &str) -> (r: Option<String>)
        ensures
            match arg_text(self.view_args(), key@) {
                Some(t) => r matches Some(x) && x@ == t,
                None => r is None,
            },
    {
        match &self.values {
            ToolArgValues::Lines(v) => {
                let mut i: usize = 0;
                assert(pair_views(v@).skip(0) =~= pair_views(v@));
                assert(self.view_args() == ArgsView::Lines(pair_views(v@)));
                while i < v.len()
                    invariant
                        i <= v.len(),
                        self.view_args() == ArgsView::Lines(pair_views(v@)),
                        first_line_value(pair_views(v@), key@) == first_line_value(pair_views(v@).skip(i as int), key@),
                    decreases v.len() - i,
                {
                    assert(pair_views(v@).skip(i as int)[0] == (v@[i as int].0@, v@[i as int].1@));
                    assert(pair_views(v@).skip(i as int).drop_first() =~= pair_views(v@).skip(i + 1));
                    if str_eq(v[i].0.as_str(), key) {
                        let x = v[i].1.clone();
                        assert(x@ == v@[i as int].1@);
                        return Some(x);
                    }
                    i = i + 1;
                }
                None
            },
            ToolArgValues::Json(v) => match json_get_exec(v, key) {
                Some(JsonField::Text(t)) => Some(t),
                _ => None,
            },
        }
    }

    /// The number value of an argument.
    pub fn usize(&self, key: &str) -> (r: Option<usize>)
        ensures
            r == arg_usize(self.view_args(), key@),
    {
        match &self.values {
            ToolArgValues::Json(v) => {
                if let Some(JsonField::Unsigned(n)) = json_get_exec(v, key) {
                    return Some(n as usize);
                }
            },
            ToolArgValues::Lines(_) => {},
        }
        match self.value(key) {
            Some(t) => usize_of_text(t.as_str()),
            None => None,
        }
    }

    /// The boolean value of an argument.
    pub fn bool(&self, key: &str) -> (r: Option<bool>)
        ensures
            r == arg_bool(self.view_args(), key@),
    {
        match &self.values {
            ToolArgValues::Json(v) => {
                if let Some(JsonField::Flag(b)) = json_get_exec(v, key) {
                    return Some(b);
                }
            },
            ToolArgValues::Lines(_) => {},
        }
        match self.value(key) {
            Some(t) => bool_of_text(t.as_str()),
            None => None,
        }
    }
}


// ---------------------------------------------------------------------------
// Batch edit requests

/// The items of the JSON array that `serde_json` reads from the text, each written back as
/// JSON text (`Ok(None)` when the text is JSON but not an array; the error's message when it
/// is not JSON).
pub uninterp spec fn serde_json_array_items(text: Seq<char>) -> Result<Option<Seq<Seq<char>>>, Seq<char>>;

/// `serde_json::from_str::<serde_json::Value>` on a batch of edits: the error's message, or the
/// array's items, each written back with `to_string`. Reading an item's text again gives the
/// item again, which is what `serde_json` promises of the text it writes; the contract does
/// not state that.
#[verifier::external_body]
pub(crate) fn json_array_items(text: &str) -> (r: Result<Option<Vec<String>>, String>)
    ensures
        match serde_json_array_items(text@) {
            Ok(Some(items)) => r matches Ok(Some(v)) && views(v@) == items,
            Ok(None) => r matches Ok(None),
            Err(e) => r matches Err(m) && m@ == e,
        },
{
    match serde_json::from_str::<serde_json::Value>(text) {
        Ok(value) => Ok(value.as_array().map(|items| items.iter().map(|item| item.to_string()).collect())),
        Err(error) => Err(error.to_string()),
    }
}

pub open spec fn text_field(fields: Seq<(Seq<char>, JsonFieldView)>, key: Seq<char>) -> Option<Seq<char>> {
    match json_get(fields, key) {
        Some(JsonFieldView::Text(t)) => Some(t),
        _ => None,
    }
}

/// One edit of a batch: it needs a path, a pattern and a replacement; a hash is optional.
pub open spec fn edit_request_spec(item: Seq<char>) -> Result<(Seq<char>, Seq<char>, Seq<char>, Option<Seq<char>>), Seq<char>> {
    let fields = match serde_json_object_fields(item) {
        Some(f) => f,
        None => Seq::empty(),
    };
    match text_field(fields, "path"@) {
        None => Err("batch edit item missing path"@),
        Some(path) => match text_field(fields, "find"@) {
            None => Err("batch edit for "@ + path + " missing find"@),
            Some(find) => match text_field(fields, "replace"@) {
                None => Err("batch edit for "@ + path + " missing replace"@),
                Some(replace) => Ok((path, find, replace, text_field(fields, "expected_hash"@))),
            },
        },
    }
}

pub open spec fn request_view(e: EditRequest) -> (Seq<char>, Seq<char>, Seq<char>, Option<Seq<char>>) {
    (e.path@, e.find@, e.replace@, match e.expected_hash {
        Some(h) => Some(h@),
        None => None,
    })
}

/// The first failing item, if any.
pub open spec fn first_bad_item(items: Seq<Seq<char>>) -> Option<int>
    decreases items.len(),
{
    if items.len() == 0 {
        None
    } else {
        match first_bad_item(items.drop_last()) {
            Some(i) => Some(i),
            None => if edit_request_spec(items.last()) is Err {
                Some(items.len() - 1)
            } else {
                None
            },
        }
    }
}

/// The edits of a batch given as JSON text: refused when it is not JSON, not an array, or
/// when an item lacks a field (the first such item decides the message).
pub open spec fn edit_requests_ok(input: Seq<char>, r: Result<Vec<EditRequest>, String>) -> bool {
    match serde_json_array_items(input) {
        Err(e) => r matches Err(m) && m@ == "invalid edits_json: "@ + e,
        Ok(None) => r matches Err(m) && m@ == "edits_json must be a JSON array"@,
        Ok(Some(items)) => match first_bad_item(items) {
            Some(i) => r matches Err(m) && edit_request_spec(items[i]) matches Err(x) && m@ == x,
            None => r matches Ok(v) && v@.len() == items.len() && forall|k: int|
                0 <= k < items.len() ==> edit_request_spec(items[k]) == Ok::<_, Seq<char>>(request_view(#[trigger] v@[k])),
        },
    }
}

pub(crate) fn text_field_exec(fields: &Vec<(String, JsonField)>, key: &str) -> (r: Option<String>)
    ensures
        match text_field(field_views(fields@), key@) {
            Some(t) => r matches Some(x) && x@ == t,
            None => r is None,
        },
{
    match json_get_exec(fields, key) {
        Some(JsonField::Text(t)) => Some(t),
        _ => None,
    }
}

fn edit_request_of(item: &str) -> (r: Result<EditRequest, String>)
    ensures
        match edit_request_spec(item@) {
            Ok(v) => r matches Ok(e) && request_view(e) == v,
            Err(m) => r matches Err(x) && x@ == m,
        },
{
    let fields = match json_object_fields(item) {
        Some(f) => f,
        None => Vec::new(),
    };
    assert(field_views(fields@) == match serde_json_object_fields(item@) {
        Some(f) => f,
        None => Seq::<(Seq<char>, JsonFieldView)>::empty(),
    });
    let path = match text_field_exec(&fields, "path") {
        Some(p) => p,
        None => return Err(to_owned_str("batch edit item missing path")),
    };
    let find = match text_field_exec(&fields, "find") {
        Some(f) => f,
        None => return Err(cat3("batch edit for ", path.as_str(), " missing find")),
    };
    let replace = match text_field_exec(&fields, "replace") {
        Some(x) => x,
        None => return Err(cat3("batch edit for ", path.as_str(), " missing replace")),
    };
    let expected_hash = text_field_exec(&fields, "expected_hash");
    Ok(EditRequest { path, find, replace, expected_hash })
}

proof fn lemma_first_bad_item(items: Seq<Seq<char>>)
    ensures
        first_bad_item(items) matches Some(i) ==> 0 <= i < items.len() && edit_request_spec(items[i]) is Err
            && forall|k: int| 0 <= k < i ==> edit_request_spec(items[k]) is Ok,
        first_bad_item(items) is None ==> forall|k: int| 0 <= k < items.len() ==> edit_request_spec(items[k]) is Ok,
    decreases items.len(),
{
    if items.len() > 0 {
        lemma_first_bad_item(items.drop_last());
        assert forall|k: int| 0 <= k < items.len() - 1 implies items.drop_last()[k] == items[k] by {}
    }
}

/// Reads the edits of a batch from JSON text.
pub fn parse_edit_requests_json(input: &str) -> (r: Result<Vec<EditRequest>, String>)
    ensures
        edit_requests_ok(input@, r),
{
    let items = match json_array_items(input) {
        Err(e) => return Err(cat("invalid edits_json: ", e.as_str())),
        Ok(None) => return Err(to_owned_str("edits_json must be a JSON array")),
        Ok(Some(items)) => items,
    };
    proof {
        lemma_first_bad_item(views(items@));
    }
    let mut out: Vec<EditRequest> = Vec::new();
    let mut i: usize = 0;
    while i < items.len()
        invariant
            i <= items.len(),
            serde_json_array_items(input@) == Ok::<_, Seq<char>>(Some(views(items@))),
            out@.len() == i,
            forall|k: int| 0 <= k < i ==> edit_request_spec(views(items@)[k]) == Ok::<_, Seq<char>>(request_view(#[trigger] out@[k])),
            first_bad_item(views(items@)) matches Some(b) ==> 0 <= b < items.len() && edit_request_spec(views(items@)[b]) is Err
                && forall|k: int| 0 <= k < b ==> edit_request_spec(views(items@)[k]) is Ok,
            first_bad_item(views(items@)) is None ==> forall|k: int| 0 <= k < items.len() ==> edit_request_spec(views(items@)[k]) is Ok,
        decreases items.len() - i,
    {
        assert(views(items@)[i as int] == items@[i as int]@);
        match edit_request_of(items[i].as_str()) {
            Ok(e) => {
                out.push(e);
            },
            Err(m) => {
                proof {
                    if let Some(b) = first_bad_item(views(items@)) {
                        if b < i {
                            assert(edit_request_spec(views(items@)[b]) == Ok::<_, Seq<char>>(request_view(out@[b])));
                        }
                        if b > i {
                            assert(edit_request_spec(views(items@)[i as int]) is Ok);
                        }
                    }
                }
                return Err(m);
            },
        }
        i = i + 1;
    }
    proof {
        if let Some(b) = first_bad_item(views(items@)) {
            assert(edit_request_spec(views(items@)[b]) == Ok::<_, Seq<char>>(request_view(out@[b])));
        }
    }
    Ok(out)
}


// ---------------------------------------------------------------------------
// Planning a call

/// What a tool call asks the runtime to do, with its arguments read and checked.
#[derive(Debug, Clone, PartialEq, Eq)]
pub enum ToolRequest {
    List { path: String, limit: usize },
    Read { path: String, offset: usize, limit: usize },
    FindFiles { query: String, path: String, limit: usize },
    SearchText { query: String, path: String, limit: usize, ignore_case: bool },
    ProposeEdit { path: String, find: String, replace: String },
    ProposeEditBatch { edits: Vec<EditRequest> },
    ApplyPatch { path: String, find: String, replace: String },
    ApplyPatchBatch { edits: Vec<EditRequest> },
    RewindEdit { path: String },
    RunCommand { command: String, cwd: String, timeout_seconds: u64 },
}

pub ghost enum RequestView {
    List(Seq<char>, usize),
    Read(Seq<char>, usize, usize),
    FindFiles(Seq<char>, Seq<char>, usize),
    SearchText(Seq<char>, Seq<char>, usize, bool),
    ProposeEdit(Seq<char>, Seq<char>, Seq<char>),
    ProposeEditBatch(Seq<(Seq<char>, Seq<char>, Seq<char>, Option<Seq<char>>)>),
    ApplyPatch(Seq<char>, Seq<char>, Seq<char>),
    ApplyPatchBatch(Seq<(Seq<char>, Seq<char>, Seq<char>, Option<Seq<char>>)>),
    RewindEdit(Seq<char>),
    RunCommand(Seq<char>, Seq<char>, u64),
}

pub open spec fn request_views(v: Seq<EditRequest>) -> Seq<(Seq<char>, Seq<char>, Seq<char>, Option<Seq<char>>)> {
    v.map_values(|e: EditRequest| request_view(e))
}

impl ToolRequest {
    pub open spec fn view_request(self) -> RequestView {
        match self {
            ToolRequest::List { path, limit } => RequestView::List(path@, limit),
            ToolRequest::Read { path, offset, limit } => RequestView::Read(path@, offset, limit),
            ToolRequest::FindFiles { query, path, limit } => RequestView::FindFiles(query@, path@, limit),
            ToolRequest::SearchText { query, path, limit, ignore_case } => RequestView::SearchText(query@, path@, limit, ignore_case),
            ToolRequest::ProposeEdit { path, find, replace } => RequestView::ProposeEdit(path@, find@, replace@),
            ToolRequest::ProposeEditBatch { edits } => RequestView::ProposeEditBatch(request_views(edits@)),
            ToolRequest::ApplyPatch { path, find, replace } => RequestView::ApplyPatch(path@, find@, replace@),
            ToolRequest::ApplyPatchBatch { edits } => RequestView::ApplyPatchBatch(request_views(edits@)),
            ToolRequest::RewindEdit { path } => RequestView::RewindEdit(path@),
            ToolRequest::RunCommand { command, cwd, timeout_seconds } => RequestView::RunCommand(command@, cwd@, timeout_seconds),
        }
    }
}

pub open spec fn missing(key: Seq<char>) -> Seq<char> {
    "missing required argument: "@ + key
}

pub open spec fn text_or(a: ArgsView, key: Seq<char>, d: Seq<char>) -> Seq<char> {
    match arg_text(a, key) {
        Some(t) => t,
        None => d,
    }
}

pub open spec fn usize_or(a: ArgsView, key: Seq<char>, d: usize) -> usize {
    match arg_usize(a, key) {
        Some(n) => n,
        None => d,
    }
}

/// The batch of edits of a call, read from its `edits_json` argument.
pub open spec fn batch_spec(a: ArgsView) -> Result<Seq<(Seq<char>, Seq<char>, Seq<char>, Option<Seq<char>>)>, Seq<char>> {
    match arg_text(a, "edits_json"@) {
        None => Err(missing("edits_json"@)),
        Some(j) => match serde_json_array_items(j) {
            Err(e) => Err("invalid edits_json: "@ + e),
            Ok(None) => Err("edits_json must be a JSON array"@),
            Ok(Some(items)) => match first_bad_item(items) {
                Some(i) => match edit_request_spec(items[i]) {
                    Err(m) => Err(m),
                    Ok(_) => Err(Seq::empty()),
                },
                None => Ok(items.map_values(|it: Seq<char>| edit_request_spec(it)->Ok_0)),
            },
        },
    }
}

/// The edit of a call: its path, pattern and replacement, each required.
pub open spec fn edit_args(a: ArgsView) -> Result<(Seq<char>, Seq<char>, Seq<char>), Seq<char>> {
    match arg_text(a, "path"@) {
        None => Err(missing("path"@)),
        Some(p) => match arg_text(a, "find"@) {
            None => Err(missing("find"@)),
            Some(f) => match arg_text(a, "replace"@) {
                None => Err(missing("replace"@)),
                Some(r) => Ok((p, f, r)),
            },
        },
    }
}

/// The time limit of a command: the call's, else the runtime's, at least one second.
pub open spec fn timeout_spec(a: ArgsView, default: u64) -> u64 {
    match arg_usize(a, "timeout_seconds"@) {
        Some(v) => (if v < 1 { 1 } else { v }) as u64,
        None => if default < 1 { 1 } else { default },
    }
}

/// What a call asks for, or why it is refused before any work: an unknown tool, a missing
/// argument, an empty search, a malformed batch, or a command that the approval setting
/// does not let run.
pub open spec fn plan_spec(name: Seq<char>, a: ArgsView, options: ToolRuntimeOptions) -> Result<RequestView, Seq<char>> {
    if name == "ls"@ {
        Ok(RequestView::List(text_or(a, "path"@, "."@), usize_or(a, "limit"@, 200)))
    } else if name == "read"@ {
        match arg_text(a, "path"@) {
            None => Err(missing("path"@)),
            Some(p) => Ok(RequestView::Read(p, usize_or(a, "offset"@, 0), usize_or(a, "limit"@, 4000))),
        }
    } else if name == "find_files"@ || name == "find"@ {
        match arg_text(a, "query"@) {
            None => Err(missing("query"@)),
            Some(q) => Ok(RequestView::FindFiles(q, text_or(a, "path"@, "."@), usize_or(a, "limit"@, 100))),
        }
    } else if name == "search_text"@ || name == "grep"@ {
        match arg_text(a, "query"@) {
            None => Err(missing("query"@)),
            Some(q) => if crate::text::trim_seq(q).len() == 0 {
                Err("query must not be empty"@)
            } else {
                Ok(RequestView::SearchText(q, text_or(a, "path"@, "."@), usize_or(a, "limit"@, 100), match arg_bool(a, "ignore_case"@) {
                    Some(b) => b,
                    None => false,
                }))
            },
        }
    } else if name == "propose_edit"@ {
        match edit_args(a) {
            Err(m) => Err(m),
            Ok((p, f, r)) => Ok(RequestView::ProposeEdit(p, f, r)),
        }
    } else if name == "propose_edit_batch"@ {
        match batch_spec(a) {
            Err(m) => Err(m),
            Ok(v) => Ok(RequestView::ProposeEditBatch(v)),
        }
    } else if name == "apply_patch"@ {
        match edit_args(a) {
            Err(m) => Err(m),
            Ok((p, f, r)) => Ok(RequestView::ApplyPatch(p, f, r)),
        }
    } else if name == "apply_patch_batch"@ {
        match batch_spec(a) {
            Err(m) => Err(m),
            Ok(v) => Ok(RequestView::ApplyPatchBatch(v)),
        }
    } else if name == "rewind_edit"@ || name == "rollback_edit"@ {
        match arg_text(a, "path"@) {
            None => Err(missing("path"@)),
            Some(p) => Ok(RequestView::RewindEdit(p)),
        }
    } else if name == "run_command"@ {
        match arg_text(a, "command"@) {
            None => Err(missing("command"@)),
            Some(c) => match command_allowed_spec(options.command.approval, c) {
                Err(m) => Err(m),
                Ok(()) => Ok(RequestView::RunCommand(c, text_or(a, "cwd"@, "."@), timeout_spec(a, options.command.timeout_seconds))),
            },
        }
    } else {
        Err("unknown tool: "@ + name)
    }
}

fn required_arg(args: &ToolArgs, key: &str) -> (r: Result<String, String>)
    ensures
        match arg_text(args.view_args(), key@) {
            Some(t) => r matches Ok(x) && x@ == t,
            None => r matches Err(m) && m@ == missing(key@),
        },
{
    match args.value(key) {
        Some(v) => Ok(v),
        None => Err(cat("missing required argument: ", key)),
    }
}

fn text_arg_or(args: &ToolArgs, key: &str, d: &str) -> (r: String)
    ensures
        r@ == text_or(args.view_args(), key@, d@),
{
    match args.value(key) {
        Some(v) => v,
        None => to_owned_str(d),
    }
}

fn usize_arg_or(args: &ToolArgs, key: &str, d: usize) -> (r: usize)
    ensures
        r == usize_or(args.view_args(), key@, d),
{
    match args.usize(key) {
        Some(n) => n,
        None => d,
    }
}

fn batch_arg(args: &ToolArgs) -> (r: Result<Vec<EditRequest>, String>)
    ensures
        match batch_spec(args.view_args()) {
            Ok(v) => r matches Ok(e) && request_views(e@) == v,
            Err(m) => r matches Err(x) && x@ == m,
        },
{
    let j = match required_arg(args, "edits_json") {
        Ok(j) => j,
        Err(m) => return Err(m),
    };
    let r = parse_edit_requests_json(j.as_str());
    proof {
        match serde_json_array_items(j@) {
            Ok(Some(items)) => {
                lemma_first_bad_item(items);
                if first_bad_item(items) is None {
                    let v = r->Ok_0;
                    assert(request_views(v@) =~= items.map_values(|it: Seq<char>| edit_request_spec(it)->Ok_0));
                }
            },
            _ => {},
        }
    }
    r
}

fn edit_arg_triple(args: &ToolArgs) -> (r: Result<(String, String, String), String>)
    ensures
        match edit_args(args.view_args()) {
            Ok(t) => r matches Ok(x) && x.0@ == t.0 && x.1@ == t.1 && x.2@ == t.2,
            Err(m) => r matches Err(x) && x@ == m,
        },
{
    let p = match required_arg(args, "path") {
        Ok(p) => p,
        Err(m) => return Err(m),
    };
    let f = match required_arg(args, "find") {
        Ok(f) => f,
        Err(m) => return Err(m),
    };
    let r = match required_arg(args, "replace") {
        Ok(r) => r,
        Err(m) => return Err(m),
    };
    Ok((p, f, r))
}

fn plan_by_name(name: &str, args: &ToolArgs, options: &ToolRuntimeOptions) -> (r: Result<ToolRequest, String>)
    ensures
        match plan_spec(name@, args.view_args(), *options) {
            Ok(v) => r matches Ok(q) && q.view_request() == v,
            Err(m) => r matches Err(x) && x@ == m,
        },
{
    if str_eq(name, "ls") {
        Ok(ToolRequest::List { path: text_arg_or(args, "path", "."), limit: usize_arg_or(args, "limit", 200) })
    } else if str_eq(name, "read") {
        let path = match required_arg(args, "path") {
            Ok(p) => p,
            Err(m) => return Err(m),
        };
        Ok(ToolRequest::Read { path, offset: usize_arg_or(args, "offset", 0), limit: usize_arg_or(args, "limit", 4000) })
    } else if str_eq(name, "find_files") || str_eq(name, "find") {
        let query = match required_arg(args, "query") {
            Ok(q) => q,
            Err(m) => return Err(m),
        };
        Ok(ToolRequest::FindFiles { query, path: text_arg_or(args, "path", "."), limit: usize_arg_or(args, "limit", 100) })
    } else if str_eq(name, "search_text") || str_eq(name, "grep") {
        let query = match required_arg(args, "query") {
            Ok(q) => q,
            Err(m) => return Err(m),
        };
        if crate::text::is_blank(query.as_str()) {
            return Err(to_owned_str("query must not be empty"));
        }
        let ignore_case = match args.bool("ignore_case") {
            Some(b) => b,
            None => false,
        };
        Ok(ToolRequest::SearchText { query, path: text_arg_or(args, "path", "."), limit: usize_arg_or(args, "limit", 100), ignore_case })
    } else if str_eq(name, "propose_edit") {
        match edit_arg_triple(args) {
            Ok((path, find, replace)) => Ok(ToolRequest::ProposeEdit { path, find, replace }),
            Err(m) => Err(m),
        }
    } else if str_eq(name, "propose_edit_batch") {
        match batch_arg(args) {
            Ok(edits) => Ok(ToolRequest::ProposeEditBatch { edits }),
            Err(m) => Err(m),
        }
    } else if str_eq(name, "apply_patch") {
        match edit_arg_triple(args) {
            Ok((path, find, replace)) => Ok(ToolRequest::ApplyPatch { path, find, replace }),
            Err(m) => Err(m),
        }
    } else if str_eq(name, "apply_patch_batch") {
        match batch_arg(args) {
            Ok(edits) => Ok(ToolRequest::ApplyPatchBatch { edits }),
            Err(m) => Err(m),
        }
    } else if str_eq(name, "rewind_edit") || str_eq(name, "rollback_edit") {
        match required_arg(args, "path") {
            Ok(path) => Ok(ToolRequest::RewindEdit { path }),
            Err(m) => Err(m),
        }
    } else if str_eq(name, "run_command") {
        let command = match required_arg(args, "command") {
            Ok(c) => c,
            Err(m) => return Err(m),
        };
        let cwd = text_arg_or(args, "cwd", ".");
        let d = options.command.timeout_seconds;
        let timeout_seconds: u64 = match args.usize("timeout_seconds") {
            Some(v) => if v < 1 {
                1
            } else {
                v as u64
            },
            None => if d < 1 {
                1
            } else {
                d
            },
        };
        match command_is_allowed(&options.command.approval, command.as_str()) {
            Err(m) => Err(m),
            Ok(()) => Ok(ToolRequest::RunCommand { command, cwd, timeout_seconds }),
        }
    } else {
        Err(cat("unknown tool: ", name))
    }
}

/// Reads and checks a call: what it asks for, or the error result that answers it at once.
pub fn plan_tool_call(call: &ToolCall, options: &ToolRuntimeOptions) -> (r: Result<ToolRequest, ToolResult>)
    ensures
        match plan_spec(call.name@, args_of(call.arguments@), *options) {
            Ok(v) => r matches Ok(q) && q.view_request() == v,
            Err(m) => r matches Err(res) && res.call_id@ == call.id@ && res.status == ToolResultStatus::Error
                && res.content@ == m && !res.truncated && res.next_offset is None && res.edits@.len() == 0,
        },
{
    let args = ToolArgs::parse(call.arguments.as_str());
    match plan_by_name(call.name.as_str(), &args, options) {
        Ok(q) => Ok(q),
        Err(m) => Err(ToolResult::error(call.id.as_str(), m.as_str())),
    }
}

/// The answer to a rewind of a file that has no checkpoint left.
pub fn no_checkpoint_result(call_id: &str, path: &str) -> (r: ToolResult)
    ensures
        r.call_id@ == call_id@,
        r.status == ToolResultStatus::Error,
        r.content@ == "no checkpoint available for path: "@ + path@,
        !r.truncated,
        r.next_offset is None,
        r.edits@.len() == 0,
{
    let m = cat("no checkpoint available for path: ", path);
    ToolResult::error(call_id, m.as_str())
}

/// The result of a tool that changed files: a success that carries the edits.
pub fn edit_tool_result(call_id: &str, content: String, edits: Vec<FileEditEvent>) -> (r: ToolResult)
    ensures
        r.call_id@ == call_id@,
        r.status == ToolResultStatus::Success,
        r.content == content,
        !r.truncated,
        r.next_offset is None,
        r.edits == edits,
{
    ToolResult { call_id: to_owned_str(call_id), status: ToolResultStatus::Success, content, truncated: false, next_offset: None, edits }
}

// ---------------------------------------------------------------------------
// Command events

/// How many characters of each of a command's streams are kept.
pub const COMMAND_OUTPUT_CHAR_LIMIT: usize = 4000;

/// A line of output without its line break (`\r` and `\n` at its end).
pub open spec fn strip_line_break(s: Seq<char>) -> Seq<char>
    decreases s.len(),
{
    if s.len() > 0 && (s.last() == '\n' || s.last() == '\r') {
        strip_line_break(s.drop_last())
    } else {
        s
    }
}

/// The event of a command that starts: its call, command, directory and time limit.
pub fn command_run_event(call_id: &str, command: &str, cwd: &str, timeout_seconds: u64) -> (r: crate::event::CommandRunEvent)
    ensures
        r.call_id@ == call_id@,
        r.command@ == command@,
        r.cwd@ == cwd@,
        r.timeout_seconds == timeout_seconds,
        r.summary@ == "$ "@ + command@ + " (cwd="@ + cwd@ + ")"@,
{
    let mut summary = cat3("$ ", command, " (cwd=");
    push_str(&mut summary, cwd);
    push_str(&mut summary, ")");
    crate::event::CommandRunEvent {
        call_id: to_owned_str(call_id),
        command: to_owned_str(command),
        cwd: to_owned_str(cwd),
        timeout_seconds,
        summary,
    }
}

/// The event of a line that a command wrote to a stream, the line without its line break.
pub fn command_output_event(call_id: &str, stream: &str, raw_line: &str) -> (r: crate::event::CommandOutputEvent)
    ensures
        r.call_id@ == call_id@,
        r.stream@ == stream@,
        r.content@ == strip_line_break(raw_line@),
        r.summary@ == if strip_line_break(raw_line@).len() == 0 {
            stream@ + ":"@
        } else {
            stream@ + ": "@ + strip_line_break(raw_line@)
        },
{
    let v = chars_of(raw_line);
    let mut k = v.len();
    assert(v@.take(k as int) =~= v@);
    while k > 0 && (v[k - 1] == '\n' || v[k - 1] == '\r')
        invariant
            k <= v@.len(),
            v@ == raw_line@,
            strip_line_break(raw_line@) == strip_line_break(v@.take(k as int)),
        decreases k,
    {
        assert(v@.take(k as int).drop_last() =~= v@.take(k - 1));
        k = k - 1;
    }
    let line = crate::text::subrange_string(&v, 0, k);
    assert(v@.subrange(0, k as int) =~= v@.take(k as int));
    let summary = if k == 0 {
        cat(stream, ":")
    } else {
        cat3(stream, ": ", line.as_str())
    };
    crate::event::CommandOutputEvent {
        call_id: to_owned_str(call_id),
        stream: to_owned_str(stream),
        content: line,
        summary,
    }
}


proof fn lemma_tool_names()
    ensures
        "ls"@.len() == 2,
        "read"@.len() == 4 && "read"@[0] == 'r',
        "find_files"@.len() == 10,
        "find"@.len() == 4 && "find"@[0] == 'f',
        "search_text"@.len() == 11 && "search_text"@[0] == 's',
        "grep"@.len() == 4 && "grep"@[0] == 'g',
        "propose_edit"@.len() == 12,
        "propose_edit_batch"@.len() == 18,
        "apply_patch"@.len() == 11 && "apply_patch"@[0] == 'a',
{
    reveal_strlit("ls");
    reveal_strlit("read");
    reveal_strlit("find_files");
    reveal_strlit("find");
    reveal_strlit("search_text");
    reveal_strlit("grep");
    reveal_strlit("propose_edit");
    reveal_strlit("propose_edit_batch");
    reveal_strlit("apply_patch");
}

/// An edit call, previewed or applied, looks for its `find` text and puts its `replace` text
/// in its place, in the file at its `path`.
pub proof fn law_edit_call_finds_and_replaces(
    name: Seq<char>,
    a: ArgsView,
    options: ToolRuntimeOptions,
    path: Seq<char>,
    find: Seq<char>,
    replace: Seq<char>,
)
    requires
        name == "propose_edit"@ || name == "apply_patch"@,
        arg_text(a, "path"@) == Some(path),
        arg_text(a, "find"@) == Some(find),
        arg_text(a, "replace"@) == Some(replace),
    ensures
        name == "propose_edit"@ ==> plan_spec(name, a, options) == Ok::<RequestView, Seq<char>>(RequestView::ProposeEdit(path, find, replace)),
        name == "apply_patch"@ ==> plan_spec(name, a, options) == Ok::<RequestView, Seq<char>>(RequestView::ApplyPatch(path, find, replace)),
{
    lemma_tool_names();
}

/// A read call reads from its `offset` and at most `limit` characters, when these read as
/// numbers (0 and 4000 when they do not).
pub proof fn law_read_call_window(a: ArgsView, options: ToolRuntimeOptions, path: Seq<char>)
    requires
        arg_text(a, "path"@) == Some(path),
    ensures
        plan_spec("read"@, a, options) matches Ok(RequestView::Read(p, offset, limit)) && p == path
            && (arg_usize(a, "offset"@) matches Some(n) ==> offset == n)
            && (arg_usize(a, "offset"@) is None ==> offset == 0)
            && (arg_usize(a, "limit"@) matches Some(n) ==> limit == n)
            && (arg_usize(a, "limit"@) is None ==> limit == 4000),
{
    lemma_tool_names();
}


/// Each edit of a batch looks for its item's `find` text and puts its `replace` text in its
/// place, in the file at its `path`, checked against its `expected_hash` when it has one.
pub proof fn law_batch_item_finds_and_replaces(
    item: Seq<char>,
    path: Seq<char>,
    find: Seq<char>,
    replace: Seq<char>,
)
    requires
        serde_json_object_fields(item) matches Some(f) && text_field(f, "path"@) == Some(path)
            && text_field(f, "find"@) == Some(find) && text_field(f, "replace"@) == Some(replace),
    ensures
        edit_request_spec(item) == Ok::<(Seq<char>, Seq<char>, Seq<char>, Option<Seq<char>>), Seq<char>>(
            (path, find, replace, text_field(serde_json_object_fields(item)->0, "expected_hash"@)),
        ),
{
}

/// A listing lists the call's `path` (the root when it has none), with at most its `limit`
/// entries when that reads as a number (200 when it does not).
pub proof fn law_list_call(a: ArgsView, options: ToolRuntimeOptions)
    ensures
        plan_spec("ls"@, a, options) matches Ok(RequestView::List(p, limit))
            && p == (match arg_text(a, "path"@) {
            Some(t) => t,
            None => "."@,
        }) && (arg_usize(a, "limit"@) matches Some(n) ==> limit == n)
            && (arg_usize(a, "limit"@) is None ==> limit == 200),
{
}

} // verus!
