//! The agent's decisions: how a tool call is read from the model's output, the limits of a turn,
//! and what it says when a command fails.
use vstd::prelude::*;
use crate::ai::{
    blocks_text, bviews, call_block_views, context_from_events, context_messages, context_system_prompt,
    is_call_block, mviews, AiContext, AssistantOutput, BlockView, ToolCallContent,
};
use crate::event::{Event, EventMsg};
use crate::text::{
    cat, chars_of, find_chars, find_seq, join, join_seq, lines, lines_seq, occurs_at, push_str,
    string_of, subrange_string, to_owned_str, trim, trim_seq, views,
};
use crate::tool::{ToolCall, ToolResult, ToolResultStatus};

verus! {

#[derive(Debug, Clone, Copy, PartialEq, Eq)]
pub struct AgentConfig {
    pub max_model_steps: usize,
    pub max_tool_steps: usize,
}

impl Default for AgentConfig {
    fn default() -> (r: Self)
        ensures
            r.max_model_steps == 16,
            r.max_tool_steps == 12,
    {
        AgentConfig { max_model_steps: 16, max_tool_steps: 12 }
    }
}

#[derive(Debug, Clone, PartialEq, Eq)]
pub struct AgentRunResult {
    pub events: Vec<EventMsg>,
}

impl AgentRunResult {
    pub fn new(events: Vec<EventMsg>) -> (r: Self)
        ensures
            r.events@ == events@,
    {
        AgentRunResult { events }
    }
}

/// The text between the first `<tool_call>` and the first `</tool_call>` after it.
pub open spec fn tool_call_body(content: Seq<char>) -> Option<Seq<char>> {
    match find_seq(content, "<tool_call>"@) {
        Some(i) => {
            let rest = content.subrange(i + 11, content.len() as int);
            match find_seq(rest, "</tool_call>"@) {
                Some(j) => Some(rest.subrange(0, j)),
                None => None,
            }
        },
        None => None,
    }
}

/// The first `=` of a line.
pub open spec fn eq_index(line: Seq<char>) -> Option<int> {
    find_seq(line, "="@)
}

/// The trimmed key and value of a `key=value` line, split at its first `=`.
#[verifier::opaque]
pub open spec fn line_pair(line: Seq<char>) -> Option<(Seq<char>, Seq<char>)> {
    let t = trim_seq(line);
    match eq_index(t) {
        Some(i) => Some((trim_seq(t.subrange(0, i)), trim_seq(t.subrange(i + 1, t.len() as int)))),
        None => None,
    }
}

/// One line's effect on the name and arguments read so far.
pub open spec fn fields_step(
    acc: (Option<Seq<char>>, Seq<Seq<char>>),
    line: Seq<char>,
) -> (Option<Seq<char>>, Seq<Seq<char>>) {
    match line_pair(line) {
        Some((key, value)) => if key == "name"@ {
            (Some(value), acc.1)
        } else {
            (acc.0, acc.1.push(key + "="@ + value))
        },
        None => acc,
    }
}

/// The name and the other `key=value` arguments of the lines of a tool call: blank lines and
/// lines without `=` are skipped, keys and values trimmed, the last `name` wins.
pub open spec fn call_fields(ls: Seq<Seq<char>>) -> (Option<Seq<char>>, Seq<Seq<char>>)
    decreases ls.len(),
{
    if ls.len() == 0 {
        (None, Seq::empty())
    } else {
        fields_step(call_fields(ls.drop_last()), ls.last())
    }
}

/// The tool call written in a reply: `call-0`, the name, and the other arguments one per line.
pub open spec fn parsed_call(content: Seq<char>) -> Option<(Seq<char>, Seq<char>)> {
    match tool_call_body(content) {
        Some(body) => {
            let (name, args) = call_fields(lines_seq(body));
            match name {
                Some(n) => Some((n, join_seq(args, "\n"@))),
                None => None,
            }
        },
        None => None,
    }
}

fn sub_chars(v: &Vec<char>, lo: usize, hi: usize) -> (r: Vec<char>)
    requires
        lo <= hi <= v.len(),
    ensures
        r@ == v@.subrange(lo as int, hi as int),
{
    let mut out: Vec<char> = Vec::new();
    let mut i = lo;
    while i < hi
        invariant
            lo <= i <= hi <= v.len(),
            out@ == v@.subrange(lo as int, i as int),
        decreases hi - i,
    {
        out.push(v[i]);
        i = i + 1;
        assert(out@ =~= v@.subrange(lo as int, i as int));
    }
    out
}

fn body_of(content: &str) -> (r: Option<String>)
    ensures
        match tool_call_body(content@) {
            Some(b) => r matches Some(s) && s@ == b,
            None => r is None,
        },
{
    let v = chars_of(content);
    let open = chars_of("<tool_call>");
    let close = chars_of("</tool_call>");
    proof {
        reveal_strlit("<tool_call>");
        reveal_strlit("</tool_call>");
        assert(open@.len() == 11);
    }
    let n = v.len();
    match find_chars(&v, &open) {
        Some(i) => {
            assert(occurs_at(v@, open@, i as int));
            let rest = sub_chars(&v, i + 11, n);
            match find_chars(&rest, &close) {
                Some(j) => {
                    assert(occurs_at(rest@, close@, j as int));
                    Some(subrange_string(&rest, 0, j))
                },
                None => None,
            }
        },
        None => None,
    }
}

fn split_line(line: &str) -> (r: Option<(String, String)>)
    ensures
        match line_pair(line@) {
            Some((k, v)) => r matches Some(p) && p.0@ == k && p.1@ == v,
            None => r is None,
        },
{
    let t = trim(line);
    let tv = chars_of(t.as_str());
    let eqv = chars_of("=");
    proof {
        reveal_strlit("=");
    }
    let n = tv.len();
    proof {
        reveal(line_pair);
    }
    match find_chars(&tv, &eqv) {
        Some(i) => {
            assert(occurs_at(tv@, eqv@, i as int));
            let key_raw = subrange_string(&tv, 0, i);
            let value_raw = subrange_string(&tv, i + 1, n);
            Some((trim(key_raw.as_str()), trim(value_raw.as_str())))
        },
        None => None,
    }
}

/// The call that the lines of a tool-call body describe.
fn call_from_body(body: &str) -> (r: Option<ToolCall>)
    ensures
        match call_fields(lines_seq(body@)).0 {
            Some(n) => r matches Some(c) && c.id@ == "call-0"@ && c.name@ == n && c.arguments@
                == join_seq(call_fields(lines_seq(body@)).1, "\n"@),
            None => r is None,
        },
{
    let ls = lines(body);
    let ghost lv = views(ls@);
    let mut name: Option<String> = None;
    let mut args: Vec<String> = Vec::new();
    let mut k: usize = 0;
    while k < ls.len()
        invariant
            k <= ls@.len(),
            lv == views(ls@),
            match call_fields(lv.take(k as int)).0 {
                Some(x) => name matches Some(y) && y@ == x,
                None => name is None,
            },
            views(args@) == call_fields(lv.take(k as int)).1,
        decreases ls.len() - k,
    {
        let ghost prev = lv.take(k as int);
        let ghost cur = lv.take(k + 1);
        proof {
            assert(cur.drop_last() =~= prev);
            assert(cur.last() == ls@[k as int]@);
        }
        match split_line(ls[k].as_str()) {
            Some((key, value)) => {
                if crate::text::str_eq(key.as_str(), "name") {
                    name = Some(value);
                } else {
                    let mut arg = cat(key.as_str(), "=");
                    push_str(&mut arg, value.as_str());
                    let ghost old_args = views(args@);
                    args.push(arg);
                    assert(views(args@) =~= old_args.push(key@ + "="@ + value@));
                }
            },
            None => {},
        }
        k = k + 1;
    }
    assert(lv.take(ls@.len() as int) =~= lv);
    match name {
        Some(n) => {
            let a = join(&args, "\n");
            Some(ToolCall::new("call-0", n.as_str(), a.as_str()))
        },
        None => None,
    }
}

/// Reads a tool call written as text: `<tool_call>` and `</tool_call>` around a `name=` line
/// and `key=value` argument lines.
pub fn parse_tool_call(content: &str) -> (r: Option<ToolCall>)
    ensures
        match parsed_call(content@) {
            Some((name, args)) => r matches Some(c) && c.id@ == "call-0"@ && c.name@ == name
                && c.arguments@ == args,
            None => r is None,
        },
{
    match body_of(content) {
        Some(b) => call_from_body(b.as_str()),
        None => None,
    }
}

/// A native tool call as the runtime takes it: the arguments trimmed.
pub fn tool_call_from_content(content: ToolCallContent) -> (r: ToolCall)
    ensures
        r.id@ == content.id@,
        r.name@ == content.name@,
        r.arguments@ == trim_seq(content.arguments@),
{
    ToolCall::new(
        content.id.as_str(),
        content.name.as_str(),
        normalize_tool_arguments(content.arguments).as_str(),
    )
}

pub fn normalize_tool_arguments(arguments: String) -> (r: String)
    ensures
        r@ == trim_seq(arguments@),
{
    trim(arguments.as_str())
}

/// The instruction that keeps the agent repairing after a command did not succeed.
pub open spec fn repair_text(summary: Seq<char>, status: ToolResultStatus) -> Seq<char> {
    let status_text = match status {
        ToolResultStatus::Success => "succeeded"@,
        ToolResultStatus::Truncated => "truncated"@,
        ToolResultStatus::Denied => "denied"@,
        ToolResultStatus::Error => "failed"@,
    };
    "Repair loop: run_command "@ + status_text + " for `"@ + summary
        + "`. Read the stderr preview in the tool result, search for the cause, fix the relevant files, and rerun the same command before answering."@
}

pub fn repair_loop_instruction(command_summary: &str, status: ToolResultStatus) -> (r: String)
    ensures
        r@ == repair_text(command_summary@, status),
{
    let status_text = match status {
        ToolResultStatus::Success => "succeeded",
        ToolResultStatus::Truncated => "truncated",
        ToolResultStatus::Denied => "denied",
        ToolResultStatus::Error => "failed",
    };
    let mut s = cat("Repair loop: run_command ", status_text);
    push_str(&mut s, " for `");
    push_str(&mut s, command_summary);
    push_str(
        &mut s,
        "`. Read the stderr preview in the tool result, search for the cause, fix the relevant files, and rerun the same command before answering.",
    );
    s
}


// ---------------------------------------------------------------------------
// A turn of the agent

/// What the model is told about the tools and how to call them.
pub const TOOL_PROTOCOL: &'static str = "You can inspect the workspace with read-only tools.\n\nIf you need a tool, respond with exactly this format and no extra prose:\n<tool_call>\nname=ls\npath=.\nlimit=200\n</tool_call>\n\nor:\n<tool_call>\nname=read\npath=src/lib.rs\noffset=0\nlimit=4000\n</tool_call>\n\nAvailable tools: ls, read, find_files, search_text, propose_edit, propose_edit_batch, apply_patch, apply_patch_batch, rewind_edit, run_command.\nAliases accepted: find -> find_files, grep -> search_text.\nFor edits, use propose_edit to preview a diff before any write action.\nFor multi-file edits, use propose_edit_batch with edits_json, then apply_patch_batch to write them together.\nIf the user wants a real change, apply_patch writes the file and records a reversible checkpoint.\napply_patch_batch does the same for several files and aborts on conflict before any partial write escapes.\nIf the user interrupts an in-progress edit session and you need to restore the latest file state, use rewind_edit on the affected file. rollback_edit is accepted as an alias.\nUse run_command for shell tasks such as builds, tests, dependency installation, and environment setup. It runs in the workspace root, streams stdout/stderr as command output events, captures the final exit status, and respects project command approval and timeout settings.\nIf a run_command call fails, inspect the streamed output, search for the cause, edit the relevant files, and rerun the command until the issue is fixed or clearly explained.\nUse tools progressively: find files, search text, read exact files, preview edits, apply the patch, run commands, and rewind if the user asks to undo.\nStop calling tools once you have enough evidence to answer.";

/// What the model is told when no tool call is left.
pub const FINAL_ANSWER_INSTRUCTION: &'static str = "Tool budget is exhausted. Do not call tools. Provide the best final answer from the available context.";

/// The id of the `i`th event of a turn, in the context that the model sees.
pub open spec fn pending_id(i: nat) -> Seq<char> {
    "agent-core-pending-"@ + crate::text::dec(i)
}

pub open spec fn msgs_of(s: Seq<Event>) -> Seq<EventMsg> {
    s.map_values(|e: Event| e.msg)
}

/// The context that the model is given over some events: what `context_from_events` makes of
/// them.
pub open spec fn context_of(events: Seq<Event>, ctx: AiContext) -> bool {
    &&& ctx.system_prompt matches Some(p) && p@ == context_system_prompt(events)
    &&& mviews(ctx.messages@) == context_messages(events)
}

/// The context also offers the runtime's tools.
pub open spec fn offers_tools(ctx: AiContext) -> bool {
    let defs = crate::tool::all_defs();
    &&& ctx.tools@.len() == defs.len()
    &&& forall|i: int| 0 <= i < ctx.tools@.len() ==> (#[trigger] ctx.tools@[i]).name@ == defs[i].name
        && ctx.tools@[i].description@ == defs[i].description
        && ctx.tools@[i].input_schema_json@ == crate::tool::schema_json(defs[i].properties, defs[i].required)
}

/// The note that the turn's tool steps are used up.
pub open spec fn tool_limit_note(steps: nat, max: nat) -> Seq<char> {
    "Tool step limit reached ("@ + crate::text::dec(steps) + "/"@ + crate::text::dec(max)
        + "). Do not call more tools; answer using the evidence already available."@
}

/// The step that asks for a final answer: the context, without tools, over the session's
/// events, the final-answer instruction, the turn's events and the note (a system event
/// numbered after them) that says why no tool step is left.
pub open spec fn final_answer_context(base: Seq<Event>, pending: Seq<Event>, note: Seq<char>, r: AgentStep) -> bool {
    r matches AgentStep::AskFinalAnswer(ctx) && ctx.tools@.len() == 0 && exists|lead: Event, note_event: Event|
        is_lead(lead, "agent-core-final-answer-instruction"@, FINAL_ANSWER_INSTRUCTION@) && is_lead(
            note_event,
            pending_id(pending.len()),
            note,
        ) && context_of(base + seq![lead] + pending.push(note_event), ctx)
}

/// A system event that leads the turn's events in a context.
pub open spec fn is_lead(e: Event, id: Seq<char>, text: Seq<char>) -> bool {
    e.id@ == id && (e.msg matches EventMsg::SystemMessage(m) && m.content@ == text)
}

/// The tool call of a model's output: its first native call, with the arguments trimmed; else
/// one written in its text.
pub open spec fn output_call(o: AssistantOutput) -> Option<(Seq<char>, Seq<char>, Seq<char>)> {
    let calls = bviews(o.message.content@).filter(is_call_block());
    if calls.len() > 0 {
        match calls[0] {
            BlockView::ToolCall(id, name, args) => Some((id, name, trim_seq(args))),
            _ => None,
        }
    } else {
        match parsed_call(trim_seq(blocks_text(bviews(o.message.content@)))) {
            Some((name, args)) => Some(("call-0"@, name, args)),
            None => None,
        }
    }
}

pub fn tool_call_from_output(output: &AssistantOutput) -> (r: Option<ToolCall>)
    ensures
        match output_call(*output) {
            Some((id, name, args)) => r matches Some(c) && c.id@ == id && c.name@ == name && c.arguments@ == args,
            None => r is None,
        },
{
    let mut calls = output.tool_calls();
    if calls.len() > 0 {
        let ghost cv = call_block_views(calls@);
        let first = calls.remove(0);
        assert(cv[0] == BlockView::ToolCall(first.id@, first.name@, first.arguments@));
        return Some(tool_call_from_content(first));
    }
    assert(call_block_views(calls@).len() == 0);
    parse_tool_call(output.text_content().as_str())
}

/// A turn's events end with the model's answer or with an error.
pub open spec fn ends_turn(msgs: Seq<EventMsg>) -> bool {
    msgs.len() > 0 && (msgs.last() is AssistantMessage || msgs.last() is Error)
}

/// `b` is `a` with events added that are no tool calls.
pub open spec fn adds_no_calls(a: Seq<EventMsg>, b: Seq<EventMsg>) -> bool {
    &&& b.len() >= a.len()
    &&& b.take(a.len() as int) == a
    &&& forall|k: int| a.len() <= k < b.len() ==> !(#[trigger] b[k] is ToolCall)
}

/// The number of tool calls among the events.
pub open spec fn tool_calls(m: Seq<EventMsg>) -> nat
    decreases m.len(),
{
    if m.len() == 0 {
        0
    } else {
        tool_calls(m.drop_last()) + if m.last() is ToolCall {
            1nat
        } else {
            0nat
        }
    }
}

/// Every tool call among the events, the last one excepted when `open_call`, is followed at
/// once by a tool result.
pub open spec fn calls_answered(m: Seq<EventMsg>, open_call: bool) -> bool {
    forall|i: int|
        0 <= i < m.len() && (#[trigger] m[i]) is ToolCall && !(open_call && i == m.len() - 1) ==> i + 1 < m.len()
            && m[i + 1] is ToolResult
}

proof fn lemma_count_no_calls(a: Seq<EventMsg>, b: Seq<EventMsg>)
    requires
        adds_no_calls(a, b),
    ensures
        tool_calls(b) == tool_calls(a),
    decreases b.len(),
{
    if b.len() > a.len() {
        let b0 = b.drop_last();
        assert(b0.take(a.len() as int) =~= b.take(a.len() as int));
        assert forall|k: int| a.len() <= k < b0.len() implies !(#[trigger] b0[k] is ToolCall) by {
            assert(b0[k] == b[k]);
        }
        lemma_count_no_calls(a, b0);
        assert(!(b[b.len() - 1] is ToolCall));
    } else {
        assert(b =~= a);
    }
}

proof fn lemma_adds_no_calls(a: Seq<EventMsg>, b: Seq<EventMsg>, open_call: bool)
    requires
        adds_no_calls(a, b),
        calls_answered(a, false),
    ensures
        tool_calls(b) == tool_calls(a),
        calls_answered(b, open_call),
    decreases b.len(),
{
    if b.len() > a.len() {
        let b0 = b.drop_last();
        assert(b0.take(a.len() as int) =~= b.take(a.len() as int));
        assert forall|k: int| a.len() <= k < b0.len() implies !(#[trigger] b0[k] is ToolCall) by {
            assert(b0[k] == b[k]);
        }
        lemma_adds_no_calls(a, b0, false);
        assert(!(b[b.len() - 1] is ToolCall));
        assert forall|i: int|
            0 <= i < b.len() && (#[trigger] b[i]) is ToolCall && !(open_call && i == b.len() - 1) implies i + 1
                < b.len() && b[i + 1] is ToolResult by {
            assert(b0[i] == b[i]);
            if i + 1 < b0.len() {
                assert(b0[i + 1] == b[i + 1]);
            }
        }
    } else {
        assert(b =~= a);
    }
}


/// The state of one turn: the events it made so far, and its counts of model and tool steps.
pub struct AgentTurn {
    pub config: AgentConfig,
    pub pending: Vec<Event>,
    pub model_steps: usize,
    pub tool_steps: usize,
    pub repair_context: Option<String>,
}

/// What the turn needs next.
pub enum AgentStep {
    /// An answer of the model to this context.
    AskModel(AiContext),
    /// A final answer of the model, without tools, to this context.
    AskFinalAnswer(AiContext),
    /// The result of this tool call.
    RunTool(ToolCall),
    /// Nothing: the turn is over.
    Finished,
}

impl AgentTurn {
    pub open spec fn msgs(self) -> Seq<EventMsg> {
        msgs_of(self.pending@)
    }

    /// The turn's events are numbered in order.
    pub open spec fn wf(self) -> bool {
        forall|i: int| 0 <= i < self.pending@.len() ==> (#[trigger] self.pending@[i]).id@ == pending_id(i as nat)
    }

    pub fn new(config: AgentConfig) -> (r: Self)
        ensures
            r.wf(),
            r.msgs().len() == 0,
            r.model_steps == 0,
            r.tool_steps == 0,
            r.repair_context is None,
            r.config == config,
    {
        let r = AgentTurn { config, pending: Vec::new(), model_steps: 0, tool_steps: 0, repair_context: None };
        assert(r.msgs() =~= Seq::<EventMsg>::empty());
        r
    }

    fn push(&mut self, msg: EventMsg)
        requires
            old(self).wf(),
        ensures
            final(self).wf(),
            final(self).msgs() == old(self).msgs().push(msg),
            final(self).pending@ == old(self).pending@.push(final(self).pending@.last()),
            final(self).config == old(self).config,
            final(self).model_steps == old(self).model_steps,
            final(self).tool_steps == old(self).tool_steps,
            final(self).repair_context == old(self).repair_context,
    {
        let id = crate::text::cat("agent-core-pending-", crate::text::usize_to_string(self.pending.len()).as_str());
        self.pending.push(Event { id, msg });
        assert(self.msgs() =~= old(self).msgs().push(msg));
    }

    /// The context over the session's events, a leading system event and the turn's events.
    fn context_with(&mut self, base: &mut Vec<Event>, lead: Event) -> (r: AiContext)
        requires
            old(self).wf(),
        ensures
            final(self).pending@ == old(self).pending@,
            final(self).config == old(self).config,
            final(self).model_steps == old(self).model_steps,
            final(self).tool_steps == old(self).tool_steps,
            final(self).repair_context == old(self).repair_context,
            final(base)@ == old(base)@,
            context_of(old(base)@ + seq![lead] + old(self).pending@, r),
            r.tools@.len() == 0,
    {
        base.push(lead);
        let m = base.len();
        let ghost with_lead = base@;
        base.append(&mut self.pending);
        let ghost all = base@;
        let ctx = context_from_events(base.as_slice());
        let mut back = base.split_off(m);
        base.pop();
        assert(base@ =~= old(base)@);
        assert(back@ =~= old(self).pending@);
        std::mem::swap(&mut self.pending, &mut back);
        assert(all =~= old(base)@ + seq![lead] + old(self).pending@);
        ctx
    }

    /// The next step at the top of the loop: the model, unless its steps are used up.
    pub fn begin(&mut self, base: &mut Vec<Event>) -> (r: AgentStep)
        requires
            old(self).wf(),
        ensures
            final(self).wf(),
            final(base)@ == old(base)@,
            final(self).model_steps == old(self).model_steps,
            final(self).tool_steps == old(self).tool_steps,
            final(self).repair_context == old(self).repair_context,
            final(self).config == old(self).config,
            old(self).model_steps >= old(self).config.max_model_steps ==> r is Finished && final(self).msgs().len()
                == old(self).msgs().len() + 1 && final(self).msgs().drop_last() == old(self).msgs() && (final(self).msgs().last()
                matches EventMsg::Error(e) && e.message@ == "model step limit reached before final answer"@),
            old(self).model_steps < old(self).config.max_model_steps ==> final(self).msgs() == old(self).msgs() && (r matches AgentStep::AskModel(ctx)
                && offers_tools(ctx) && exists|lead: Event| is_lead(lead, "agent-core-tool-protocol"@, TOOL_PROTOCOL@)
                && context_of(old(base)@ + seq![lead] + old(self).pending@, ctx)),
            r is Finished ==> ends_turn(final(self).msgs()),
            adds_no_calls(old(self).msgs(), final(self).msgs()),
    {
        if self.model_steps >= self.config.max_model_steps {
            self.push(EventMsg::error("model step limit reached before final answer"));
            assert(self.msgs().take(old(self).msgs().len() as int) =~= old(self).msgs());
            return AgentStep::Finished;
        }
        let lead = Event::new("agent-core-tool-protocol", EventMsg::system(TOOL_PROTOCOL));
        let ghost lv = lead;
        assert(is_lead(lv, "agent-core-tool-protocol"@, TOOL_PROTOCOL@));
        let mut ctx = self.context_with(base, lead);
        let ghost c0 = ctx;
        ctx.tools = crate::tool::tool_specs();
        assert(ctx.system_prompt == c0.system_prompt && ctx.messages == c0.messages);
        assert(context_of(old(base)@ + seq![lv] + old(self).pending@, ctx));
        assert(self.msgs() =~= old(self).msgs());
        assert(self.msgs().take(old(self).msgs().len() as int) =~= old(self).msgs());
        AgentStep::AskModel(ctx)
    }

    /// What the model's answer leads to: a tool call runs (while tool steps are left, else the
    /// model is asked for a final answer without tools); an answer without a call ends the
    /// turn, unless a command is being repaired, which asks the model again.
    #[verifier::rlimit(60)]
    pub fn after_model(&mut self, base: &mut Vec<Event>, output: Result<AssistantOutput, String>) -> (r: AgentStep)
        requires
            old(self).wf(),
            old(self).model_steps < old(self).config.max_model_steps,
        ensures
            final(self).wf(),
            final(base)@ == old(base)@,
            match output {
                Err(m) => r is Finished && final(self).msgs().len() == old(self).msgs().len() + 1
                    && final(self).msgs().drop_last() == old(self).msgs() && (final(self).msgs().last() matches EventMsg::Error(e)
                    && e.message@ == m@),
                Ok(o) => final(self).model_steps == old(self).model_steps + 1 && match output_call(o) {
                    None => match old(self).repair_context {
                        Some(rc) => final(self).msgs().len() >= old(self).msgs().len() + 1 && (final(self).msgs()[old(self).msgs().len() as int]
                            matches EventMsg::SystemMessage(x) && x.content@ == rc@ + "\nContinue the repair loop: inspect the failure, search the code, fix the relevant files, and rerun the same command. Do not finalize yet."@),
                        None => r is Finished && final(self).msgs() == old(self).msgs().push(final(self).msgs().last())
                            && (final(self).msgs().last() matches EventMsg::AssistantMessage(a)
                            && a.content@ == trim_seq(blocks_text(bviews(o.message.content@)))),
                    },
                    Some((id, name, args)) => if old(self).tool_steps >= old(self).config.max_tool_steps {
                        final(self).msgs() == old(self).msgs() && final_answer_context(
                            old(base)@,
                            old(self).pending@,
                            tool_limit_note(old(self).tool_steps as nat, old(self).config.max_tool_steps as nat),
                            r,
                        )
                    } else {
                        final(self).msgs().len() == old(self).msgs().len() + 1 && final(self).msgs().drop_last() == old(self).msgs()
                            && (final(self).msgs().last() matches EventMsg::ToolCall(c) && c.call_id@ == id && c.name@ == name
                            && c.arguments@ == args) && (r matches AgentStep::RunTool(call) && call.id@ == id && call.name@ == name
                            && call.arguments@ == args)
                    },
                },
            },
            r is Finished ==> ends_turn(final(self).msgs()),
            r is RunTool ==> old(self).tool_steps < old(self).config.max_tool_steps,
            r is AskModel ==> final(self).model_steps < final(self).config.max_model_steps,
            final(self).config == old(self).config,
            final(self).tool_steps == old(self).tool_steps,
            output is Err ==> final(self).model_steps == old(self).model_steps,
            r is RunTool ==> final(self).msgs() == old(self).msgs().push(final(self).msgs().last())
                && final(self).msgs().last() is ToolCall,
            !(r is RunTool) ==> adds_no_calls(old(self).msgs(), final(self).msgs()),
    {
        let o = match output {
            Err(m) => {
                self.push(EventMsg::error(m.as_str()));
                proof {
                    assert(self.msgs().drop_last() =~= old(self).msgs());
                }
                return AgentStep::Finished;
            },
            Ok(o) => o,
        };
        self.model_steps = self.model_steps + 1;
        match tool_call_from_output(&o) {
            None => {
                match &self.repair_context {
                    Some(rc) => {
                        let mut m = crate::text::cat(rc.as_str(), "\nContinue the repair loop: inspect the failure, search the code, fix the relevant files, and rerun the same command. Do not finalize yet.");
                        self.push(EventMsg::system(m.as_str()));
                        let ghost mid = self.msgs();
                        if self.model_steps >= self.config.max_model_steps {
                            self.push(EventMsg::error("model step limit reached before final answer"));
                            assert(self.msgs()[old(self).msgs().len() as int] == mid[old(self).msgs().len() as int]);
                            assert(self.msgs().take(old(self).msgs().len() as int) =~= old(self).msgs());
                            return AgentStep::Finished;
                        }
                        assert(mid.take(old(self).msgs().len() as int) =~= old(self).msgs());
                        let r = self.begin(base);
                        assert(self.msgs().take(mid.len() as int) == mid);
                        assert(self.msgs().take(old(self).msgs().len() as int) =~= old(self).msgs()) by {
                            assert(self.msgs().take(old(self).msgs().len() as int) =~= mid.take(old(self).msgs().len() as int));
                        }
                        assert forall|k: int| old(self).msgs().len() <= k < self.msgs().len() implies !(#[trigger] self.msgs()[k] is ToolCall) by {
                            if k < mid.len() {
                                assert(self.msgs()[k] == self.msgs().take(mid.len() as int)[k]);
                            }
                        }
                        r
                    },
                    None => {
                        let text = o.text_content();
                        self.push(EventMsg::assistant(text.as_str()));
                        assert(self.msgs().take(old(self).msgs().len() as int) =~= old(self).msgs());
                        AgentStep::Finished
                    },
                }
            },
            Some(call) => {
                if self.tool_steps >= self.config.max_tool_steps {
                    let mut note = crate::text::cat("Tool step limit reached (", crate::text::usize_to_string(self.tool_steps).as_str());
                    push_str(&mut note, "/");
                    push_str(&mut note, crate::text::usize_to_string(self.config.max_tool_steps).as_str());
                    push_str(&mut note, "). Do not call more tools; answer using the evidence already available.");
                    let r = self.final_answer_step(base, note);
                    assert(self.msgs().take(old(self).msgs().len() as int) =~= old(self).msgs());
                    return r;
                }
                let ev = EventMsg::tool_call(ToolCall::new(call.id.as_str(), call.name.as_str(), call.arguments.as_str()));
                self.push(ev);
                proof {
                    assert(self.msgs().drop_last() =~= old(self).msgs());
                }
                AgentStep::RunTool(call)
            },
        }
    }

    /// The context for a final answer: the turn's events and a note that no tool step is left,
    /// which the turn does not keep.
    fn final_answer_step(&mut self, base: &mut Vec<Event>, note: String) -> (r: AgentStep)
        requires
            old(self).wf(),
        ensures
            final(self).wf(),
            final(self).pending@ == old(self).pending@,
            final(self).config == old(self).config,
            final(self).model_steps == old(self).model_steps,
            final(self).tool_steps == old(self).tool_steps,
            final(self).repair_context == old(self).repair_context,
            final(base)@ == old(base)@,
            final_answer_context(old(base)@, old(self).pending@, note@, r),
    {
        let note_msg = EventMsg::system(note.as_str());
        let ghost nm = note_msg;
        let ghost n0 = self.pending@.len();
        self.push(note_msg);
        let ghost note_event = self.pending@.last();
        assert(self.msgs()[n0 as int] == nm);
        assert(self.pending@[n0 as int] == note_event);
        assert(self.pending@[n0 as int].id@ == pending_id(n0 as nat));
        let lead = Event::new("agent-core-final-answer-instruction", EventMsg::system(FINAL_ANSWER_INSTRUCTION));
        let ghost lv = lead;
        assert(is_lead(lv, "agent-core-final-answer-instruction"@, FINAL_ANSWER_INSTRUCTION@));
        assert(is_lead(note_event, pending_id(old(self).pending@.len()), note@));
        let ctx = self.context_with(base, lead);
        assert(self.pending@ == old(self).pending@.push(note_event));
        self.pending.pop();
        assert(self.pending@ =~= old(self).pending@);
        AgentStep::AskFinalAnswer(ctx)
    }

    /// What a tool's result leads to: it is recorded with its file edits; a command that did
    /// not succeed starts a repair loop and one that did ends it; a denied call ends the
    /// turn; else the model is asked again.
    pub fn after_tool(&mut self, base: &mut Vec<Event>, name: &str, summary: &str, result: ToolResult) -> (r: AgentStep)
        requires
            old(self).wf(),
        ensures
            final(self).wf(),
            final(base)@ == old(base)@,
            final(self).tool_steps == if old(self).tool_steps < usize::MAX { old(self).tool_steps + 1 } else { old(self).tool_steps as int },
            final(self).msgs().len() > old(self).msgs().len() + result.edits@.len(),
            final(self).msgs().take(old(self).msgs().len() as int) == old(self).msgs(),
            final(self).msgs()[old(self).msgs().len() as int] matches EventMsg::ToolResult(t) && t.call_id == result.call_id
                && t.status == result.status && t.content == result.content && t.truncated == result.truncated
                && t.next_offset == result.next_offset,
            forall|k: int| 0 <= k < result.edits@.len() ==> final(self).msgs()[old(self).msgs().len() + 1 + k]
                == EventMsg::FileEdit(#[trigger] result.edits@[k]),
            name@ == "run_command"@ && result.status != ToolResultStatus::Success ==> (final(self).repair_context matches Some(rc)
                && rc@ == repair_text(summary@, result.status)),
            name@ == "run_command"@ && result.status == ToolResultStatus::Success ==> final(self).repair_context is None,
            name@ != "run_command"@ ==> final(self).repair_context == old(self).repair_context,
            result.status == ToolResultStatus::Denied ==> r is Finished && (final(self).msgs().last() matches EventMsg::Error(e)
                && e.message@ == "tool call denied"@),
            r is Finished ==> ends_turn(final(self).msgs()),
            r is AskModel ==> final(self).model_steps < final(self).config.max_model_steps,
            final(self).config == old(self).config,
            final(self).model_steps == old(self).model_steps,
            forall|k: int| old(self).msgs().len() < k < final(self).msgs().len() ==> !(#[trigger] final(self).msgs()[k] is ToolCall),
            !(r is RunTool),
    {
        let status = result.status;
        let edits = crate::event::copy_edits(&result.edits);
        let n0 = self.pending.len();
        let ghost res = result;
        self.push(EventMsg::tool_result(result));
        let mut k: usize = 0;
        while k < edits.len()
            invariant
                self.wf(),
                k <= edits@.len(),
                edits@ == res.edits@,
                self.msgs().len() == old(self).msgs().len() + 1 + k,
                self.msgs().take(old(self).msgs().len() as int) == old(self).msgs(),
                self.msgs()[old(self).msgs().len() as int] matches EventMsg::ToolResult(t) && t.call_id == res.call_id
                    && t.status == res.status && t.content == res.content && t.truncated == res.truncated
                    && t.next_offset == res.next_offset,
                forall|j: int| 0 <= j < k ==> self.msgs()[old(self).msgs().len() + 1 + j] == EventMsg::FileEdit(#[trigger] res.edits@[j]),
                self.tool_steps == old(self).tool_steps,
                self.model_steps == old(self).model_steps,
                self.repair_context == old(self).repair_context,
                self.config == old(self).config,
                forall|j: int| old(self).msgs().len() < j < self.msgs().len() ==> !(#[trigger] self.msgs()[j] is ToolCall),
            decreases edits@.len() - k,
        {
            let ghost before = self.msgs();
            self.push(EventMsg::file_edit(edits[k].copy()));
            proof {
                assert forall|j: int| 0 <= j < k implies self.msgs()[old(self).msgs().len() + 1 + j] == EventMsg::FileEdit(#[trigger] res.edits@[j]) by {
                    assert(self.msgs()[old(self).msgs().len() + 1 + j] == before[old(self).msgs().len() + 1 + j]);
                }
                assert(self.msgs().take(old(self).msgs().len() as int) =~= before.take(old(self).msgs().len() as int));
            }
            k = k + 1;
        }
        if crate::text::str_eq(name, "run_command") {
            if status != ToolResultStatus::Success {
                let rc = repair_loop_instruction(summary, status);
                let ghost before = self.msgs();
                self.push(EventMsg::system(rc.as_str()));
                self.repair_context = Some(rc);
                proof {
                    assert forall|j: int| 0 <= j < edits@.len() implies self.msgs()[old(self).msgs().len() + 1 + j] == EventMsg::FileEdit(#[trigger] res.edits@[j]) by {
                        assert(self.msgs()[old(self).msgs().len() + 1 + j] == before[old(self).msgs().len() + 1 + j]);
                    }
                    assert(self.msgs().take(old(self).msgs().len() as int) =~= before.take(old(self).msgs().len() as int));
                }
            } else {
                self.repair_context = None;
            }
        }
        self.tool_steps = self.tool_steps.saturating_add(1);
        if status == ToolResultStatus::Denied {
            let ghost before = self.msgs();
            self.push(EventMsg::error("tool call denied"));
            proof {
                assert forall|j: int| 0 <= j < edits@.len() implies self.msgs()[old(self).msgs().len() + 1 + j] == EventMsg::FileEdit(#[trigger] res.edits@[j]) by {
                    assert(self.msgs()[old(self).msgs().len() + 1 + j] == before[old(self).msgs().len() + 1 + j]);
                }
                assert(self.msgs().take(old(self).msgs().len() as int) =~= before.take(old(self).msgs().len() as int));
            }
            return AgentStep::Finished;
        }
        let ghost before = self.msgs();
        let r = self.begin(base);
        proof {
            assert(self.msgs()[old(self).msgs().len() as int] == before[old(self).msgs().len() as int]);
            if self.msgs() != before {
                assert forall|j: int| 0 <= j < edits@.len() implies self.msgs()[old(self).msgs().len() + 1 + j] == EventMsg::FileEdit(#[trigger] res.edits@[j]) by {
                    assert(self.msgs()[old(self).msgs().len() + 1 + j] == before[old(self).msgs().len() + 1 + j]);
                }
                assert(self.msgs().take(old(self).msgs().len() as int) =~= before.take(old(self).msgs().len() as int));
            }
            assert forall|j: int| old(self).msgs().len() < j < self.msgs().len() implies !(#[trigger] self.msgs()[j] is ToolCall) by {
                if j < before.len() {
                    assert(self.msgs()[j] == self.msgs().take(before.len() as int)[j]);
                    assert(before[j] == self.msgs()[j]);
                }
            }
        }
        r
    }

    /// The final answer ends the turn, or the error that stood in its way.
    pub fn after_final_answer(&mut self, output: Result<AssistantOutput, String>)
        requires
            old(self).wf(),
        ensures
            final(self).wf(),
            final(self).msgs().len() == old(self).msgs().len() + 1,
            final(self).msgs().drop_last() == old(self).msgs(),
            match output {
                Ok(o) => final(self).msgs().last() matches EventMsg::AssistantMessage(a) && a.content@ == trim_seq(
                    blocks_text(bviews(o.message.content@)),
                ),
                Err(m) => final(self).msgs().last() matches EventMsg::Error(e) && e.message@ == m@,
            },
            ends_turn(final(self).msgs()),
            final(self).config == old(self).config,
            final(self).model_steps == old(self).model_steps,
            final(self).tool_steps == old(self).tool_steps,
    {
        match output {
            Ok(o) => {
                let text = o.text_content();
                self.push(EventMsg::assistant(text.as_str()));
            },
            Err(m) => self.push(EventMsg::error(m.as_str())),
        }
        assert(self.msgs().drop_last() =~= old(self).msgs());
    }

    /// The events of the turn, in order.
    pub fn into_result(self) -> (r: AgentRunResult)
        ensures
            r.events@ == self.msgs(),
    {
        let mut out: Vec<EventMsg> = Vec::new();
        let mut rest = self.pending;
        let ghost all = rest@;
        let n = rest.len();
        let mut k: usize = 0;
        assert(all.skip(0) =~= all);
        while rest.len() > 0
            invariant
                k + rest@.len() == n,
                n == all.len(),
                rest@ == all.skip(k as int),
                out@ == msgs_of(all.take(k as int)),
            decreases rest.len(),
        {
            let e = rest.remove(0);
            assert(e == all[k as int]);
            out.push(e.msg);
            assert(msgs_of(all.take(k + 1)) =~= msgs_of(all.take(k as int)).push(all[k as int].msg));
            k = k + 1;
            assert(rest@ =~= all.skip(k as int));
        }
        assert(all.take(n as int) =~= all);
        AgentRunResult::new(out)
    }
}

/// A prompt's turn needs the model; any other submission makes no events.
pub fn submission_needs_model(submission: &crate::submission::Submission) -> (r: bool)
    ensures
        r == submission.op is UserInput,
{
    match &submission.op {
        crate::submission::Op::UserInput { .. } => true,
        _ => false,
    }
}

/// The model and the tools that a turn talks to.
pub trait TurnServices {
    /// The model's answer to a context, or why there is none.
    fn complete(&self, context: &AiContext) -> Result<AssistantOutput, String>;

    /// What running a tool call gives.
    fn execute(&self, call: ToolCall) -> ToolResult;
}

proof fn lemma_call_added(before: Seq<EventMsg>, now: Seq<EventMsg>)
    requires
        calls_answered(before, false),
        now.len() == before.len() + 1,
        now.drop_last() == before,
        now.last() is ToolCall,
    ensures
        calls_answered(now, true),
        tool_calls(now) == tool_calls(before) + 1,
{
    assert forall|i: int|
        0 <= i < now.len() && (#[trigger] now[i]) is ToolCall && !(true && i == now.len() - 1) implies i + 1 < now.len()
            && now[i + 1] is ToolResult by {
        assert(now[i] == before[i]);
        if i + 1 < before.len() {
            assert(now[i + 1] == before[i + 1]);
        }
    }
}

proof fn lemma_call_answered(before: Seq<EventMsg>, now: Seq<EventMsg>)
    requires
        calls_answered(before, true),
        before.len() > 0,
        now.len() > before.len(),
        now.take(before.len() as int) == before,
        now[before.len() as int] is ToolResult,
        forall|k: int| before.len() < k < now.len() ==> !(#[trigger] now[k] is ToolCall),
    ensures
        calls_answered(now, false),
        tool_calls(now) == tool_calls(before),
{
    assert forall|k: int| before.len() <= k < now.len() implies !(#[trigger] now[k] is ToolCall) by {}
    lemma_count_no_calls(before, now);
    assert forall|i: int|
        0 <= i < now.len() && (#[trigger] now[i]) is ToolCall && !(false && i == now.len() - 1) implies i + 1 < now.len()
            && now[i + 1] is ToolResult by {
        if i < before.len() {
            assert(now[i] == now.take(before.len() as int)[i]);
            if i + 1 < before.len() {
                assert(now[i + 1] == now.take(before.len() as int)[i + 1]);
            }
        }
    }
}

pub open spec fn step_weight(s: AgentStep) -> int {
    match s {
        AgentStep::Finished => 0,
        AgentStep::AskFinalAnswer(_) => 1,
        AgentStep::AskModel(_) => 2,
        AgentStep::RunTool(_) => 3,
    }
}

/// One prompt's turn over the session's events: the model is asked, the tools it calls are
/// run, until it answers, something fails, or its steps run out. Whatever the model and the
/// tools give, the turn's events end with the model's answer or an error, each tool call is
/// followed at once by its result, and there are no more tool calls than the limit allows.
#[verifier::spinoff_prover]
#[verifier::rlimit(60)]
pub fn run_prompt_turn<S: TurnServices>(services: &S, config: AgentConfig, events: Vec<Event>) -> (r: AgentRunResult)
    ensures
        ends_turn(r.events@),
        calls_answered(r.events@, false),
        tool_calls(r.events@) <= config.max_tool_steps,
{
    let mut base = events;
    let mut turn = AgentTurn::new(config);
    let ghost start = turn.msgs();
    let mut step = turn.begin(&mut base);
    proof {
        lemma_adds_no_calls(start, turn.msgs(), false);
    }
    loop
        invariant
            turn.wf(),
            turn.config == config,
            turn.model_steps <= config.max_model_steps,
            turn.tool_steps <= config.max_tool_steps,
            step is AskModel ==> turn.model_steps < config.max_model_steps,
            step is RunTool ==> turn.tool_steps < config.max_tool_steps && turn.msgs().len() > 0
                && turn.msgs().last() is ToolCall,
            step is Finished ==> ends_turn(turn.msgs()),
            calls_answered(turn.msgs(), step is RunTool),
            tool_calls(turn.msgs()) == turn.tool_steps + if step is RunTool {
                1int
            } else {
                0int
            },
        ensures
            ends_turn(turn.msgs()),
            calls_answered(turn.msgs(), false),
            tool_calls(turn.msgs()) <= config.max_tool_steps,
        decreases 4 * (config.max_model_steps - turn.model_steps) + step_weight(step),
    {
        let ghost before = turn.msgs();
        step = match step {
            AgentStep::AskModel(context) => {
                let output = services.complete(&context);
                let next = turn.after_model(&mut base, output);
                proof {
                    if next is RunTool {
                        lemma_call_added(before, turn.msgs());
                    } else {
                        lemma_adds_no_calls(before, turn.msgs(), false);
                    }
                }
                next
            },
            AgentStep::AskFinalAnswer(context) => {
                let output = services.complete(&context);
                turn.after_final_answer(output);
                proof {
                    assert(turn.msgs().take(before.len() as int) =~= before);
                    lemma_adds_no_calls(before, turn.msgs(), false);
                }
                AgentStep::Finished
            },
            AgentStep::RunTool(call) => {
                let summary = call.summary();
                let name = call.name.clone();
                let result = services.execute(call);
                let next = turn.after_tool(&mut base, name.as_str(), summary.as_str(), result);
                proof {
                    lemma_call_answered(before, turn.msgs());
                }
                next
            },
            AgentStep::Finished => break,
        };
    }
    turn.into_result()
}


proof fn lemma_filter_none(s: Seq<BlockView>)
    requires
        forall|j: int| 0 <= j < s.len() ==> !(#[trigger] s[j] is ToolCall),
    ensures
        s.filter(is_call_block()).len() == 0,
    decreases s.len(),
{
    reveal(Seq::filter);
    if s.len() > 0 {
        assert forall|j: int| 0 <= j < s.drop_last().len() implies !(#[trigger] s.drop_last()[j] is ToolCall) by {
            assert(s.drop_last()[j] == s[j]);
        }
        lemma_filter_none(s.drop_last());
        assert(!(s[s.len() - 1] is ToolCall));
    }
}

proof fn lemma_filter_first(s: Seq<BlockView>, i: int)
    requires
        0 <= i < s.len(),
        s[i] is ToolCall,
        forall|j: int| 0 <= j < i ==> !(#[trigger] s[j] is ToolCall),
    ensures
        s.filter(is_call_block()).len() > 0,
        s.filter(is_call_block())[0] == s[i],
    decreases s.len(),
{
    reveal(Seq::filter);
    let s0 = s.drop_last();
    if i == s.len() - 1 {
        assert forall|j: int| 0 <= j < s0.len() implies !(#[trigger] s0[j] is ToolCall) by {
            assert(s0[j] == s[j]);
        }
        lemma_filter_none(s0);
        assert(is_call_block()(s.last()));
    } else {
        assert(s0[i] == s[i]);
        assert forall|j: int| 0 <= j < i implies !(#[trigger] s0[j] is ToolCall) by {
            assert(s0[j] == s[j]);
        }
        lemma_filter_first(s0, i);
    }
}

/// When the model's answer holds native tool calls, the call that runs is the first of them
/// in the answer's order: its id and name, and its arguments trimmed.
pub proof fn law_first_native_call_runs(o: AssistantOutput, i: int)
    requires
        0 <= i < o.message.content@.len(),
        bviews(o.message.content@)[i] is ToolCall,
        forall|j: int| 0 <= j < i ==> !(#[trigger] bviews(o.message.content@)[j] is ToolCall),
    ensures
        match bviews(o.message.content@)[i] {
            BlockView::ToolCall(id, name, args) => output_call(o) == Some((id, name, trim_seq(args))),
            _ => false,
        },
{
    lemma_filter_first(bviews(o.message.content@), i);
}


/// When the model's answer holds no native tool call, the call that runs is the one written
/// as `<tool_call>` in its text, under the id `call-0`; with none written, nothing runs.
pub proof fn law_written_call_runs_without_native_calls(o: AssistantOutput)
    requires
        forall|j: int| 0 <= j < o.message.content@.len() ==> !(#[trigger] bviews(o.message.content@)[j] is ToolCall),
    ensures
        output_call(o) == match parsed_call(trim_seq(blocks_text(bviews(o.message.content@)))) {
            Some((name, args)) => Some(("call-0"@, name, args)),
            None => None,
        },
{
    let s = bviews(o.message.content@);
    assert forall|j: int| 0 <= j < s.len() implies !(#[trigger] s[j] is ToolCall) by {
        assert(s[j] == bviews(o.message.content@)[j]);
    }
    lemma_filter_none(s);
}

} // verus!
