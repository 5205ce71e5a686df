//! The model-facing view of a session: messages, content blocks and assistant output.
use vstd::prelude::*;
use crate::event::{active_start, latest_summary, Event, EventMsg};
use crate::text::{
    cat, chars_of, find_chars, find_seq, join, join_seq, string_of, subrange_string, to_owned_str,
    trim, trim_seq, trim_start_seq, views,
};
use crate::tool::ToolResultStatus;

pub mod openai;

verus! {

#[derive(Debug, Clone, Copy, PartialEq, Eq, Default)]
pub struct ModelCapabilities {
    pub tools: bool,
    pub images: bool,
    pub reasoning: bool,
}

#[derive(Debug, Clone, PartialEq, Eq)]
pub struct Model {
    pub id: String,
    pub provider: String,
    pub api: String,
    pub capabilities: ModelCapabilities,
}

impl Model {
    pub fn new(id: &str, provider: &str, api: &str, capabilities: ModelCapabilities) -> (r: Self)
        ensures
            r.id@ == id@,
            r.provider@ == provider@,
            r.api@ == api@,
            r.capabilities == capabilities,
    {
        Model {
            id: to_owned_str(id),
            provider: to_owned_str(provider),
            api: to_owned_str(api),
            capabilities,
        }
    }
}

#[derive(Debug, Clone, PartialEq, Eq)]
pub struct AiContext {
    pub system_prompt: Option<String>,
    pub messages: Vec<AiMessage>,
    pub tools: Vec<ToolSpec>,
}

impl AiContext {
    pub fn new(system_prompt: Option<String>, messages: Vec<AiMessage>) -> (r: Self)
        ensures
            r.system_prompt == system_prompt,
            r.messages == messages,
            r.tools@.len() == 0,
    {
        AiContext { system_prompt, messages, tools: Vec::new() }
    }
}

#[derive(Debug, Clone, PartialEq, Eq)]
pub enum AiMessage {
    User(UserMessage),
    Assistant(AssistantMessage),
    ToolResult(ToolResultMessage),
}

/// The mathematical value of a content block.
pub ghost enum BlockView {
    Text(Seq<char>),
    Thinking(Seq<char>),
    ToolCall(Seq<char>, Seq<char>, Seq<char>),
    Image(Seq<char>, Seq<char>, Seq<char>, Seq<char>),
}

/// The mathematical value of a message.
pub ghost enum MessageView {
    User(Seq<BlockView>),
    Assistant(Seq<BlockView>, Option<StopReason>, Option<Usage>),
    ToolResult(Seq<char>, Seq<BlockView>, bool),
}

impl ContentBlock {
    pub open spec fn bview(self) -> BlockView {
        match self {
            ContentBlock::Text(t) => BlockView::Text(t.text@),
            ContentBlock::Thinking(t) => BlockView::Thinking(t.text@),
            ContentBlock::ToolCall(c) => BlockView::ToolCall(c.id@, c.name@, c.arguments@),
            ContentBlock::Image(i) => BlockView::Image(
                i.source_path@,
                i.file_name@,
                i.mime_type@,
                i.data_url@,
            ),
        }
    }
}

pub open spec fn bviews(s: Seq<ContentBlock>) -> Seq<BlockView> {
    s.map_values(|b: ContentBlock| b.bview())
}

impl AiMessage {
    pub open spec fn mview(self) -> MessageView {
        match self {
            AiMessage::User(m) => MessageView::User(bviews(m.content@)),
            AiMessage::Assistant(m) => MessageView::Assistant(
                bviews(m.content@),
                m.stop_reason,
                m.usage,
            ),
            AiMessage::ToolResult(m) => MessageView::ToolResult(
                m.tool_call_id@,
                bviews(m.content@),
                m.is_error,
            ),
        }
    }

    pub fn user_text(content: &str) -> (r: Self)
        ensures
            r.mview() == MessageView::User(seq![BlockView::Text(content@)]),
    {
        let b = ContentBlock::text(content);
        let r = AiMessage::User(UserMessage { content: one_block(b) });
        assert(bviews(seq![b]) =~= seq![BlockView::Text(content@)]);
        r
    }

    pub fn user_content(content: Vec<ContentBlock>) -> (r: Self)
        ensures
            r == AiMessage::User(UserMessage { content }),
    {
        AiMessage::User(UserMessage { content })
    }

    pub fn assistant_text(content: &str) -> (r: Self)
        ensures
            r.mview() == MessageView::Assistant(seq![BlockView::Text(content@)], None, None),
    {
        let b = ContentBlock::text(content);
        let r = AiMessage::Assistant(
            AssistantMessage { content: one_block(b), stop_reason: None, usage: None },
        );
        assert(bviews(seq![b]) =~= seq![BlockView::Text(content@)]);
        r
    }

    pub fn tool_result(tool_call_id: &str, content: &str, is_error: bool) -> (r: Self)
        ensures
            r.mview() == MessageView::ToolResult(
                tool_call_id@,
                seq![BlockView::Text(content@)],
                is_error,
            ),
    {
        let b = ContentBlock::text(content);
        let r = AiMessage::ToolResult(
            ToolResultMessage {
                tool_call_id: to_owned_str(tool_call_id),
                content: one_block(b),
                is_error,
            },
        );
        assert(bviews(seq![b]) =~= seq![BlockView::Text(content@)]);
        r
    }
}

fn one_block(b: ContentBlock) -> (v: Vec<ContentBlock>)
    ensures
        v@ == seq![b],
{
    let mut v = Vec::new();
    v.push(b);
    v
}

pub open spec fn mviews(s: Seq<AiMessage>) -> Seq<MessageView> {
    s.map_values(|m: AiMessage| m.mview())
}

#[derive(Debug, Clone, PartialEq, Eq)]
pub struct UserMessage {
    pub content: Vec<ContentBlock>,
}

#[derive(Debug, Clone, PartialEq, Eq)]
pub struct AssistantMessage {
    pub content: Vec<ContentBlock>,
    pub stop_reason: Option<StopReason>,
    pub usage: Option<Usage>,
}

#[derive(Debug, Clone, PartialEq, Eq)]
pub struct ToolResultMessage {
    pub tool_call_id: String,
    pub content: Vec<ContentBlock>,
    pub is_error: bool,
}

#[derive(Debug, Clone, PartialEq, Eq)]
pub enum ContentBlock {
    Text(TextContent),
    Thinking(ThinkingContent),
    ToolCall(ToolCallContent),
    Image(ImageContent),
}

impl ContentBlock {
    pub fn text(text: &str) -> (r: Self)
        ensures
            r.bview() == BlockView::Text(text@),
    {
        ContentBlock::Text(TextContent { text: to_owned_str(text) })
    }

    pub fn thinking(text: &str) -> (r: Self)
        ensures
            r.bview() == BlockView::Thinking(text@),
    {
        ContentBlock::Thinking(ThinkingContent { text: to_owned_str(text) })
    }

    pub fn tool_call(id: &str, name: &str, arguments: &str) -> (r: Self)
        ensures
            r.bview() == BlockView::ToolCall(id@, name@, arguments@),
    {
        ContentBlock::ToolCall(
            ToolCallContent {
                id: to_owned_str(id),
                name: to_owned_str(name),
                arguments: to_owned_str(arguments),
            },
        )
    }

    pub fn image(source_path: &str, file_name: &str, mime_type: &str, data_url: &str) -> (r: Self)
        ensures
            r.bview() == BlockView::Image(source_path@, file_name@, mime_type@, data_url@),
    {
        ContentBlock::Image(
            ImageContent {
                source_path: to_owned_str(source_path),
                file_name: to_owned_str(file_name),
                mime_type: to_owned_str(mime_type),
                data_url: to_owned_str(data_url),
            },
        )
    }

    pub fn as_text(&self) -> (r: Option<&str>)
        ensures
            match self.bview() {
                BlockView::Text(t) => r matches Some(s) && s@ == t,
                _ => r is None,
            },
    {
        match self {
            ContentBlock::Text(content) => Some(content.text.as_str()),
            _ => None,
        }
    }
}

#[derive(Debug, Clone, PartialEq, Eq)]
pub struct TextContent {
    pub text: String,
}

#[derive(Debug, Clone, PartialEq, Eq)]
pub struct ThinkingContent {
    pub text: String,
}

#[derive(Debug, Clone, PartialEq, Eq)]
pub struct ToolCallContent {
    pub id: String,
    pub name: String,
    pub arguments: String,
}

#[derive(Debug, Clone, PartialEq, Eq)]
pub struct ImageContent {
    pub source_path: String,
    pub file_name: String,
    pub mime_type: String,
    pub data_url: String,
}

#[derive(Debug, Clone, PartialEq, Eq)]
pub struct ToolSpec {
    pub name: String,
    pub description: String,
    pub input_schema_json: String,
}

#[derive(Debug, Clone, PartialEq, Eq)]
pub struct AssistantOutput {
    pub message: AssistantMessage,
    pub raw_response_id: Option<String>,
}

#[derive(Debug, Clone, Copy, PartialEq, Eq)]
pub enum StopReason {
    Stop,
    Length,
    ToolUse,
    Error,
    Aborted,
}

#[derive(Debug, Clone, Copy, PartialEq, Eq)]
pub struct Usage {
    pub input_tokens: u64,
    pub output_tokens: u64,
}

// ---------------------------------------------------------------------------
// Text of content blocks

/// The text blocks of a message, concatenated.
pub open spec fn blocks_text(s: Seq<BlockView>) -> Seq<char>
    decreases s.len(),
{
    if s.len() == 0 {
        Seq::empty()
    } else {
        blocks_text(s.drop_last()) + match s.last() {
            BlockView::Text(t) => t,
            _ => Seq::empty(),
        }
    }
}

pub fn content_blocks_to_text(blocks: &[ContentBlock]) -> (r: String)
    ensures
        r@ == blocks_text(bviews(blocks@)),
{
    let mut out = String::new();
    let mut i: usize = 0;
    while i < blocks.len()
        invariant
            i <= blocks@.len(),
            out@ == blocks_text(bviews(blocks@).take(i as int)),
        decreases blocks.len() - i,
    {
        proof {
            assert(bviews(blocks@).take(i + 1).drop_last() =~= bviews(blocks@).take(i as int));
        }
        match blocks[i].as_text() {
            Some(t) => {
                out.append(t);
            },
            None => {},
        }
        i = i + 1;
    }
    assert(bviews(blocks@).take(blocks@.len() as int) =~= bviews(blocks@));
    out
}

pub open spec fn has_image(s: Seq<BlockView>) -> bool {
    exists|i: int| 0 <= i < s.len() && s[i] is Image
}

pub open spec fn user_has_image(m: MessageView) -> bool {
    m matches MessageView::User(b) && has_image(b)
}

pub open spec fn context_has_images(messages: Seq<MessageView>) -> bool {
    exists|i: int| 0 <= i < messages.len() && #[trigger] user_has_image(messages[i])
}

pub fn blocks_have_image(blocks: &Vec<ContentBlock>) -> (r: bool)
    ensures
        r == has_image(bviews(blocks@)),
{
    let mut i: usize = 0;
    while i < blocks.len()
        invariant
            i <= blocks@.len(),
            forall|j: int| 0 <= j < i ==> !(bviews(blocks@)[j] is Image),
        decreases blocks.len() - i,
    {
        if let ContentBlock::Image(_) = &blocks[i] {
            assert(bviews(blocks@)[i as int] is Image);
            return true;
        }
        i = i + 1;
    }
    false
}

/// True when some user message carries an image.
pub fn context_uses_images(context: &AiContext) -> (r: bool)
    ensures
        r == context_has_images(mviews(context.messages@)),
{
    let mut i: usize = 0;
    while i < context.messages.len()
        invariant
            i <= context.messages@.len(),
            forall|j: int| 0 <= j < i ==> !#[trigger] user_has_image(mviews(context.messages@)[j]),
        decreases context.messages.len() - i,
    {
        if let AiMessage::User(m) = &context.messages[i] {
            if blocks_have_image(&m.content) {
                assert(user_has_image(mviews(context.messages@)[i as int]));
                return true;
            }
        }
        i = i + 1;
    }
    false
}

// ---------------------------------------------------------------------------
// Context for the model

pub open spec fn base_prompt() -> Seq<char> {
    "You are picocode, a concise local coding assistant running inside a terminal UI."@
}

/// The prompt that carries the latest compaction or branch summary, if any.
pub open spec fn summary_prompts(s: Seq<Event>) -> Seq<Seq<char>> {
    match latest_summary(s) {
        Some(i) => match s[i].msg {
            EventMsg::Compaction(c) => seq!["Session compaction summary:\n"@ + c.summary@],
            EventMsg::BranchSummary(b) => seq!["Session branch summary:\n"@ + b.summary@],
            _ => Seq::empty(),
        },
        None => Seq::empty(),
    }
}

/// Reading events in order: system prompts gathered, messages built, and images waiting for
/// the next user message.
pub open spec fn context_fold(s: Seq<Event>) -> (Seq<Seq<char>>, Seq<MessageView>, Seq<BlockView>)
    decreases s.len(),
{
    if s.len() == 0 {
        (Seq::empty(), Seq::empty(), Seq::empty())
    } else {
        let prev = context_fold(s.drop_last());
        let p = prev.0;
        let m = prev.1;
        let img = prev.2;
        match s.last().msg {
            EventMsg::SystemMessage(e) => (p.push(e.content@), m, img),
            EventMsg::UserMessage(e) => (
                p,
                m.push(MessageView::User(img.push(BlockView::Text(e.content@)))),
                Seq::empty(),
            ),
            EventMsg::AssistantMessage(e) => (
                p,
                m.push(MessageView::Assistant(seq![BlockView::Text(e.content@)], None, None)),
                img,
            ),
            EventMsg::ImageAttachment(e) => (
                p,
                m,
                img.push(BlockView::Image(e.source_path@, e.file_name@, e.mime_type@, e.data_url@)),
            ),
            EventMsg::ToolCall(e) => (
                p,
                m.push(
                    MessageView::Assistant(
                        seq![BlockView::ToolCall(e.call_id@, e.name@, e.arguments@)],
                        Some(StopReason::ToolUse),
                        None,
                    ),
                ),
                img,
            ),
            EventMsg::ToolResult(e) => (
                p,
                m.push(
                    MessageView::ToolResult(
                        e.call_id@,
                        seq![BlockView::Text(e.content@)],
                        e.status == ToolResultStatus::Error || e.status
                            == ToolResultStatus::Denied,
                    ),
                ),
                img,
            ),
            _ => (p, m, img),
        }
    }
}

/// The system prompt of the context built from a session.
pub open spec fn context_system_prompt(s: Seq<Event>) -> Seq<char> {
    let active = s.subrange(active_start(s), s.len() as int);
    join_seq(seq![base_prompt()] + summary_prompts(s) + context_fold(active).0, "\n\n"@)
}

/// The messages of the context built from a session.
pub open spec fn context_messages(s: Seq<Event>) -> Seq<MessageView> {
    context_fold(s.subrange(active_start(s), s.len() as int)).1
}

fn clone_string(s: &String) -> (r: String)
    ensures
        r@ == s@,
{
    s.clone()
}

/// Builds what the model sees of a session: the latest summary and the system messages after
/// it as the system prompt, and the conversation after it as messages, images attached to the
/// next user message.
pub fn context_from_events(events: &[Event]) -> (r: AiContext)
    ensures
        r.system_prompt matches Some(p) && p@ == context_system_prompt(events@),
        mviews(r.messages@) == context_messages(events@),
        r.tools@.len() == 0,
{
    let mut prompts: Vec<String> = Vec::new();
    prompts.push(
        to_owned_str(
            "You are picocode, a concise local coding assistant running inside a terminal UI.",
        ),
    );
    let n = events.len();
    let latest = crate::event::latest_summary_event_index(events);
    proof {
        crate::event::lemma_latest_summary(events@);
    }
    let mut start: usize = 0;
    match latest {
        Some(index) => {
            assert(index < n);
            match &events[index].msg {
                EventMsg::Compaction(c) => {
                    prompts.push(cat("Session compaction summary:\n", c.summary.as_str()));
                },
                EventMsg::BranchSummary(b) => {
                    prompts.push(cat("Session branch summary:\n", b.summary.as_str()));
                },
                _ => {},
            }
            start = index + 1;
        },
        None => {},
    }
    let ghost head = views(prompts@);
    assert(head =~= seq![base_prompt()] + summary_prompts(events@));
    let mut messages: Vec<AiMessage> = Vec::new();
    let mut pending: Vec<ContentBlock> = Vec::new();
    let mut i = start;
    while i < n
        invariant
            n == events@.len(),
            start <= i <= n,
            start == active_start(events@),
            views(prompts@) == head + context_fold(events@.subrange(start as int, i as int)).0,
            mviews(messages@) == context_fold(events@.subrange(start as int, i as int)).1,
            bviews(pending@) == context_fold(events@.subrange(start as int, i as int)).2,
        decreases n - i,
    {
        let ghost before = events@.subrange(start as int, i as int);
        proof {
            assert(events@.subrange(start as int, i + 1).drop_last() =~= before);
            assert(events@.subrange(start as int, i + 1).last() == events@[i as int]);
        }
        match &events[i].msg {
            EventMsg::SystemMessage(e) => {
                let ghost old_v = views(prompts@);
                prompts.push(clone_string(&e.content));
                assert(views(prompts@) =~= old_v.push(e.content@));
                assert(views(prompts@) =~= head + context_fold(
                    events@.subrange(start as int, i + 1),
                ).0);
            },
            EventMsg::UserMessage(e) => {
                let mut content = pending;
                content.push(ContentBlock::text(e.content.as_str()));
                pending = Vec::new();
                let ghost old_m = mviews(messages@);
                messages.push(AiMessage::User(UserMessage { content }));
                assert(bviews(content@) =~= context_fold(before).2.push(
                    BlockView::Text(e.content@),
                ));
                assert(mviews(messages@) =~= old_m.push(
                    MessageView::User(context_fold(before).2.push(BlockView::Text(e.content@))),
                ));
                assert(bviews(pending@) =~= Seq::<BlockView>::empty());
            },
            EventMsg::AssistantMessage(e) => {
                let ghost old_m = mviews(messages@);
                messages.push(AiMessage::assistant_text(e.content.as_str()));
                assert(mviews(messages@) =~= old_m.push(
                    MessageView::Assistant(seq![BlockView::Text(e.content@)], None, None),
                ));
            },
            EventMsg::ImageAttachment(e) => {
                let ghost old_p = bviews(pending@);
                pending.push(
                    ContentBlock::image(
                        e.source_path.as_str(),
                        e.file_name.as_str(),
                        e.mime_type.as_str(),
                        e.data_url.as_str(),
                    ),
                );
                assert(bviews(pending@) =~= old_p.push(
                    BlockView::Image(e.source_path@, e.file_name@, e.mime_type@, e.data_url@),
                ));
            },
            EventMsg::ToolCall(e) => {
                let ghost old_m = mviews(messages@);
                let b = ContentBlock::tool_call(
                    e.call_id.as_str(),
                    e.name.as_str(),
                    e.arguments.as_str(),
                );
                let content = one_block(b);
                assert(bviews(content@) =~= seq![
                    BlockView::ToolCall(e.call_id@, e.name@, e.arguments@),
                ]);
                messages.push(
                    AiMessage::Assistant(
                        AssistantMessage {
                            content,
                            stop_reason: Some(StopReason::ToolUse),
                            usage: None,
                        },
                    ),
                );
                assert(mviews(messages@) =~= old_m.push(
                    MessageView::Assistant(
                        seq![BlockView::ToolCall(e.call_id@, e.name@, e.arguments@)],
                        Some(StopReason::ToolUse),
                        None,
                    ),
                ));
            },
            EventMsg::ToolResult(e) => {
                let ghost old_m = mviews(messages@);
                let is_error = match e.status {
                    ToolResultStatus::Error | ToolResultStatus::Denied => true,
                    _ => false,
                };
                messages.push(
                    AiMessage::tool_result(e.call_id.as_str(), e.content.as_str(), is_error),
                );
                assert(mviews(messages@) =~= old_m.push(
                    MessageView::ToolResult(
                        e.call_id@,
                        seq![BlockView::Text(e.content@)],
                        is_error,
                    ),
                ));
            },
            _ => {},
        }
        i = i + 1;
    }
    let prompt = join(&prompts, "\n\n");
    AiContext::new(Some(prompt), messages)
}

// ---------------------------------------------------------------------------
// Assistant output

/// A visible text block, its leading white space dropped once a thinking block was seen.
pub open spec fn visible_blocks(text: Seq<char>, saw_thinking: bool) -> Seq<BlockView> {
    let t = if saw_thinking {
        trim_start_seq(text)
    } else {
        text
    };
    if t.len() > 0 {
        seq![BlockView::Text(t)]
    } else {
        Seq::empty()
    }
}

pub open spec fn think_open() -> Seq<char> {
    "<think>"@
}

pub open spec fn think_close() -> Seq<char> {
    "</think>"@
}

/// The blocks of provider text: `<think>...</think>` spans become thinking blocks (when not
/// blank after trimming) and the rest visible text.
#[verifier::opaque]
pub open spec fn think_blocks(rem: Seq<char>, saw: bool) -> Seq<BlockView>
    decreases rem.len(),
{
    match find_seq(rem, think_open()) {
        None => visible_blocks(rem, saw),
        Some(start) => {
            if 0 <= start && start + 7 <= rem.len() {
                let after = rem.subrange(start + 7, rem.len() as int);
                match find_seq(after, think_close()) {
                    None => visible_blocks(rem.subrange(0, start), saw) + visible_blocks(rem, saw),
                    Some(end) => {
                        if 0 <= end && end + 8 <= after.len() {
                            let thinking = trim_seq(after.subrange(0, end));
                            let now_saw = saw || thinking.len() > 0;
                            visible_blocks(rem.subrange(0, start), saw) + (if thinking.len() > 0 {
                                seq![BlockView::Thinking(thinking)]
                            } else {
                                Seq::empty()
                            }) + think_blocks(after.subrange(end + 8, after.len() as int), now_saw)
                        } else {
                            Seq::empty()
                        }
                    },
                }
            } else {
                Seq::empty()
            }
        },
    }
}

/// The content blocks of provider text; a single empty text block when nothing is visible.
pub open spec fn provider_blocks(content: Seq<char>) -> Seq<BlockView> {
    let b = think_blocks(content, false);
    if b.len() == 0 {
        seq![BlockView::Text(Seq::empty())]
    } else {
        b
    }
}

fn push_visible_text(blocks: &mut Vec<ContentBlock>, text: &str, trim_start: bool)
    ensures
        bviews(final(blocks)@) == bviews(old(blocks)@) + visible_blocks(text@, trim_start),
{
    let t = if trim_start {
        crate::text::trim_start(text)
    } else {
        to_owned_str(text)
    };
    if t.as_str().is_empty() {
        assert(bviews(blocks@) =~= bviews(blocks@) + visible_blocks(text@, trim_start));
    } else {
        let ghost old_b = bviews(blocks@);
        blocks.push(ContentBlock::text(t.as_str()));
        assert(bviews(blocks@) =~= old_b + visible_blocks(text@, trim_start));
    }
}

/// One step of `think_blocks` when no `<think>` follows.
proof fn lemma_think_none(rem: Seq<char>, saw: bool)
    requires
        find_seq(rem, think_open()) is None,
    ensures
        think_blocks(rem, saw) == visible_blocks(rem, saw),
{
    reveal(think_blocks);
}

/// One step of `think_blocks` when a `<think>` is never closed.
proof fn lemma_think_unclosed(rem: Seq<char>, saw: bool, start: int)
    requires
        find_seq(rem, think_open()) == Some(start),
        0 <= start,
        start + 7 <= rem.len(),
        find_seq(rem.subrange(start + 7, rem.len() as int), think_close()) is None,
    ensures
        think_blocks(rem, saw) == visible_blocks(rem.subrange(0, start), saw) + visible_blocks(
            rem,
            saw,
        ),
{
    reveal(think_blocks);
}

/// One step of `think_blocks` over a closed `<think>...</think>` span.
#[verifier::spinoff_prover]
#[verifier::rlimit(100)]
proof fn lemma_think_closed(rem: Seq<char>, saw: bool, start: int, end: int)
    requires
        find_seq(rem, think_open()) == Some(start),
        0 <= start,
        start + 7 <= rem.len(),
        find_seq(rem.subrange(start + 7, rem.len() as int), think_close()) == Some(end),
        0 <= end,
        end + 8 <= rem.len() - (start + 7),
    ensures
        ({
            let after = rem.subrange(start + 7, rem.len() as int);
            let thinking = trim_seq(after.subrange(0, end));
            think_blocks(rem, saw) == visible_blocks(rem.subrange(0, start), saw) + (if thinking.len()
                > 0 {
                seq![BlockView::Thinking(thinking)]
            } else {
                Seq::empty()
            }) + think_blocks(
                after.subrange(end + 8, after.len() as int),
                saw || thinking.len() > 0,
            )
        }),
{
    reveal(think_blocks);
    let after = rem.subrange(start + 7, rem.len() as int);
    assert(after.len() == rem.len() - (start + 7));
    assert(0 <= end && end + 8 <= after.len());
}

fn think_blocks_exec(rem: &Vec<char>, saw: bool, blocks: &mut Vec<ContentBlock>)
    ensures
        bviews(final(blocks)@) == bviews(old(blocks)@) + think_blocks(rem@, saw),
    decreases rem@.len(),
{
    let open = chars_of("<think>");
    let close = chars_of("</think>");
    proof {
        reveal_strlit("<think>");
        reveal_strlit("</think>");
        assert(open@.len() == 7);
        assert(close@.len() == 8);
    }
    let found = find_chars(rem, &open);
    if found.is_none() {
        proof {
            lemma_think_none(rem@, saw);
        }
        let s = string_of(rem.as_slice());
        push_visible_text(blocks, s.as_str(), saw);
        return;
    }
    let start = found.unwrap();
    let len = rem.len();
    assert(crate::text::occurs_at(rem@, open@, start as int));
    let body_start = start + 7;
    let before = subrange_string(rem, 0, start);
    let after_v = sub_vec(rem, body_start, len);
    let found_end = find_chars(&after_v, &close);
    if found_end.is_none() {
        proof {
            lemma_think_unclosed(rem@, saw, start as int);
        }
        let ghost b0 = bviews(blocks@);
        push_visible_text(blocks, before.as_str(), saw);
        let whole = string_of(rem.as_slice());
        push_visible_text(blocks, whole.as_str(), saw);
        assert(bviews(blocks@) =~= b0 + think_blocks(rem@, saw));
        return;
    }
    let end = found_end.unwrap();
    let after_len = after_v.len();
    assert(crate::text::occurs_at(after_v@, close@, end as int));
    proof {
        lemma_think_closed(rem@, saw, start as int, end as int);
    }
    let ghost b0 = bviews(blocks@);
    push_visible_text(blocks, before.as_str(), saw);
    let inner = subrange_string(&after_v, 0, end);
    let thinking = trim(inner.as_str());
    let mut now_saw = saw;
    let ghost b1 = bviews(blocks@);
    if !thinking.as_str().is_empty() {
        blocks.push(ContentBlock::thinking(thinking.as_str()));
        now_saw = true;
    }
    let ghost b2 = bviews(blocks@);
    assert(b2 =~= b1 + (if thinking@.len() > 0 {
        seq![BlockView::Thinking(thinking@)]
    } else {
        Seq::empty()
    }));
    let rest = sub_vec(&after_v, end + 8, after_len);
    think_blocks_exec(&rest, now_saw, blocks);
    assert(bviews(blocks@) =~= b0 + think_blocks(rem@, saw));
}

fn sub_vec(v: &Vec<char>, lo: usize, hi: usize) -> (r: Vec<char>)
    requires
        lo <= hi <= v.len(),
    ensures
        r@ == v@.subrange(lo as int, hi as int),
{
    let mut out: Vec<char> = Vec::new();
    let mut i = lo;
    while i < hi
        invariant
            lo <= i <= hi <= v.len(),
            out@ == v@.subrange(lo as int, i as int),
        decreases hi - i,
    {
        out.push(v[i]);
        i = i + 1;
        assert(out@ =~= v@.subrange(lo as int, i as int));
    }
    out
}

/// Splits provider text into thinking and visible blocks.
pub fn provider_content_blocks(content: &str) -> (r: Vec<ContentBlock>)
    ensures
        bviews(r@) == provider_blocks(content@),
{
    let v = chars_of(content);
    let mut blocks: Vec<ContentBlock> = Vec::new();
    assert(bviews(blocks@) =~= Seq::<BlockView>::empty());
    think_blocks_exec(&v, false, &mut blocks);
    assert(bviews(blocks@) =~= think_blocks(content@, false));
    if blocks.len() == 0 {
        blocks.push(ContentBlock::text(""));
        assert(bviews(blocks@) =~= seq![BlockView::Text(""@)]);
        proof {
            reveal_strlit("");
            assert(""@ =~= Seq::<char>::empty());
        }
    }
    blocks
}

/// Whether a block is a tool call.
pub open spec fn is_call_block() -> spec_fn(BlockView) -> bool {
    |b: BlockView| b is ToolCall
}

/// Tool calls as blocks.
pub open spec fn call_block_views(v: Seq<ToolCallContent>) -> Seq<BlockView> {
    v.map_values(|c: ToolCallContent| BlockView::ToolCall(c.id@, c.name@, c.arguments@))
}

impl AssistantOutput {
    pub fn from_provider_content(content: &str) -> (r: Self)
        ensures
            bviews(r.message.content@) == provider_blocks(content@),
            r.message.stop_reason == Some(StopReason::Stop),
            r.message.usage is None,
            r.raw_response_id is None,
    {
        AssistantOutput {
            message: AssistantMessage {
                content: provider_content_blocks(content),
                stop_reason: Some(StopReason::Stop),
                usage: None,
            },
            raw_response_id: None,
        }
    }

    /// The visible text of the output, trimmed.
    pub fn text_content(&self) -> (r: String)
        ensures
            r@ == trim_seq(blocks_text(bviews(self.message.content@))),
    {
        let t = content_blocks_to_text(self.message.content.as_slice());
        trim(t.as_str())
    }

    /// The tool calls of the output, in order.
    pub fn tool_calls(&self) -> (r: Vec<ToolCallContent>)
        ensures
            call_block_views(r@)
                == bviews(self.message.content@).filter(is_call_block()),
    {
        let blocks = &self.message.content;
        let mut out: Vec<ToolCallContent> = Vec::new();
        let mut i: usize = 0;
        while i < blocks.len()
            invariant
                i <= blocks@.len(),
                blocks == &self.message.content,
                call_block_views(out@) == bviews(blocks@).take(i as int).filter(is_call_block()),
            decreases blocks.len() - i,
        {
            proof {
                let t = bviews(blocks@).take(i + 1);
                assert(t.drop_last() =~= bviews(blocks@).take(i as int));
                reveal(Seq::filter);
            }
            match &blocks[i] {
                ContentBlock::ToolCall(c) => {
                    let copy = ToolCallContent {
                        id: clone_string(&c.id),
                        name: clone_string(&c.name),
                        arguments: clone_string(&c.arguments),
                    };
                    out.push(copy);
                    assert(call_block_views(out@) =~= bviews(blocks@).take(i + 1).filter(is_call_block()));
                },
                _ => {
                    assert(call_block_views(out@) =~= bviews(blocks@).take(i + 1).filter(is_call_block()));
                },
            }
            i = i + 1;
        }
        assert(bviews(blocks@).take(blocks@.len() as int) =~= bviews(blocks@));
        out
    }
}

// ---------------------------------------------------------------------------
// JSON text

/// A control character (Unicode general category Cc).
pub open spec fn is_control_char(c: char) -> bool {
    (c as u32) <= 0x1f || (0x7f <= (c as u32) && (c as u32) <= 0x9f)
}

/// The lower-case hexadecimal digit of `d`.
pub open spec fn hex_digit(d: nat) -> char {
    if d < 10 {
        crate::text::digit_char(d)
    } else if d == 10 {
        'a'
    } else if d == 11 {
        'b'
    } else if d == 12 {
        'c'
    } else if d == 13 {
        'd'
    } else if d == 14 {
        'e'
    } else {
        'f'
    }
}

/// `\u` and four lower-case hexadecimal digits of a code point below 0x10000.
pub open spec fn unicode_escape(u: nat) -> Seq<char> {
    "\\u"@ + seq![
        hex_digit((u / 4096) % 16),
        hex_digit((u / 256) % 16),
        hex_digit((u / 16) % 16),
        hex_digit(u % 16),
    ]
}

/// The JSON string text of one character.
pub open spec fn json_char(c: char) -> Seq<char> {
    if c == '"' {
        "\\\""@
    } else if c == '\\' {
        "\\\\"@
    } else if c == '\n' {
        "\\n"@
    } else if c == '\r' {
        "\\r"@
    } else if c == '\t' {
        "\\t"@
    } else if is_control_char(c) {
        unicode_escape((c as u32) as nat)
    } else {
        seq![c]
    }
}

/// Text escaped for the inside of a JSON string.
pub open spec fn json_escape_spec(s: Seq<char>) -> Seq<char>
    decreases s.len(),
{
    if s.len() == 0 {
        Seq::empty()
    } else {
        json_escape_spec(s.drop_last()) + json_char(s.last())
    }
}

pub(crate) fn hex_char(d: u32) -> (c: char)
    requires
        d < 16,
    ensures
        c == hex_digit(d as nat),
{
    if d < 10 {
        if d == 0 {
            '0'
        } else if d == 1 {
            '1'
        } else if d == 2 {
            '2'
        } else if d == 3 {
            '3'
        } else if d == 4 {
            '4'
        } else if d == 5 {
            '5'
        } else if d == 6 {
            '6'
        } else if d == 7 {
            '7'
        } else if d == 8 {
            '8'
        } else {
            '9'
        }
    } else if d == 10 {
        'a'
    } else if d == 11 {
        'b'
    } else if d == 12 {
        'c'
    } else if d == 13 {
        'd'
    } else if d == 14 {
        'e'
    } else {
        'f'
    }
}

/// Escapes text for a JSON string: quote, backslash, newline, carriage return and tab by
/// their short forms, other control characters as `\u` and four hexadecimal digits.
pub fn json_escape(value: &str) -> (r: String)
    ensures
        r@ == json_escape_spec(value@),
{
    let v = chars_of(value);
    let mut out = String::new();
    let mut i: usize = 0;
    while i < v.len()
        invariant
            i <= v@.len(),
            v@ == value@,
            out@ == json_escape_spec(v@.take(i as int)),
        decreases v.len() - i,
    {
        assert(v@.take(i + 1).drop_last() =~= v@.take(i as int));
        let c = v[i];
        let u = c as u32;
        if c == '"' {
            crate::text::push_str(&mut out, "\\\"");
        } else if c == '\\' {
            crate::text::push_str(&mut out, "\\\\");
        } else if c == '\n' {
            crate::text::push_str(&mut out, "\\n");
        } else if c == '\r' {
            crate::text::push_str(&mut out, "\\r");
        } else if c == '\t' {
            crate::text::push_str(&mut out, "\\t");
        } else if u <= 0x1f || (0x7f <= u && u <= 0x9f) {
            let ghost before = out@;
            crate::text::push_str(&mut out, "\\u");
            crate::text::push_char(&mut out, hex_char((u / 4096) % 16));
            crate::text::push_char(&mut out, hex_char((u / 256) % 16));
            crate::text::push_char(&mut out, hex_char((u / 16) % 16));
            crate::text::push_char(&mut out, hex_char(u % 16));
            assert(out@ =~= before + unicode_escape((c as u32) as nat));
        } else {
            crate::text::push_char(&mut out, c);
        }
        i = i + 1;
    }
    assert(v@.take(v@.len() as int) =~= v@);
    out
}

} // verus!
