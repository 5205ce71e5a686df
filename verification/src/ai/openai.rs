//! Requests to OpenAI-compatible chat completion endpoints: the JSON body of a request and the
//! parts of a `curl` response.
use vstd::prelude::*;
use crate::ai::{
    StopReason, AssistantOutput, provider_blocks,
    blocks_have_image, has_image, mviews, MessageView, ToolSpec, blocks_text, bviews, content_blocks_to_text, json_escape, json_escape_spec, AiContext,
    AiMessage, AssistantMessage, BlockView, ContentBlock, Model, ModelCapabilities, UserMessage,
};
use crate::order::{sort_by, sort_indices, str_lt};
use crate::tool::{
    field_views, first_line_value, json_array_items, json_get, json_get_exec, json_object_fields, pair_views,
    serde_json_array_items, serde_json_object_fields, text_field, text_field_exec, JsonField, JsonFieldView,
};
use crate::text::{
    cat, cat3, chars_of, find_chars, find_seq, join, join_seq, lines, lines_seq, occurs_at,
    parse_u128, parses_as_u128, push_str, str_eq, string_of, subrange_string, to_owned_str, trim,
    trim_end_seq, trim_seq, views,
};

verus! {

#[derive(Debug, Clone, PartialEq, Eq)]
pub struct OpenAiConfig {
    pub base_url: String,
    pub api_key: String,
    pub model_id: String,
    pub capabilities: ModelCapabilities,
}

#[derive(Debug)]
pub struct OpenAiCompatibleProvider {
    pub config: OpenAiConfig,
    pub model: Model,
}

/// Text without its trailing slashes.
pub open spec fn trim_slashes(s: Seq<char>) -> Seq<char>
    decreases s.len(),
{
    if s.len() > 0 && s.last() == '/' {
        trim_slashes(s.drop_last())
    } else {
        s
    }
}

fn trim_end_slashes(s: &str) -> (r: String)
    ensures
        r@ == trim_slashes(s@),
{
    let v = chars_of(s);
    let mut k = v.len();
    assert(v@.take(k as int) =~= v@);
    while k > 0 && v[k - 1] == '/'
        invariant
            k <= v@.len(),
            trim_slashes(v@) == trim_slashes(v@.take(k as int)),
        decreases k,
    {
        assert(v@.take(k as int).drop_last() =~= v@.take(k - 1));
        k = k - 1;
    }
    assert(v@.take(v@.len() as int) =~= v@);
    subrange_string(&v, 0, k)
}

impl OpenAiCompatibleProvider {
    /// A provider for the configured endpoint, its base URL without trailing slashes, serving
    /// the configured model through the chat completions API.
    pub fn new(config: OpenAiConfig) -> (r: Self)
        ensures
            r.config.base_url@ == trim_slashes(config.base_url@),
            r.config.api_key == config.api_key,
            r.config.model_id == config.model_id,
            r.config.capabilities == config.capabilities,
            r.model.id@ == config.model_id@,
            r.model.provider@ == "openai"@,
            r.model.api@ == "openai-chat-completions"@,
            r.model.capabilities == config.capabilities,
    {
        let base_url = trim_end_slashes(config.base_url.as_str());
        let model = Model::new(
            config.model_id.as_str(),
            "openai",
            "openai-chat-completions",
            config.capabilities,
        );
        let config = OpenAiConfig {
            base_url,
            api_key: config.api_key,
            model_id: config.model_id,
            capabilities: config.capabilities,
        };
        OpenAiCompatibleProvider { config, model }
    }

    /// The endpoint that chat completions are posted to.
    pub fn completions_url(&self) -> (r: String)
        ensures
            r@ == self.config.base_url@ + "/chat/completions"@,
    {
        cat(self.config.base_url.as_str(), "/chat/completions")
    }
}

// ---------------------------------------------------------------------------
// Tool arguments

/// The value of a `key=value` tool argument as JSON carries it.
#[derive(Debug, Clone, PartialEq, Eq)]
pub enum ArgValue {
    Bool(bool),
    Number(u64),
    Text(String),
}

/// The mathematical value of an argument value.
pub ghost enum ArgView {
    Bool(bool),
    Number(u64),
    Text(Seq<char>),
}

impl ArgValue {
    pub open spec fn view_arg(self) -> ArgView {
        match self {
            ArgValue::Bool(b) => ArgView::Bool(b),
            ArgValue::Number(n) => ArgView::Number(n),
            ArgValue::Text(t) => ArgView::Text(t@),
        }
    }

    pub fn copy(&self) -> (r: Self)
        ensures
            r == *self,
    {
        match self {
            ArgValue::Bool(b) => ArgValue::Bool(*b),
            ArgValue::Number(n) => ArgValue::Number(*n),
            ArgValue::Text(t) => ArgValue::Text(t.clone()),
        }
    }
}

/// `true` and `false` are truth values, a `u64` numeral a number, anything else text.
pub open spec fn arg_value_of(v: Seq<char>) -> ArgView {
    if v == "true"@ {
        ArgView::Bool(true)
    } else if v == "false"@ {
        ArgView::Bool(false)
    } else if exists|n: int| parses_as_u128(v, n) && n <= u64::MAX {
        ArgView::Number((choose|n: int| parses_as_u128(v, n) && n <= u64::MAX) as u64)
    } else {
        ArgView::Text(v)
    }
}

proof fn lemma_parse_unique(s: Seq<char>, a: int, b: int)
    requires
        parses_as_u128(s, a),
        parses_as_u128(s, b),
    ensures
        a == b,
{
}

pub fn tool_argument_value(value: &str) -> (r: ArgValue)
    ensures
        r.view_arg() == arg_value_of(value@),
{
    if str_eq(value, "true") {
        return ArgValue::Bool(true);
    }
    if str_eq(value, "false") {
        return ArgValue::Bool(false);
    }
    match parse_u128(value) {
        Some(n) => {
            if n <= 0xffff_ffff_ffff_ffffu128 {
                proof {
                    assert(parses_as_u128(value@, n as int));
                    let m = choose|m: int| parses_as_u128(value@, m) && m <= u64::MAX;
                    lemma_parse_unique(value@, m, n as int);
                }
                return ArgValue::Number(n as u64);
            } else {
                proof {
                    if exists|m: int| parses_as_u128(value@, m) && m <= u64::MAX {
                        let m = choose|m: int| parses_as_u128(value@, m) && m <= u64::MAX;
                        lemma_parse_unique(value@, m, n as int);
                    }
                }
            }
        },
        None => {},
    }
    ArgValue::Text(to_owned_str(value))
}

/// The key and value of a `key=value` argument line: split at the first `=`, both trimmed.
pub open spec fn arg_pair(line: Seq<char>) -> Option<(Seq<char>, ArgView)> {
    match find_seq(line, "="@) {
        Some(i) => Some(
            (
                trim_seq(line.subrange(0, i)),
                arg_value_of(trim_seq(line.subrange(i + 1, line.len() as int))),
            ),
        ),
        None => None,
    }
}

/// One more argument line in the collected pairs: a new key is added at the end, a known key
/// takes the new value.
pub open spec fn collect_step(m: Seq<(Seq<char>, ArgView)>, line: Seq<char>) -> Seq<
    (Seq<char>, ArgView),
> {
    match arg_pair(line) {
        Some((k, v)) => match key_index(m, k) {
            Some(j) => m.update(j, (k, v)),
            None => m.push((k, v)),
        },
        None => m,
    }
}

/// Argument pairs collected by key, as a map collects them: the first appearance of a key
/// keeps its place, the last value wins.
pub open spec fn collect_args(ls: Seq<Seq<char>>) -> Seq<(Seq<char>, ArgView)>
    decreases ls.len(),
{
    if ls.len() == 0 {
        Seq::empty()
    } else {
        collect_step(collect_args(ls.drop_last()), ls.last())
    }
}

/// Where `k` stands among the keys of `m`.
pub open spec fn key_index(m: Seq<(Seq<char>, ArgView)>, k: Seq<char>) -> Option<int>
    decreases m.len(),
{
    if m.len() == 0 {
        None
    } else if m.last().0 == k {
        Some(m.len() - 1)
    } else {
        key_index(m.drop_last(), k)
    }
}

proof fn lemma_key_index(m: Seq<(Seq<char>, ArgView)>, k: Seq<char>)
    ensures
        key_index(m, k) matches Some(j) ==> 0 <= j < m.len() && m[j].0 == k,
        key_index(m, k) is None ==> forall|j: int| 0 <= j < m.len() ==> m[j].0 != k,
    decreases m.len(),
{
    if m.len() > 0 {
        lemma_key_index(m.drop_last(), k);
        if m.last().0 != k {
            assert forall|j: int| 0 <= j < m.len() - 1 implies m[j] == m.drop_last()[j] by {}
        }
    }
}

/// The keys of collected arguments ordered as a `BTreeMap` orders them.
pub open spec fn key_before(m: Seq<(Seq<char>, ArgView)>) -> spec_fn(usize, usize) -> bool {
    |a: usize, b: usize| a < m.len() && b < m.len() && crate::order::lex_lt(m[a as int].0, m[b as int].0)
}

/// The entries of the JSON object of key-value argument lines, sorted by key.
pub open spec fn sorted_args(ls: Seq<Seq<char>>) -> Seq<(Seq<char>, ArgView)> {
    let m = collect_args(ls);
    sort_by(crate::config::index_range(m.len()), key_before(m)).map_values(|i: usize| m[i as int])
}

pub open spec fn entry_views(v: Seq<(String, ArgValue)>) -> Seq<(Seq<char>, ArgView)> {
    v.map_values(|e: (String, ArgValue)| (e.0@, e.1.view_arg()))
}

/// Whether `serde_json` reads the text as a JSON value.
pub uninterp spec fn serde_json_parses(text: Seq<char>) -> bool;

/// What `serde_json::to_string` writes for the map of these entries (keys distinct, in order).
pub uninterp spec fn serde_json_object_text(entries: Seq<(Seq<char>, ArgView)>) -> Option<Seq<char>>;

/// `serde_json::from_str::<serde_json::Value>` succeeds on the text.
#[verifier::external_body]
fn json_parses(text: &str) -> (r: bool)
    ensures
        r == serde_json_parses(text@),
{
    serde_json::from_str::<serde_json::Value>(text).is_ok()
}

/// `serde_json::to_string` of the `BTreeMap` that holds these entries, each value as a JSON
/// bool, number or string; `None` when serialization fails. The text itself is only named.
#[verifier::external_body]
fn json_object_text(entries: &Vec<(String, ArgValue)>) -> (r: Option<String>)
    ensures
        match serde_json_object_text(entry_views(entries@)) {
            Some(t) => r matches Some(s) && s@ == t,
            None => r is None,
        },
{
    let map: std::collections::BTreeMap<String, serde_json::Value> = entries
        .iter()
        .map(|(k, v)| {
            let value = match v {
                ArgValue::Bool(b) => serde_json::Value::Bool(*b),
                ArgValue::Number(n) => serde_json::Value::Number(serde_json::Number::from(*n)),
                ArgValue::Text(t) => serde_json::Value::String(t.clone()),
            };
            (k.clone(), value)
        })
        .collect();
    serde_json::to_string(&map).ok()
}

fn find_key(m: &Vec<(String, ArgValue)>, key: &str) -> (r: Option<usize>)
    ensures
        match key_index(entry_views(m@), key@) {
            Some(j) => r == Some(j as usize),
            None => r is None,
        },
{
    let ghost mv = entry_views(m@);
    let mut j = m.len();
    assert(mv.take(j as int) =~= mv);
    while j > 0
        invariant
            j <= m@.len(),
            mv == entry_views(m@),
            key_index(mv, key@) == key_index(mv.take(j as int), key@),
        decreases j,
    {
        let ghost t = mv.take(j as int);
        assert(t.last() == mv[j - 1]);
        if str_eq(m[j - 1].0.as_str(), key) {
            return Some(j - 1);
        }
        assert(t.drop_last() =~= mv.take(j - 1));
        j = j - 1;
    }
    None
}

fn add_arg(m: &mut Vec<(String, ArgValue)>, line: &str)
    ensures
        entry_views(final(m)@) == collect_step(entry_views(old(m)@), line@),
{
    match split_arg_line(line) {
        Some((key, value)) => {
            let ghost mv = entry_views(m@);
            let ghost pair = arg_pair(line@);
            assert(pair == Some((key@, value.view_arg())));
            proof {
                lemma_key_index(mv, key@);
            }
            match find_key(m, key.as_str()) {
                Some(j) => {
                    m.set(j, (key, value));
                    assert(entry_views(m@) =~= mv.update(j as int, (key@, value.view_arg())));
                },
                None => {
                    m.push((key, value));
                    assert(entry_views(m@) =~= mv.push((key@, value.view_arg())));
                },
            }
        },
        None => {},
    }
}

fn split_arg_line(line: &str) -> (r: Option<(String, ArgValue)>)
    ensures
        match arg_pair(line@) {
            Some((k, v)) => r matches Some(p) && p.0@ == k && p.1.view_arg() == v,
            None => r is None,
        },
{
    let lv = chars_of(line);
    let eqv = chars_of("=");
    proof {
        reveal_strlit("=");
    }
    let n = lv.len();
    match find_chars(&lv, &eqv) {
        Some(i) => {
            assert(occurs_at(lv@, eqv@, i as int));
            let key = subrange_string(&lv, 0, i);
            let value = subrange_string(&lv, i + 1, n);
            let k = trim(key.as_str());
            let v = trim(value.as_str());
            Some((k, tool_argument_value(v.as_str())))
        },
        None => None,
    }
}

/// The JSON object text of tool arguments: the arguments themselves, trimmed, when they are a
/// JSON object already; otherwise their `key=value` lines as an object with keys in order
/// (the last value of a key wins), `{}` when that cannot be written.
pub fn tool_arguments_json_string(arguments: &str) -> (r: String)
    ensures
        ({
            let t = trim_seq(arguments@);
            if t.len() > 0 && t[0] == '{' && serde_json_parses(t) {
                r@ == t
            } else {
                r@ == match serde_json_object_text(sorted_args(lines_seq(arguments@))) {
                    Some(text) => text,
                    None => "{}"@,
                }
            }
        }),
{
    let t = trim(arguments);
    let tv = chars_of(t.as_str());
    if tv.len() > 0 && tv[0] == '{' && json_parses(t.as_str()) {
        return t;
    }
    let ls = lines(arguments);
    let ghost lv = views(ls@);
    let mut m: Vec<(String, ArgValue)> = Vec::new();
    let mut k: usize = 0;
    while k < ls.len()
        invariant
            k <= ls@.len(),
            lv == views(ls@),
            entry_views(m@) == collect_args(lv.take(k as int)),
        decreases ls.len() - k,
    {
        let ghost prev = lv.take(k as int);
        proof {
            assert(lv.take(k + 1).drop_last() =~= prev);
            assert(lv.take(k + 1).last() == ls@[k as int]@);
        }
        add_arg(&mut m, ls[k].as_str());
        k = k + 1;
    }
    assert(lv.take(ls@.len() as int) =~= lv);
    let ghost mv = entry_views(m@);
    let ms = &m;
    let before = |a: usize, b: usize| -> (r: bool)
        ensures
            r == (a < ms@.len() && b < ms@.len() && crate::order::lex_lt(ms@[a as int].0@, ms@[b as int].0@)),
        { a < ms.len() && b < ms.len() && str_lt(ms[a].0.as_str(), ms[b].0.as_str()) };
    let n = m.len();
    let idx = sort_indices(crate::config::index_vec(n), &before, Ghost(key_before(mv)));
    proof {
        crate::order::lemma_sort_by_permutes(crate::config::index_range(mv.len()), key_before(mv));
        assert forall|x: int| 0 <= x < idx@.len() implies idx@[x] < n by {
            crate::order::lemma_sort_by_contains(
                crate::config::index_range(mv.len()),
                key_before(mv),
                idx@[x],
            );
            assert(idx@.contains(idx@[x]));
        }
    }
    let mut sorted: Vec<(String, ArgValue)> = Vec::new();
    let mut x: usize = 0;
    while x < idx.len()
        invariant
            x <= idx@.len(),
            n == m@.len(),
            mv == entry_views(m@),
            forall|y: int| 0 <= y < idx@.len() ==> idx@[y] < n,
            entry_views(sorted@) == idx@.take(x as int).map_values(|i: usize| mv[i as int]),
        decreases idx.len() - x,
    {
        let e = &m[idx[x]];
        let ghost old_sorted = entry_views(sorted@);
        assert(mv[idx@[x as int] as int] == (m@[idx@[x as int] as int].0@, m@[idx@[x as int] as int].1.view_arg()));
        sorted.push((e.0.clone(), e.1.copy()));
        assert(entry_views(sorted@) =~= old_sorted.push(mv[idx@[x as int] as int]));
        assert(idx@.take(x + 1) =~= idx@.take(x as int).push(idx@[x as int]));
        x = x + 1;
        assert(entry_views(sorted@) =~= idx@.take(x as int).map_values(|i: usize| mv[i as int]));
    }
    assert(idx@.take(idx@.len() as int) =~= idx@);
    match json_object_text(&sorted) {
        Some(text) => text,
        None => to_owned_str("{}"),
    }
}

// ---------------------------------------------------------------------------
// Request body

/// The JSON object text that `tool_arguments_json_string` gives for some arguments.
pub open spec fn arguments_json(arguments: Seq<char>) -> Seq<char> {
    let t = trim_seq(arguments);
    if t.len() > 0 && t[0] == '{' && serde_json_parses(t) {
        t
    } else {
        match serde_json_object_text(sorted_args(lines_seq(arguments))) {
            Some(text) => text,
            None => "{}"@,
        }
    }
}

/// The JSON of one part of a user message with images: text and images, nothing else.
pub open spec fn part_json(b: BlockView) -> Option<Seq<char>> {
    match b {
        BlockView::Text(t) => Some("{\"type\":\"text\",\"text\":\""@ + json_escape_spec(t) + "\"}"@),
        BlockView::Image(_, _, _, url) => Some(
            "{\"type\":\"image_url\",\"image_url\":{\"url\":\""@ + json_escape_spec(url)
                + "\",\"detail\":\"auto\"}}"@,
        ),
        _ => None,
    }
}

pub open spec fn parts_json(s: Seq<BlockView>) -> Seq<Seq<char>>
    decreases s.len(),
{
    if s.len() == 0 {
        Seq::empty()
    } else {
        match part_json(s.last()) {
            Some(p) => parts_json(s.drop_last()).push(p),
            None => parts_json(s.drop_last()),
        }
    }
}

/// A user message: plain text content, or a list of parts when it carries an image.
pub open spec fn user_json(blocks: Seq<BlockView>) -> Seq<char> {
    if has_image(blocks) {
        "{\"role\":\"user\",\"content\":["@ + join_seq(parts_json(blocks), ","@) + "]}"@
    } else {
        "{\"role\":\"user\",\"content\":\""@ + json_escape_spec(blocks_text(blocks)) + "\"}"@
    }
}

/// The tool calls of an assistant message, as the chat API lists them.
pub open spec fn calls_json(s: Seq<BlockView>) -> Seq<Seq<char>>
    decreases s.len(),
{
    if s.len() == 0 {
        Seq::empty()
    } else {
        match s.last() {
            BlockView::ToolCall(id, name, args) => calls_json(s.drop_last()).push(
                "{\"id\":\""@ + json_escape_spec(id)
                    + "\",\"type\":\"function\",\"function\":{\"name\":\""@ + json_escape_spec(name)
                    + "\",\"arguments\":\""@ + json_escape_spec(arguments_json(args)) + "\"}}"@,
            ),
            _ => calls_json(s.drop_last()),
        }
    }
}

pub open spec fn tool_calls_field(s: Seq<BlockView>) -> Seq<char> {
    if calls_json(s).len() == 0 {
        Seq::empty()
    } else {
        ",\"tool_calls\":["@ + join_seq(calls_json(s), ","@) + "]"@
    }
}

/// One message of the request.
pub open spec fn message_json(m: MessageView) -> Seq<char> {
    match m {
        MessageView::User(blocks) => user_json(blocks),
        MessageView::Assistant(blocks, _, _) => "{\"role\":\"assistant\",\"content\":\""@
            + json_escape_spec(blocks_text(blocks)) + "\""@ + tool_calls_field(blocks) + "}"@,
        MessageView::ToolResult(id, blocks, _) => "{\"role\":\"tool\",\"tool_call_id\":\""@
            + json_escape_spec(id) + "\",\"content\":\""@ + json_escape_spec(blocks_text(blocks))
            + "\"}"@,
    }
}

pub open spec fn tool_json(t: ToolSpec) -> Seq<char> {
    "{\"type\":\"function\",\"function\":{\"name\":\""@ + json_escape_spec(t.name@)
        + "\",\"description\":\""@ + json_escape_spec(t.description@) + "\",\"parameters\":"@
        + t.input_schema_json@ + "}}"@
}

/// The tools offered with a request, and the choice left to the model; nothing without tools.
pub open spec fn tools_field(tools: Seq<ToolSpec>) -> Seq<char> {
    if tools.len() == 0 {
        Seq::empty()
    } else {
        ",\"tools\":["@ + join_seq(tools.map_values(|t: ToolSpec| tool_json(t)), ","@)
            + "],\"tool_choice\":\"auto\""@
    }
}

/// The body of a chat completion request.
pub open spec fn request_body(model_id: Seq<char>, context: AiContext) -> Seq<char> {
    let system = match context.system_prompt {
        Some(p) => seq!["{\"role\":\"system\",\"content\":\""@ + json_escape_spec(p@) + "\"}"@],
        None => Seq::empty(),
    };
    let messages = system + mviews(context.messages@).map_values(|m: MessageView| message_json(m));
    "{\"model\":\""@ + json_escape_spec(model_id) + "\",\"messages\":["@ + join_seq(messages, ","@)
        + "]"@ + tools_field(context.tools@) + " }"@
}

fn user_message_json(message: &UserMessage) -> (r: String)
    ensures
        r@ == user_json(bviews(message.content@)),
{
    if !blocks_have_image(&message.content) {
        let mut s = to_owned_str("{\"role\":\"user\",\"content\":\"");
        push_str(&mut s, json_escape(content_blocks_to_text(message.content.as_slice()).as_str()).as_str());
        push_str(&mut s, "\"}");
        return s;
    }
    let blocks = &message.content;
    let mut parts: Vec<String> = Vec::new();
    let mut i: usize = 0;
    while i < blocks.len()
        invariant
            i <= blocks@.len(),
            views(parts@) == parts_json(bviews(blocks@).take(i as int)),
        decreases blocks.len() - i,
    {
        assert(bviews(blocks@).take(i + 1).drop_last() =~= bviews(blocks@).take(i as int));
        let ghost old_parts = views(parts@);
        match &blocks[i] {
            ContentBlock::Text(t) => {
                let mut p = to_owned_str("{\"type\":\"text\",\"text\":\"");
                push_str(&mut p, json_escape(t.text.as_str()).as_str());
                push_str(&mut p, "\"}");
                parts.push(p);
                assert(views(parts@) =~= old_parts.push(p@));
            },
            ContentBlock::Image(img) => {
                let mut p = to_owned_str("{\"type\":\"image_url\",\"image_url\":{\"url\":\"");
                push_str(&mut p, json_escape(img.data_url.as_str()).as_str());
                push_str(&mut p, "\",\"detail\":\"auto\"}}");
                parts.push(p);
                assert(views(parts@) =~= old_parts.push(p@));
            },
            _ => {},
        }
        i = i + 1;
    }
    assert(bviews(blocks@).take(blocks@.len() as int) =~= bviews(blocks@));
    let mut s = to_owned_str("{\"role\":\"user\",\"content\":[");
    push_str(&mut s, join(&parts, ",").as_str());
    push_str(&mut s, "]}");
    s
}

fn assistant_tool_calls_json(message: &AssistantMessage) -> (r: String)
    ensures
        r@ == tool_calls_field(bviews(message.content@)),
{
    let blocks = &message.content;
    let mut calls: Vec<String> = Vec::new();
    let mut i: usize = 0;
    while i < blocks.len()
        invariant
            i <= blocks@.len(),
            views(calls@) == calls_json(bviews(blocks@).take(i as int)),
        decreases blocks.len() - i,
    {
        assert(bviews(blocks@).take(i + 1).drop_last() =~= bviews(blocks@).take(i as int));
        let ghost old_calls = views(calls@);
        match &blocks[i] {
            ContentBlock::ToolCall(c) => {
                let arguments = tool_arguments_json_string(c.arguments.as_str());
                let mut p = to_owned_str("{\"id\":\"");
                push_str(&mut p, json_escape(c.id.as_str()).as_str());
                push_str(&mut p, "\",\"type\":\"function\",\"function\":{\"name\":\"");
                push_str(&mut p, json_escape(c.name.as_str()).as_str());
                push_str(&mut p, "\",\"arguments\":\"");
                push_str(&mut p, json_escape(arguments.as_str()).as_str());
                push_str(&mut p, "\"}}");
                calls.push(p);
                assert(views(calls@) =~= old_calls.push(p@));
            },
            _ => {},
        }
        i = i + 1;
    }
    assert(bviews(blocks@).take(blocks@.len() as int) =~= bviews(blocks@));
    if calls.len() == 0 {
        String::new()
    } else {
        let mut s = to_owned_str(",\"tool_calls\":[");
        push_str(&mut s, join(&calls, ",").as_str());
        push_str(&mut s, "]");
        s
    }
}

fn chat_message_json(message: &AiMessage) -> (r: String)
    ensures
        r@ == message_json(message.mview()),
{
    match message {
        AiMessage::User(m) => user_message_json(m),
        AiMessage::Assistant(m) => {
            let mut s = to_owned_str("{\"role\":\"assistant\",\"content\":\"");
            push_str(&mut s, json_escape(content_blocks_to_text(m.content.as_slice()).as_str()).as_str());
            push_str(&mut s, "\"");
            push_str(&mut s, assistant_tool_calls_json(m).as_str());
            push_str(&mut s, "}");
            s
        },
        AiMessage::ToolResult(m) => {
            let mut s = to_owned_str("{\"role\":\"tool\",\"tool_call_id\":\"");
            push_str(&mut s, json_escape(m.tool_call_id.as_str()).as_str());
            push_str(&mut s, "\",\"content\":\"");
            push_str(&mut s, json_escape(content_blocks_to_text(m.content.as_slice()).as_str()).as_str());
            push_str(&mut s, "\"}");
            s
        },
    }
}

/// The tools field of a request body.
pub fn tools_json(context: &AiContext) -> (r: String)
    ensures
        r@ == tools_field(context.tools@),
{
    let tools = &context.tools;
    if tools.len() == 0 {
        return String::new();
    }
    let mut entries: Vec<String> = Vec::new();
    let mut i: usize = 0;
    while i < tools.len()
        invariant
            i <= tools@.len(),
            views(entries@) == tools@.take(i as int).map_values(|t: ToolSpec| tool_json(t)),
        decreases tools.len() - i,
    {
        let t = &tools[i];
        let mut p = to_owned_str("{\"type\":\"function\",\"function\":{\"name\":\"");
        push_str(&mut p, json_escape(t.name.as_str()).as_str());
        push_str(&mut p, "\",\"description\":\"");
        push_str(&mut p, json_escape(t.description.as_str()).as_str());
        push_str(&mut p, "\",\"parameters\":");
        push_str(&mut p, t.input_schema_json.as_str());
        push_str(&mut p, "}}");
        let ghost old_entries = views(entries@);
        entries.push(p);
        assert(views(entries@) =~= old_entries.push(tool_json(tools@[i as int])));
        assert(tools@.take(i + 1) =~= tools@.take(i as int).push(tools@[i as int]));
        i = i + 1;
        assert(views(entries@) =~= tools@.take(i as int).map_values(|t: ToolSpec| tool_json(t)));
    }
    assert(tools@.take(tools@.len() as int) =~= tools@);
    let mut s = to_owned_str(",\"tools\":[");
    push_str(&mut s, join(&entries, ",").as_str());
    push_str(&mut s, "],\"tool_choice\":\"auto\"");
    s
}

/// The JSON body of a chat completion request for `model_id`: the system prompt, the messages
/// and the tools of the context.
pub fn chat_request_body(model_id: &str, context: &AiContext) -> (r: String)
    ensures
        r@ == request_body(model_id@, *context),
{
    let mut messages: Vec<String> = Vec::new();
    match &context.system_prompt {
        Some(p) => {
            let mut m = to_owned_str("{\"role\":\"system\",\"content\":\"");
            push_str(&mut m, json_escape(p.as_str()).as_str());
            push_str(&mut m, "\"}");
            messages.push(m);
        },
        None => {},
    }
    let ghost head = views(messages@);
    let msgs = &context.messages;
    let mut i: usize = 0;
    while i < msgs.len()
        invariant
            i <= msgs@.len(),
            views(messages@) == head + mviews(msgs@).take(i as int).map_values(
                |m: MessageView| message_json(m),
            ),
        decreases msgs.len() - i,
    {
        let m = chat_message_json(&msgs[i]);
        let ghost old_messages = views(messages@);
        messages.push(m);
        assert(views(messages@) =~= old_messages.push(message_json(mviews(msgs@)[i as int])));
        assert(mviews(msgs@).take(i + 1) =~= mviews(msgs@).take(i as int).push(mviews(msgs@)[i as int]));
        i = i + 1;
        assert(views(messages@) =~= head + mviews(msgs@).take(i as int).map_values(
            |m: MessageView| message_json(m),
        ));
    }
    assert(mviews(msgs@).take(msgs@.len() as int) =~= mviews(msgs@));
    let mut s = to_owned_str("{\"model\":\"");
    push_str(&mut s, json_escape(model_id).as_str());
    push_str(&mut s, "\",\"messages\":[");
    push_str(&mut s, join(&messages, ",").as_str());
    push_str(&mut s, "]");
    push_str(&mut s, tools_json(context).as_str());
    push_str(&mut s, " }");
    assert(views(messages@) =~= (match context.system_prompt {
        Some(p) => seq!["{\"role\":\"system\",\"content\":\""@ + json_escape_spec(p@) + "\"}"@],
        None => Seq::<Seq<char>>::empty(),
    }) + mviews(context.messages@).map_values(|m: MessageView| message_json(m)));
    s
}

// ---------------------------------------------------------------------------
// Responses

/// The marker that `curl` is asked to write before the HTTP status.
pub open spec fn status_marker() -> Seq<char> {
    "\n__PICOCODE_HTTP_STATUS__:"@
}

/// The body before the last status marker and the status after it, when that is a `u16`.
pub open spec fn curl_parts(stdout: Seq<char>) -> Option<(Seq<char>, u16)> {
    match crate::text::rfind_seq(stdout, status_marker()) {
        Some(i) => {
            let status = trim_seq(stdout.subrange(i + 26, stdout.len() as int));
            if exists|n: int| parses_as_u128(status, n) && n <= u16::MAX {
                Some(
                    (
                        stdout.subrange(0, i),
                        (choose|n: int| parses_as_u128(status, n) && n <= u16::MAX) as u16,
                    ),
                )
            } else {
                None
            }
        },
        None => None,
    }
}

/// Splits what `curl` wrote into the response body and the HTTP status.
pub fn split_curl_status(stdout: &str) -> (r: Option<(String, u16)>)
    ensures
        match curl_parts(stdout@) {
            Some((body, status)) => r matches Some(p) && p.0@ == body && p.1 == status,
            None => r is None,
        },
{
    let v = chars_of(stdout);
    let marker = chars_of("\n__PICOCODE_HTTP_STATUS__:");
    proof {
        reveal_strlit("\n__PICOCODE_HTTP_STATUS__:");
        assert(marker@.len() == 26);
    }
    let n = v.len();
    match crate::text::rfind_chars(&v, &marker) {
        Some(i) => {
            let body = subrange_string(&v, 0, i);
            let rest = subrange_string(&v, i + 26, n);
            let status = trim(rest.as_str());
            match parse_u128(status.as_str()) {
                Some(code) => {
                    if code <= 65535 {
                        proof {
                            assert(parses_as_u128(status@, code as int));
                            let m = choose|m: int| parses_as_u128(status@, m) && m <= u16::MAX;
                            lemma_parse_unique(status@, m, code as int);
                        }
                        Some((body, code as u16))
                    } else {
                        proof {
                            if exists|m: int| parses_as_u128(status@, m) && m <= u16::MAX {
                                let m = choose|m: int| parses_as_u128(status@, m) && m <= u16::MAX;
                                lemma_parse_unique(status@, m, code as int);
                            }
                        }
                        None
                    }
                },
                None => None,
            }
        },
        None => None,
    }
}

/// At most 1200 characters of a trimmed response, `...` after a longer one, a placeholder for
/// an empty one.
pub open spec fn preview_text(response: Seq<char>) -> Seq<char> {
    let t = trim_seq(response);
    if t.len() > 1200 {
        t.take(1200) + "..."@
    } else if t.len() == 0 {
        "<empty response body>"@
    } else {
        t
    }
}

pub fn response_preview(response: &str) -> (r: String)
    ensures
        r@ == preview_text(response@),
{
    let t = trim(response);
    let v = chars_of(t.as_str());
    if v.len() > 1200 {
        let head = subrange_string(&v, 0, 1200);
        cat(head.as_str(), "...")
    } else if v.len() == 0 {
        to_owned_str("<empty response body>")
    } else {
        t
    }
}

// ---------------------------------------------------------------------------
// Responses

/// The fields of the JSON object that `serde_json` reads from the text, each value written
/// back as JSON text (`Ok(None)` when the text is JSON but not an object; the error's message
/// when it is not JSON).
pub uninterp spec fn serde_json_object_raw(text: Seq<char>) -> Result<Option<Seq<(Seq<char>, Seq<char>)>>, Seq<char>>;

/// The text that `serde_json` writes back for the JSON value it reads from the text (`None`
/// when the text is not JSON).
pub uninterp spec fn serde_json_compact(text: Seq<char>) -> Option<Seq<char>>;

/// `serde_json::from_str::<serde_json::Value>` taken apart when it gives an object: each key
/// with its value written back by `to_string`; `Ok(None)` for another value; the error's
/// message when the text is not JSON. Reading a value's text again gives the value again,
/// which `serde_json` promises of the text it writes; the contract does not state that.
#[verifier::external_body]
pub(crate) fn json_object_raw(text: &str) -> (r: Result<Option<Vec<(String, String)>>, String>)
    ensures
        match serde_json_object_raw(text@) {
            Ok(Some(f)) => r matches Ok(Some(v)) && pair_views(v@) == f,
            Ok(None) => r matches Ok(None),
            Err(e) => r matches Err(m) && m@ == e,
        },
{
    match serde_json::from_str::<serde_json::Value>(text) {
        Ok(serde_json::Value::Object(map)) => Ok(Some(map.iter().map(|(k, v)| (k.clone(), v.to_string())).collect())),
        Ok(_) => Ok(None),
        Err(error) => Err(error.to_string()),
    }
}

/// `serde_json::from_str::<serde_json::Value>` followed by `to_string` on the value read.
#[verifier::external_body]
fn json_compact(text: &str) -> (r: Option<String>)
    ensures
        match serde_json_compact(text@) {
            Some(t) => r matches Some(s) && s@ == t,
            None => r is None,
        },
{
    serde_json::from_str::<serde_json::Value>(text).ok().map(|value| value.to_string())
}

/// The fields of the object in the text, each value as JSON text; none for another text.
pub open spec fn raw_fields(text: Seq<char>) -> Seq<(Seq<char>, Seq<char>)> {
    match serde_json_object_raw(text) {
        Ok(Some(f)) => f,
        _ => Seq::empty(),
    }
}

/// The string, number and boolean fields of the object in the text; none for another text.
pub open spec fn scalar_fields(text: Seq<char>) -> Seq<(Seq<char>, JsonFieldView)> {
    match serde_json_object_fields(text) {
        Some(f) => f,
        None => Seq::empty(),
    }
}

/// The items of the array in the text; none for another text.
pub open spec fn array_items(text: Seq<char>) -> Seq<Seq<char>> {
    match serde_json_array_items(text) {
        Ok(Some(v)) => v,
        _ => Seq::empty(),
    }
}

pub(crate) fn raw_get(v: &Vec<(String, String)>, key: &str) -> (r: Option<String>)
    ensures
        match first_line_value(pair_views(v@), key@) {
            Some(t) => r matches Some(x) && x@ == t,
            None => r is None,
        },
{
    let mut i: usize = 0;
    assert(pair_views(v@).skip(0) =~= pair_views(v@));
    while i < v.len()
        invariant
            i <= v.len(),
            first_line_value(pair_views(v@), key@) == first_line_value(pair_views(v@).skip(i as int), key@),
        decreases v.len() - i,
    {
        assert(pair_views(v@).skip(i as int)[0] == (v@[i as int].0@, v@[i as int].1@));
        assert(pair_views(v@).skip(i as int).drop_first() =~= pair_views(v@).skip(i + 1));
        if str_eq(v[i].0.as_str(), key) {
            return Some(v[i].1.clone());
        }
        i = i + 1;
    }
    None
}

fn raw_fields_exec(text: &str) -> (r: Vec<(String, String)>)
    ensures
        pair_views(r@) == raw_fields(text@),
{
    match json_object_raw(text) {
        Ok(Some(f)) => f,
        _ => {
            let v: Vec<(String, String)> = Vec::new();
            assert(pair_views(v@) =~= Seq::<(Seq<char>, Seq<char>)>::empty());
            v
        },
    }
}

fn scalar_fields_exec(text: &str) -> (r: Vec<(String, JsonField)>)
    ensures
        field_views(r@) == scalar_fields(text@),
{
    match json_object_fields(text) {
        Some(f) => f,
        None => {
            let v: Vec<(String, JsonField)> = Vec::new();
            assert(field_views(v@) =~= Seq::<(Seq<char>, JsonFieldView)>::empty());
            v
        },
    }
}

fn array_items_exec(text: &str) -> (r: Vec<String>)
    ensures
        views(r@) == array_items(text@),
{
    match json_array_items(text) {
        Ok(Some(v)) => v,
        _ => {
            let v: Vec<String> = Vec::new();
            assert(views(v@) =~= Seq::<Seq<char>>::empty());
            v
        },
    }
}

/// What a provider's error says: the `error` string itself, or the message of the `error`
/// object with its type and code; a preview of the whole body when it has no `error`.
pub open spec fn provider_error_spec(text: Seq<char>) -> Seq<char> {
    match first_line_value(raw_fields(text), "error"@) {
        None => preview_text(
            match serde_json_compact(text) {
                Some(t) => t,
                None => Seq::empty(),
            },
        ),
        Some(e) => match json_get(scalar_fields(text), "error"@) {
            Some(JsonFieldView::Text(s)) => s,
            _ => {
                let ef = scalar_fields(e);
                let message = match text_field(ef, "message"@) {
                    Some(m) => m,
                    None => "unknown provider error"@,
                };
                let code = match json_get(ef, "code"@) {
                    Some(JsonFieldView::Text(t)) => Some(t),
                    Some(_) => first_line_value(raw_fields(e), "code"@),
                    None => None,
                };
                match (text_field(ef, "type"@), code) {
                    (Some(t), Some(c)) => message + " (type="@ + t + ", code="@ + c + ")"@,
                    (Some(t), None) => message + " (type="@ + t + ")"@,
                    (None, Some(c)) => message + " (code="@ + c + ")"@,
                    (None, None) => message,
                }
            },
        },
    }
}

/// The error of a provider's JSON response, as `provider_error_spec` says.
pub fn provider_error_from_value(text: &str) -> (r: String)
    ensures
        r@ == provider_error_spec(text@),
{
    let fields = raw_fields_exec(text);
    match raw_get(&fields, "error") {
        None => {
            let c = match json_compact(text) {
                Some(t) => t,
                None => String::new(),
            };
            response_preview(c.as_str())
        },
        Some(e) => {
            let top = scalar_fields_exec(text);
            match json_get_exec(&top, "error") {
                Some(JsonField::Text(s)) => s,
                _ => {
                    let ef = scalar_fields_exec(e.as_str());
                    let message = match text_field_exec(&ef, "message") {
                        Some(m) => m,
                        None => to_owned_str("unknown provider error"),
                    };
                    let code = match json_get_exec(&ef, "code") {
                        Some(JsonField::Text(t)) => Some(t),
                        Some(_) => raw_get(&raw_fields_exec(e.as_str()), "code"),
                        None => None,
                    };
                    let kind = text_field_exec(&ef, "type");
                    match (kind, code) {
                        (Some(t), Some(c)) => {
                            let mut m = cat3(message.as_str(), " (type=", t.as_str());
                            push_str(&mut m, ", code=");
                            push_str(&mut m, c.as_str());
                            push_str(&mut m, ")");
                            m
                        },
                        (Some(t), None) => {
                            let mut m = cat3(message.as_str(), " (type=", t.as_str());
                            push_str(&mut m, ")");
                            m
                        },
                        (None, Some(c)) => {
                            let mut m = cat3(message.as_str(), " (code=", c.as_str());
                            push_str(&mut m, ")");
                            m
                        },
                        (None, None) => message,
                    }
                },
            }
        },
    }
}

/// The error message of a failed request's body: the provider's error when the body is JSON,
/// else a preview of the body.
pub fn provider_error_message(body: &str) -> (r: String)
    ensures
        r@ == if serde_json_parses(body@) { provider_error_spec(body@) } else { preview_text(body@) },
{
    if json_parses(body) {
        provider_error_from_value(body)
    } else {
        response_preview(body)
    }
}

/// One item of `tool_calls`: its id (or `call-<index>`), and the name and arguments of its
/// function, both strings; none when they are missing.
pub open spec fn tool_call_item(item: Seq<char>, index: nat) -> Option<(Seq<char>, Seq<char>, Seq<char>)> {
    match first_line_value(raw_fields(item), "function"@) {
        None => None,
        Some(f) => match (text_field(scalar_fields(f), "name"@), text_field(scalar_fields(f), "arguments"@)) {
            (Some(n), Some(a)) => Some(
                (
                    match text_field(scalar_fields(item), "id"@) {
                        Some(i) => i,
                        None => "call-"@ + crate::text::dec(index),
                    },
                    n,
                    a,
                ),
            ),
            _ => None,
        },
    }
}

/// The tool calls among the first `k` items.
pub open spec fn call_blocks(items: Seq<Seq<char>>, k: nat) -> Seq<BlockView>
    decreases k,
{
    if k == 0 || k > items.len() {
        Seq::empty()
    } else {
        let prev = call_blocks(items, (k - 1) as nat);
        match tool_call_item(items[k - 1], (k - 1) as nat) {
            Some((i, n, a)) => prev.push(BlockView::ToolCall(i, n, a)),
            None => prev,
        }
    }
}

/// The tool calls of a response's message.
pub open spec fn message_calls(message: Seq<char>) -> Seq<BlockView> {
    let items = match first_line_value(raw_fields(message), "tool_calls"@) {
        Some(t) => array_items(t),
        None => Seq::empty(),
    };
    call_blocks(items, items.len())
}

/// `choices[0].message` of a response object's fields.
pub open spec fn first_choice_message(fields: Seq<(Seq<char>, Seq<char>)>) -> Option<Seq<char>> {
    match first_line_value(fields, "choices"@) {
        Some(c) => {
            let items = array_items(c);
            if items.len() > 0 {
                first_line_value(raw_fields(items[0]), "message"@)
            } else {
                None
            }
        },
        None => None,
    }
}

/// What a chat completion response gives: an error for a body that is not JSON, that carries
/// an `error`, or that has no `choices[0].message`; else the message's blocks, and whether it
/// calls tools. Its text content (none when it is not a string) is read as provider content;
/// with tool calls it comes first, unless blank, and the calls follow.
pub open spec fn chat_response_spec(response: Seq<char>) -> Result<(Seq<BlockView>, bool), Seq<char>> {
    match serde_json_object_raw(response) {
        Err(e) => Err("provider returned invalid JSON ("@ + e + "): "@ + preview_text(response)),
        Ok(fo) => {
            let f = match fo {
                Some(f) => f,
                None => Seq::empty(),
            };
            if first_line_value(f, "error"@) is Some {
                Err(provider_error_spec(response))
            } else {
                match first_choice_message(f) {
                    None => Err("provider response did not include choices[0].message: "@ + preview_text(response)),
                    Some(m) => {
                        let content = match text_field(scalar_fields(m), "content"@) {
                            Some(c) => c,
                            None => Seq::empty(),
                        };
                        let calls = message_calls(m);
                        if calls.len() == 0 {
                            Ok((provider_blocks(content), false))
                        } else {
                            Ok(
                                (
                                    (if trim_seq(content).len() > 0 {
                                        provider_blocks(content)
                                    } else {
                                        Seq::empty()
                                    }) + calls,
                                    true,
                                ),
                            )
                        }
                    },
                }
            }
        },
    }
}

fn parse_tool_calls(message: &str) -> (r: Vec<ContentBlock>)
    ensures
        bviews(r@) == message_calls(message@),
{
    let fields = raw_fields_exec(message);
    let items = match raw_get(&fields, "tool_calls") {
        Some(t) => array_items_exec(t.as_str()),
        None => {
            let v: Vec<String> = Vec::new();
            assert(views(v@) =~= Seq::<Seq<char>>::empty());
            v
        },
    };
    let ghost iv = views(items@);
    let mut out: Vec<ContentBlock> = Vec::new();
    let mut k: usize = 0;
    assert(bviews(out@) =~= call_blocks(iv, 0));
    while k < items.len()
        invariant
            k <= items.len(),
            iv == views(items@),
            bviews(out@) == call_blocks(iv, k as nat),
        decreases items.len() - k,
    {
        let item = items[k].as_str();
        assert(item@ == iv[k as int]);
        let ghost prev = bviews(out@);
        let function = raw_get(&raw_fields_exec(item), "function");
        match function {
            Some(f) => {
                let ff = scalar_fields_exec(f.as_str());
                match (text_field_exec(&ff, "name"), text_field_exec(&ff, "arguments")) {
                    (Some(n), Some(a)) => {
                        let id = match text_field_exec(&scalar_fields_exec(item), "id") {
                            Some(i) => i,
                            None => cat("call-", crate::text::usize_to_string(k).as_str()),
                        };
                        let b = ContentBlock::tool_call(id.as_str(), n.as_str(), a.as_str());
                        out.push(b);
                        assert(bviews(out@) =~= prev.push(b.bview()));
                    },
                    _ => {},
                }
            },
            None => {},
        }
        k = k + 1;
    }
    out
}

/// Reads a chat completion response, as `chat_response_spec` says.
pub fn parse_chat_response(response: &str) -> (r: Result<AssistantOutput, String>)
    ensures
        match chat_response_spec(response@) {
            Err(m) => r matches Err(x) && x@ == m,
            Ok((blocks, tool_use)) => r matches Ok(o) && bviews(o.message.content@) == blocks
                && o.message.stop_reason == Some(if tool_use { StopReason::ToolUse } else { StopReason::Stop })
                && o.message.usage is None && o.raw_response_id is None,
        },
{
    let fields = match json_object_raw(response) {
        Err(e) => {
            let mut m = cat3("provider returned invalid JSON (", e.as_str(), "): ");
            push_str(&mut m, response_preview(response).as_str());
            return Err(m);
        },
        Ok(Some(f)) => f,
        Ok(None) => {
            let v: Vec<(String, String)> = Vec::new();
            assert(pair_views(v@) =~= Seq::<(Seq<char>, Seq<char>)>::empty());
            v
        },
    };
    if raw_get(&fields, "error").is_some() {
        return Err(provider_error_from_value(response));
    }
    let message = match raw_get(&fields, "choices") {
        Some(c) => {
            let items = array_items_exec(c.as_str());
            if items.len() > 0 {
                raw_get(&raw_fields_exec(items[0].as_str()), "message")
            } else {
                None
            }
        },
        None => None,
    };
    let message = match message {
        Some(m) => m,
        None => {
            let m = cat("provider response did not include choices[0].message: ", response_preview(response).as_str());
            return Err(m);
        },
    };
    let content = match text_field_exec(&scalar_fields_exec(message.as_str()), "content") {
        Some(c) => c,
        None => String::new(),
    };
    let mut calls = parse_tool_calls(message.as_str());
    if calls.len() == 0 {
        return Ok(AssistantOutput::from_provider_content(content.as_str()));
    }
    let mut blocks: Vec<ContentBlock> = if !crate::text::is_blank(content.as_str()) {
        AssistantOutput::from_provider_content(content.as_str()).message.content
    } else {
        Vec::new()
    };
    let ghost head = bviews(blocks@);
    let ghost cv = bviews(calls@);
    blocks.append(&mut calls);
    assert(bviews(blocks@) =~= head + cv);
    Ok(AssistantOutput {
        message: AssistantMessage { content: blocks, stop_reason: Some(StopReason::ToolUse), usage: None },
        raw_response_id: None,
    })
}

// ---------------------------------------------------------------------------
// Clients

/// The settings of a client for the selected model and its secret; only the chat completions
/// API is served.
pub fn client_config_for(model: &crate::config::ModelOption, api_key: String) -> (r: Result<OpenAiConfig, String>)
    ensures
        model.api@ == "openai-chat-completions"@ ==> (r matches Ok(c) && c.base_url == model.base_url
            && c.api_key == api_key && c.model_id == model.model && c.capabilities == (ModelCapabilities {
            tools: model.tools,
            images: model.images,
            reasoning: model.reasoning,
        })),
        model.api@ != "openai-chat-completions"@ ==> (r matches Err(m) && m@ == "Unsupported AI API '"@ + model.api@ + "'"@),
{
    if str_eq(model.api.as_str(), "openai-chat-completions") {
        Ok(OpenAiConfig {
            base_url: model.base_url.clone(),
            api_key,
            model_id: model.model.clone(),
            capabilities: ModelCapabilities { tools: model.tools, images: model.images, reasoning: model.reasoning },
        })
    } else {
        Err(cat3("Unsupported AI API '", model.api.as_str(), "'"))
    }
}

/// The refusal of a request whose context carries an image for a model that takes none.
pub fn image_input_error(context: &AiContext, model: &Model) -> (r: Option<String>)
    ensures
        crate::ai::context_has_images(mviews(context.messages@)) && !model.capabilities.images ==> (r matches Some(m)
            && m@ == "selected model '"@ + model.id@ + "' does not support image input. Switch to a vision-capable model."@),
        !(crate::ai::context_has_images(mviews(context.messages@)) && !model.capabilities.images) ==> r is None,
{
    if crate::ai::context_uses_images(context) && !model.capabilities.images {
        Some(cat3("selected model '", model.id.as_str(), "' does not support image input. Switch to a vision-capable model."))
    } else {
        None
    }
}

} // verus!


