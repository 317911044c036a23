//! The OpenAI-compatible chat format: the conversation as the API expects
//! it, and the API's reply read back into content blocks. Building and
//! sending the HTTP request, and reading the reply's JSON into the plain
//! values below, is the application's part.

use vstd::prelude::*;
use crate::json_parser::{json_value_of, robust_value, JsonParser};
use crate::text::{owned, push_all, push_str, string_from};
use crate::types::{ContentBlock, Message, Role, StopReason, TokenUsage};

verus! {

/// The text that `serde_json::to_string` writes for the document `v`.
pub uninterp spec fn json_text_of(v: serde_json::Value) -> Seq<char>;

/// Serialises `v` with `serde_json::to_string`, which does not fail on a
/// `Value` (its keys are strings); the text is named, not described.
#[verifier::external_body]
pub(crate) fn json_text(v: &serde_json::Value) -> (r: String)
    ensures
        r@ == json_text_of(*v),
{
    serde_json::to_string(v).unwrap_or_else(|_| "{}".to_string())
}

/// An empty JSON object (`serde_json::Value::Object` of an empty map): the
/// document that `serde_json` reads from `{}`.
#[verifier::external_body]
pub(crate) fn empty_object() -> (r: serde_json::Value)
    ensures
        json_value_of("{}"@) == Some(r),
{
    serde_json::Value::Object(serde_json::Map::new())
}

/// The input of a tool call whose arguments are the text `args`: the
/// document read leniently from it, or an empty object.
pub open spec fn tool_input(args: Seq<char>) -> serde_json::Value {
    match robust_value(args) {
        Some(v) => v,
        None => json_value_of("{}"@)->0,
    }
}

/// The API's name of a role.
pub open spec fn role_text(r: Role) -> Seq<char> {
    match r {
        Role::User => "user"@,
        Role::Assistant => "assistant"@,
        Role::System => "system"@,
    }
}

/// The API's name of a role.
pub fn role_name(r: Role) -> (s: &'static str)
    ensures
        s@ == role_text(r),
{
    match r {
        Role::User => "user",
        Role::Assistant => "assistant",
        Role::System => "system",
    }
}

/// A tool call as the API expects it; `arguments` is the input as JSON
/// text.
pub struct WireToolCall {
    pub id: String,
    pub name: String,
    pub arguments: String,
}

/// A message as the API expects it.
pub enum WireMessage {
    /// The answer of a tool (role "tool").
    Tool { tool_call_id: String, content: String },
    /// Tool calls, with the text that came with them if any.
    Calls { role: Role, content: Option<String>, tool_calls: Vec<WireToolCall> },
    /// Plain text.
    Text { role: Role, content: String },
}

/// A `WireMessage` as mathematical values; a tool call is its identifier,
/// name and arguments.
pub enum WireView {
    Tool { tool_call_id: Seq<char>, content: Seq<char> },
    Calls { role: Role, content: Option<Seq<char>>, calls: Seq<(Seq<char>, Seq<char>, Seq<char>)> },
    Text { role: Role, content: Seq<char> },
}

impl View for WireMessage {
    type V = WireView;

    open spec fn view(&self) -> WireView {
        match self {
            WireMessage::Tool { tool_call_id, content } => WireView::Tool {
                tool_call_id: tool_call_id@,
                content: content@,
            },
            WireMessage::Calls { role, content, tool_calls } => WireView::Calls {
                role: *role,
                content: match content {
                    Some(c) => Some(c@),
                    None => None,
                },
                calls: tool_calls@.map_values(|c: WireToolCall| (c.id@, c.name@, c.arguments@)),
            },
            WireMessage::Text { role, content } => WireView::Text { role: *role, content: content@ },
        }
    }
}

/// The texts of the text blocks, in order.
pub open spec fn block_texts(bs: Seq<ContentBlock>) -> Seq<Seq<char>>
    decreases bs.len(),
{
    if bs.len() == 0 {
        seq![]
    } else {
        block_texts(bs.drop_last()) + match bs.last() {
            ContentBlock::Text { text } => seq![text@],
            _ => Seq::<Seq<char>>::empty(),
        }
    }
}

/// The identifiers, names and serialised inputs of the tool calls, in
/// order.
pub open spec fn block_calls(bs: Seq<ContentBlock>) -> Seq<(Seq<char>, Seq<char>, Seq<char>)>
    decreases bs.len(),
{
    if bs.len() == 0 {
        seq![]
    } else {
        block_calls(bs.drop_last()) + match bs.last() {
            ContentBlock::ToolUse { id, name, input } => seq![(id@, name@, json_text_of(input))],
            _ => Seq::<(Seq<char>, Seq<char>, Seq<char>)>::empty(),
        }
    }
}

/// The tool answers, as "tool" messages, in order.
pub open spec fn block_results(bs: Seq<ContentBlock>) -> Seq<WireView>
    decreases bs.len(),
{
    if bs.len() == 0 {
        seq![]
    } else {
        block_results(bs.drop_last()) + match bs.last() {
            ContentBlock::ToolResult { tool_use_id, content, .. } => seq![
                WireView::Tool { tool_call_id: tool_use_id@, content: content@ },
            ],
            _ => Seq::<WireView>::empty(),
        }
    }
}

/// The texts joined by `sep`.
pub open spec fn joined(ss: Seq<Seq<char>>, sep: Seq<char>) -> Seq<char>
    decreases ss.len(),
{
    if ss.len() == 0 {
        seq![]
    } else if ss.len() == 1 {
        ss[0]
    } else {
        joined(ss.drop_last(), sep) + sep + ss.last()
    }
}

/// The API messages for the message `m` at position `idx`: its tool
/// answers if it has any; else one message with its tool calls and text;
/// else one text message, where the first message, when it is the system
/// prompt, gets the reasoning level appended; nothing for an empty message.
pub open spec fn wire_of(idx: int, m: Message, level: Seq<char>) -> Seq<WireView> {
    let texts = block_texts(m.content@);
    let calls = block_calls(m.content@);
    let results = block_results(m.content@);
    if results.len() > 0 {
        results
    } else if calls.len() > 0 {
        seq![
            WireView::Calls {
                role: m.role,
                content: if texts.len() > 0 {
                    Some(joined(texts, "\n"@))
                } else {
                    None
                },
                calls,
            },
        ]
    } else if texts.len() > 0 {
        let text = joined(texts, "\n"@);
        seq![
            WireView::Text {
                role: m.role,
                content: if idx == 0 && m.role == Role::System {
                    text + "\n\nReasoning: "@ + level
                } else {
                    text
                },
            },
        ]
    } else {
        seq![]
    }
}

/// The API messages for the first `n` messages.
pub open spec fn wire_messages(ms: Seq<Message>, n: int, level: Seq<char>) -> Seq<WireView>
    decreases n,
{
    if n <= 0 || n > ms.len() {
        seq![]
    } else {
        wire_messages(ms, n - 1, level) + wire_of(n - 1, ms[n - 1], level)
    }
}

/// The views of a list of API messages.
pub open spec fn wire_views(v: Seq<WireMessage>) -> Seq<WireView> {
    v.map_values(|w: WireMessage| w@)
}

fn copy(s: &String) -> (r: String)
    ensures
        r@ == s@,
{
    owned(s.as_str())
}

fn join_texts(ts: &Vec<String>) -> (r: String)
    ensures
        r@ == joined(ts@.map_values(|t: String| t@), "\n"@),
{
    let ghost v = ts@.map_values(|t: String| t@);
    let mut out: Vec<char> = Vec::new();
    let mut i: usize = 0;
    while i < ts.len()
        invariant
            i <= ts@.len(),
            v == ts@.map_values(|t: String| t@),
            out@ == joined(v.take(i as int), "\n"@),
        decreases ts@.len() - i,
    {
        if i > 0 {
            push_str(&mut out, "\n");
        }
        push_str(&mut out, ts[i].as_str());
        assert(v.take(i + 1).drop_last() =~= v.take(i as int));
        assert(v.take(i + 1).last() == ts@[i as int]@);
        i = i + 1;
    }
    assert(v.take(v.len() as int) =~= v);
    string_from(out.as_slice())
}

fn wire_of_message(idx: usize, m: &Message, level: &str) -> (r: Vec<WireMessage>)
    ensures
        wire_views(r@) == wire_of(idx as int, *m, level@),
{
    let mut texts: Vec<String> = Vec::new();
    let mut calls: Vec<WireToolCall> = Vec::new();
    let mut results: Vec<WireMessage> = Vec::new();
    let mut i: usize = 0;
    assert(m.content@.take(0) =~= Seq::<ContentBlock>::empty());
    while i < m.content.len()
        invariant
            i <= m.content@.len(),
            texts@.map_values(|t: String| t@) == block_texts(m.content@.take(i as int)),
            calls@.map_values(|c: WireToolCall| (c.id@, c.name@, c.arguments@)) == block_calls(
                m.content@.take(i as int),
            ),
            wire_views(results@) == block_results(m.content@.take(i as int)),
        decreases m.content@.len() - i,
    {
        let ghost pre = m.content@.take(i + 1);
        assert(pre.drop_last() =~= m.content@.take(i as int));
        assert(pre.last() == m.content@[i as int]);
        match &m.content[i] {
            ContentBlock::Text { text } => {
                texts.push(copy(text));
            },
            ContentBlock::ToolUse { id, name, input } => {
                calls.push(WireToolCall { id: copy(id), name: copy(name), arguments: json_text(input) });
            },
            ContentBlock::ToolResult { tool_use_id, content, .. } => {
                results.push(WireMessage::Tool { tool_call_id: copy(tool_use_id), content: copy(content) });
            },
        }
        assert(texts@.map_values(|t: String| t@) =~= block_texts(pre));
        assert(calls@.map_values(|c: WireToolCall| (c.id@, c.name@, c.arguments@)) =~= block_calls(pre));
        assert(wire_views(results@) =~= block_results(pre));
        i = i + 1;
    }
    assert(m.content@.take(m.content@.len() as int) =~= m.content@);
    if results.len() > 0 {
        return results;
    }
    let mut out: Vec<WireMessage> = Vec::new();
    if calls.len() > 0 {
        let content = if texts.len() > 0 {
            Some(join_texts(&texts))
        } else {
            None
        };
        out.push(WireMessage::Calls { role: m.role, content, tool_calls: calls });
        assert(wire_views(out@) =~= wire_of(idx as int, *m, level@));
    } else if texts.len() > 0 {
        let joined_text = join_texts(&texts);
        let content = if idx == 0 && m.role == Role::System {
            let mut c: Vec<char> = Vec::new();
            push_str(&mut c, joined_text.as_str());
            push_str(&mut c, "\n\nReasoning: ");
            push_str(&mut c, level);
            string_from(c.as_slice())
        } else {
            joined_text
        };
        out.push(WireMessage::Text { role: m.role, content });
        assert(wire_views(out@) =~= wire_of(idx as int, *m, level@));
    } else {
        assert(wire_views(out@) =~= wire_of(idx as int, *m, level@));
    }
    out
}

/// The conversation `messages` in the API's format, the reasoning level
/// added to a leading system prompt.
pub fn convert_messages(messages: &Vec<Message>, reasoning_level: &str) -> (r: Vec<WireMessage>)
    ensures
        wire_views(r@) == wire_messages(messages@, messages@.len() as int, reasoning_level@),
{
    let mut out: Vec<WireMessage> = Vec::new();
    let mut i: usize = 0;
    while i < messages.len()
        invariant
            i <= messages@.len(),
            wire_views(out@) == wire_messages(messages@, i as int, reasoning_level@),
        decreases messages@.len() - i,
    {
        let mut part = wire_of_message(i, &messages[i], reasoning_level);
        let ghost before = out@;
        let ghost p = part@;
        out.append(&mut part);
        assert(out@ == before + p);
        assert(wire_views(out@) =~= wire_views(before) + wire_views(p));
        i = i + 1;
    }
    out
}

/// The `function` of a tool call in a reply.
pub struct FunctionReply {
    pub name: Option<String>,
    pub arguments: Option<String>,
}

/// A tool call in a reply: the string fields that were present.
pub struct ToolCallReply {
    pub id: Option<String>,
    pub function: Option<FunctionReply>,
}

/// A choice of a reply.
pub struct ChoiceReply {
    /// The choice has a `message`.
    pub has_message: bool,
    /// The message's `content`, when it is a string.
    pub content: Option<String>,
    /// The message's `tool_calls`, when it is an array.
    pub tool_calls: Option<Vec<ToolCallReply>>,
    /// The choice's `finish_reason`, when it is a string.
    pub finish_reason: Option<String>,
}

/// What the library reads of a chat completion reply.
pub struct CompletionReply {
    /// The reply's JSON, pretty-printed, for error messages.
    pub pretty: String,
    /// The `choices`, when it is an array.
    pub choices: Option<Vec<ChoiceReply>>,
    /// `usage.prompt_tokens`, when it is a non-negative integer.
    pub prompt_tokens: Option<u64>,
    /// `usage.completion_tokens`, when it is a non-negative integer.
    pub completion_tokens: Option<u64>,
}

/// The reply to a chat request.
pub struct LLMResponse {
    pub content: Vec<ContentBlock>,
    pub stop_reason: StopReason,
    pub usage: TokenUsage,
}

/// The stop reason that a `finish_reason` stands for.
pub open spec fn stop_reason_of(finish: Seq<char>) -> StopReason {
    if finish == "length"@ {
        StopReason::MaxTokens
    } else if finish == "tool_calls"@ {
        StopReason::StopSequence
    } else {
        StopReason::EndTurn
    }
}

/// The stop reason that a `finish_reason` stands for ("stop" and anything
/// unknown end the turn).
pub fn stop_reason_for(finish: &str) -> (r: StopReason)
    ensures
        r == stop_reason_of(finish@),
{
    if crate::text::str_eq(finish, "length") {
        StopReason::MaxTokens
    } else if crate::text::str_eq(finish, "tool_calls") {
        StopReason::StopSequence
    } else {
        StopReason::EndTurn
    }
}

/// A content block as mathematical values; a tool call is its identifier,
/// name and input.
pub enum BlockView {
    Text(Seq<char>),
    ToolUse(Seq<char>, Seq<char>, serde_json::Value),
    ToolResult(Seq<char>, Seq<char>, bool),
}

/// The view of a content block.
pub open spec fn block_view(b: ContentBlock) -> BlockView {
    match b {
        ContentBlock::Text { text } => BlockView::Text(text@),
        ContentBlock::ToolUse { id, name, input } => BlockView::ToolUse(id@, name@, input),
        ContentBlock::ToolResult { tool_use_id, content, is_error } => BlockView::ToolResult(
            tool_use_id@,
            content@,
            is_error,
        ),
    }
}

/// The first problem of the tool calls `tcs`, if any.
pub open spec fn tool_call_problem(tcs: Seq<ToolCallReply>) -> Option<Seq<char>>
    decreases tcs.len(),
{
    if tcs.len() == 0 {
        None
    } else {
        match tool_call_problem(tcs.drop_last()) {
            Some(p) => Some(p),
            None => {
                let tc = tcs.last();
                if tc.id is None {
                    Some("Tool call missing id"@)
                } else if tc.function is None {
                    Some("Tool call missing function"@)
                } else if tc.function->0.name is None {
                    Some("Tool call function missing name"@)
                } else if tc.function->0.arguments is None {
                    Some("Tool call function missing arguments"@)
                } else {
                    None
                }
            },
        }
    }
}

/// The tool call blocks of well-formed tool calls `tcs`.
pub open spec fn tool_call_blocks(tcs: Seq<ToolCallReply>) -> Seq<BlockView> {
    tcs.map_values(|tc: ToolCallReply| BlockView::ToolUse(tc.id->0@, tc.function->0.name->0@, tool_input(tc.function->0.arguments->0@)))
}

/// The error of reading `reply`, if any.
pub open spec fn completion_problem(reply: CompletionReply) -> Option<Seq<char>> {
    match reply.choices {
        None => Some("No choices in response. Full response: "@ + reply.pretty@),
        Some(cs) => if cs@.len() == 0 {
            Some("Empty choices array"@)
        } else if !cs@[0].has_message {
            Some("No message in choice"@)
        } else {
            match cs@[0].tool_calls {
                Some(tcs) => tool_call_problem(tcs@),
                None => None,
            }
        },
    }
}

/// The content blocks read from a reply without problem: the text, when
/// not empty, then the tool calls.
pub open spec fn completion_blocks(c: ChoiceReply) -> Seq<BlockView> {
    let text = match c.content {
        Some(t) => if t@.len() > 0 {
            seq![BlockView::Text(t@)]
        } else {
            Seq::<BlockView>::empty()
        },
        None => Seq::<BlockView>::empty(),
    };
    text + match c.tool_calls {
        Some(tcs) => tool_call_blocks(tcs@),
        None => Seq::<BlockView>::empty(),
    }
}

fn copy_opt_str(s: &Option<String>) -> (r: Option<String>)
    ensures
        match (r, *s) {
            (Some(a), Some(b)) => a@ == b@,
            (None, None) => true,
            _ => false,
        },
{
    match s {
        Some(v) => Some(copy(v)),
        None => None,
    }
}

/// Reads a chat completion reply into a response: the first choice's text
/// and tool calls (arguments parsed leniently, an empty object when they
/// cannot be), its stop reason and the token counts (truncated to `u32`,
/// missing ones 0).
pub fn completion_response(parser: &JsonParser, reply: &CompletionReply) -> (r: Result<LLMResponse, String>)
    ensures
        match completion_problem(*reply) {
            Some(p) => r is Err && r->Err_0@ == p,
            None => r is Ok && {
                let c = reply.choices->0@[0];
                &&& r->Ok_0.content@.map_values(|b: ContentBlock| block_view(b)) == completion_blocks(c)
                &&& r->Ok_0.stop_reason == match c.finish_reason {
                    Some(f) => stop_reason_of(f@),
                    None => StopReason::EndTurn,
                }
                &&& r->Ok_0.usage.input_tokens == match reply.prompt_tokens {
                    Some(n) => n as u32,
                    None => 0u32,
                }
                &&& r->Ok_0.usage.output_tokens == match reply.completion_tokens {
                    Some(n) => n as u32,
                    None => 0u32,
                }
            },
        },
{
    let choices = match &reply.choices {
        None => {
            let mut m: Vec<char> = Vec::new();
            push_str(&mut m, "No choices in response. Full response: ");
            push_str(&mut m, reply.pretty.as_str());
            return Err(string_from(m.as_slice()));
        },
        Some(cs) => cs,
    };
    if choices.len() == 0 {
        return Err(owned("Empty choices array"));
    }
    let choice = &choices[0];
    if !choice.has_message {
        return Err(owned("No message in choice"));
    }
    let mut content: Vec<ContentBlock> = Vec::new();
    if let Some(t) = &choice.content {
        if t.as_str().len() > 0 || crate::text::chars_of(t.as_str()).len() > 0 {
            content.push(ContentBlock::Text { text: copy(t) });
        }
    }
    let ghost head = content@.map_values(|b: ContentBlock| block_view(b));
    assert(head =~= match choice.content {
        Some(t) => if t@.len() > 0 {
            seq![BlockView::Text(t@)]
        } else {
            Seq::<BlockView>::empty()
        },
        None => Seq::<BlockView>::empty(),
    });
    if let Some(tcs) = &choice.tool_calls {
        assert(completion_problem(*reply) == tool_call_problem(tcs@));
        let mut i: usize = 0;
        assert(tcs@.take(0) =~= Seq::<ToolCallReply>::empty());
        while i < tcs.len()
            invariant
                i <= tcs@.len(),
                completion_problem(*reply) == tool_call_problem(tcs@),
                tool_call_problem(tcs@.take(i as int)) is None,
                content@.map_values(|b: ContentBlock| block_view(b)) == head + tool_call_blocks(
                    tcs@.take(i as int),
                ),
            decreases tcs@.len() - i,
        {
            let ghost pre = tcs@.take(i + 1);
            assert(pre.drop_last() =~= tcs@.take(i as int));
            assert(pre.last() == tcs@[i as int]);
            let tc = &tcs[i];
            let id = match &tc.id {
                Some(v) => copy(v),
                None => {
                    proof {
                        assert(tool_call_problem(pre) == Some("Tool call missing id"@));
                        lemma_problem_extends(tcs@, i as int + 1);
                    }
                    return Err(owned("Tool call missing id"));
                },
            };
            let function = match &tc.function {
                Some(f) => f,
                None => {
                    proof {
                        assert(tool_call_problem(pre) == Some("Tool call missing function"@));
                        lemma_problem_extends(tcs@, i as int + 1);
                    }
                    return Err(owned("Tool call missing function"));
                },
            };
            let name = match &function.name {
                Some(v) => copy(v),
                None => {
                    proof {
                        assert(tool_call_problem(pre) == Some("Tool call function missing name"@));
                        lemma_problem_extends(tcs@, i as int + 1);
                    }
                    return Err(owned("Tool call function missing name"));
                },
            };
            let arguments = match &function.arguments {
                Some(v) => v,
                None => {
                    proof {
                        assert(tool_call_problem(pre) == Some("Tool call function missing arguments"@));
                        lemma_problem_extends(tcs@, i as int + 1);
                    }
                    return Err(owned("Tool call function missing arguments"));
                },
            };
            let input = match parser.parse_robust(arguments.as_str()) {
                Ok(v) => v,
                Err(_) => empty_object(),
            };
            let block = ContentBlock::ToolUse { id, name, input };
            let ghost bv = block_view(block);
            assert(bv == BlockView::ToolUse(tc.id->0@, tc.function->0.name->0@, tool_input(tc.function->0.arguments->0@)));
            let ghost before = content@;
            content.push(block);
            assert(content@.map_values(|b: ContentBlock| block_view(b)) =~= before.map_values(
                |b: ContentBlock| block_view(b),
            ).push(bv));
            assert(tool_call_blocks(pre) =~= tool_call_blocks(tcs@.take(i as int)).push(
                BlockView::ToolUse(tc.id->0@, tc.function->0.name->0@, tool_input(tc.function->0.arguments->0@)),
            ));
            assert(content@.map_values(|b: ContentBlock| block_view(b)) =~= head + tool_call_blocks(
                pre,
            ));
            i = i + 1;
        }
        assert(tcs@.take(tcs@.len() as int) =~= tcs@);
    }
    let stop_reason = match &choice.finish_reason {
        Some(f) => stop_reason_for(f.as_str()),
        None => StopReason::EndTurn,
    };
    let input_tokens: u32 = match reply.prompt_tokens {
        Some(n) => n as u32,
        None => 0,
    };
    let output_tokens: u32 = match reply.completion_tokens {
        Some(n) => n as u32,
        None => 0,
    };
    Ok(LLMResponse { content, stop_reason, usage: TokenUsage { input_tokens, output_tokens } })
}

/// Once the tool calls up to `n` have a problem, the whole list has one,
/// the same.
proof fn lemma_problem_extends(tcs: Seq<ToolCallReply>, n: int)
    requires
        0 < n <= tcs.len(),
        tool_call_problem(tcs.take(n)) is Some,
    ensures
        tool_call_problem(tcs) == tool_call_problem(tcs.take(n)),
    decreases tcs.len() - n,
{
    if n < tcs.len() {
        assert(tcs.take(n + 1).drop_last() =~= tcs.take(n));
        lemma_problem_extends(tcs, n + 1);
    } else {
        assert(tcs.take(n) =~= tcs);
    }
}

/// A message of one text block is sent as one text message of its role
/// with that text; the opening system prompt also names the reasoning
/// level.
pub proof fn law_text_message_sent_as_is(idx: int, m: Message, level: Seq<char>, t: Seq<char>)
    requires
        m.content@.len() == 1,
        block_view(m.content@[0]) == BlockView::Text(t),
    ensures
        wire_of(idx, m, level) == seq![
            WireView::Text {
                role: m.role,
                content: if idx == 0 && m.role == Role::System {
                    t + "\n\nReasoning: "@ + level
                } else {
                    t
                },
            },
        ],
{
    let bs = m.content@;
    assert(bs.drop_last() =~= Seq::<ContentBlock>::empty());
    assert(bs.last() == bs[0]);
    assert(block_texts(Seq::<ContentBlock>::empty()) =~= Seq::<Seq<char>>::empty());
    assert(block_calls(Seq::<ContentBlock>::empty()) =~= Seq::<(Seq<char>, Seq<char>, Seq<char>)>::empty());
    assert(block_results(Seq::<ContentBlock>::empty()) =~= Seq::<WireView>::empty());
    assert(block_texts(bs) =~= seq![t]);
    assert(block_calls(bs) =~= Seq::<(Seq<char>, Seq<char>, Seq<char>)>::empty());
    assert(block_results(bs) =~= Seq::<WireView>::empty());
}

proof fn lemma_results_each(bs: Seq<ContentBlock>)
    requires
        forall|i: int| 0 <= i < bs.len() ==> #[trigger] bs[i] is ToolResult,
    ensures
        block_results(bs).len() == bs.len(),
        forall|i: int|
            0 <= i < bs.len() ==> #[trigger] block_results(bs)[i] == (WireView::Tool {
                tool_call_id: bs[i]->ToolResult_tool_use_id@,
                content: bs[i]->ToolResult_content@,
            }),
    decreases bs.len(),
{
    if bs.len() > 0 {
        let init = bs.drop_last();
        assert forall|i: int| 0 <= i < init.len() implies #[trigger] init[i] is ToolResult by {
            assert(init[i] == bs[i]);
        }
        lemma_results_each(init);
        assert(bs.last() == bs[bs.len() - 1]);
        assert forall|i: int| 0 <= i < bs.len() implies #[trigger] block_results(bs)[i] == (WireView::Tool {
            tool_call_id: bs[i]->ToolResult_tool_use_id@,
            content: bs[i]->ToolResult_content@,
        }) by {
            if i < init.len() {
                assert(init[i] == bs[i]);
                assert(block_results(bs)[i] == block_results(init)[i]);
            }
        }
    }
}

/// A message of tool answers is sent as one "tool" message per answer, in
/// order, each carrying the identifier of the call it answers and its
/// content.
pub proof fn law_tool_answers_sent_in_order(idx: int, m: Message, level: Seq<char>)
    requires
        m.content@.len() > 0,
        forall|i: int| 0 <= i < m.content@.len() ==> #[trigger] m.content@[i] is ToolResult,
    ensures
        wire_of(idx, m, level).len() == m.content@.len(),
        forall|i: int|
            0 <= i < m.content@.len() ==> #[trigger] wire_of(idx, m, level)[i] == (WireView::Tool {
                tool_call_id: m.content@[i]->ToolResult_tool_use_id@,
                content: m.content@[i]->ToolResult_content@,
            }),
{
    lemma_results_each(m.content@);
}

/// The blocks read from a choice: its text first when there is some, then
/// one tool call block per tool call, in order, with the call's
/// identifier, name and leniently parsed arguments.
pub proof fn law_reply_blocks_in_order(c: ChoiceReply)
    ensures
        ({
            let bs = completion_blocks(c);
            let has_text = c.content is Some && c.content->0@.len() > 0;
            let off: int = if has_text { 1 } else { 0 };
            let n: int = match c.tool_calls {
                Some(tcs) => tcs@.len() as int,
                None => 0,
            };
            &&& bs.len() == off + n
            &&& has_text ==> bs[0] == BlockView::Text(c.content->0@)
            &&& forall|k: int|
                0 <= k < n ==> #[trigger] bs[off + k] == BlockView::ToolUse(
                    c.tool_calls->0@[k].id->0@,
                    c.tool_calls->0@[k].function->0.name->0@,
                    tool_input(c.tool_calls->0@[k].function->0.arguments->0@),
                )
        }),
{
    let has_text = c.content is Some && c.content->0@.len() > 0;
    let off: int = if has_text { 1 } else { 0 };
    let text = if has_text { seq![BlockView::Text(c.content->0@)] } else { Seq::<BlockView>::empty() };
    match c.tool_calls {
        Some(tcs) => {
            let calls = tool_call_blocks(tcs@);
            assert(completion_blocks(c) == text + calls);
            assert forall|k: int| 0 <= k < tcs@.len() implies #[trigger] completion_blocks(c)[off + k]
                == calls[k] by {}
        },
        None => {
            assert(completion_blocks(c) == text + Seq::<BlockView>::empty());
        },
    }
}

/// `length` means the reply was cut at the token limit, `tool_calls` that
/// tools are to run; `stop` and anything else end the turn.
pub proof fn law_stop_reasons(finish: Seq<char>)
    ensures
        finish == "length"@ ==> stop_reason_of(finish) == StopReason::MaxTokens,
        finish == "tool_calls"@ ==> stop_reason_of(finish) == StopReason::StopSequence,
        finish != "length"@ && finish != "tool_calls"@ ==> stop_reason_of(finish) == StopReason::EndTurn,
{
    reveal_strlit("length");
    reveal_strlit("tool_calls");
    assert("length"@.len() != "tool_calls"@.len());
}

/// A reply is refused when any of its tool calls lacks an identifier, a
/// function, a name or arguments.
pub proof fn law_incomplete_tool_call_refused(tcs: Seq<ToolCallReply>, k: int)
    requires
        0 <= k < tcs.len(),
        tcs[k].id is None || tcs[k].function is None || tcs[k].function->0.name is None
            || tcs[k].function->0.arguments is None,
    ensures
        tool_call_problem(tcs) is Some,
    decreases tcs.len(),
{
    if k < tcs.len() - 1 {
        let init = tcs.drop_last();
        assert(init[k] == tcs[k]);
        law_incomplete_tool_call_refused(init, k);
    } else {
        assert(tcs.last() == tcs[k]);
    }
}

} // verus!
