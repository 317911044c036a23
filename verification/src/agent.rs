//! The agent's decisions during a turn: the system prompt, how a streamed
//! reply is gathered into a message, when to stop calling tools, and what
//! tool results look like in the conversation and on screen. Talking to
//! the model, running the tools and the message loop are the
//! application's part.

use vstd::prelude::*;
use vstd::utf8::encode_utf8;
use crate::json_parser::JsonParser;
use crate::messages::Command;
use crate::sse::{call_view, find_call, find_call_exec, start_call, PendingCall, StreamEvent};
use crate::text::{
    byte_len, byte_prefix, chars_of, contains, copy_string, has_byte_boundary, owned, push_all,
    push_str, seq_contains, string_from,
};
use crate::session::{has_random_suffix, Session};
use crate::tools::ToolResult;
use crate::types::{ContentBlock, Message, Role};
use crate::wire::{block_view, empty_object, tool_input, BlockView};

verus! {

/// The most tool calls in one turn before the agent stops.
pub const MAX_TOOL_CALLS: usize = 50;

/// How long a tool's output may be, in bytes, before the preview cuts it.
pub const PREVIEW_BYTES: usize = 500;

/// The instructions that open every conversation.
pub const SYSTEM_PROMPT: &'static str = "You are Synthia, an AI assistant with access to powerful tools. ALWAYS use tools proactively instead of asking the user to do things manually.\n\nCRITICAL RULES:\n- When you need information from a file, use the 'read' tool immediately\n- When you need to run a command, use the 'bash' tool immediately\n- When you need to search files, use 'grep' or 'glob' tools\n- NEVER ask \"would you like me to...\" or \"shall I...\" - just do it\n- NEVER ask the user to paste file contents - use the read tool\n- NEVER ask the user to run commands - use the bash tool\n\nAVAILABLE TOOLS:\n- read: Read file contents (use instead of asking for file contents)\n- write: Create new files\n- edit: Modify existing files\n- bash: Run shell commands (use instead of asking user to check terminal)\n- grep: Search file contents with patterns\n- glob: Find files matching patterns\n- git: Git operations (status, diff, commit, etc.)\n- webfetch: Fetch web content\n- powertools: Code navigation (goto definition, find references)\n- workshop: Context and session management\n\nEXAMPLES OF CORRECT BEHAVIOR:\nUser: \"What's in the README?\"\nYou: \"I'll read that file for you.\" [immediately use read tool]\n\nUser: \"Are there any Python errors?\"\nYou: \"Let me check the logs.\" [immediately use bash or grep tool]\n\nUser: \"Check if the server is running\"\nYou: \"I'll check the running processes.\" [immediately use bash tool]\n\nBe direct, confident, and proactive. Use tools without hesitation.";

/// A message of `role` made of the one text block `text`.
pub open spec fn is_text_message(m: Message, role: Role, text: Seq<char>) -> bool {
    &&& m.role == role
    &&& m.content@.len() == 1
    &&& block_view(m.content@[0]) == BlockView::Text(text)
}

/// The system prompt as a message.
pub fn create_system_prompt() -> (m: Message)
    ensures
        is_text_message(m, Role::System, SYSTEM_PROMPT@),
{
    let mut content: Vec<ContentBlock> = Vec::new();
    content.push(ContentBlock::Text { text: owned(SYSTEM_PROMPT) });
    Message { role: Role::System, content }
}

/// The user's message `text`.
pub fn user_message(text: String) -> (m: Message)
    ensures
        is_text_message(m, Role::User, text@),
{
    let mut content: Vec<ContentBlock> = Vec::new();
    content.push(ContentBlock::Text { text });
    Message { role: Role::User, content }
}

/// The project's own instructions, marked as such, for a system message.
pub open spec fn project_instructions_text(text: Seq<char>) -> Seq<char> {
    "<project-instructions>\n"@ + text + "\n</project-instructions>"@
}

/// The conversation a new agent starts with: the system prompt, then the
/// project's instructions as a second system message when there are any.
pub fn initial_conversation(project_context: Option<String>) -> (r: Vec<Message>)
    ensures
        r@.len() == (if project_context is Some {
            2int
        } else {
            1int
        }),
        is_text_message(r@[0], Role::System, SYSTEM_PROMPT@),
        project_context matches Some(t) ==> is_text_message(
            r@[1],
            Role::System,
            project_instructions_text(t@),
        ),
{
    let mut conversation: Vec<Message> = Vec::new();
    conversation.push(create_system_prompt());
    if let Some(text) = project_context {
        let mut t: Vec<char> = Vec::new();
        push_str(&mut t, "<project-instructions>\n");
        push_str(&mut t, text.as_str());
        push_str(&mut t, "\n</project-instructions>");
        let mut content: Vec<ContentBlock> = Vec::new();
        content.push(ContentBlock::Text { text: string_from(t.as_slice()) });
        conversation.push(Message { role: Role::System, content });
    }
    conversation
}

/// A conversation restored from a session, with the system prompt put
/// first unless it already starts with a system message.
pub fn with_system_prompt(messages: Vec<Message>) -> (r: Vec<Message>)
    ensures
        (messages@.len() > 0 && messages@[0].role == Role::System) ==> r@ == messages@,
        !(messages@.len() > 0 && messages@[0].role == Role::System) ==> r@.len() == messages@.len()
            + 1 && is_text_message(r@[0], Role::System, SYSTEM_PROMPT@) && r@.skip(1)
            == messages@,
{
    let mut conversation = messages;
    let has_prompt = conversation.len() > 0 && conversation[0].role == Role::System;
    if !has_prompt {
        let ghost before = conversation@;
        conversation.insert(0, create_system_prompt());
        assert(conversation@.skip(1) =~= before);
    }
    conversation
}

/// Whether the last message holds a tool result, so that the model must
/// be asked again.
pub open spec fn ends_with_tool_results(conversation: Seq<Message>) -> bool {
    conversation.len() > 0 && exists|k: int|
        0 <= k < conversation.last().content@.len() && #[trigger] conversation.last().content@[k] is ToolResult
}

/// Whether the turn goes on: the last message holds a tool result.
pub fn should_continue(conversation: &Vec<Message>) -> (r: bool)
    ensures
        r == ends_with_tool_results(conversation@),
{
    let n = conversation.len();
    if n == 0 {
        return false;
    }
    let last = &conversation[n - 1];
    let mut i: usize = 0;
    while i < last.content.len()
        invariant
            i <= last.content@.len(),
            n == conversation@.len(),
            n > 0,
            *last == conversation@.last(),
            forall|k: int| 0 <= k < i ==> !(#[trigger] last.content@[k] is ToolResult),
        decreases last.content@.len() - i,
    {
        if let ContentBlock::ToolResult { .. } = &last.content[i] {
            return true;
        }
        i = i + 1;
    }
    false
}

/// What a tool's output shows on screen: its first 500 bytes and an
/// ellipsis when it is longer.
pub open spec fn output_preview_of(out: Seq<char>, preview: Seq<char>) -> bool {
    if encode_utf8(out).len() > PREVIEW_BYTES {
        exists|p: Seq<char>| #![trigger encode_utf8(p)]
            p == out.take(p.len() as int) && encode_utf8(p).len() == PREVIEW_BYTES && preview == p
                + "..."@
    } else {
        preview == out
    }
}

/// The preview of a tool's output `content`; the cut must fall between
/// characters.
pub fn tool_output_preview(content: &str) -> (r: String)
    requires
        encode_utf8(content@).len() > PREVIEW_BYTES ==> has_byte_boundary(content@, PREVIEW_BYTES as nat),
    ensures
        output_preview_of(content@, r@),
{
    let n = byte_len(content);
    if n > PREVIEW_BYTES {
        let cs = chars_of(content);
        let p = byte_prefix(cs.as_slice(), PREVIEW_BYTES);
        let mut m: Vec<char> = Vec::new();
        push_all(&mut m, p.as_slice());
        push_str(&mut m, "...");
        assert(m@ == p@ + "..."@);
        return string_from(m.as_slice());
    }
    owned(content)
}

/// A tool error that looks like bad parameters.
pub open spec fn is_param_error(msg: Seq<char>) -> bool {
    seq_contains(msg, "Missing"@) || seq_contains(msg, "required"@) || seq_contains(msg, "parameter"@)
}

/// What the model is told when a tool fails with `msg`; for bad
/// parameters it is asked to retry with valid ones.
pub open spec fn tool_error_text(msg: Seq<char>) -> Seq<char> {
    if is_param_error(msg) {
        "Error: "@ + msg + ". Please check the tool schema and retry with valid JSON parameters."@
    } else {
        "Error: "@ + msg
    }
}

/// The text for a tool that failed with `msg`.
pub fn tool_error_content(msg: &str) -> (r: String)
    ensures
        r@ == tool_error_text(msg@),
{
    let m = chars_of(msg);
    let a = chars_of("Missing");
    let b = chars_of("required");
    let c = chars_of("parameter");
    let param = contains(m.as_slice(), a.as_slice()) || contains(m.as_slice(), b.as_slice())
        || contains(m.as_slice(), c.as_slice());
    let mut out: Vec<char> = Vec::new();
    push_str(&mut out, "Error: ");
    push_all(&mut out, m.as_slice());
    if param {
        push_str(&mut out, ". Please check the tool schema and retry with valid JSON parameters.");
    }
    string_from(out.as_slice())
}

/// The message that gives the model a tool's result.
pub fn tool_result_message(tool_use_id: String, content: String, is_error: bool) -> (m: Message)
    ensures
        m.role == Role::User,
        m.content@.len() == 1,
        block_view(m.content@[0]) == BlockView::ToolResult(tool_use_id@, content@, is_error),
{
    let mut blocks: Vec<ContentBlock> = Vec::new();
    blocks.push(ContentBlock::ToolResult { tool_use_id, content, is_error });
    Message { role: Role::User, content: blocks }
}

/// A tool call of an assistant message: its identifier, the tool's name
/// and its input.
pub struct ToolCall {
    pub id: String,
    pub name: String,
    pub input: serde_json::Value,
}

/// A tool call as mathematical values.
pub open spec fn tool_call_view(c: ToolCall) -> (Seq<char>, Seq<char>, serde_json::Value) {
    (c.id@, c.name@, c.input)
}

/// The tool calls among the blocks `bs`, in order.
pub open spec fn tool_calls_of(bs: Seq<ContentBlock>) -> Seq<(Seq<char>, Seq<char>, serde_json::Value)>
    decreases bs.len(),
{
    if bs.len() == 0 {
        seq![]
    } else {
        tool_calls_of(bs.drop_last()) + match bs.last() {
            ContentBlock::ToolUse { id, name, input } => seq![(id@, name@, input)],
            _ => Seq::<(Seq<char>, Seq<char>, serde_json::Value)>::empty(),
        }
    }
}

/// The tool calls of an assistant message's `content`, in order; each is
/// run and answered by one result message, in this order.
pub fn tool_calls_in(content: &Vec<ContentBlock>) -> (r: Vec<ToolCall>)
    ensures
        r@.map_values(|c: ToolCall| tool_call_view(c)) == tool_calls_of(content@),
{
    let mut out: Vec<ToolCall> = Vec::new();
    let mut i: usize = 0;
    assert(content@.take(0) =~= Seq::<ContentBlock>::empty());
    while i < content.len()
        invariant
            i <= content@.len(),
            out@.map_values(|c: ToolCall| tool_call_view(c)) == tool_calls_of(content@.take(i as int)),
        decreases content@.len() - i,
    {
        let ghost before = out@.map_values(|c: ToolCall| tool_call_view(c));
        assert(content@.take(i + 1).drop_last() =~= content@.take(i as int));
        assert(content@.take(i + 1).last() == content@[i as int]);
        match &content[i] {
            ContentBlock::ToolUse { id, name, input } => {
                out.push(ToolCall { id: copy_string(id), name: copy_string(name), input: input.clone() });
                assert(out@.map_values(|c: ToolCall| tool_call_view(c)) =~= before.push(
                    (id@, name@, *input),
                ));
            },
            _ => {
                assert(out@.map_values(|c: ToolCall| tool_call_view(c)) =~= before);
            },
        }
        i = i + 1;
    }
    assert(content@.take(content@.len() as int) =~= content@);
    out
}

/// What became of one tool call: the text the model is given, whether it
/// is an error, and what the screen shows of it.
pub struct ToolOutcome {
    pub content: String,
    pub is_error: bool,
    pub shown: String,
}

/// The outcome of a tool call that returned `result` (`Err` holding the
/// failure's message): a result is given as it is and shown by its
/// preview; a failure is given and shown as `tool_error_text`.
pub fn tool_outcome(result: Result<ToolResult, String>) -> (r: ToolOutcome)
    requires
        result matches Ok(t) ==> (encode_utf8(t.content@).len() > PREVIEW_BYTES ==> has_byte_boundary(
            t.content@,
            PREVIEW_BYTES as nat,
        )),
    ensures
        match result {
            Ok(t) => r.content@ == t.content@ && r.is_error == t.is_error && output_preview_of(
                t.content@,
                r.shown@,
            ),
            Err(e) => r.content@ == tool_error_text(e@) && r.is_error && r.shown@ == tool_error_text(e@),
        },
{
    match result {
        Ok(t) => {
            let shown = tool_output_preview(t.content.as_str());
            ToolOutcome { content: t.content, is_error: t.is_error, shown }
        },
        Err(e) => {
            let text = tool_error_content(e.as_str());
            let shown = copy_string(&text);
            ToolOutcome { content: text, is_error: true, shown }
        },
    }
}

/// A message as mathematical values.
pub open spec fn message_view(m: Message) -> (Role, Seq<BlockView>) {
    (m.role, m.content@.map_values(|b: ContentBlock| block_view(b)))
}

/// Messages as mathematical values.
pub open spec fn messages_view(ms: Seq<Message>) -> Seq<(Role, Seq<BlockView>)> {
    ms.map_values(|m: Message| message_view(m))
}

fn copy_block(b: &ContentBlock) -> (r: ContentBlock)
    ensures
        block_view(r) == block_view(*b),
{
    match b {
        ContentBlock::Text { text } => ContentBlock::Text { text: copy_string(text) },
        ContentBlock::ToolUse { id, name, input } => ContentBlock::ToolUse {
            id: copy_string(id),
            name: copy_string(name),
            input: input.clone(),
        },
        ContentBlock::ToolResult { tool_use_id, content, is_error } => ContentBlock::ToolResult {
            tool_use_id: copy_string(tool_use_id),
            content: copy_string(content),
            is_error: *is_error,
        },
    }
}

fn copy_message(m: &Message) -> (r: Message)
    ensures
        message_view(r) == message_view(*m),
{
    let mut content: Vec<ContentBlock> = Vec::new();
    let mut i: usize = 0;
    while i < m.content.len()
        invariant
            i <= m.content@.len(),
            content@.map_values(|b: ContentBlock| block_view(b)) == m.content@.take(i as int).map_values(
                |b: ContentBlock| block_view(b),
            ),
        decreases m.content@.len() - i,
    {
        let b = copy_block(&m.content[i]);
        let ghost before = content@;
        content.push(b);
        proof {
            let f = |b: ContentBlock| block_view(b);
            let t0 = m.content@.take(i as int);
            let t1 = m.content@.take(i + 1);
            assert(before.map_values(f).len() == t0.map_values(f).len());
            assert forall|j: int| 0 <= j < i + 1 implies #[trigger] content@.map_values(f)[j]
                == t1.map_values(f)[j] by {
                if j < i {
                    assert(before.map_values(f)[j] == t0.map_values(f)[j]);
                    assert(content@[j] == before[j]);
                    assert(t1[j] == t0[j]);
                }
            }
            assert(content@.map_values(f) =~= t1.map_values(f));
        }
        i = i + 1;
    }
    assert(m.content@.take(m.content@.len() as int) =~= m.content@);
    Message { role: m.role, content }
}

fn copy_messages(ms: &Vec<Message>) -> (r: Vec<Message>)
    ensures
        messages_view(r@) == messages_view(ms@),
{
    let mut out: Vec<Message> = Vec::new();
    let mut i: usize = 0;
    while i < ms.len()
        invariant
            i <= ms@.len(),
            messages_view(out@) == messages_view(ms@.take(i as int)),
        decreases ms@.len() - i,
    {
        let m = copy_message(&ms[i]);
        let ghost before = out@;
        out.push(m);
        proof {
            let t0 = ms@.take(i as int);
            let t1 = ms@.take(i + 1);
            assert(messages_view(before).len() == messages_view(t0).len());
            assert forall|j: int| 0 <= j < i + 1 implies #[trigger] messages_view(out@)[j]
                == messages_view(t1)[j] by {
                if j < i {
                    assert(messages_view(before)[j] == messages_view(t0)[j]);
                    assert(out@[j] == before[j]);
                    assert(t1[j] == t0[j]);
                }
            }
            assert(messages_view(out@) =~= messages_view(t1));
        }
        i = i + 1;
    }
    assert(ms@.take(ms@.len() as int) =~= ms@);
    out
}

/// What the agent keeps between turns: the conversation sent to the model
/// and the session that is saved.
pub struct AgentMemory {
    pub conversation: Vec<Message>,
    pub session: Session,
}

impl AgentMemory {
    /// Records `message` at the end of both the conversation and the
    /// session.
    pub fn record(&mut self, message: Message)
        ensures
            messages_view(final(self).conversation@) == messages_view(old(self).conversation@).push(
                message_view(message),
            ),
            final(self).session.messages@ == old(self).session.messages@.push(message),
            final(self).session.id == old(self).session.id,
            final(self).session.name == old(self).session.name,
            final(self).session.created_at == old(self).session.created_at,
            final(self).session.model == old(self).session.model,
    {
        let copy = copy_message(&message);
        let ghost before = self.conversation@;
        self.conversation.push(copy);
        assert(messages_view(self.conversation@) =~= messages_view(before).push(message_view(message))) by {
            assert(self.conversation@ =~= before.push(copy));
        }
        self.session.add_message(message);
    }

    /// Starts a new session for `model`: the conversation is only the
    /// system prompt again. The session left behind is returned, to be
    /// saved.
    pub fn start_new_session(&mut self, model: String) -> (previous: Session)
        ensures
            previous == old(self).session,
            final(self).conversation@.len() == 1,
            is_text_message(final(self).conversation@[0], Role::System, SYSTEM_PROMPT@),
            has_random_suffix(final(self).session.id@),
            final(self).session.name is None,
            final(self).session.model == model,
            final(self).session.messages@.len() == 0,
    {
        let mut previous = Session::new(model);
        std::mem::swap(&mut previous, &mut self.session);
        let mut conversation: Vec<Message> = Vec::new();
        conversation.push(create_system_prompt());
        self.conversation = conversation;
        previous
    }

    /// Goes on with the saved session `loaded`: the conversation becomes
    /// its messages. The session left behind is returned, to be saved.
    pub fn switch_to(&mut self, loaded: Session) -> (previous: Session)
        ensures
            previous == old(self).session,
            final(self).session == loaded,
            messages_view(final(self).conversation@) == messages_view(loaded.messages@),
    {
        let conversation = copy_messages(&loaded.messages);
        let mut previous = loaded;
        std::mem::swap(&mut previous, &mut self.session);
        self.conversation = conversation;
        previous
    }
}

/// The error shown when a turn made too many tool calls.
pub fn tool_limit_message() -> (r: String)
    ensures
        r@ == "Tool call limit exceeded (50 calls). Stopping to prevent infinite loop. This usually happens when the same tool fails repeatedly or gets stuck in a loop."@,
{
    owned(
        "Tool call limit exceeded (50 calls). Stopping to prevent infinite loop. This usually happens when the same tool fails repeatedly or gets stuck in a loop.",
    )
}

/// What the agent does next in a turn.
#[derive(Debug, Clone, Copy, PartialEq, Eq, Structural)]
pub enum TurnStep {
    /// Canceled: stop quietly.
    Stop,
    /// Too many tool calls: report `tool_limit_message` and stop.
    LimitExceeded,
    /// Ask the model.
    Generate,
}

/// The state of a turn: whether it was canceled and how many tools ran.
pub struct TurnControl {
    pub cancel_requested: bool,
    pub tool_call_count: usize,
}

impl TurnControl {
    /// A turn not yet started.
    pub fn new() -> (r: TurnControl)
        ensures
            !r.cancel_requested,
            r.tool_call_count == 0,
    {
        TurnControl { cancel_requested: false, tool_call_count: 0 }
    }

    /// A new turn starts: not canceled, no tool run yet.
    pub fn begin(&mut self)
        ensures
            !final(self).cancel_requested,
            final(self).tool_call_count == 0,
    {
        self.cancel_requested = false;
        self.tool_call_count = 0;
    }

    /// A command that arrives while the model is asked: a cancel cancels,
    /// a new session cancels and asks the user to wait; anything else is
    /// ignored. The result is the error to show, if any.
    pub fn command_during_turn(&mut self, cmd: &Command) -> (r: Option<String>)
        ensures
            match cmd {
                Command::Cancel => final(self).cancel_requested && r is Some && r->0@
                    == "Generation canceled by user"@,
                Command::NewSession => final(self).cancel_requested && r is Some && r->0@
                    == "Please wait for current generation to cancel before starting new session"@,
                _ => final(self).cancel_requested == old(self).cancel_requested && r is None,
            },
            final(self).tool_call_count == old(self).tool_call_count,
    {
        match cmd {
            Command::Cancel => {
                self.cancel_requested = true;
                Some(owned("Generation canceled by user"))
            },
            Command::NewSession => {
                self.cancel_requested = true;
                Some(
                    owned(
                        "Please wait for current generation to cancel before starting new session",
                    ),
                )
            },
            _ => None,
        }
    }

    /// A command that arrives while a reply streams or tools run: a cancel
    /// or a new session cancels the turn.
    pub fn interrupt(&mut self, cmd: &Command)
        ensures
            final(self).cancel_requested == (old(self).cancel_requested || cmd is Cancel
                || cmd is NewSession),
            final(self).tool_call_count == old(self).tool_call_count,
    {
        match cmd {
            Command::Cancel | Command::NewSession => {
                self.cancel_requested = true;
            },
            _ => {},
        }
    }

    /// What comes next: stop when canceled, stop with an error at the tool
    /// call limit, otherwise ask the model.
    pub fn next_step(&self) -> (r: TurnStep)
        ensures
            r == if self.cancel_requested {
                TurnStep::Stop
            } else if self.tool_call_count >= MAX_TOOL_CALLS {
                TurnStep::LimitExceeded
            } else {
                TurnStep::Generate
            },
    {
        if self.cancel_requested {
            TurnStep::Stop
        } else if self.tool_call_count >= MAX_TOOL_CALLS {
            TurnStep::LimitExceeded
        } else {
            TurnStep::Generate
        }
    }

    /// `n` more tools are about to run.
    pub fn record_tool_calls(&mut self, n: usize)
        requires
            old(self).tool_call_count + n <= usize::MAX,
        ensures
            final(self).tool_call_count == old(self).tool_call_count + n,
            final(self).cancel_requested == old(self).cancel_requested,
    {
        self.tool_call_count = self.tool_call_count + n;
    }
}

/// What the agent does with an event of a streamed reply.
pub enum StreamReaction {
    /// Show the text delta.
    ShowDelta(String),
    /// Show that the tool call `id` to `name` started.
    ShowToolStart { name: String, id: String },
    /// Nothing to show.
    Quiet,
    /// The reply is complete.
    Finish,
    /// The reply failed with this error.
    Fail(String),
}

/// A streamed reply being gathered: its text and its tool calls.
pub struct StreamAccumulator {
    pub text: Vec<char>,
    pub calls: Vec<PendingCall>,
}

impl StreamAccumulator {
    /// The calls as mathematical values.
    pub open spec fn calls_view(&self) -> Seq<(Seq<char>, Seq<char>, Seq<char>)> {
        self.calls@.map_values(|c: PendingCall| call_view(c))
    }

    /// Nothing gathered yet.
    pub fn new() -> (r: StreamAccumulator)
        ensures
            r.text@.len() == 0,
            r.calls@.len() == 0,
    {
        StreamAccumulator { text: Vec::new(), calls: Vec::new() }
    }

    /// Gathers one event: text is appended and shown, a started call is
    /// recorded (restarting one with the same identifier) and shown,
    /// arguments are appended to their call when it is known, the end
    /// finishes the reply and an error fails it.
    pub fn apply(&mut self, event: StreamEvent) -> (r: StreamReaction)
        ensures
            match event {
                StreamEvent::TextDelta(d) => final(self).text@ == old(self).text@ + d@
                    && final(self).calls_view() == old(self).calls_view() && r is ShowDelta
                    && r->ShowDelta_0@ == d@,
                StreamEvent::ToolCallStart { id, name } => final(self).text@ == old(self).text@
                    && final(self).calls_view() == start_call(old(self).calls_view(), id@, name@)
                    && r is ShowToolStart && r->ShowToolStart_name@ == name@ && r->ShowToolStart_id@
                    == id@,
                StreamEvent::ToolCallDelta { id, arguments_delta } => final(self).text@
                    == old(self).text@ && r is Quiet && match find_call(
                    old(self).calls_view(),
                    id@,
                    0,
                ) {
                    Some(k) => final(self).calls_view() == old(self).calls_view().update(
                        k,
                        (
                            old(self).calls_view()[k].0,
                            old(self).calls_view()[k].1,
                            old(self).calls_view()[k].2 + arguments_delta@,
                        ),
                    ),
                    None => final(self).calls_view() == old(self).calls_view(),
                },
                StreamEvent::Done { .. } => final(self).text@ == old(self).text@
                    && final(self).calls_view() == old(self).calls_view() && r is Finish,
                StreamEvent::Error(e) => final(self).text@ == old(self).text@
                    && final(self).calls_view() == old(self).calls_view() && r is Fail && r->Fail_0@
                    == "Stream error: "@ + e@,
            },
    {
        let ghost cv = self.calls_view();
        match event {
            StreamEvent::TextDelta(d) => {
                push_str(&mut self.text, d.as_str());
                StreamReaction::ShowDelta(d)
            },
            StreamEvent::ToolCallStart { id, name } => {
                let idc = chars_of(id.as_str());
                let fresh = PendingCall { id: copy_string(&id), name: copy_string(&name), arguments: String::new() };
                assert(call_view(fresh) == (id@, name@, Seq::<char>::empty()));
                match find_call_exec(&self.calls, idc.as_slice()) {
                    Some(k) => {
                        self.calls.set(k, fresh);
                        assert(self.calls_view() =~= cv.update(k as int, (id@, name@, seq![])));
                    },
                    None => {
                        self.calls.push(fresh);
                        assert(self.calls_view() =~= cv.push((id@, name@, seq![])));
                    },
                }
                StreamReaction::ShowToolStart { name, id }
            },
            StreamEvent::ToolCallDelta { id, arguments_delta } => {
                let idc = chars_of(id.as_str());
                match find_call_exec(&self.calls, idc.as_slice()) {
                    Some(k) => {
                        let mut joined: Vec<char> = Vec::new();
                        push_str(&mut joined, self.calls[k].arguments.as_str());
                        push_str(&mut joined, arguments_delta.as_str());
                        let updated = PendingCall {
                            id: copy_string(&self.calls[k].id),
                            name: copy_string(&self.calls[k].name),
                            arguments: string_from(joined.as_slice()),
                        };
                        self.calls.set(k, updated);
                        assert(self.calls_view() =~= cv.update(
                            k as int,
                            (cv[k as int].0, cv[k as int].1, cv[k as int].2 + arguments_delta@),
                        ));
                    },
                    None => {},
                }
                StreamReaction::Quiet
            },
            StreamEvent::Done { .. } => StreamReaction::Finish,
            StreamEvent::Error(e) => {
                let mut m: Vec<char> = Vec::new();
                push_str(&mut m, "Stream error: ");
                push_str(&mut m, e.as_str());
                StreamReaction::Fail(string_from(m.as_slice()))
            },
        }
    }

    /// The assistant's message content: the text, when there is any, then
    /// one tool call per gathered call, its arguments parsed leniently (an
    /// empty object when they cannot be).
    pub fn content(&self, parser: &JsonParser) -> (r: Vec<ContentBlock>)
        ensures
            r@.map_values(|b: ContentBlock| block_view(b)) == (if self.text@.len() > 0 {
                seq![BlockView::Text(self.text@)]
            } else {
                Seq::<BlockView>::empty()
            }) + self.calls_view().map_values(
                |c: (Seq<char>, Seq<char>, Seq<char>)| BlockView::ToolUse(c.0, c.1, tool_input(c.2)),
            ),
    {
        let mut out: Vec<ContentBlock> = Vec::new();
        if self.text.len() > 0 {
            out.push(ContentBlock::Text { text: string_from(self.text.as_slice()) });
        }
        let ghost head = out@.map_values(|b: ContentBlock| block_view(b));
        let ghost cv = self.calls_view();
        let mut i: usize = 0;
        while i < self.calls.len()
            invariant
                i <= self.calls@.len(),
                cv == self.calls_view(),
                out@.map_values(|b: ContentBlock| block_view(b)) == head + cv.take(i as int).map_values(
                    |c: (Seq<char>, Seq<char>, Seq<char>)| BlockView::ToolUse(c.0, c.1, tool_input(c.2)),
                ),
            decreases self.calls@.len() - i,
        {
            let c = &self.calls[i];
            let input = match parser.parse_robust(c.arguments.as_str()) {
                Ok(v) => v,
                Err(_) => empty_object(),
            };
            let block = ContentBlock::ToolUse { id: copy_string(&c.id), name: copy_string(&c.name), input };
            let ghost bv = block_view(block);
            assert(bv == BlockView::ToolUse(cv[i as int].0, cv[i as int].1, tool_input(cv[i as int].2)));
            let ghost before = out@;
            out.push(block);
            assert(out@.map_values(|b: ContentBlock| block_view(b)) =~= before.map_values(
                |b: ContentBlock| block_view(b),
            ).push(bv));
            assert(cv.take(i + 1).map_values(
                |c: (Seq<char>, Seq<char>, Seq<char>)| BlockView::ToolUse(c.0, c.1, tool_input(c.2)),
            ) =~= cv.take(i as int).map_values(
                |c: (Seq<char>, Seq<char>, Seq<char>)| BlockView::ToolUse(c.0, c.1, tool_input(c.2)),
            ).push(bv));
            i = i + 1;
        }
        assert(cv.take(cv.len() as int) =~= cv);
        out
    }
}

} // verus!
