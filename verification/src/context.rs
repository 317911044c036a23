//! Keeping the conversation within the model's context: the text from
//! which old messages are summarised, the summary that replaces them and
//! the hard limit on the number of messages. The token thresholds, which
//! are fractions, and asking the model are the application's part.

use vstd::prelude::*;
use crate::agent::is_text_message;
use crate::text::{chars_of, join_with, owned, push_all, push_str, string_from};
use crate::types::{ContentBlock, Message, Role};
use crate::wire::{block_view, BlockView};

verus! {

/// The most messages kept.
pub const MAX_MESSAGES: usize = 100;

/// The message count from which summarising was considered.
pub const SUMMARY_THRESHOLD: usize = 80;

/// How many messages a summary was meant to cover.
pub const SUMMARY_CHUNK_SIZE: usize = 20;

/// The name of a role in a summary.
pub open spec fn role_label(r: Role) -> Seq<char> {
    match r {
        Role::User => "User"@,
        Role::Assistant => "Assistant"@,
        Role::System => "System"@,
    }
}

/// A content block in a summary: text as it is, a tool call by the tool's
/// name, a tool error in full and a tool result by its first 100
/// characters.
pub open spec fn block_summary(b: ContentBlock) -> Seq<char> {
    match b {
        ContentBlock::Text { text } => text@,
        ContentBlock::ToolUse { name, .. } => "[Called tool: "@ + name@ + "]"@,
        ContentBlock::ToolResult { content, is_error, .. } => if is_error {
            "[Tool error: "@ + content@ + "]"@
        } else {
            "[Tool result: "@ + content@.take(if content@.len() < 100 {
                content@.len() as int
            } else {
                100
            }) + "]"@
        },
    }
}

/// A message in a summary: its role, then its blocks separated by spaces.
pub open spec fn message_summary(m: Message) -> Seq<char> {
    role_label(m.role) + ": "@ + join_with(
        m.content@.map_values(|b: ContentBlock| block_summary(b)),
        " "@,
    )
}

/// The messages to summarise, one line each.
pub open spec fn messages_summary(ms: Seq<Message>) -> Seq<char> {
    join_with(ms.map_values(|m: Message| message_summary(m)), "\n"@)
}

fn block_summary_exec(b: &ContentBlock) -> (r: Vec<char>)
    ensures
        r@ == block_summary(*b),
{
    let mut out: Vec<char> = Vec::new();
    match b {
        ContentBlock::Text { text } => push_str(&mut out, text.as_str()),
        ContentBlock::ToolUse { name, .. } => {
            push_str(&mut out, "[Called tool: ");
            push_str(&mut out, name.as_str());
            push_str(&mut out, "]");
        },
        ContentBlock::ToolResult { content, is_error, .. } => {
            if *is_error {
                push_str(&mut out, "[Tool error: ");
                push_str(&mut out, content.as_str());
                push_str(&mut out, "]");
            } else {
                let c = chars_of(content.as_str());
                let n = if c.len() < 100 {
                    c.len()
                } else {
                    100
                };
                let head = crate::text::slice_range(c.as_slice(), 0, n);
                push_str(&mut out, "[Tool result: ");
                push_all(&mut out, head.as_slice());
                push_str(&mut out, "]");
                assert(head@ =~= content@.take(n as int));
            }
        },
    }
    out
}

fn message_summary_exec(m: &Message) -> (r: Vec<char>)
    ensures
        r@ == message_summary(*m),
{
    let mut out: Vec<char> = Vec::new();
    match m.role {
        Role::User => push_str(&mut out, "User"),
        Role::Assistant => push_str(&mut out, "Assistant"),
        Role::System => push_str(&mut out, "System"),
    }
    push_str(&mut out, ": ");
    let ghost head = out@;
    let ghost v = m.content@.map_values(|b: ContentBlock| block_summary(b));
    let mut i: usize = 0;
    while i < m.content.len()
        invariant
            i <= m.content@.len(),
            v == m.content@.map_values(|b: ContentBlock| block_summary(b)),
            out@ == head + join_with(v.take(i as int), " "@),
        decreases m.content@.len() - i,
    {
        if i > 0 {
            push_str(&mut out, " ");
        }
        let b = block_summary_exec(&m.content[i]);
        push_all(&mut out, b.as_slice());
        assert(v.take(i + 1).drop_last() =~= v.take(i as int));
        assert(v.take(i + 1).last() == b@);
        assert(out@ =~= head + join_with(v.take(i + 1), " "@));
        i = i + 1;
    }
    assert(v.take(v.len() as int) =~= v);
    out
}

/// The text from which `messages` are summarised: one line per message,
/// its role and its blocks.
pub fn format_messages_for_summary(messages: &[Message]) -> (r: String)
    ensures
        r@ == messages_summary(messages@),
{
    let ghost v = messages@.map_values(|m: Message| message_summary(m));
    let mut out: Vec<char> = Vec::new();
    let mut i: usize = 0;
    while i < messages.len()
        invariant
            i <= messages@.len(),
            v == messages@.map_values(|m: Message| message_summary(m)),
            out@ == join_with(v.take(i as int), "\n"@),
        decreases messages@.len() - i,
    {
        if i > 0 {
            push_str(&mut out, "\n");
        }
        let line = message_summary_exec(&messages[i]);
        push_all(&mut out, line.as_slice());
        assert(v.take(i + 1).drop_last() =~= v.take(i as int));
        assert(v.take(i + 1).last() == line@);
        i = i + 1;
    }
    assert(v.take(v.len() as int) =~= v);
    string_from(out.as_slice())
}

/// The request that asks the model to summarise `messages`.
pub fn summary_prompt(messages: &[Message]) -> (r: String)
    ensures
        r@ == "Summarize this conversation segment concisely, preserving key decisions, tool calls, and outcomes:\n\n"@
            + messages_summary(messages@),
{
    let mut out: Vec<char> = Vec::new();
    push_str(
        &mut out,
        "Summarize this conversation segment concisely, preserving key decisions, tool calls, and outcomes:\n\n",
    );
    let f = format_messages_for_summary(messages);
    push_str(&mut out, f.as_str());
    string_from(out.as_slice())
}

/// The index of the first text block of `bs` at or after `i`.
pub open spec fn first_text_from(bs: Seq<ContentBlock>, i: int) -> Option<int>
    decreases bs.len() - i,
{
    if i < 0 || i >= bs.len() {
        None
    } else if bs[i] is Text {
        Some(i)
    } else {
        first_text_from(bs, i + 1)
    }
}

/// The summary in a reply: its first text, or a placeholder.
pub fn summary_text_of(content: &Vec<ContentBlock>) -> (r: String)
    ensures
        match first_text_from(content@, 0) {
            Some(k) => block_view(content@[k]) == BlockView::Text(r@),
            None => r@ == "[Summary generation failed]"@,
        },
{
    let mut i: usize = 0;
    while i < content.len()
        invariant
            i <= content@.len(),
            first_text_from(content@, 0) == first_text_from(content@, i as int),
        decreases content@.len() - i,
    {
        if let ContentBlock::Text { text } = &content[i] {
            return owned(text.as_str());
        }
        i = i + 1;
    }
    owned("[Summary generation failed]")
}

/// Replaces the messages `start..end` by one system message holding the
/// summary `summary`.
pub fn replace_with_summary(messages: &mut Vec<Message>, start: usize, end: usize, summary: &str)
    requires
        start < end <= old(messages)@.len(),
    ensures
        final(messages)@.len() == old(messages)@.len() - (end - start) + 1,
        final(messages)@.take(start as int) == old(messages)@.take(start as int),
        final(messages)@.skip(start + 1) == old(messages)@.skip(end as int),
        is_text_message(final(messages)@[start as int], Role::System, "[Conversation Summary]: "@ + summary@),
{
    let ghost orig = messages@;
    let mut k: usize = start;
    while k < end
        invariant
            start <= k <= end <= orig.len(),
            messages@ == orig.take(start as int) + orig.skip(k as int),
        decreases end - k,
    {
        messages.remove(start);
        assert(orig.take(start as int) + orig.skip(k + 1) =~= (orig.take(start as int) + orig.skip(
            k as int,
        )).remove(start as int));
        k = k + 1;
    }
    let mut text: Vec<char> = Vec::new();
    push_str(&mut text, "[Conversation Summary]: ");
    push_str(&mut text, summary);
    let mut blocks: Vec<ContentBlock> = Vec::new();
    blocks.push(ContentBlock::Text { text: string_from(text.as_slice()) });
    let ghost before = messages@;
    messages.insert(start, Message { role: Role::System, content: blocks });
    assert(messages@.take(start as int) =~= before.take(start as int));
    assert(messages@.skip(start + 1) =~= before.skip(start as int));
    assert(before.take(start as int) =~= orig.take(start as int));
    assert(before.skip(start as int) =~= orig.skip(end as int));
}

/// Keeps the conversation under `max` messages: at `max` or more, the
/// oldest are dropped until `max` remain.
pub fn truncate_to(messages: &mut Vec<Message>, max: usize)
    ensures
        old(messages)@.len() >= max ==> final(messages)@ == old(messages)@.skip(
            old(messages)@.len() - max,
        ),
        old(messages)@.len() < max ==> final(messages)@ == old(messages)@,
{
    let ghost orig = messages@;
    if messages.len() >= max {
        let to_remove = messages.len() - max;
        let mut k: usize = 0;
        assert(orig.skip(0) =~= orig);
        while k < to_remove
            invariant
                k <= to_remove,
                to_remove == orig.len() - max,
                messages@ == orig.skip(k as int),
            decreases to_remove - k,
        {
            messages.remove(0);
            assert(orig.skip(k + 1) =~= orig.skip(k as int).remove(0));
            k = k + 1;
        }
    }
}

/// In a summary a tool's result shows at most its first 100 characters,
/// as they are; a tool's error shows in full.
pub proof fn law_result_summary_bounded(id: String, content: String, is_error: bool)
    ensures
        ({
            let b = block_summary(ContentBlock::ToolResult { tool_use_id: id, content, is_error });
            &&& is_error ==> b == "[Tool error: "@ + content@ + "]"@
            &&& !is_error ==> exists|p: Seq<char>|
                #![trigger p.len()]
                p.len() <= 100 && p.len() == (if content@.len() < 100 { content@.len() as int } else { 100 })
                    && (forall|k: int| 0 <= k < p.len() ==> p[k] == content@[k])
                    && b == "[Tool result: "@ + p + "]"@
        }),
{
    if !is_error {
        let n: int = if content@.len() < 100 { content@.len() as int } else { 100 };
        let p = content@.take(n);
        assert(p.len() == n);
    }
}

} // verus!
