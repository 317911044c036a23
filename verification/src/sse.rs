//! Decoding a streamed chat completion (server-sent events) into stream
//! events. The application reads the byte chunks from the network and
//! reads each `data:` payload's JSON into an `SseChunk`; the framing and
//! every decision are here.

use vstd::prelude::*;
use crate::text::{
    chars_of, lines, matches_at, occurs_at, owned, push_all, push_str, seq_starts_with, slice_range,
    split_lines, starts_with, string_from, trim, trim_chars, views,
};
use crate::types::{StopReason, TokenUsage};
use crate::wire::{stop_reason_for, stop_reason_of};

verus! {

/// A tool call of a streamed delta: the string fields that were present.
pub struct ToolCallChunk {
    pub id: Option<String>,
    pub name: Option<String>,
    pub arguments: Option<String>,
}

/// The first choice of a streamed chunk.
pub struct ChoiceChunk {
    /// `delta.content`, when it is a string.
    pub content: Option<String>,
    /// `delta.tool_calls`, when it is an array.
    pub tool_calls: Option<Vec<ToolCallChunk>>,
    /// `finish_reason`, when it is a string.
    pub finish_reason: Option<String>,
}

/// The `usage` of a streamed chunk.
pub struct UsageChunk {
    pub prompt_tokens: Option<u64>,
    pub completion_tokens: Option<u64>,
}

/// What the library reads of the JSON of one `data:` payload.
pub struct SseChunk {
    /// `Some` when the chunk has an `error`, with its `message` when that
    /// is a string.
    pub error: Option<Option<String>>,
    /// The first element of `choices`, when `choices` is a non-empty array.
    pub choice: Option<ChoiceChunk>,
    pub usage: Option<UsageChunk>,
}

/// An event of a streamed response.
pub enum StreamEvent {
    TextDelta(String),
    ToolCallStart { id: String, name: String },
    ToolCallDelta { id: String, arguments_delta: String },
    Done { stop_reason: StopReason, usage: TokenUsage },
    Error(String),
}

/// A `StreamEvent` as mathematical values.
pub enum EventView {
    TextDelta(Seq<char>),
    ToolCallStart(Seq<char>, Seq<char>),
    ToolCallDelta(Seq<char>, Seq<char>),
    Done(StopReason, TokenUsage),
    Error(Seq<char>),
}

impl View for StreamEvent {
    type V = EventView;

    open spec fn view(&self) -> EventView {
        match self {
            StreamEvent::TextDelta(t) => EventView::TextDelta(t@),
            StreamEvent::ToolCallStart { id, name } => EventView::ToolCallStart(id@, name@),
            StreamEvent::ToolCallDelta { id, arguments_delta } => EventView::ToolCallDelta(
                id@,
                arguments_delta@,
            ),
            StreamEvent::Done { stop_reason, usage } => EventView::Done(*stop_reason, *usage),
            StreamEvent::Error(e) => EventView::Error(e@),
        }
    }
}

/// The view of an optional event.
pub open spec fn opt_event(e: Option<StreamEvent>) -> Option<EventView> {
    match e {
        Some(v) => Some(v@),
        None => None,
    }
}

/// A tool call being streamed: identifier, name, arguments so far.
pub struct PendingCall {
    pub id: String,
    pub name: String,
    pub arguments: String,
}

/// A pending call as mathematical values.
pub open spec fn call_view(c: PendingCall) -> (Seq<char>, Seq<char>, Seq<char>) {
    (c.id@, c.name@, c.arguments@)
}

/// The decoder: text received but not yet framed, and the tool calls
/// being streamed.
pub struct SseDecoder {
    pub buffer: Vec<char>,
    pub calls: Vec<PendingCall>,
}

/// The first index at or after `i` where `p` occurs in `s`.
pub open spec fn find_from(s: Seq<char>, p: Seq<char>, i: int) -> Option<int>
    decreases s.len() + 1 - i,
{
    if i < 0 || i + p.len() > s.len() {
        None
    } else if occurs_at(s, p, i) {
        Some(i)
    } else {
        find_from(s, p, i + 1)
    }
}

/// The payloads of the `data: ` lines of an event, in order.
pub open spec fn data_lines(ls: Seq<Seq<char>>) -> Seq<Seq<char>>
    decreases ls.len(),
{
    if ls.len() == 0 {
        seq![]
    } else {
        data_lines(ls.drop_last()) + if seq_starts_with(ls.last(), "data: "@) {
            seq![ls.last().skip(6)]
        } else {
            Seq::<Seq<char>>::empty()
        }
    }
}

/// The index of the pending call `id`.
pub open spec fn find_call(calls: Seq<(Seq<char>, Seq<char>, Seq<char>)>, id: Seq<char>, i: int) -> Option<int>
    decreases calls.len() - i,
{
    if i < 0 || i >= calls.len() {
        None
    } else if calls[i].0 == id {
        Some(i)
    } else {
        find_call(calls, id, i + 1)
    }
}

/// The pending calls after the call `id` named `name` starts (a restart
/// replaces the earlier one).
pub open spec fn start_call(calls: Seq<(Seq<char>, Seq<char>, Seq<char>)>, id: Seq<char>, name: Seq<char>) -> Seq<(Seq<char>, Seq<char>, Seq<char>)> {
    match find_call(calls, id, 0) {
        Some(k) => calls.update(k, (id, name, seq![])),
        None => calls.push((id, name, seq![])),
    }
}

/// The tool calls `tcs[i..]` of a delta: the first that starts a call or
/// adds arguments to a pending one gives the event. Arguments without an
/// identifier go to the first pending call.
pub open spec fn tool_calls_step(
    calls: Seq<(Seq<char>, Seq<char>, Seq<char>)>,
    tcs: Seq<ToolCallChunk>,
    i: int,
) -> (Seq<(Seq<char>, Seq<char>, Seq<char>)>, Option<EventView>)
    decreases tcs.len() - i,
{
    if i < 0 || i >= tcs.len() {
        (calls, None)
    } else {
        let tc = tcs[i];
        if tc.id is Some && tc.name is Some {
            (
                start_call(calls, tc.id->0@, tc.name->0@),
                Some(EventView::ToolCallStart(tc.id->0@, tc.name->0@)),
            )
        } else if tc.arguments is Some {
            let tid = match tc.id {
                Some(id) => id@,
                None => if calls.len() > 0 {
                    calls[0].0
                } else {
                    Seq::<char>::empty()
                },
            };
            let args = tc.arguments->0@;
            match find_call(calls, tid, 0) {
                Some(k) => (
                    calls.update(k, (tid, calls[k].1, calls[k].2 + args)),
                    Some(EventView::ToolCallDelta(tid, args)),
                ),
                None => tool_calls_step(calls, tcs, i + 1),
            }
        } else {
            tool_calls_step(calls, tcs, i + 1)
        }
    }
}

/// The token counts of a chunk (missing ones 0, truncated to `u32`).
pub open spec fn usage_of(u: Option<UsageChunk>) -> TokenUsage {
    match u {
        Some(u) => TokenUsage {
            input_tokens: match u.prompt_tokens {
                Some(n) => n as u32,
                None => 0u32,
            },
            output_tokens: match u.completion_tokens {
                Some(n) => n as u32,
                None => 0u32,
            },
        },
        None => TokenUsage { input_tokens: 0, output_tokens: 0 },
    }
}

/// One `data:` payload: `[DONE]` ends the stream; an error chunk reports
/// its message; else the first choice gives a text delta, a tool call
/// event, or the end with its finish reason; anything else (JSON that did
/// not parse included, `chunk` being `None`) gives no event.
pub open spec fn data_step(
    calls: Seq<(Seq<char>, Seq<char>, Seq<char>)>,
    data: Seq<char>,
    chunk: Option<SseChunk>,
) -> (Seq<(Seq<char>, Seq<char>, Seq<char>)>, Option<EventView>) {
    if trim(data) == "[DONE]"@ {
        (
            calls,
            Some(EventView::Done(StopReason::EndTurn, TokenUsage { input_tokens: 0, output_tokens: 0 })),
        )
    } else {
        match chunk {
            None => (calls, None),
            Some(c) => match c.error {
                Some(m) => (
                    calls,
                    Some(
                        EventView::Error(
                            match m {
                                Some(t) => t@,
                                None => "Unknown error"@,
                            },
                        ),
                    ),
                ),
                None => match c.choice {
                    None => (calls, None),
                    Some(ch) => if ch.content is Some && ch.content->0@.len() > 0 {
                        (calls, Some(EventView::TextDelta(ch.content->0@)))
                    } else {
                        let step = match ch.tool_calls {
                            Some(tcs) => tool_calls_step(calls, tcs@, 0),
                            None => (calls, None),
                        };
                        if step.1 is Some {
                            step
                        } else {
                            match ch.finish_reason {
                                Some(f) => (
                                    step.0,
                                    Some(EventView::Done(stop_reason_of(f@), usage_of(c.usage))),
                                ),
                                None => (step.0, None),
                            }
                        }
                    },
                },
            },
        }
    }
}

pub(crate) fn find_call_exec(calls: &Vec<PendingCall>, id: &[char]) -> (r: Option<usize>)
    ensures
        r is Some ==> r->0 < calls@.len(),
        r is Some ==> find_call(calls@.map_values(|c: PendingCall| call_view(c)), id@, 0) == Some(
            r->0 as int,
        ),
        r is None ==> find_call(calls@.map_values(|c: PendingCall| call_view(c)), id@, 0) is None,
{
    let ghost v = calls@.map_values(|c: PendingCall| call_view(c));
    let mut i: usize = 0;
    while i < calls.len()
        invariant
            i <= calls@.len(),
            v == calls@.map_values(|c: PendingCall| call_view(c)),
            find_call(v, id@, 0) == find_call(v, id@, i as int),
        decreases calls@.len() - i,
    {
        let c = chars_of(calls[i].id.as_str());
        if crate::text::chars_eq(c.as_slice(), id) {
            return Some(i);
        }
        i = i + 1;
    }
    None
}

fn copy(s: &String) -> (r: String)
    ensures
        r@ == s@,
{
    owned(s.as_str())
}

impl SseDecoder {
    /// The pending calls as mathematical values.
    pub open spec fn calls_view(&self) -> Seq<(Seq<char>, Seq<char>, Seq<char>)> {
        self.calls@.map_values(|c: PendingCall| call_view(c))
    }

    /// A decoder with nothing received.
    pub fn new() -> (r: SseDecoder)
        ensures
            r.buffer@.len() == 0,
            r.calls@.len() == 0,
    {
        SseDecoder { buffer: Vec::new(), calls: Vec::new() }
    }

    /// Adds received text.
    pub fn push_text(&mut self, text: &str)
        ensures
            final(self).buffer@ == old(self).buffer@ + text@,
            final(self).calls@ == old(self).calls@,
    {
        push_str(&mut self.buffer, text);
    }

    /// Takes the next complete event (the text before the first blank
    /// line) off the buffer, if there is one.
    pub fn next_message(&mut self) -> (r: Option<String>)
        ensures
            final(self).calls@ == old(self).calls@,
            match find_from(old(self).buffer@, "\n\n"@, 0) {
                Some(p) => r is Some && r->0@ == old(self).buffer@.take(p) && final(self).buffer@
                    == old(self).buffer@.skip(p + 2),
                None => r is None && final(self).buffer@ == old(self).buffer@,
            },
    {
        let sep = chars_of("\n\n");
        proof {
            reveal_strlit("\n\n");
        }
        let n = self.buffer.len();
        let mut i: usize = 0;
        while n >= 2 && i <= n - 2
            invariant
                n == self.buffer@.len(),
                self.buffer@ == old(self).buffer@,
                self.calls@ == old(self).calls@,
                sep@ == "\n\n"@,
                sep@.len() == 2,
                i <= n + 1,
                find_from(self.buffer@, sep@, 0) == find_from(self.buffer@, sep@, i as int),
            decreases n + 1 - i,
        {
            if matches_at(self.buffer.as_slice(), sep.as_slice(), i) {
                let message = slice_range(self.buffer.as_slice(), 0, i);
                let rest = slice_range(self.buffer.as_slice(), i + 2, n);
                assert(message@ =~= self.buffer@.take(i as int));
                assert(rest@ =~= self.buffer@.skip(i + 2));
                self.buffer = rest;
                return Some(string_from(message.as_slice()));
            }
            i = i + 1;
        }
        proof {
            if n < 2 {
                assert(find_from(self.buffer@, sep@, i as int) is None);
            }
        }
        None
    }

    /// The payloads of the `data: ` lines of the event `message`.
    pub fn data_payloads(message: &str) -> (r: Vec<String>)
        ensures
            r@.map_values(|s: String| s@) == data_lines(lines(message@)),
    {
        let cs = chars_of(message);
        let ls = split_lines(cs.as_slice());
        let prefix = chars_of("data: ");
        proof {
            reveal_strlit("data: ");
        }
        let ghost v = views(ls@);
        let mut out: Vec<String> = Vec::new();
        let mut i: usize = 0;
        assert(v.take(0) =~= Seq::<Seq<char>>::empty());
        while i < ls.len()
            invariant
                i <= ls@.len(),
                v == views(ls@),
                v == lines(message@),
                prefix@ == "data: "@,
                prefix@.len() == 6,
                out@.map_values(|s: String| s@) == data_lines(v.take(i as int)),
            decreases ls@.len() - i,
        {
            let line = ls[i].as_slice();
            let ghost pre = v.take(i + 1);
            assert(pre.drop_last() =~= v.take(i as int));
            assert(pre.last() == line@);
            if starts_with(line, prefix.as_slice()) {
                let payload = slice_range(line, 6, line.len());
                assert(payload@ =~= line@.skip(6));
                out.push(string_from(payload.as_slice()));
            }
            assert(out@.map_values(|s: String| s@) =~= data_lines(pre));
            i = i + 1;
        }
        assert(v.take(v.len() as int) =~= v);
        out
    }

    fn tool_calls(&mut self, tcs: &Vec<ToolCallChunk>) -> (r: Option<StreamEvent>)
        ensures
            (final(self).calls_view(), opt_event(r)) == tool_calls_step(old(self).calls_view(), tcs@, 0),
            final(self).buffer@ == old(self).buffer@,
    {
        let mut i: usize = 0;
        while i < tcs.len()
            invariant
                i <= tcs@.len(),
                self.buffer@ == old(self).buffer@,
                self.calls@ == old(self).calls@,
                tool_calls_step(old(self).calls_view(), tcs@, 0) == tool_calls_step(
                    old(self).calls_view(),
                    tcs@,
                    i as int,
                ),
            decreases tcs@.len() - i,
        {
            let tc = &tcs[i];
            let ghost cv = self.calls_view();
            if let (Some(idv), Some(namev)) = (&tc.id, &tc.name) {
                let id = copy(idv);
                let name = copy(namev);
                let idc = chars_of(id.as_str());
                let fresh = PendingCall { id: copy(&id), name: copy(&name), arguments: String::new() };
                assert(call_view(fresh) == (id@, name@, Seq::<char>::empty()));
                assert(tool_calls_step(cv, tcs@, i as int) == (
                    start_call(cv, id@, name@),
                    Some(EventView::ToolCallStart(id@, name@)),
                ));
                match find_call_exec(&self.calls, idc.as_slice()) {
                    Some(k) => {
                        assert(find_call(cv, id@, 0) == Some(k as int));
                        self.calls.set(k, fresh);
                        assert(self.calls_view() =~= cv.update(k as int, (id@, name@, seq![])));
                        assert(self.calls_view() == start_call(cv, id@, name@));
                    },
                    None => {
                        assert(find_call(cv, id@, 0) is None);
                        self.calls.push(fresh);
                        assert(self.calls_view() =~= cv.push((id@, name@, seq![])));
                        assert(self.calls_view() == start_call(cv, id@, name@));
                    },
                }
                return Some(StreamEvent::ToolCallStart { id, name });
            }
            if let Some(args) = &tc.arguments {
                let tid: Vec<char> = match &tc.id {
                    Some(id) => chars_of(id.as_str()),
                    None => if self.calls.len() > 0 {
                        chars_of(self.calls[0].id.as_str())
                    } else {
                        Vec::new()
                    },
                };
                assert(!(tc.id is Some && tc.name is Some));
                assert(tid@ == match tc.id {
                    Some(id) => id@,
                    None => if cv.len() > 0 {
                        cv[0].0
                    } else {
                        Seq::<char>::empty()
                    },
                });
                match find_call_exec(&self.calls, tid.as_slice()) {
                    Some(k) => {
                        assert(find_call(cv, tid@, 0) == Some(k as int));
                        let mut joined: Vec<char> = Vec::new();
                        push_str(&mut joined, self.calls[k].arguments.as_str());
                        push_str(&mut joined, args.as_str());
                        let updated = PendingCall {
                            id: string_from(tid.as_slice()),
                            name: copy(&self.calls[k].name),
                            arguments: string_from(joined.as_slice()),
                        };
                        assert(call_view(updated) == (tid@, cv[k as int].1, cv[k as int].2 + args@));
                        assert(tool_calls_step(cv, tcs@, i as int) == (
                            cv.update(k as int, (tid@, cv[k as int].1, cv[k as int].2 + args@)),
                            Some(EventView::ToolCallDelta(tid@, args@)),
                        ));
                        self.calls.set(k, updated);
                        assert(self.calls_view() =~= cv.update(
                            k as int,
                            (tid@, cv[k as int].1, cv[k as int].2 + args@),
                        ));
                        return Some(
                            StreamEvent::ToolCallDelta {
                                id: string_from(tid.as_slice()),
                                arguments_delta: copy(args),
                            },
                        );
                    },
                    None => {},
                }
            }
            i = i + 1;
        }
        None
    }

    /// Handles one `data:` payload `data`, whose JSON the application read
    /// into `chunk` (`None` when it is not JSON): see `data_step`.
    pub fn handle_data(&mut self, data: &str, chunk: Option<SseChunk>) -> (r: Option<StreamEvent>)
        ensures
            (final(self).calls_view(), opt_event(r)) == data_step(old(self).calls_view(), data@, chunk),
            final(self).buffer@ == old(self).buffer@,
    {
        let d = chars_of(data);
        let t = trim_chars(d.as_slice());
        let done = chars_of("[DONE]");
        if crate::text::chars_eq(t.as_slice(), done.as_slice()) {
            return Some(
                StreamEvent::Done {
                    stop_reason: StopReason::EndTurn,
                    usage: TokenUsage { input_tokens: 0, output_tokens: 0 },
                },
            );
        }
        let c = match chunk {
            None => return None,
            Some(c) => c,
        };
        if let Some(m) = &c.error {
            let text = match m {
                Some(t) => copy(t),
                None => owned("Unknown error"),
            };
            return Some(StreamEvent::Error(text));
        }
        let ch = match &c.choice {
            None => return None,
            Some(ch) => ch,
        };
        if let Some(text) = &ch.content {
            if chars_of(text.as_str()).len() > 0 {
                return Some(StreamEvent::TextDelta(copy(text)));
            }
        }
        if let Some(tcs) = &ch.tool_calls {
            let ev = self.tool_calls(tcs);
            if ev.is_some() {
                return ev;
            }
        }
        match &ch.finish_reason {
            Some(f) => {
                let stop_reason = stop_reason_for(f.as_str());
                let usage = match &c.usage {
                    Some(u) => TokenUsage {
                        input_tokens: match u.prompt_tokens {
                            Some(n) => n as u32,
                            None => 0,
                        },
                        output_tokens: match u.completion_tokens {
                            Some(n) => n as u32,
                            None => 0,
                        },
                    },
                    None => TokenUsage { input_tokens: 0, output_tokens: 0 },
                };
                Some(StreamEvent::Done { stop_reason, usage })
            },
            None => None,
        }
    }
}

proof fn lemma_find_call_at(
    calls: Seq<(Seq<char>, Seq<char>, Seq<char>)>,
    id: Seq<char>,
    k: int,
    i: int,
)
    requires
        0 <= i <= k < calls.len(),
        calls[k].0 == id,
        forall|j: int| i <= j < k ==> #[trigger] calls[j].0 != id,
    ensures
        find_call(calls, id, i) == Some(k),
    decreases k - i,
{
    if i < k {
        lemma_find_call_at(calls, id, k, i + 1);
    }
}

proof fn lemma_find_call_none(calls: Seq<(Seq<char>, Seq<char>, Seq<char>)>, id: Seq<char>, i: int)
    requires
        0 <= i,
        forall|j: int| i <= j < calls.len() ==> #[trigger] calls[j].0 != id,
    ensures
        find_call(calls, id, i) is None,
    decreases calls.len() - i,
{
    if i < calls.len() {
        lemma_find_call_none(calls, id, i + 1);
    }
}

/// An argument fragment of a streamed tool call is added to the end of the
/// arguments of the first pending call with its identifier, and to no
/// other call; the fragment is reported for that call.
pub proof fn law_fragment_extends_its_call(
    calls: Seq<(Seq<char>, Seq<char>, Seq<char>)>,
    tcs: Seq<ToolCallChunk>,
    k: int,
)
    requires
        tcs.len() > 0,
        tcs[0].name is None,
        tcs[0].id is Some,
        tcs[0].arguments is Some,
        0 <= k < calls.len(),
        calls[k].0 == tcs[0].id->0@,
        forall|j: int| 0 <= j < k ==> #[trigger] calls[j].0 != tcs[0].id->0@,
    ensures
        ({
            let (after, ev) = tool_calls_step(calls, tcs, 0);
            let id = tcs[0].id->0@;
            let frag = tcs[0].arguments->0@;
            &&& after.len() == calls.len()
            &&& after[k] == (id, calls[k].1, calls[k].2 + frag)
            &&& forall|j: int| 0 <= j < calls.len() && j != k ==> #[trigger] after[j] == calls[j]
            &&& ev == Some(EventView::ToolCallDelta(id, frag))
        }),
{
    lemma_find_call_at(calls, tcs[0].id->0@, k, 0);
}

/// A call that starts with an identifier not yet pending is added after
/// the pending ones with no arguments, the others staying as they are;
/// its start is reported.
pub proof fn law_new_call_appended(calls: Seq<(Seq<char>, Seq<char>, Seq<char>)>, tcs: Seq<ToolCallChunk>)
    requires
        tcs.len() > 0,
        tcs[0].id is Some,
        tcs[0].name is Some,
        forall|j: int| 0 <= j < calls.len() ==> #[trigger] calls[j].0 != tcs[0].id->0@,
    ensures
        ({
            let (after, ev) = tool_calls_step(calls, tcs, 0);
            let id = tcs[0].id->0@;
            let name = tcs[0].name->0@;
            &&& after.len() == calls.len() + 1
            &&& forall|j: int| 0 <= j < calls.len() ==> #[trigger] after[j] == calls[j]
            &&& after[calls.len() as int] == (id, name, Seq::<char>::empty())
            &&& ev == Some(EventView::ToolCallStart(id, name))
        }),
{
    lemma_find_call_none(calls, tcs[0].id->0@, 0);
}

/// `[DONE]` ends the stream; an error chunk reports its message whatever
/// else it holds; text in a chunk is shown as it came. None of these
/// touches the pending tool calls.
pub proof fn law_data_outcomes(calls: Seq<(Seq<char>, Seq<char>, Seq<char>)>, data: Seq<char>, chunk: Option<SseChunk>)
    ensures
        trim(data) == "[DONE]"@ ==> data_step(calls, data, chunk) == (
            calls,
            Some(EventView::Done(StopReason::EndTurn, TokenUsage { input_tokens: 0, output_tokens: 0 })),
        ),
        chunk matches Some(c) ==> (trim(data) != "[DONE]"@ && c.error is Some && c.error->0 is Some
            ==> data_step(calls, data, chunk) == (calls, Some(EventView::Error(c.error->0->0@)))),
        chunk matches Some(c) ==> (trim(data) != "[DONE]"@ && c.error is None && c.choice is Some
            && c.choice->0.content is Some && c.choice->0.content->0@.len() > 0 ==> data_step(
            calls,
            data,
            chunk,
        ) == (calls, Some(EventView::TextDelta(c.choice->0.content->0@)))),
        trim(data) != "[DONE]"@ && chunk is None ==> data_step(calls, data, chunk) == (calls, None::<EventView>),
{
}

/// A call that starts again with the identifier of a pending call takes
/// that call's place with no arguments; the other calls stay. A call with
/// a new identifier is added after the pending ones.
pub proof fn law_start_call(calls: Seq<(Seq<char>, Seq<char>, Seq<char>)>, id: Seq<char>, name: Seq<char>)
    ensures
        forall|k: int|
            0 <= k < calls.len() && calls[k].0 == id && (forall|j: int| 0 <= j < k ==> #[trigger] calls[j].0 != id)
                ==> {
                let after = start_call(calls, id, name);
                &&& after.len() == calls.len()
                &&& after[k] == (id, name, Seq::<char>::empty())
                &&& forall|j: int| 0 <= j < calls.len() && j != k ==> #[trigger] after[j] == calls[j]
            },
        (forall|j: int| 0 <= j < calls.len() ==> #[trigger] calls[j].0 != id) ==> start_call(calls, id, name)
            == calls.push((id, name, Seq::<char>::empty())),
{
    assert forall|k: int|
        0 <= k < calls.len() && calls[k].0 == id && (forall|j: int| 0 <= j < k ==> #[trigger] calls[j].0 != id)
            implies {
            let after = start_call(calls, id, name);
            &&& after.len() == calls.len()
            &&& after[k] == (id, name, Seq::<char>::empty())
            &&& forall|j: int| 0 <= j < calls.len() && j != k ==> #[trigger] after[j] == calls[j]
        } by {
        lemma_find_call_at(calls, id, k, 0);
    }
    if forall|j: int| 0 <= j < calls.len() ==> #[trigger] calls[j].0 != id {
        lemma_find_call_none(calls, id, 0);
    }
}

/// Looking up a pending call finds the first with the identifier, and
/// finds nothing only when no call has it.
pub proof fn law_find_call(calls: Seq<(Seq<char>, Seq<char>, Seq<char>)>, id: Seq<char>)
    ensures
        find_call(calls, id, 0) matches Some(k) ==> 0 <= k < calls.len() && calls[k].0 == id && forall|j: int|
            0 <= j < k ==> #[trigger] calls[j].0 != id,
        find_call(calls, id, 0) is None ==> forall|j: int| 0 <= j < calls.len() ==> #[trigger] calls[j].0 != id,
{
    lemma_find_call_facts(calls, id, 0);
}

proof fn lemma_find_call_facts(calls: Seq<(Seq<char>, Seq<char>, Seq<char>)>, id: Seq<char>, i: int)
    requires
        0 <= i,
    ensures
        find_call(calls, id, i) matches Some(k) ==> i <= k < calls.len() && calls[k].0 == id && forall|j: int|
            i <= j < k ==> #[trigger] calls[j].0 != id,
        find_call(calls, id, i) is None ==> forall|j: int| i <= j < calls.len() ==> #[trigger] calls[j].0 != id,
    decreases calls.len() - i,
{
    if i < calls.len() && calls[i].0 != id {
        lemma_find_call_facts(calls, id, i + 1);
    }
}

} // verus!
