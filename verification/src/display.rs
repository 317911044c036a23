//! What the terminal shows of the agent's updates: the streamed reply
//! gathered until it is complete, the preview of a tool's result, the
//! saved-session notice and where the input line and its cursor go.
//! Writing to the terminal is the application's part.

use vstd::prelude::*;
use vstd::utf8::encode_utf8;
use crate::text::{
    byte_len, byte_prefix, chars_of, has_byte_boundary, lines, owned, push_all, push_str,
    replace_all, split_lines, string_from, trim, trim_chars, views,
};
use crate::ui_text::{sanitize_chars, spec_wrap_text, wrap_text, wraps_a_line};

verus! {

/// The width left for the reply after the "Synthia: " prefix: the terminal
/// width less ten, or zero.
pub fn usable_width(terminal_width: u16) -> (r: usize)
    ensures
        r == if terminal_width >= 10 {
            (terminal_width - 10) as usize
        } else {
            0usize
        },
{
    if terminal_width >= 10 {
        (terminal_width - 10) as usize
    } else {
        0
    }
}

/// A reply being streamed: whether deltas are coming in, and the text so
/// far, shown wrapped once the reply is complete.
pub struct StreamDisplay {
    pub is_streaming: bool,
    pub buffer: Vec<char>,
}

impl StreamDisplay {
    /// Nothing streamed.
    pub fn new() -> (r: StreamDisplay)
        ensures
            !r.is_streaming,
            r.buffer@.len() == 0,
    {
        StreamDisplay { is_streaming: false, buffer: Vec::new() }
    }

    /// A delta of the reply: the first one starts a new buffer (and the
    /// interface shows "Thinking..."; the result says so); every delta is
    /// added to the buffer.
    pub fn delta(&mut self, delta: &str) -> (first: bool)
        ensures
            first == !old(self).is_streaming,
            final(self).is_streaming,
            final(self).buffer@ == (if first {
                Seq::<char>::empty()
            } else {
                old(self).buffer@
            }) + delta@,
    {
        let first = !self.is_streaming;
        if first {
            self.is_streaming = true;
            self.buffer = Vec::new();
        }
        push_str(&mut self.buffer, delta);
        first
    }

    /// Something other than a delta or the end arrived: the reply no
    /// longer streams (its buffer is kept).
    pub fn interrupt(&mut self)
        ensures
            !final(self).is_streaming,
            final(self).buffer@ == old(self).buffer@,
    {
        self.is_streaming = false;
    }

    /// The reply is complete: when it was streaming, the buffered text
    /// wrapped to `width` (to be shown), and the buffer is emptied;
    /// otherwise nothing changes.
    pub fn complete(&mut self, width: usize) -> (r: Option<String>)
        requires
            width >= 1 || !wraps_a_line(lines(old(self).buffer@), 0, false),
        ensures
            old(self).is_streaming ==> r is Some && r->0@ == spec_wrap_text(old(self).buffer@, width as nat)
                && !final(self).is_streaming && final(self).buffer@.len() == 0,
            !old(self).is_streaming ==> r is None && final(self).is_streaming == old(self).is_streaming
                && final(self).buffer@ == old(self).buffer@,
    {
        if !self.is_streaming {
            return None;
        }
        let text = string_from(self.buffer.as_slice());
        let wrapped = wrap_text(text.as_str(), width);
        self.is_streaming = false;
        self.buffer = Vec::new();
        Some(wrapped)
    }
}

/// `s` cut after `n` bytes with `...` added, when it is longer than `n`
/// bytes (and the cut falls between characters).
pub open spec fn cut_bytes_of(s: Seq<char>, n: nat, r: Seq<char>) -> bool {
    if encode_utf8(s).len() > n {
        exists|p: Seq<char>| #![trigger encode_utf8(p)]
            p == s.take(p.len() as int) && encode_utf8(p).len() == n && r == p + "..."@
    } else {
        r == s
    }
}

fn cut_bytes(s: &str, n: usize) -> (r: Vec<char>)
    requires
        encode_utf8(s@).len() > n ==> has_byte_boundary(s@, n as nat),
    ensures
        cut_bytes_of(s@, n as nat, r@),
{
    let cs = chars_of(s);
    if byte_len(s) > n {
        let p = byte_prefix(cs.as_slice(), n);
        let mut m: Vec<char> = Vec::new();
        push_all(&mut m, p.as_slice());
        push_str(&mut m, "...");
        assert(m@ == p@ + "..."@);
        return m;
    }
    cs
}

/// What the screen shows of a tool's result.
pub struct ToolResultPreview {
    /// The command of a bash call, cut at 60 bytes, tabs expanded.
    pub command: Option<String>,
    /// The first five lines of the output, tabs expanded and trimmed.
    pub lines: Vec<String>,
    /// The output has more than five lines or more than 200 bytes.
    pub has_more: bool,
}

/// A line of output as previewed.
pub open spec fn preview_line(l: Seq<char>) -> Seq<char> {
    trim(replace_all(l, seq!['\t'], seq![' ', ' ', ' ', ' ']))
}

/// The preview of a tool result with the call's `command` (if the call
/// had one) and the `output`; a command longer than 60 bytes must be cut
/// between characters.
pub fn tool_result_preview(command: Option<&str>, output: &str) -> (r: ToolResultPreview)
    requires
        command is Some && encode_utf8(command->0@).len() > 60 ==> has_byte_boundary(command->0@, 60),
    ensures
        match command {
            Some(c) => r.command is Some && exists|cut: Seq<char>|
                #[trigger] cut_bytes_of(c@, 60, cut) && r.command->0@ == replace_all(
                    cut,
                    seq!['\t'],
                    seq![' ', ' ', ' ', ' '],
                ),
            None => r.command is None,
        },
        r.lines@.map_values(|l: String| l@) == lines(output@).take(
            if lines(output@).len() < 5 {
                lines(output@).len() as int
            } else {
                5
            },
        ).map_values(|l: Seq<char>| preview_line(l)),
        r.has_more == (lines(output@).len() > 5 || encode_utf8(output@).len() > 200),
{
    let cmd = match command {
        Some(c) => {
            let cut = cut_bytes(c, 60);
            let s = sanitize_chars(cut.as_slice());
            Some(string_from(s.as_slice()))
        },
        None => None,
    };
    let oc = chars_of(output);
    let ls = split_lines(oc.as_slice());
    let ghost v = views(ls@);
    let n = if ls.len() < 5 {
        ls.len()
    } else {
        5
    };
    let mut out: Vec<String> = Vec::new();
    let mut i: usize = 0;
    while i < n
        invariant
            i <= n <= ls@.len(),
            v == views(ls@),
            out@.map_values(|l: String| l@) == v.take(i as int).map_values(
                |l: Seq<char>| preview_line(l),
            ),
        decreases n - i,
    {
        let s = sanitize_chars(ls[i].as_slice());
        let t = trim_chars(s.as_slice());
        let ghost before = out@;
        out.push(string_from(t.as_slice()));
        assert(out@.map_values(|l: String| l@) =~= before.map_values(|l: String| l@).push(
            preview_line(v[i as int]),
        ));
        assert(v.take(i + 1).map_values(|l: Seq<char>| preview_line(l)) =~= v.take(
            i as int,
        ).map_values(|l: Seq<char>| preview_line(l)).push(preview_line(v[i as int])));
        i = i + 1;
    }
    let has_more = ls.len() > 5 || byte_len(output) > 200;
    ToolResultPreview { command: cmd, lines: out, has_more }
}

/// The notice of a saved session: its identifier cut to 20 bytes (the cut
/// must fall between characters).
pub fn session_saved_notice(session_id: &str) -> (r: String)
    requires
        encode_utf8(session_id@).len() > 20 ==> has_byte_boundary(session_id@, 20),
    ensures
        encode_utf8(session_id@).len() <= 20 ==> r@ == "[Session saved: "@ + session_id@ + "]"@,
        encode_utf8(session_id@).len() > 20 ==> exists|p: Seq<char>| #![trigger encode_utf8(p)]
            p == session_id@.take(p.len() as int) && encode_utf8(p).len() == 20 && r@
                == "[Session saved: "@ + p + "]"@,
{
    let cs = chars_of(session_id);
    let mut m: Vec<char> = Vec::new();
    push_str(&mut m, "[Session saved: ");
    if byte_len(session_id) > 20 {
        let p = byte_prefix(cs.as_slice(), 20);
        push_all(&mut m, p.as_slice());
        push_str(&mut m, "]");
        assert(m@ == "[Session saved: "@ + p@ + "]"@);
    } else {
        push_all(&mut m, cs.as_slice());
        push_str(&mut m, "]");
    }
    string_from(m.as_slice())
}

/// The prompt before the input line, "You: ", is this many columns wide.
pub const PROMPT_WIDTH: usize = 5;

/// Where the input line goes on a terminal `width` columns wide: how many
/// rows the prompt and `char_count` characters take, and the column and
/// row (from the first) of the cursor at character `cursor`.
pub fn input_layout(char_count: usize, cursor: usize, width: u16) -> (r: (usize, usize, usize))
    requires
        width >= 1,
        PROMPT_WIDTH + char_count + width <= usize::MAX,
        PROMPT_WIDTH + cursor <= usize::MAX,
    ensures
        r.0 == (PROMPT_WIDTH + char_count + width - 1) / (width as int),
        r.1 == (PROMPT_WIDTH + cursor) % (width as int),
        r.2 == (PROMPT_WIDTH + cursor) / (width as int),
{
    let w = width as usize;
    let total = PROMPT_WIDTH + char_count;
    let lines_needed = (total + w - 1) / w;
    let pos = PROMPT_WIDTH + cursor;
    (lines_needed, pos % w, pos / w)
}

/// How a row of the edit approval box is drawn.
#[derive(Debug, Clone, Copy, PartialEq, Eq, Structural)]
pub enum RowKind {
    /// The top or bottom border, in yellow.
    Border,
    /// A line printed as it is.
    Line,
    /// An added line of the diff, after the box's edge, in green.
    Added,
    /// A removed line, after the edge, in red.
    Removed,
    /// An unchanged line, after the edge, in grey.
    Context,
    /// The accept/reject prompt, after the edge, in cyan.
    Prompt,
}

/// A row of the edit approval box.
pub struct PreviewRow {
    pub text: String,
    pub kind: RowKind,
}

/// The rows as mathematical values.
pub open spec fn rows_view(rows: Seq<PreviewRow>) -> Seq<(Seq<char>, RowKind)> {
    rows.map_values(|r: PreviewRow| (r.text@, r.kind))
}

/// A line of a diff that adds or removes.
pub open spec fn is_change(l: Seq<char>) -> bool {
    l.len() > 0 && (l[0] == '+' || l[0] == '-')
}

/// How many of `ls[..n]` start with `c`.
pub open spec fn count_starting(ls: Seq<Seq<char>>, c: char, n: int) -> nat
    decreases n,
{
    if n <= 0 || n > ls.len() {
        0
    } else {
        count_starting(ls, c, n - 1) + if ls[n - 1].len() > 0 && ls[n - 1][0] == c {
            1nat
        } else {
            0nat
        }
    }
}

/// Lines of context shown around a change.
pub const CONTEXT_LINES: usize = 2;

/// Runs of unchanged lines longer than this are collapsed.
pub const MAX_UNCHANGED: usize = 3;

/// At most this many rows of the diff are shown.
pub const MAX_DIFF_ROWS: usize = 100;

/// Some line of `ls` within two lines of `i` is a change.
pub open spec fn near_change(ls: Seq<Seq<char>>, i: int) -> bool {
    exists|j: int|
        (if i >= 2 {
            i - 2
        } else {
            0
        }) <= j < (if i + 3 <= ls.len() {
            i + 3
        } else {
            ls.len() as int
        }) && #[trigger] is_change(ls[j])
}

/// The index of the first change at or after `i`, or the length.
pub open spec fn next_change(ls: Seq<Seq<char>>, i: int) -> int
    decreases ls.len() - i,
{
    if i < 0 || i >= ls.len() {
        ls.len() as int
    } else if is_change(ls[i]) {
        i
    } else {
        next_change(ls, i + 1)
    }
}

/// The row showing the diff line `l`.
pub open spec fn diff_row(l: Seq<char>) -> (Seq<char>, RowKind) {
    let text = replace_all(l, seq!['\t'], seq![' ', ' ', ' ', ' ']);
    if l.len() > 0 && l[0] == '+' {
        (text, RowKind::Added)
    } else if l.len() > 0 && l[0] == '-' {
        (text, RowKind::Removed)
    } else {
        (text, RowKind::Context)
    }
}

/// The focused diff from line `i`, `shown` rows shown so far: changed
/// lines with two lines of context, longer unchanged runs collapsed, at
/// most 100 rows, and a note of the lines left over.
pub open spec fn focus_rows(ls: Seq<Seq<char>>, i: int, shown: int) -> Seq<(Seq<char>, RowKind)>
    decreases ls.len() - i,
{
    if i < 0 || i >= ls.len() || shown >= MAX_DIFF_ROWS {
        if 0 <= i < ls.len() {
            seq![
                (
                    "\u{2502} ... ("@ + crate::text::decimal((ls.len() - i) as nat)
                        + " more lines not shown) ..."@,
                    RowKind::Line,
                ),
            ]
        } else {
            seq![]
        }
    } else if near_change(ls, i) {
        seq![diff_row(ls[i])] + focus_rows(ls, i + 1, shown + 1)
    } else {
        let next = next_change(ls, i);
        if next - i > MAX_UNCHANGED && i < next <= ls.len() {
            seq![
                (
                    "\u{2502} ... ("@ + crate::text::decimal((next - i) as nat) + " unchanged lines) ..."@,
                    RowKind::Line,
                ),
            ] + focus_rows(ls, next, shown + 1)
        } else {
            seq![(diff_row(ls[i]).0, RowKind::Context)] + focus_rows(ls, i + 1, shown + 1)
        }
    }
}

/// The edit approval box for `diff` to `file_path`.
pub open spec fn approval_rows(file_path: Seq<char>, diff: Seq<char>) -> Seq<(Seq<char>, RowKind)> {
    let ls = lines(diff);
    seq![
        (
            "\u{250c}\u{2500} Edit Preview \u{2500}\u{2500}\u{2500}\u{2500}\u{2500}\u{2500}\u{2500}\u{2500}\u{2500}\u{2500}\u{2500}\u{2500}\u{2500}\u{2500}\u{2500}\u{2500}\u{2500}\u{2500}\u{2500}\u{2500}\u{2500}\u{2500}\u{2500}\u{2500}\u{2500}\u{2500}\u{2500}\u{2500}\u{2500}\u{2500}\u{2500}\u{2500}\u{2500}\u{2500}\u{2500}\u{2500}\u{2500}\u{2500}\u{2500}\u{2500}\u{2510}"@,
            RowKind::Border,
        ),
        ("\u{2502} File: "@ + file_path, RowKind::Line),
        (
            "\u{2502} Changes: +"@ + crate::text::decimal(count_starting(ls, '+', ls.len() as int))
                + " lines, -"@ + crate::text::decimal(count_starting(ls, '-', ls.len() as int))
                + " lines"@,
            RowKind::Line,
        ),
        ("\u{2502}"@, RowKind::Line),
    ] + focus_rows(ls, 0, 0) + seq![
        ("\u{2502}"@, RowKind::Line),
        ("[A]ccept  [R]eject"@, RowKind::Prompt),
        (
            "\u{2514}\u{2500}\u{2500}\u{2500}\u{2500}\u{2500}\u{2500}\u{2500}\u{2500}\u{2500}\u{2500}\u{2500}\u{2500}\u{2500}\u{2500}\u{2500}\u{2500}\u{2500}\u{2500}\u{2500}\u{2500}\u{2500}\u{2500}\u{2500}\u{2500}\u{2500}\u{2500}\u{2500}\u{2500}\u{2500}\u{2500}\u{2500}\u{2500}\u{2500}\u{2500}\u{2500}\u{2500}\u{2500}\u{2500}\u{2500}\u{2500}\u{2500}\u{2500}\u{2500}\u{2500}\u{2500}\u{2500}\u{2500}\u{2500}\u{2500}\u{2500}\u{2500}\u{2500}\u{2500}\u{2500}\u{2500}\u{2518}"@,
            RowKind::Border,
        ),
    ]
}

fn is_change_exec(l: &Vec<char>) -> (r: bool)
    ensures
        r == is_change(l@),
{
    l.len() > 0 && (l[0] == '+' || l[0] == '-')
}

fn near_change_exec(ls: &Vec<Vec<char>>, i: usize) -> (r: bool)
    requires
        i < ls@.len(),
    ensures
        r == near_change(views(ls@), i as int),
{
    let ghost v = views(ls@);
    let start = if i >= 2 {
        i - 2
    } else {
        0
    };
    let end = if ls.len() >= 3 && i <= ls.len() - 3 {
        i + 3
    } else {
        ls.len()
    };
    let mut j = start;
    while j < end
        invariant
            start <= j <= end <= ls@.len(),
            v == views(ls@),
            start == (if i >= 2 {
                i - 2
            } else {
                0
            }),
            end == (if i + 3 <= ls@.len() {
                i + 3
            } else {
                ls@.len() as int
            }),
            forall|k: int| start <= k < j ==> !is_change(#[trigger] v[k]),
        decreases end - j,
    {
        if is_change_exec(&ls[j]) {
            assert(is_change(v[j as int]));
            return true;
        }
        j = j + 1;
    }
    false
}

fn next_change_exec(ls: &Vec<Vec<char>>, i: usize) -> (r: usize)
    requires
        i <= ls@.len(),
    ensures
        r == next_change(views(ls@), i as int),
        i <= r <= ls@.len(),
{
    let mut k = i;
    while k < ls.len() && !is_change_exec(&ls[k])
        invariant
            i <= k <= ls@.len(),
            next_change(views(ls@), i as int) == next_change(views(ls@), k as int),
        decreases ls@.len() - k,
    {
        k = k + 1;
    }
    k
}

fn row(text: Vec<char>, kind: RowKind) -> (r: PreviewRow)
    ensures
        r.text@ == text@,
        r.kind == kind,
{
    PreviewRow { text: string_from(text.as_slice()), kind }
}

fn lit_row(text: &str, kind: RowKind) -> (r: PreviewRow)
    ensures
        r.text@ == text@,
        r.kind == kind,
{
    PreviewRow { text: owned(text), kind }
}

fn push_row(rows: &mut Vec<PreviewRow>, r: PreviewRow)
    ensures
        rows_view(final(rows)@) == rows_view(old(rows)@).push((r.text@, r.kind)),
{
    let ghost before = rows@;
    let ghost rv = (r.text@, r.kind);
    rows.push(r);
    assert(rows_view(rows@) =~= rows_view(before).push(rv));
}

fn diff_row_exec(l: &Vec<char>, context_only: bool) -> (r: PreviewRow)
    ensures
        !context_only ==> (r.text@, r.kind) == diff_row(l@),
        context_only ==> (r.text@, r.kind) == (diff_row(l@).0, RowKind::Context),
{
    let text = sanitize_chars(l.as_slice());
    let kind = if context_only {
        RowKind::Context
    } else if l.len() > 0 && l[0] == '+' {
        RowKind::Added
    } else if l.len() > 0 && l[0] == '-' {
        RowKind::Removed
    } else {
        RowKind::Context
    };
    row(text, kind)
}

fn count_starting_exec(ls: &Vec<Vec<char>>, c: char) -> (r: usize)
    ensures
        r == count_starting(views(ls@), c, ls@.len() as int),
{
    let ghost v = views(ls@);
    let mut n: usize = 0;
    let mut i: usize = 0;
    while i < ls.len()
        invariant
            i <= ls@.len(),
            v == views(ls@),
            n <= i,
            n == count_starting(v, c, i as int),
        decreases ls@.len() - i,
    {
        if ls[i].len() > 0 && ls[i][0] == c {
            n = n + 1;
        }
        i = i + 1;
    }
    n
}

/// The rows of the edit approval box for `diff` to `file_path` (see
/// `approval_rows`).
pub fn edit_approval_rows(file_path: &str, diff: &str) -> (r: Vec<PreviewRow>)
    ensures
        rows_view(r@) == approval_rows(file_path@, diff@),
{
    let dc = chars_of(diff);
    let ls = split_lines(dc.as_slice());
    let ghost v = views(ls@);
    let n = ls.len();
    let adds = count_starting_exec(&ls, '+');
    let dels = count_starting_exec(&ls, '-');
    let mut out: Vec<PreviewRow> = Vec::new();
    push_row(&mut out, lit_row("\u{250c}\u{2500} Edit Preview \u{2500}\u{2500}\u{2500}\u{2500}\u{2500}\u{2500}\u{2500}\u{2500}\u{2500}\u{2500}\u{2500}\u{2500}\u{2500}\u{2500}\u{2500}\u{2500}\u{2500}\u{2500}\u{2500}\u{2500}\u{2500}\u{2500}\u{2500}\u{2500}\u{2500}\u{2500}\u{2500}\u{2500}\u{2500}\u{2500}\u{2500}\u{2500}\u{2500}\u{2500}\u{2500}\u{2500}\u{2500}\u{2500}\u{2500}\u{2500}\u{2510}", RowKind::Border));
    let mut m: Vec<char> = Vec::new();
    push_str(&mut m, "\u{2502} File: ");
    push_str(&mut m, file_path);
    push_row(&mut out, row(m, RowKind::Line));
    let mut c: Vec<char> = Vec::new();
    push_str(&mut c, "\u{2502} Changes: +");
    let da = crate::text::decimal_chars(adds as u64);
    push_all(&mut c, da.as_slice());
    push_str(&mut c, " lines, -");
    let dd = crate::text::decimal_chars(dels as u64);
    push_all(&mut c, dd.as_slice());
    push_str(&mut c, " lines");
    push_row(&mut out, row(c, RowKind::Line));
    push_row(&mut out, lit_row("\u{2502}", RowKind::Line));
    let ghost head = rows_view(out@);
    let mut i: usize = 0;
    let mut shown: usize = 0;
    while i < n && shown < MAX_DIFF_ROWS
        invariant
            n == ls@.len(),
            v == views(ls@),
            i <= n,
            shown <= MAX_DIFF_ROWS,
            rows_view(out@) + focus_rows(v, i as int, shown as int) == head + focus_rows(v, 0, 0),
        decreases n - i,
    {
        let ghost before = rows_view(out@);
        if near_change_exec(&ls, i) {
            push_row(&mut out, diff_row_exec(&ls[i], false));
            assert(before + focus_rows(v, i as int, shown as int) =~= rows_view(out@) + focus_rows(
                v,
                i + 1,
                shown + 1,
            ));
            i = i + 1;
        } else {
            let next = next_change_exec(&ls, i);
            if next - i > MAX_UNCHANGED {
                let mut t: Vec<char> = Vec::new();
                push_str(&mut t, "\u{2502} ... (");
                let d = crate::text::decimal_chars((next - i) as u64);
                push_all(&mut t, d.as_slice());
                push_str(&mut t, " unchanged lines) ...");
                push_row(&mut out, row(t, RowKind::Line));
                assert(before + focus_rows(v, i as int, shown as int) =~= rows_view(out@) + focus_rows(
                    v,
                    next as int,
                    shown + 1,
                ));
                i = next;
            } else {
                push_row(&mut out, diff_row_exec(&ls[i], true));
                assert(before + focus_rows(v, i as int, shown as int) =~= rows_view(out@) + focus_rows(
                    v,
                    i + 1,
                    shown + 1,
                ));
                i = i + 1;
            }
        }
        shown = shown + 1;
    }
    let ghost before = rows_view(out@);
    if i < n {
        let mut t: Vec<char> = Vec::new();
        push_str(&mut t, "\u{2502} ... (");
        let d = crate::text::decimal_chars((n - i) as u64);
        push_all(&mut t, d.as_slice());
        push_str(&mut t, " more lines not shown) ...");
        push_row(&mut out, row(t, RowKind::Line));
    }
    assert(rows_view(out@) =~= head + focus_rows(v, 0, 0));
    push_row(&mut out, lit_row("\u{2502}", RowKind::Line));
    push_row(&mut out, lit_row("[A]ccept  [R]eject", RowKind::Prompt));
    push_row(&mut out, lit_row("\u{2514}\u{2500}\u{2500}\u{2500}\u{2500}\u{2500}\u{2500}\u{2500}\u{2500}\u{2500}\u{2500}\u{2500}\u{2500}\u{2500}\u{2500}\u{2500}\u{2500}\u{2500}\u{2500}\u{2500}\u{2500}\u{2500}\u{2500}\u{2500}\u{2500}\u{2500}\u{2500}\u{2500}\u{2500}\u{2500}\u{2500}\u{2500}\u{2500}\u{2500}\u{2500}\u{2500}\u{2500}\u{2500}\u{2500}\u{2500}\u{2500}\u{2500}\u{2500}\u{2500}\u{2500}\u{2500}\u{2500}\u{2500}\u{2500}\u{2500}\u{2500}\u{2500}\u{2500}\u{2500}\u{2500}\u{2500}\u{2518}", RowKind::Border));
    assert(rows_view(out@) =~= approval_rows(file_path@, diff@));
    out
}

proof fn lemma_all_changes_shown(ls: Seq<Seq<char>>, i: int)
    requires
        0 <= i <= ls.len() <= MAX_DIFF_ROWS,
        forall|k: int| 0 <= k < ls.len() ==> is_change(#[trigger] ls[k]),
    ensures
        focus_rows(ls, i, i).len() == ls.len() - i,
        forall|k: int| 0 <= k < ls.len() - i ==> #[trigger] focus_rows(ls, i, i)[k] == diff_row(ls[i + k]),
    decreases ls.len() - i,
{
    if i < ls.len() {
        assert(is_change(ls[i]));
        assert(near_change(ls, i));
        lemma_all_changes_shown(ls, i + 1);
        let rest = focus_rows(ls, i + 1, i + 1);
        assert(focus_rows(ls, i, i) == seq![diff_row(ls[i])] + rest);
        assert forall|k: int| 0 <= k < ls.len() - i implies #[trigger] focus_rows(ls, i, i)[k] == diff_row(ls[i + k]) by {
            if k > 0 {
                assert(focus_rows(ls, i, i)[k] == rest[k - 1]);
            }
        }
    }
}

/// A diff of at most 100 lines, all of them changes, is shown in full,
/// one row per line in order: added lines as added, removed lines as
/// removed, each with its text (tabs expanded).
pub proof fn law_changes_shown_in_full(ls: Seq<Seq<char>>)
    requires
        ls.len() <= MAX_DIFF_ROWS,
        forall|k: int| 0 <= k < ls.len() ==> is_change(#[trigger] ls[k]),
    ensures
        focus_rows(ls, 0, 0).len() == ls.len(),
        forall|k: int|
            0 <= k < ls.len() ==> (#[trigger] focus_rows(ls, 0, 0)[k]).0 == replace_all(
                ls[k],
                seq!['\t'],
                seq![' ', ' ', ' ', ' '],
            ),
        forall|k: int|
            0 <= k < ls.len() ==> (#[trigger] focus_rows(ls, 0, 0)[k]).1 == if ls[k][0] == '+' {
                RowKind::Added
            } else {
                RowKind::Removed
            },
{
    lemma_all_changes_shown(ls, 0);
    assert forall|k: int| 0 <= k < ls.len() implies (#[trigger] focus_rows(ls, 0, 0)[k]).1 == if ls[k][0] == '+' {
        RowKind::Added
    } else {
        RowKind::Removed
    } by {
        assert(focus_rows(ls, 0, 0)[k] == diff_row(ls[0 + k]));
        assert(is_change(ls[k]));
    }
    assert forall|k: int| 0 <= k < ls.len() implies (#[trigger] focus_rows(ls, 0, 0)[k]).0 == replace_all(
        ls[k],
        seq!['\t'],
        seq![' ', ' ', ' ', ' '],
    ) by {
        assert(focus_rows(ls, 0, 0)[k] == diff_row(ls[0 + k]));
    }
}

} // verus!
