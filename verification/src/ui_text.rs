//! Text layout for the terminal: word wrapping, tab expansion and cursor
//! positions.

use vstd::prelude::*;
use vstd::utf8::{char_is_scalar, encode_scalar, encode_utf8};
use crate::text::lemma_encode_concat;
use crate::text::{
    chars_of, contains, lacks, lemma_lines_fold_lack_newline, lemma_trimmed_end_bounds,
    lemma_words_fold_lack_newline, lines, lines_fold, words_fold, ws_trimmed_end, push_all, replace, replace_all, seq_starts_with, spec_is_whitespace,
    split_lines, split_words, starts_with, string_from, trim, trim_chars, trim_end, trim_end_chars,
    trim_start, trim_start_chars, views, words,
};

verus! {

/// The most terminal events handled in one batch.
pub const MAX_BATCH_SIZE: usize = 1000;

/// How long, in milliseconds, a batch of terminal events may be collected.
pub const BATCH_TIMEOUT_MS: u64 = 10;

/// Cuts a word longer than `width` into pieces of `width` characters: each
/// full piece goes to `wrapped` followed by a newline, and the rest becomes
/// the line in progress.
pub open spec fn split_long(wrapped: Seq<char>, w: Seq<char>, width: nat) -> (Seq<char>, Seq<char>)
    decreases w.len(),
{
    if w.len() <= width || width == 0 {
        (wrapped, w)
    } else {
        split_long(wrapped + w.take(width as int) + seq!['\n'], w.skip(width as int), width)
    }
}

/// Adds the word `w` to the finished text `wrapped` and the line in
/// progress `cur`: the line is finished first when the word does not fit
/// after a space, and a word longer than a line is cut.
pub open spec fn wrap_step(width: nat, wrapped: Seq<char>, cur: Seq<char>, w: Seq<char>) -> (Seq<char>, Seq<char>) {
    let flush = cur.len() > 0 && cur.len() + 1 + w.len() > width;
    let wrapped1 = if flush {
        wrapped + cur + seq!['\n']
    } else {
        wrapped
    };
    let cur1 = if flush {
        Seq::<char>::empty()
    } else {
        cur
    };
    let cur2 = if cur1.len() > 0 {
        cur1.push(' ')
    } else {
        cur1
    };
    if w.len() > width {
        split_long(wrapped1, w, width)
    } else {
        (wrapped1, cur2 + w)
    }
}

/// Lays out the words `ws[i..]` after `wrapped` and `cur`.
pub open spec fn wrap_words(width: nat, ws: Seq<Seq<char>>, i: int, wrapped: Seq<char>, cur: Seq<char>) -> Seq<char>
    decreases ws.len() - i,
{
    if i < 0 || i >= ws.len() {
        if cur.len() > 0 {
            wrapped + cur
        } else {
            wrapped
        }
    } else {
        let (w2, c2) = wrap_step(width, wrapped, cur, ws[i]);
        wrap_words(width, ws, i + 1, w2, c2)
    }
}

/// One line of text wrapped at word boundaries to lines of at most
/// `width` characters, runs of whitespace becoming single spaces.
pub open spec fn spec_wrap_single_line(text: Seq<char>, width: nat) -> Seq<char> {
    wrap_words(width, words(text), 0, seq![], seq![])
}

/// A text that opens or closes a fenced code block.
pub open spec fn is_fence(line: Seq<char>) -> bool {
    seq_starts_with(trim_start(line), "```"@)
}

/// The leading whitespace of a line.
pub open spec fn indent_of(line: Seq<char>) -> Seq<char> {
    line.take(line.len() - trim_start(line).len())
}

/// A line of text wrapped with its indentation kept: the leading
/// whitespace starts the first output line and the words are wrapped in
/// the width left after it. An indentation that leaves no room for a
/// character is not kept.
pub open spec fn wrap_indented(line: Seq<char>, width: nat) -> Seq<char> {
    let ind = indent_of(line);
    if ind.len() < width {
        ind + spec_wrap_single_line(line, (width - ind.len()) as nat)
    } else {
        spec_wrap_single_line(line, width)
    }
}

/// Lays out the lines `ls[i..]` after `acc`; `in_code` tells whether a
/// code block is open.
pub open spec fn wrap_lines(width: nat, ls: Seq<Seq<char>>, i: int, acc: Seq<char>, in_code: bool) -> Seq<char>
    decreases ls.len() - i,
{
    if i < 0 || i >= ls.len() {
        acc
    } else if is_fence(ls[i]) {
        wrap_lines(width, ls, i + 1, acc + ls[i] + seq!['\n'], !in_code)
    } else if in_code {
        wrap_lines(width, ls, i + 1, acc + ls[i] + seq!['\n'], in_code)
    } else if trim(ls[i]).len() == 0 {
        wrap_lines(width, ls, i + 1, acc + seq!['\n'], in_code)
    } else {
        wrap_lines(width, ls, i + 1, acc + wrap_indented(ls[i], width) + seq!['\n'], in_code)
    }
}

/// `text` wrapped line by line: fence lines and the lines of code blocks
/// kept as they are, blank lines kept empty, other lines wrapped with their
/// indentation kept (see `wrap_indented`); trailing whitespace of the whole
/// removed.
pub open spec fn spec_wrap_text(text: Seq<char>, width: nat) -> Seq<char> {
    trim_end(wrap_lines(width, lines(text), 0, seq![], false))
}

/// The characters `s[i..j]` hold no newline.
pub open spec fn newline_free(s: Seq<char>, i: int, j: int) -> bool {
    forall|k: int| i <= k < j ==> s[k] != '\n'
}

/// Every line of `s` (every run of characters without a newline) is at
/// most `width` characters long.
pub open spec fn lines_fit(s: Seq<char>, width: nat) -> bool {
    forall|i: int, j: int|
        0 <= i <= j <= s.len() && #[trigger] newline_free(s, i, j) ==> j - i <= width
}

/// `s` is empty or its last character is a newline.
pub open spec fn ends_line(s: Seq<char>) -> bool {
    s.len() == 0 || s.last() == '\n'
}

fn split_long_exec(wrapped: &mut Vec<char>, w: &[char], width: usize) -> (r: Vec<char>)
    requires
        width >= 1,
    ensures
        (final(wrapped)@, r@) == split_long(old(wrapped)@, w@, width as nat),
{
    let n = w.len();
    let mut start: usize = 0;
    assert(w@.skip(0) =~= w@);
    while n - start > width
        invariant
            width >= 1,
            n == w@.len(),
            start <= w@.len(),
            split_long(old(wrapped)@, w@, width as nat) == split_long(
                wrapped@,
                w@.skip(start as int),
                width as nat,
            ),
        decreases w@.len() - start,
    {
        let ghost rest = w@.skip(start as int);
        let ghost before = wrapped@;
        let mut k: usize = 0;
        while k < width
            invariant
                k <= width,
                n == w@.len(),
                start + width < w@.len(),
                wrapped@ == before + w@.subrange(start as int, start + k),
            decreases width - k,
        {
            wrapped.push(w[start + k]);
            k = k + 1;
            assert(wrapped@ =~= before + w@.subrange(start as int, start + k));
        }
        wrapped.push('\n');
        assert(rest.take(width as int) =~= w@.subrange(start as int, start + width));
        assert(rest.skip(width as int) =~= w@.skip(start + width));
        assert(wrapped@ =~= before + rest.take(width as int) + seq!['\n']);
        assert(split_long(before, rest, width as nat) == split_long(
            before + rest.take(width as int) + seq!['\n'],
            rest.skip(width as int),
            width as nat,
        ));
        start = start + width;
    }
    let r = crate::text::slice_range(w, start, w.len());
    assert(r@ =~= w@.skip(start as int));
    r
}

/// Wraps one line of text at word boundaries to lines of at most `width`
/// characters.
pub fn wrap_single_line(text: &str, width: usize) -> (r: String)
    requires
        width >= 1 || words(text@).len() == 0,
    ensures
        r@ == spec_wrap_single_line(text@, width as nat),
{
    let t = chars_of(text);
    let out = wrap_single_line_chars(t.as_slice(), width);
    string_from(out.as_slice())
}

fn wrap_single_line_chars(text: &[char], width: usize) -> (r: Vec<char>)
    requires
        width >= 1 || words(text@).len() == 0,
    ensures
        r@ == spec_wrap_single_line(text@, width as nat),
{
    let ws = split_words(text);
    let mut wrapped: Vec<char> = Vec::new();
    let mut cur: Vec<char> = Vec::new();
    let mut i: usize = 0;
    while i < ws.len()
        invariant
            width >= 1 || ws@.len() == 0,
            i <= ws@.len(),
            views(ws@) == words(text@),
            spec_wrap_single_line(text@, width as nat) == wrap_words(
                width as nat,
                views(ws@),
                i as int,
                wrapped@,
                cur@,
            ),
        decreases ws@.len() - i,
    {
        let w = ws[i].as_slice();
        assert(w@ == views(ws@)[i as int]);
        let ghost step = wrap_step(width as nat, wrapped@, cur@, w@);
        let ghost flush = cur@.len() > 0 && cur@.len() + 1 + w@.len() > width;
        let ghost old_w = wrapped@;
        let ghost old_c = cur@;
        if cur.len() > 0 && (w.len() >= width || cur.len() > width - 1 - w.len()) {
            push_all(&mut wrapped, cur.as_slice());
            wrapped.push('\n');
            cur = Vec::new();
        }
        let ghost wrapped1 = wrapped@;
        let ghost cur1 = cur@;
        assert(flush ==> cur1 =~= Seq::<char>::empty());
        assert(flush ==> wrapped1 =~= old_w + old_c + seq!['\n']);
        assert(!flush ==> wrapped1 == old_w && cur1 == old_c);
        if w.len() > width {
            cur = split_long_exec(&mut wrapped, w, width);
        } else {
            if cur.len() > 0 {
                cur.push(' ');
            }
            let ghost cur2 = cur@;
            assert(cur2 == if cur1.len() > 0 {
                cur1.push(' ')
            } else {
                cur1
            });
            push_all(&mut cur, w);
            assert(cur@ == cur2 + w@);
        }
        assert((wrapped@, cur@) == step);
        i = i + 1;
    }
    if cur.len() > 0 {
        push_all(&mut wrapped, cur.as_slice());
    }
    wrapped
}

/// A text that ends a line may be followed by any text whose lines fit.
proof fn lemma_fit_concat(a: Seq<char>, b: Seq<char>, width: nat)
    requires
        lines_fit(a, width),
        ends_line(a),
        lines_fit(b, width),
    ensures
        lines_fit(a + b, width),
{
    let n = a.len() as int;
    assert forall|i: int, j: int|
        0 <= i <= j <= (a + b).len() && #[trigger] newline_free(a + b, i, j) implies j - i
        <= width by {
        if i < n && j > n {
            assert((a + b)[n - 1] == '\n');
        } else if j <= n {
            assert forall|k: int| i <= k < j implies a[k] != '\n' by {
                assert((a + b)[k] == a[k]);
            }
            assert(newline_free(a, i, j));
        } else {
            assert forall|k: int| i - n <= k < j - n implies b[k] != '\n' by {
                assert((a + b)[k + n] == b[k]);
            }
            assert(newline_free(b, i - n, j - n));
        }
    }
}

/// A text without newline fits when it is short enough, also followed by
/// a newline.
proof fn lemma_fit_line(c: Seq<char>, width: nat)
    requires
        lacks(c, '\n'),
        c.len() <= width,
    ensures
        lines_fit(c, width),
        lines_fit(c.push('\n'), width),
        ends_line(c.push('\n')),
{
    assert forall|i: int, j: int|
        0 <= i <= j <= c.push('\n').len() && #[trigger] newline_free(c.push('\n'), i, j) implies j
        - i <= width by {
        if j > c.len() {
            assert(c.push('\n')[c.len() as int] == '\n');
        }
    }
}

/// A newline after a text keeps its lines fitting.
proof fn lemma_fit_end_line(s: Seq<char>, width: nat)
    requires
        lines_fit(s, width),
    ensures
        lines_fit(s.push('\n'), width),
        ends_line(s.push('\n')),
{
    assert forall|i: int, j: int|
        0 <= i <= j <= s.push('\n').len() && #[trigger] newline_free(s.push('\n'), i, j) implies j
        - i <= width by {
        if j > s.len() {
            assert(s.push('\n')[s.len() as int] == '\n');
        } else {
            assert forall|k: int| i <= k < j implies s[k] != '\n' by {
                assert(s.push('\n')[k] == s[k]);
            }
            assert(newline_free(s, i, j));
        }
    }
}

/// The finished text and the line in progress of a wrap in progress.
pub open spec fn wrap_state_fits(wrapped: Seq<char>, cur: Seq<char>, width: nat) -> bool {
    &&& ends_line(wrapped)
    &&& lines_fit(wrapped, width)
    &&& lacks(cur, '\n')
    &&& cur.len() <= width
}

proof fn lemma_split_long_fits(wrapped: Seq<char>, w: Seq<char>, width: nat)
    requires
        width >= 1,
        ends_line(wrapped),
        lines_fit(wrapped, width),
        lacks(w, '\n'),
    ensures
        wrap_state_fits(split_long(wrapped, w, width).0, split_long(wrapped, w, width).1, width),
    decreases w.len(),
{
    if w.len() > width {
        let piece = w.take(width as int);
        lemma_fit_line(piece, width);
        lemma_fit_concat(wrapped, piece.push('\n'), width);
        assert(wrapped + piece + seq!['\n'] =~= wrapped + piece.push('\n'));
        assert((wrapped + piece.push('\n')).last() == '\n');
        lemma_split_long_fits(wrapped + piece + seq!['\n'], w.skip(width as int), width);
    }
}

proof fn lemma_wrap_step_fits(width: nat, wrapped: Seq<char>, cur: Seq<char>, w: Seq<char>)
    requires
        width >= 1,
        wrap_state_fits(wrapped, cur, width),
        lacks(w, '\n'),
    ensures
        wrap_state_fits(wrap_step(width, wrapped, cur, w).0, wrap_step(width, wrapped, cur, w).1, width),
{
    let flush = cur.len() > 0 && cur.len() + 1 + w.len() > width;
    if flush {
        lemma_fit_line(cur, width);
        lemma_fit_concat(wrapped, cur.push('\n'), width);
        assert(wrapped + cur + seq!['\n'] =~= wrapped + cur.push('\n'));
        assert((wrapped + cur.push('\n')).last() == '\n');
    }
    let wrapped1 = if flush {
        wrapped + cur + seq!['\n']
    } else {
        wrapped
    };
    if w.len() > width {
        lemma_split_long_fits(wrapped1, w, width);
    } else if !flush && cur.len() > 0 {
        let c2 = cur.push(' ') + w;
        assert forall|k: int| 0 <= k < c2.len() implies c2[k] != '\n' by {
            if k < cur.len() {
                assert(c2[k] == cur[k]);
            } else if k > cur.len() {
                assert(c2[k] == w[k - cur.len() - 1]);
            }
        }
    } else {
        assert(Seq::<char>::empty() + w =~= w);
    }
}

proof fn lemma_wrap_words_fits(width: nat, ws: Seq<Seq<char>>, i: int, wrapped: Seq<char>, cur: Seq<char>)
    requires
        width >= 1,
        wrap_state_fits(wrapped, cur, width),
        forall|k: int| 0 <= k < ws.len() ==> lacks(#[trigger] ws[k], '\n'),
    ensures
        lines_fit(wrap_words(width, ws, i, wrapped, cur), width),
    decreases ws.len() - i,
{
    if i < 0 || i >= ws.len() {
        if cur.len() > 0 {
            lemma_fit_line(cur, width);
            lemma_fit_concat(wrapped, cur, width);
        }
    } else {
        lemma_wrap_step_fits(width, wrapped, cur, ws[i]);
        let (w2, c2) = wrap_step(width, wrapped, cur, ws[i]);
        lemma_wrap_words_fits(width, ws, i + 1, w2, c2);
    }
}

/// Every line that `wrap_single_line` makes is at most `width` characters
/// long.
pub proof fn law_wrapped_lines_fit(text: Seq<char>, width: nat)
    requires
        width >= 1,
    ensures
        lines_fit(spec_wrap_single_line(text, width), width),
{
    lemma_words_fold_lack_newline(text, 0, seq![], seq![]);
    assert(lines_fit(Seq::<char>::empty(), width));
    lemma_wrap_words_fits(width, words(text), 0, seq![], seq![]);
}

/// Some line of `ls[i..]` would be wrapped (neither a fence, nor inside a
/// code block, nor blank).
pub open spec fn wraps_a_line(ls: Seq<Seq<char>>, i: int, in_code: bool) -> bool
    decreases ls.len() - i,
{
    if i < 0 || i >= ls.len() {
        false
    } else if is_fence(ls[i]) {
        wraps_a_line(ls, i + 1, !in_code)
    } else if in_code {
        wraps_a_line(ls, i + 1, in_code)
    } else if trim(ls[i]).len() == 0 {
        wraps_a_line(ls, i + 1, in_code)
    } else {
        true
    }
}

/// Whether `text` has a line that `wrap_text` wraps: one that is neither a
/// fence, nor in a code block, nor blank.
pub fn needs_wrapping(text: &str) -> (r: bool)
    ensures
        r == wraps_a_line(lines(text@), 0, false),
{
    let t = chars_of(text);
    let ls = split_lines(t.as_slice());
    let fence = chars_of("```");
    let mut in_code = false;
    let mut i: usize = 0;
    while i < ls.len()
        invariant
            i <= ls@.len(),
            views(ls@) == lines(text@),
            fence@ == "```"@,
            wraps_a_line(views(ls@), 0, false) == wraps_a_line(views(ls@), i as int, in_code),
        decreases ls@.len() - i,
    {
        let line = ls[i].as_slice();
        let ghost ln = views(ls@)[i as int];
        assert(line@ == ln);
        let ts = trim_start_chars(line);
        if starts_with(ts.as_slice(), fence.as_slice()) {
            assert(is_fence(ln));
            in_code = !in_code;
        } else if in_code {
        } else {
            let tr = trim_chars(line);
            if tr.len() > 0 {
                return true;
            }
        }
        i = i + 1;
    }
    false
}

/// Wraps `text` for a terminal `width` characters wide: each line is
/// wrapped at word boundaries with its indentation kept, while fenced code
/// blocks and blank lines are kept as they are.
pub fn wrap_text(text: &str, width: usize) -> (r: String)
    requires
        width >= 1 || !wraps_a_line(lines(text@), 0, false),
    ensures
        r@ == spec_wrap_text(text@, width as nat),
{
    let t = chars_of(text);
    let ls = split_lines(t.as_slice());
    let fence = chars_of("```");
    let mut acc: Vec<char> = Vec::new();
    let mut in_code = false;
    let mut i: usize = 0;
    while i < ls.len()
        invariant
            i <= ls@.len(),
            views(ls@) == lines(text@),
            fence@ == "```"@,
            width >= 1 || !wraps_a_line(views(ls@), i as int, in_code),
            wrap_lines(width as nat, views(ls@), 0, seq![], false) == wrap_lines(
                width as nat,
                views(ls@),
                i as int,
                acc@,
                in_code,
            ),
        decreases ls@.len() - i,
    {
        let line = ls[i].as_slice();
        let ghost ln = views(ls@)[i as int];
        let ghost a0 = acc@;
        let ghost ic = in_code;
        assert(line@ == ln);
        let ts = trim_start_chars(line);
        if starts_with(ts.as_slice(), fence.as_slice()) {
            assert(is_fence(ln));
            in_code = !in_code;
            push_all(&mut acc, line);
            acc.push('\n');
            assert(acc@ =~= a0 + ln + seq!['\n']);
        } else if in_code {
            push_all(&mut acc, line);
            acc.push('\n');
            assert(acc@ =~= a0 + ln + seq!['\n']);
        } else {
            let tr = trim_chars(line);
            if tr.len() == 0 {
                acc.push('\n');
                assert(acc@ =~= a0 + seq!['\n']);
            } else {
                assert(wraps_a_line(views(ls@), i as int, ic));
                proof {
                    crate::text::lemma_trim_start_suffix(ln);
                }
                let k = line.len() - ts.len();
                if k < width {
                    let ind = crate::text::slice_range(line, 0, k);
                    push_all(&mut acc, ind.as_slice());
                    let w = wrap_single_line_chars(line, width - k);
                    push_all(&mut acc, w.as_slice());
                } else {
                    let w = wrap_single_line_chars(line, width);
                    push_all(&mut acc, w.as_slice());
                }
                acc.push('\n');
                assert(acc@ =~= a0 + wrap_indented(ln, width as nat) + seq!['\n']);
            }
        }
        i = i + 1;
    }
    let r = trim_end_chars(acc.as_slice());
    string_from(r.as_slice())
}

/// Every line of `ls[i..]` that is kept as it is (a fence, or a line of a
/// code block) is at most `width` characters long.
pub open spec fn kept_lines_fit(width: nat, ls: Seq<Seq<char>>, i: int, in_code: bool) -> bool
    decreases ls.len() - i,
{
    if i < 0 || i >= ls.len() {
        true
    } else if is_fence(ls[i]) {
        ls[i].len() <= width && kept_lines_fit(width, ls, i + 1, !in_code)
    } else if in_code {
        ls[i].len() <= width && kept_lines_fit(width, ls, i + 1, in_code)
    } else {
        kept_lines_fit(width, ls, i + 1, in_code)
    }
}

proof fn lemma_fit_prefix(s: Seq<char>, m: int, width: nat)
    requires
        lines_fit(s, width),
        0 <= m <= s.len(),
    ensures
        lines_fit(s.subrange(0, m), width),
{
    let t = s.subrange(0, m);
    assert forall|i: int, j: int|
        0 <= i <= j <= t.len() && #[trigger] newline_free(t, i, j) implies j - i <= width by {
        assert forall|k: int| i <= k < j implies s[k] != '\n' by {
            assert(t[k] == s[k]);
        }
        assert(newline_free(s, i, j));
    }
}

/// A prefix without line breaks, followed by text whose lines fit in the
/// width left after it, gives lines that fit in the whole width.
proof fn lemma_fit_after_prefix(a: Seq<char>, b: Seq<char>, m: nat, width: nat)
    requires
        lacks(a, '\n'),
        lines_fit(b, m),
        a.len() + m <= width,
    ensures
        lines_fit(a + b, width),
{
    let n = a.len() as int;
    assert forall|i: int, j: int|
        0 <= i <= j <= (a + b).len() && #[trigger] newline_free(a + b, i, j) implies j - i
        <= width by {
        if j <= n {
        } else if i >= n {
            assert forall|k: int| i - n <= k < j - n implies b[k] != '\n' by {
                assert((a + b)[k + n] == b[k]);
            }
            assert(newline_free(b, i - n, j - n));
        } else {
            assert forall|k: int| 0 <= k < j - n implies b[k] != '\n' by {
                assert((a + b)[k + n] == b[k]);
            }
            assert(newline_free(b, 0, j - n));
        }
    }
}

/// A line wrapped with its indentation kept fits the width.
proof fn lemma_wrap_indented_fits(line: Seq<char>, width: nat)
    requires
        width >= 1,
        lacks(line, '\n'),
    ensures
        lines_fit(wrap_indented(line, width), width),
{
    let ind = indent_of(line);
    crate::text::lemma_trim_start_suffix(line);
    if ind.len() < width {
        let m = (width - ind.len()) as nat;
        law_wrapped_lines_fit(line, m);
        assert forall|k: int| 0 <= k < ind.len() implies ind[k] != '\n' by {
            assert(ind[k] == line[k]);
        }
        lemma_fit_after_prefix(ind, spec_wrap_single_line(line, m), m, width);
    } else {
        law_wrapped_lines_fit(line, width);
    }
}

proof fn lemma_wrap_lines_fits(width: nat, ls: Seq<Seq<char>>, i: int, acc: Seq<char>, in_code: bool)
    requires
        width >= 1,
        ends_line(acc),
        lines_fit(acc, width),
        forall|k: int| 0 <= k < ls.len() ==> lacks(#[trigger] ls[k], '\n'),
        kept_lines_fit(width, ls, i, in_code),
    ensures
        lines_fit(wrap_lines(width, ls, i, acc, in_code), width),
    decreases ls.len() - i,
{
    if 0 <= i < ls.len() {
        let line = ls[i];
        let piece = if is_fence(line) || in_code {
            lemma_fit_line(line, width);
            line.push('\n')
        } else if trim(line).len() == 0 {
            lemma_fit_line(Seq::<char>::empty(), width);
            assert(Seq::<char>::empty().push('\n') =~= seq!['\n']);
            seq!['\n']
        } else {
            lemma_wrap_indented_fits(line, width);
            lemma_fit_end_line(wrap_indented(line, width), width);
            wrap_indented(line, width).push('\n')
        };
        lemma_fit_concat(acc, piece, width);
        assert((acc + piece).last() == '\n');
        if is_fence(line) || in_code {
            assert(acc + line + seq!['\n'] =~= acc + piece);
        } else if trim(line).len() != 0 {
            assert(acc + wrap_indented(line, width) + seq!['\n'] =~= acc + piece);
        }
        let next = if is_fence(line) {
            !in_code
        } else {
            in_code
        };
        lemma_wrap_lines_fits(width, ls, i + 1, acc + piece, next);
    }
}

/// Every line that `wrap_text` makes is at most `width` characters long,
/// provided the lines it keeps as they are (fences and code) are.
pub proof fn law_wrap_text_lines_fit(text: Seq<char>, width: nat)
    requires
        width >= 1,
        kept_lines_fit(width, lines(text), 0, false),
    ensures
        lines_fit(spec_wrap_text(text, width), width),
{
    lemma_lines_fold_lack_newline(text, 0, seq![], seq![]);
    assert(lines_fit(Seq::<char>::empty(), width));
    let all = wrap_lines(width, lines(text), 0, seq![], false);
    lemma_wrap_lines_fits(width, lines(text), 0, seq![], false);
    lemma_trimmed_end_bounds(all, all.len() as int);
    lemma_fit_prefix(all, ws_trimmed_end(all, all.len() as int), width);
}

/// The characters of `s` that are not whitespace, in order.
pub open spec fn visible(s: Seq<char>) -> Seq<char> {
    s.filter(visible_char())
}

/// The test of a character that is not whitespace.
pub open spec fn visible_char() -> spec_fn(char) -> bool {
    |c: char| !spec_is_whitespace(c)
}

/// No character of `s` is whitespace.
pub open spec fn all_visible(s: Seq<char>) -> bool {
    forall|k: int| 0 <= k < s.len() ==> !spec_is_whitespace(#[trigger] s[k])
}

proof fn lemma_visible_add(a: Seq<char>, b: Seq<char>)
    ensures
        visible(a + b) == visible(a) + visible(b),
{
    Seq::filter_distributes_over_add(a, b, visible_char());
}

proof fn lemma_visible_single(c: char)
    ensures
        visible(seq![c]) == if spec_is_whitespace(c) {
            Seq::<char>::empty()
        } else {
            seq![c]
        },
{
    reveal_with_fuel(Seq::filter, 2);
    assert(seq![c].drop_last() =~= Seq::<char>::empty());
    assert(seq![c].last() == c);
    assert(Seq::<char>::empty().filter(visible_char()) =~= Seq::<char>::empty());
    assert(Seq::<char>::empty().push(c) =~= seq![c]);
}

proof fn lemma_visible_empty()
    ensures
        visible(Seq::<char>::empty()) == Seq::<char>::empty(),
{
    reveal_with_fuel(Seq::filter, 1);
}

proof fn lemma_visible_of_visible(s: Seq<char>)
    requires
        all_visible(s),
    ensures
        visible(s) == s,
    decreases s.len(),
{
    if s.len() == 0 {
        lemma_visible_empty();
        assert(s =~= Seq::<char>::empty());
    } else {
        let init = s.drop_last();
        assert(all_visible(init)) by {
            assert forall|k: int| 0 <= k < init.len() implies !spec_is_whitespace(#[trigger] init[k]) by {
                assert(init[k] == s[k]);
            }
        }
        lemma_visible_of_visible(init);
        assert(s =~= init + seq![s.last()]);
        lemma_visible_add(init, seq![s.last()]);
        lemma_visible_single(s.last());
        assert(!spec_is_whitespace(s[s.len() - 1]));
    }
}

/// A word: characters that are not whitespace, at least one.
pub open spec fn is_word(w: Seq<char>) -> bool {
    w.len() > 0 && all_visible(w)
}

/// The words that `words_fold` completes hold no whitespace, and together
/// they are the characters of the text that are not whitespace.
proof fn lemma_words_fold_visible(s: Seq<char>, i: int, cur: Seq<char>, acc: Seq<Seq<char>>)
    requires
        0 <= i <= s.len(),
        all_visible(cur),
        forall|k: int| 0 <= k < acc.len() ==> is_word(#[trigger] acc[k]),
    ensures
        words_fold(s, i, cur, acc).flatten() == acc.flatten() + cur + visible(s.skip(i)),
        forall|k: int|
            0 <= k < words_fold(s, i, cur, acc).len() ==> is_word(
                #[trigger] words_fold(s, i, cur, acc)[k],
            ),
    decreases s.len() - i,
{
    if i >= s.len() {
        assert(s.skip(i) =~= Seq::<char>::empty());
        lemma_visible_empty();
        if cur.len() > 0 {
            acc.lemma_flatten_push(cur);
            assert forall|k: int| 0 <= k < acc.push(cur).len() implies is_word(
                #[trigger] acc.push(cur)[k],
            ) by {
                if k < acc.len() {
                    assert(acc.push(cur)[k] == acc[k]);
                }
            }
            assert(acc.push(cur).flatten() =~= acc.flatten() + cur + Seq::<char>::empty());
        } else {
            assert(cur =~= Seq::<char>::empty());
            assert(acc.flatten() =~= acc.flatten() + cur + Seq::<char>::empty());
        }
    } else {
        let c = s[i];
        assert(s.skip(i) =~= seq![c] + s.skip(i + 1));
        lemma_visible_add(seq![c], s.skip(i + 1));
        lemma_visible_single(c);
        if spec_is_whitespace(c) {
            let acc2 = if cur.len() > 0 {
                acc.push(cur)
            } else {
                acc
            };
            if cur.len() > 0 {
                acc.lemma_flatten_push(cur);
                assert forall|k: int| 0 <= k < acc2.len() implies is_word(#[trigger] acc2[k]) by {
                    if k < acc.len() {
                        assert(acc2[k] == acc[k]);
                    }
                }
            } else {
                assert(cur =~= Seq::<char>::empty());
            }
            assert(acc2.flatten() =~= acc.flatten() + cur);
            assert(all_visible(Seq::<char>::empty()));
            lemma_words_fold_visible(s, i + 1, seq![], acc2);
            assert(words_fold(s, i, cur, acc) == words_fold(s, i + 1, seq![], acc2));
            assert(acc2.flatten() + Seq::<char>::empty() + visible(s.skip(i + 1)) =~= acc.flatten() + cur
                + visible(s.skip(i)));
        } else {
            let cur2 = cur.push(c);
            assert(all_visible(cur2)) by {
                assert forall|k: int| 0 <= k < cur2.len() implies !spec_is_whitespace(#[trigger] cur2[k]) by {
                    if k < cur.len() {
                        assert(cur2[k] == cur[k]);
                    }
                }
            }
            lemma_words_fold_visible(s, i + 1, cur2, acc);
            assert(words_fold(s, i, cur, acc) == words_fold(s, i + 1, cur2, acc));
            assert(acc.flatten() + cur2 + visible(s.skip(i + 1)) =~= acc.flatten() + cur + visible(
                s.skip(i),
            ));
        }
    }
}

proof fn lemma_split_long_visible(wrapped: Seq<char>, w: Seq<char>, width: nat)
    requires
        all_visible(w),
    ensures
        visible(split_long(wrapped, w, width).0) + split_long(wrapped, w, width).1 == visible(wrapped)
            + w,
        all_visible(split_long(wrapped, w, width).1),
    decreases w.len(),
{
    if w.len() <= width || width == 0 {
    } else {
        let head = w.take(width as int);
        let rest = w.skip(width as int);
        assert(all_visible(head)) by {
            assert forall|k: int| 0 <= k < head.len() implies !spec_is_whitespace(#[trigger] head[k]) by {
                assert(head[k] == w[k]);
            }
        }
        assert(all_visible(rest)) by {
            assert forall|k: int| 0 <= k < rest.len() implies !spec_is_whitespace(#[trigger] rest[k]) by {
                assert(rest[k] == w[k + width]);
            }
        }
        lemma_visible_add(wrapped + head, seq!['\n']);
        lemma_visible_add(wrapped, head);
        lemma_visible_single('\n');
        lemma_visible_of_visible(head);
        lemma_split_long_visible(wrapped + head + seq!['\n'], rest, width);
        assert(w =~= head + rest);
        assert(visible(wrapped + head + seq!['\n']) =~= visible(wrapped) + head);
    }
}

proof fn lemma_wrap_step_visible(width: nat, wrapped: Seq<char>, cur: Seq<char>, w: Seq<char>)
    requires
        all_visible(w),
    ensures
        visible(wrap_step(width, wrapped, cur, w).0) + visible(wrap_step(width, wrapped, cur, w).1)
            == visible(wrapped) + visible(cur) + w,
{
    let flush = cur.len() > 0 && cur.len() + 1 + w.len() > width;
    let wrapped1 = if flush {
        wrapped + cur + seq!['\n']
    } else {
        wrapped
    };
    let cur1 = if flush {
        Seq::<char>::empty()
    } else {
        cur
    };
    let cur2 = if cur1.len() > 0 {
        cur1.push(' ')
    } else {
        cur1
    };
    lemma_visible_single('\n');
    lemma_visible_single(' ');
    lemma_visible_empty();
    if flush {
        lemma_visible_add(wrapped + cur, seq!['\n']);
        lemma_visible_add(wrapped, cur);
        assert(visible(wrapped1) =~= visible(wrapped) + visible(cur));
    }
    if cur1.len() > 0 {
        assert(cur2 =~= cur1 + seq![' ']);
        lemma_visible_add(cur1, seq![' ']);
        assert(visible(cur2) =~= visible(cur1));
    }
    assert(visible(wrapped1) + visible(cur2) =~= visible(wrapped) + visible(cur));
    lemma_visible_of_visible(w);
    if w.len() > width {
        lemma_split_long_visible(wrapped1, w, width);
        lemma_visible_of_visible(split_long(wrapped1, w, width).1);
    } else {
        lemma_visible_add(cur2, w);
    }
}

proof fn lemma_wrap_words_visible(width: nat, ws: Seq<Seq<char>>, i: int, wrapped: Seq<char>, cur: Seq<char>)
    requires
        0 <= i <= ws.len(),
        forall|k: int| 0 <= k < ws.len() ==> all_visible(#[trigger] ws[k]),
    ensures
        visible(wrap_words(width, ws, i, wrapped, cur)) == visible(wrapped) + visible(cur) + ws.skip(
            i,
        ).flatten(),
    decreases ws.len() - i,
{
    if i >= ws.len() {
        assert(ws.skip(i) =~= Seq::<Seq<char>>::empty());
        assert(ws.skip(i).flatten() =~= Seq::<char>::empty());
        if cur.len() > 0 {
            lemma_visible_add(wrapped, cur);
        } else {
            assert(cur =~= Seq::<char>::empty());
            lemma_visible_empty();
        }
        assert(visible(wrap_words(width, ws, i, wrapped, cur)) =~= visible(wrapped) + visible(cur)
            + ws.skip(i).flatten());
    } else {
        let w = ws[i];
        let step = wrap_step(width, wrapped, cur, w);
        lemma_wrap_step_visible(width, wrapped, cur, w);
        lemma_wrap_words_visible(width, ws, i + 1, step.0, step.1);
        assert(ws.skip(i).first() == w);
        assert(ws.skip(i).drop_first() =~= ws.skip(i + 1));
        assert(ws.skip(i).flatten() == w + ws.skip(i + 1).flatten());
        assert(visible(wrap_words(width, ws, i, wrapped, cur)) =~= visible(wrapped) + visible(cur)
            + ws.skip(i).flatten());
    }
}

/// No two spaces follow each other in `s`.
pub open spec fn single_spaced(s: Seq<char>) -> bool {
    forall|k: int| 0 <= k && k + 1 < s.len() ==> !(#[trigger] s[k] == ' ' && s[k + 1] == ' ')
}

/// Finished lines: single spaced, and empty or ending with a line break.
pub open spec fn finished_ok(s: Seq<char>) -> bool {
    single_spaced(s) && (s.len() == 0 || s.last() == '\n')
}

/// A line in progress: single spaced and neither starting nor ending with
/// a space.
pub open spec fn line_ok(s: Seq<char>) -> bool {
    s.len() == 0 || (single_spaced(s) && s[0] != ' ' && s.last() != ' ')
}

proof fn lemma_single_spaced_concat(a: Seq<char>, b: Seq<char>)
    requires
        single_spaced(a),
        single_spaced(b),
        a.len() == 0 || b.len() == 0 || a.last() != ' ' || b[0] != ' ',
    ensures
        single_spaced(a + b),
{
    assert forall|k: int| 0 <= k && k + 1 < (a + b).len() implies !(#[trigger] (a + b)[k] == ' ' && (a
        + b)[k + 1] == ' ') by {
        if k + 1 < a.len() {
            assert((a + b)[k] == a[k]);
            assert((a + b)[k + 1] == a[k + 1]);
        } else if k >= a.len() {
            assert((a + b)[k] == b[k - a.len()]);
            assert((a + b)[k + 1] == b[k + 1 - a.len()]);
        } else {
            assert((a + b)[k] == a.last());
            assert((a + b)[k + 1] == b[0]);
        }
    }
}

proof fn lemma_word_line_ok(w: Seq<char>)
    requires
        is_word(w),
    ensures
        line_ok(w),
{
    assert(!spec_is_whitespace(w[0]));
    assert(!spec_is_whitespace(w[w.len() - 1]));
    assert forall|k: int| 0 <= k && k + 1 < w.len() implies !(#[trigger] w[k] == ' ' && w[k + 1] == ' ') by {
        assert(!spec_is_whitespace(w[k]));
    }
}

proof fn lemma_split_long_spaced(wrapped: Seq<char>, w: Seq<char>, width: nat)
    requires
        finished_ok(wrapped),
        is_word(w),
    ensures
        finished_ok(split_long(wrapped, w, width).0),
        is_word(split_long(wrapped, w, width).1),
    decreases w.len(),
{
    if w.len() <= width || width == 0 {
    } else {
        let head = w.take(width as int);
        let rest = w.skip(width as int);
        assert(is_word(head)) by {
            assert forall|k: int| 0 <= k < head.len() implies !spec_is_whitespace(#[trigger] head[k]) by {
                assert(head[k] == w[k]);
            }
        }
        assert(is_word(rest)) by {
            assert forall|k: int| 0 <= k < rest.len() implies !spec_is_whitespace(#[trigger] rest[k]) by {
                assert(rest[k] == w[k + width]);
            }
        }
        lemma_word_line_ok(head);
        lemma_single_spaced_concat(wrapped, head);
        assert(single_spaced(seq!['\n']));
        lemma_single_spaced_concat(wrapped + head, seq!['\n']);
        let w2 = wrapped + head + seq!['\n'];
        assert(w2.last() == '\n');
        lemma_split_long_spaced(w2, rest, width);
    }
}

proof fn lemma_wrap_step_spaced(width: nat, wrapped: Seq<char>, cur: Seq<char>, w: Seq<char>)
    requires
        finished_ok(wrapped),
        line_ok(cur),
        is_word(w),
    ensures
        finished_ok(wrap_step(width, wrapped, cur, w).0),
        line_ok(wrap_step(width, wrapped, cur, w).1),
{
    let flush = cur.len() > 0 && cur.len() + 1 + w.len() > width;
    let wrapped1 = if flush {
        wrapped + cur + seq!['\n']
    } else {
        wrapped
    };
    let cur1 = if flush {
        Seq::<char>::empty()
    } else {
        cur
    };
    let cur2 = if cur1.len() > 0 {
        cur1.push(' ')
    } else {
        cur1
    };
    assert(single_spaced(seq!['\n']));
    assert(single_spaced(seq![' ']));
    if flush {
        lemma_single_spaced_concat(wrapped, cur);
        lemma_single_spaced_concat(wrapped + cur, seq!['\n']);
        assert((wrapped + cur + seq!['\n']).last() == '\n');
    }
    assert(finished_ok(wrapped1));
    lemma_word_line_ok(w);
    if w.len() > width {
        lemma_split_long_spaced(wrapped1, w, width);
        lemma_word_line_ok(split_long(wrapped1, w, width).1);
    } else {
        if cur1.len() > 0 {
            assert(cur2 =~= cur1 + seq![' ']);
            lemma_single_spaced_concat(cur1, seq![' ']);
            assert(cur2.last() == ' ');
            assert(w[0] != ' ');
            lemma_single_spaced_concat(cur2, w);
            assert((cur2 + w)[0] == cur1[0]);
            assert((cur2 + w).last() == w.last());
        } else {
            assert(cur2 + w =~= w);
        }
    }
}

proof fn lemma_wrap_words_spaced(width: nat, ws: Seq<Seq<char>>, i: int, wrapped: Seq<char>, cur: Seq<char>)
    requires
        0 <= i <= ws.len(),
        forall|k: int| 0 <= k < ws.len() ==> is_word(#[trigger] ws[k]),
        finished_ok(wrapped),
        line_ok(cur),
    ensures
        single_spaced(wrap_words(width, ws, i, wrapped, cur)),
    decreases ws.len() - i,
{
    if i >= ws.len() {
        if cur.len() > 0 {
            lemma_single_spaced_concat(wrapped, cur);
        }
    } else {
        let step = wrap_step(width, wrapped, cur, ws[i]);
        lemma_wrap_step_spaced(width, wrapped, cur, ws[i]);
        lemma_wrap_words_spaced(width, ws, i + 1, step.0, step.1);
    }
}

/// A wrapped line never holds two spaces in a row: runs of whitespace in
/// the input become single separators.
pub proof fn law_wrap_single_spaced(text: Seq<char>, width: nat)
    ensures
        single_spaced(spec_wrap_single_line(text, width)),
{
    assert(all_visible(Seq::<char>::empty()));
    lemma_words_fold_visible(text, 0, seq![], seq![]);
    assert(single_spaced(Seq::<char>::empty()));
    lemma_wrap_words_spaced(width, words(text), 0, seq![], seq![]);
}

proof fn lemma_skipped_are_blank(s: Seq<char>, i: int)
    requires
        0 <= i <= s.len(),
    ensures
        forall|k: int| i <= k < crate::text::skip_ws_from(s, i) ==> spec_is_whitespace(#[trigger] s[k]),
    decreases s.len() - i,
{
    if i < s.len() && spec_is_whitespace(s[i]) {
        lemma_skipped_are_blank(s, i + 1);
    }
}

proof fn lemma_visible_blank(s: Seq<char>)
    requires
        forall|k: int| 0 <= k < s.len() ==> spec_is_whitespace(#[trigger] s[k]),
    ensures
        visible(s) == Seq::<char>::empty(),
    decreases s.len(),
{
    if s.len() == 0 {
        lemma_visible_empty();
        assert(s =~= Seq::<char>::empty());
    } else {
        let init = s.drop_last();
        assert forall|k: int| 0 <= k < init.len() implies spec_is_whitespace(#[trigger] init[k]) by {
            assert(init[k] == s[k]);
        }
        lemma_visible_blank(init);
        assert(s =~= init + seq![s.last()]);
        lemma_visible_add(init, seq![s.last()]);
        lemma_visible_single(s.last());
        assert(spec_is_whitespace(s[s.len() - 1]));
    }
}

/// Wrapping a line for `wrap_text` keeps its indentation when that leaves
/// room for a character: the output starts with the line's leading
/// whitespace and the rest is single spaced. Either way the characters that
/// are not whitespace come out as they went in, in order.
pub proof fn law_wrap_keeps_indent(line: Seq<char>, width: nat)
    ensures
        indent_of(line).len() < width ==> wrap_indented(line, width).take(
            indent_of(line).len() as int,
        ) == indent_of(line) && single_spaced(
            wrap_indented(line, width).skip(indent_of(line).len() as int),
        ),
        visible(wrap_indented(line, width)) == visible(line),
{
    let ind = indent_of(line);
    crate::text::lemma_trim_start_suffix(line);
    lemma_skip_ws_bounds_here(line);
    lemma_skipped_are_blank(line, 0);
    assert forall|k: int| 0 <= k < ind.len() implies spec_is_whitespace(#[trigger] ind[k]) by {
        assert(ind[k] == line[k]);
    }
    lemma_visible_blank(ind);
    if ind.len() < width {
        let m = (width - ind.len()) as nat;
        let w = spec_wrap_single_line(line, m);
        law_wrap_single_spaced(line, m);
        law_wrap_keeps_text(line, m);
        assert((ind + w).take(ind.len() as int) =~= ind);
        assert((ind + w).skip(ind.len() as int) =~= w);
        lemma_visible_add(ind, w);
        assert(visible(ind) + visible(w) =~= visible(w));
    } else {
        law_wrap_keeps_text(line, width);
    }
}

proof fn lemma_skip_ws_bounds_here(s: Seq<char>)
    ensures
        0 <= crate::text::skip_ws_from(s, 0) <= s.len(),
        trim_start(s).len() == s.len() - crate::text::skip_ws_from(s, 0),
{
    crate::text::lemma_trim_start_suffix(s);
    lemma_skip_bounds_rec(s, 0);
}

proof fn lemma_skip_bounds_rec(s: Seq<char>, i: int)
    requires
        0 <= i <= s.len(),
    ensures
        i <= crate::text::skip_ws_from(s, i) <= s.len(),
    decreases s.len() - i,
{
    if i < s.len() && spec_is_whitespace(s[i]) {
        lemma_skip_bounds_rec(s, i + 1);
    }
}

/// Wrapping a line keeps its text: the characters that are not whitespace
/// come out exactly as they went in, in order; only the spacing changes.
pub proof fn law_wrap_keeps_text(text: Seq<char>, width: nat)
    ensures
        visible(spec_wrap_single_line(text, width)) == visible(text),
{
    assert(all_visible(Seq::<char>::empty()));
    lemma_words_fold_visible(text, 0, seq![], seq![]);
    assert(text.skip(0) =~= text);
    assert(Seq::<Seq<char>>::empty().flatten() =~= Seq::<char>::empty());
    lemma_wrap_words_visible(width, words(text), 0, seq![], seq![]);
    assert(words(text).skip(0) =~= words(text));
    lemma_visible_empty();
    assert(visible(spec_wrap_single_line(text, width)) =~= words(text).flatten());
    assert(words(text).flatten() =~= visible(text));
}

/// Replaces each tab of `text` by four spaces.
pub fn sanitize_chars(text: &[char]) -> (r: Vec<char>)
    ensures
        r@ == replace_all(text@, seq!['\t'], seq![' ', ' ', ' ', ' ']),
{
    let mut from: Vec<char> = Vec::new();
    from.push('\t');
    let mut to: Vec<char> = Vec::new();
    to.push(' ');
    to.push(' ');
    to.push(' ');
    to.push(' ');
    assert(from@ =~= seq!['\t']);
    assert(to@ =~= seq![' ', ' ', ' ', ' ']);
    replace(text, from.as_slice(), to.as_slice())
}

/// Replaces each tab of `text` by four spaces, so that the terminal's tab
/// stops cannot indent the following lines.
pub fn sanitize_text(text: &str) -> (r: String)
    ensures
        r@ == replace_all(text@, seq!['\t'], seq![' ', ' ', ' ', ' ']),
{
    let t = chars_of(text);
    let r = sanitize_chars(t.as_slice());
    string_from(r.as_slice())
}

/// The byte offset in `input` of the character at index `char_pos`, or the
/// byte length of `input` when it has no such character.
pub fn char_to_byte_pos(input: &str, char_pos: usize) -> (r: usize)
    ensures
        r == if char_pos < input@.len() {
            encode_utf8(input@.take(char_pos as int)).len()
        } else {
            encode_utf8(input@).len()
        },
{
    let bytes = input.as_bytes();
    let total = bytes.len();
    let cs = chars_of(input);
    let stop = if char_pos < cs.len() {
        char_pos
    } else {
        cs.len()
    };
    let mut pos: usize = 0;
    let mut i: usize = 0;
    assert(cs@.take(0) =~= Seq::<char>::empty());
    assert(encode_utf8(cs@.take(0)) =~= Seq::<u8>::empty());
    while i < stop
        invariant
            i <= stop <= cs@.len(),
            cs@ == input@,
            total == encode_utf8(input@).len(),
            pos == encode_utf8(cs@.take(i as int)).len(),
        decreases stop - i,
    {
        let c = cs[i];
        proof {
            char_is_scalar(c);
            lemma_encode_concat(cs@.take(i as int), seq![c]);
            assert(cs@.take(i + 1) =~= cs@.take(i as int) + seq![c]);
            assert(seq![c].drop_first() =~= Seq::<char>::empty());
            assert(seq![c][0] == c);
            assert(encode_utf8(Seq::<char>::empty()) =~= Seq::<u8>::empty());
            assert(encode_utf8(seq![c]) =~= encode_scalar(c as u32));
            lemma_encode_concat(cs@.take(i + 1), cs@.skip(i + 1));
            assert(cs@.take(i + 1) + cs@.skip(i + 1) =~= cs@);
        }
        let w: usize = if (c as u32) < 0x80 {
            1
        } else if (c as u32) < 0x800 {
            2
        } else if (c as u32) < 0x10000 {
            3
        } else {
            4
        };
        assert(w == encode_scalar(c as u32).len());
        pos = pos + w;
        i = i + 1;
    }
    proof {
        if char_pos >= cs@.len() {
            assert(cs@.take(cs@.len() as int) =~= cs@);
        }
    }
    pos
}

/// The number of characters of `input`.
pub fn input_char_len(input: &str) -> (r: usize)
    ensures
        r == input@.len(),
{
    let cs = chars_of(input);
    cs.len()
}

/// Whether another pending terminal event may be handled in the current
/// batch: fewer than `MAX_BATCH_SIZE` handled and less than
/// `BATCH_TIMEOUT_MS` milliseconds spent.
pub fn batch_may_continue(events_processed: usize, elapsed_ms: u64) -> (r: bool)
    ensures
        r == (events_processed < MAX_BATCH_SIZE && elapsed_ms < BATCH_TIMEOUT_MS),
{
    events_processed < MAX_BATCH_SIZE && elapsed_ms < BATCH_TIMEOUT_MS
}

proof fn lemma_tab_expansion(s: Seq<char>, i: int)
    requires
        0 <= i <= s.len(),
    ensures
        ({
            let r = crate::text::replace_from(s, seq!['\t'], seq![' ', ' ', ' ', ' '], i);
            &&& forall|k: int| 0 <= k < r.len() ==> #[trigger] r[k] != '\t'
            &&& (forall|k: int| i <= k < s.len() ==> #[trigger] s[k] != '\t') ==> r == s.skip(i)
        }),
    decreases s.len() - i,
{
    let tab = seq!['\t'];
    let sp = seq![' ', ' ', ' ', ' '];
    if i < s.len() {
        lemma_tab_expansion(s, i + 1);
        let rest = crate::text::replace_from(s, tab, sp, i + 1);
        let r = crate::text::replace_from(s, tab, sp, i);
        if crate::text::occurs_at(s, tab, i) {
            assert(s.subrange(i, i + 1)[0] == s[i]);
            assert(s[i] == '\t');
            assert(r == sp + rest);
            assert forall|k: int| 0 <= k < r.len() implies #[trigger] r[k] != '\t' by {
                if k >= 4 {
                    assert(r[k] == rest[k - 4]);
                }
            }
        } else {
            assert(s[i] != '\t') by {
                if s[i] == '\t' {
                    assert(s.subrange(i, i + 1) =~= tab);
                }
            }
            assert(r == seq![s[i]] + rest);
            assert forall|k: int| 0 <= k < r.len() implies #[trigger] r[k] != '\t' by {
                if k >= 1 {
                    assert(r[k] == rest[k - 1]);
                }
            }
            if forall|k: int| i <= k < s.len() ==> #[trigger] s[k] != '\t' {
                assert(seq![s[i]] + s.skip(i + 1) =~= s.skip(i));
            }
        }
    } else {
        assert(s.skip(i) =~= Seq::<char>::empty());
    }
}

/// `s` with each tab replaced by four spaces, as `sanitize_text` gives it.
pub open spec fn tabs_expanded(s: Seq<char>) -> Seq<char> {
    replace_all(s, seq!['\t'], seq![' ', ' ', ' ', ' '])
}

/// Sanitized text holds no tab, and text without tabs is left as it is.
pub proof fn law_sanitize_removes_tabs(s: Seq<char>)
    ensures
        forall|k: int| 0 <= k < tabs_expanded(s).len() ==> #[trigger] tabs_expanded(s)[k] != '\t',
        (forall|k: int| 0 <= k < s.len() ==> #[trigger] s[k] != '\t') ==> tabs_expanded(s) == s,
{
    lemma_tab_expansion(s, 0);
    assert(s.skip(0) =~= s);
}

/// The words `ws` joined by single spaces.
pub open spec fn spaced(ws: Seq<Seq<char>>) -> Seq<char>
    decreases ws.len(),
{
    if ws.len() == 0 {
        seq![]
    } else if ws.len() == 1 {
        ws[0]
    } else {
        spaced(ws.drop_last()) + seq![' '] + ws.last()
    }
}

proof fn lemma_spaced_grows(ws: Seq<Seq<char>>, i: int)
    requires
        0 <= i <= ws.len(),
    ensures
        spaced(ws.take(i)).len() <= spaced(ws).len(),
    decreases ws.len() - i,
{
    if i < ws.len() {
        lemma_spaced_grows(ws, i + 1);
        let t = ws.take(i + 1);
        assert(t.drop_last() =~= ws.take(i));
    } else {
        assert(ws.take(i) =~= ws);
    }
}

proof fn lemma_one_line_run(width: nat, ws: Seq<Seq<char>>, i: int)
    requires
        0 <= i <= ws.len(),
        forall|k: int| 0 <= k < ws.len() ==> (#[trigger] ws[k]).len() > 0,
        spaced(ws).len() <= width,
    ensures
        wrap_words(width, ws, i, seq![], spaced(ws.take(i))) == spaced(ws),
    decreases ws.len() - i,
{
    if i < ws.len() {
        let cur = spaced(ws.take(i));
        let w = ws[i];
        let t = ws.take(i + 1);
        assert(t.drop_last() =~= ws.take(i));
        assert(t.last() == w);
        lemma_spaced_grows(ws, i + 1);
        if i == 0 {
            assert(ws.take(0) =~= Seq::<Seq<char>>::empty());
            assert(spaced(t) == w);
            assert(cur.len() == 0);
            assert(Seq::<char>::empty() + w =~= w);
        } else {
            assert(t.len() >= 2);
            assert(spaced(t) == cur + seq![' '] + w);
            assert(cur.push(' ') + w =~= cur + seq![' '] + w);
            assert(ws.take(i).len() >= 1);
            if i == 1 {
                assert(ws.take(i)[0] == ws[0]);
            } else {
                assert(spaced(ws.take(i)) == spaced(ws.take(i).drop_last()) + seq![' '] + ws.take(i).last());
            }
            assert(cur.len() > 0) by {
                if i == 1 {
                    assert(cur == ws[0]);
                } else {
                    assert(ws.take(i).last() == ws[i - 1]);
                }
            }
        }
        assert(w.len() <= width);
        assert(wrap_step(width, seq![], cur, w) == (Seq::<char>::empty(), spaced(t)));
        lemma_one_line_run(width, ws, i + 1);
    } else {
        assert(ws.take(i) =~= ws);
        if spaced(ws).len() > 0 {
            assert(Seq::<char>::empty() + spaced(ws) =~= spaced(ws));
        } else {
            assert(spaced(ws) =~= Seq::<char>::empty());
        }
    }
}

/// A line whose words fit in the width with single spaces between them
/// is not broken: it comes out as those words, single spaced, on one line.
pub proof fn law_short_line_not_broken(text: Seq<char>, width: nat)
    requires
        spaced(words(text)).len() <= width,
    ensures
        spec_wrap_single_line(text, width) == spaced(words(text)),
{
    assert(all_visible(Seq::<char>::empty()));
    lemma_words_fold_visible(text, 0, seq![], seq![]);
    let ws = words(text);
    assert forall|k: int| 0 <= k < ws.len() implies (#[trigger] ws[k]).len() > 0 by {
        assert(is_word(ws[k]));
    }
    assert(ws.take(0) =~= Seq::<Seq<char>>::empty());
    lemma_one_line_run(width, ws, 0);
}

proof fn lemma_split_long_extends(wrapped: Seq<char>, w: Seq<char>, width: nat)
    ensures
        split_long(wrapped, w, width).0.len() >= wrapped.len(),
        split_long(wrapped, w, width).0.take(wrapped.len() as int) == wrapped,
    decreases w.len(),
{
    if !(w.len() <= width || width == 0) {
        let next = wrapped + w.take(width as int) + seq!['\n'];
        lemma_split_long_extends(next, w.skip(width as int), width);
        let r = split_long(next, w.skip(width as int), width).0;
        assert(r.take(wrapped.len() as int) =~= r.take(next.len() as int).take(wrapped.len() as int));
        assert(next.take(wrapped.len() as int) =~= wrapped);
    } else {
        assert(wrapped.take(wrapped.len() as int) =~= wrapped);
    }
}

proof fn lemma_wrap_words_extends(width: nat, ws: Seq<Seq<char>>, i: int, wrapped: Seq<char>, cur: Seq<char>)
    ensures
        wrap_words(width, ws, i, wrapped, cur).len() >= wrapped.len(),
        wrap_words(width, ws, i, wrapped, cur).take(wrapped.len() as int) == wrapped,
    decreases ws.len() - i,
{
    if i < 0 || i >= ws.len() {
        let r = wrap_words(width, ws, i, wrapped, cur);
        if cur.len() > 0 {
            assert((wrapped + cur).take(wrapped.len() as int) =~= wrapped);
        } else {
            assert(wrapped.take(wrapped.len() as int) =~= wrapped);
        }
    } else {
        let w = ws[i];
        let flush = cur.len() > 0 && cur.len() + 1 + w.len() > width;
        let wrapped1 = if flush { wrapped + cur + seq!['\n'] } else { wrapped };
        assert(wrapped1.take(wrapped.len() as int) =~= wrapped);
        let (w2, c2) = wrap_step(width, wrapped, cur, w);
        if w.len() > width {
            lemma_split_long_extends(wrapped1, w, width);
        }
        assert(w2.len() >= wrapped1.len());
        assert(w2.take(wrapped1.len() as int) == wrapped1);
        lemma_wrap_words_extends(width, ws, i + 1, w2, c2);
        let r = wrap_words(width, ws, i + 1, w2, c2);
        assert(r.take(wrapped.len() as int) =~= r.take(w2.len() as int).take(wrapped1.len() as int).take(
            wrapped.len() as int,
        ));
    }
}

proof fn lemma_prefix_run(width: nat, ws: Seq<Seq<char>>, i: int, k: int)
    requires
        0 <= i <= k <= ws.len(),
        forall|j: int| 0 <= j < ws.len() ==> (#[trigger] ws[j]).len() > 0,
        spaced(ws.take(k)).len() <= width,
    ensures
        wrap_words(width, ws, i, seq![], spaced(ws.take(i))) == wrap_words(width, ws, k, seq![], spaced(ws.take(k))),
    decreases k - i,
{
    if i < k {
        let cur = spaced(ws.take(i));
        let w = ws[i];
        let t = ws.take(i + 1);
        assert(t.drop_last() =~= ws.take(i));
        assert(t.last() == w);
        let wk = ws.take(k);
        assert forall|j: int| 0 <= j < wk.len() implies (#[trigger] wk[j]).len() > 0 by {
            assert(wk[j] == ws[j]);
        }
        lemma_spaced_grows(wk, i + 1);
        assert(wk.take(i + 1) =~= t);
        if i == 0 {
            assert(ws.take(0) =~= Seq::<Seq<char>>::empty());
            assert(spaced(t) == w);
            assert(Seq::<char>::empty() + w =~= w);
        } else {
            assert(spaced(t) == cur + seq![' '] + w);
            assert(cur.push(' ') + w =~= cur + seq![' '] + w);
            assert(cur.len() > 0) by {
                if i == 1 {
                    assert(ws.take(i)[0] == ws[0]);
                } else {
                    assert(spaced(ws.take(i)) == spaced(ws.take(i).drop_last()) + seq![' '] + ws.take(i).last());
                    assert(ws.take(i).last() == ws[i - 1]);
                }
            }
        }
        assert(wrap_step(width, seq![], cur, w) == (Seq::<char>::empty(), spaced(t)));
        lemma_prefix_run(width, ws, i + 1, k);
    }
}

/// Lines are filled greedily: when the first `k` words fit on a line and
/// one more would not, the first line is exactly those `k` words, single
/// spaced.
pub proof fn law_first_line_greedy(text: Seq<char>, width: nat, k: int)
    requires
        1 <= k < words(text).len(),
        spaced(words(text).take(k)).len() <= width,
        spaced(words(text).take(k + 1)).len() > width,
    ensures
        ({
            let first = spaced(words(text).take(k));
            let out = spec_wrap_single_line(text, width);
            out.len() > first.len() && out.take(first.len() as int) == first && out[first.len() as int] == '\n'
        }),
{
    assert(all_visible(Seq::<char>::empty()));
    lemma_words_fold_visible(text, 0, seq![], seq![]);
    let ws = words(text);
    assert forall|j: int| 0 <= j < ws.len() implies (#[trigger] ws[j]).len() > 0 by {
        assert(is_word(ws[j]));
    }
    assert(ws.take(0) =~= Seq::<Seq<char>>::empty());
    lemma_prefix_run(width, ws, 0, k);
    let cur = spaced(ws.take(k));
    let w = ws[k];
    let t = ws.take(k + 1);
    assert(t.drop_last() =~= ws.take(k));
    assert(t.last() == w);
    assert(spaced(t) == cur + seq![' '] + w);
    assert(cur.len() > 0) by {
        if k == 1 {
            assert(ws.take(k)[0] == ws[0]);
        } else {
            assert(spaced(ws.take(k)) == spaced(ws.take(k).drop_last()) + seq![' '] + ws.take(k).last());
            assert(ws.take(k).last() == ws[k - 1]);
        }
    }
    let wrapped1 = Seq::<char>::empty() + cur + seq!['\n'];
    let (w2, c2) = wrap_step(width, seq![], cur, w);
    if w.len() > width {
        lemma_split_long_extends(wrapped1, w, width);
    }
    assert(w2.len() >= wrapped1.len() && w2.take(wrapped1.len() as int) == wrapped1);
    lemma_wrap_words_extends(width, ws, k + 1, w2, c2);
    let out = wrap_words(width, ws, k + 1, w2, c2);
    assert(out.take(wrapped1.len() as int) =~= out.take(w2.len() as int).take(wrapped1.len() as int));
    assert(out.take(cur.len() as int) =~= wrapped1.take(cur.len() as int));
    assert(wrapped1.take(cur.len() as int) =~= cur);
    assert(out[cur.len() as int] == out.take(wrapped1.len() as int)[cur.len() as int]);
}

} // verus!
