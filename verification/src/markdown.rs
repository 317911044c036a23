//! A small markdown renderer for the terminal: headers, bullet and
//! numbered lists, fenced code, and **bold**, *italic* and `code` inside a
//! line. Lines are returned as styled spans; drawing them is the
//! application's part.

use vstd::prelude::*;
use vstd::utf8::encode_utf8;
use crate::text::{
    byte_len, chars_of, lines, seq_starts_with, slice_range, split_lines, starts_with,
    string_from, trim, trim_chars, trim_start, trim_start_chars, views,
};

verus! {

/// How a span is drawn.
#[derive(Debug, Clone, Copy, PartialEq, Eq, Structural)]
pub enum SpanStyle {
    /// As it is.
    Plain,
    /// Bold.
    Bold,
    /// Italic.
    Italic,
    /// Code: yellow and dim.
    Code,
    /// A top-level header: cyan, bold and underlined.
    Title,
    /// A lower header: cyan and bold.
    Heading,
    /// A list marker: green.
    Marker,
}

/// A piece of a line with its style.
pub struct StyledSpan {
    pub text: String,
    pub style: SpanStyle,
}

/// A span as mathematical values.
pub open spec fn span_view(s: StyledSpan) -> (Seq<char>, SpanStyle) {
    (s.text@, s.style)
}

/// A line as mathematical values.
pub open spec fn line_view(l: Vec<StyledSpan>) -> Seq<(Seq<char>, SpanStyle)> {
    l@.map_values(|s: StyledSpan| span_view(s))
}

/// Where the inline scanner is.
#[derive(Debug, Clone, Copy, PartialEq, Eq, Structural)]
pub enum InlineMode {
    Normal,
    InBold,
    InItalic,
    InCode,
}

/// `acc` with a span of `text` in `style`, unless `text` is empty.
pub open spec fn add_span(acc: Seq<(Seq<char>, SpanStyle)>, text: Seq<char>, style: SpanStyle) -> Seq<(Seq<char>, SpanStyle)> {
    if text.len() > 0 {
        acc.push((text, style))
    } else {
        acc
    }
}

/// The style of the text collected in a mode.
pub open spec fn mode_style(m: InlineMode) -> SpanStyle {
    match m {
        InlineMode::Normal => SpanStyle::Plain,
        InlineMode::InBold => SpanStyle::Bold,
        InlineMode::InItalic => SpanStyle::Italic,
        InlineMode::InCode => SpanStyle::Code,
    }
}

/// `**` starts at `i`.
pub open spec fn double_star_at(s: Seq<char>, i: int) -> bool {
    0 <= i && i + 1 < s.len() && s[i] == '*' && s[i + 1] == '*'
}

/// Scans `s[i..]` in `mode`, with `cur` collected and `acc` done: `**`
/// opens and closes bold, `*` italic, `` ` `` code; an unclosed span ends
/// with the text.
pub open spec fn inline_scan(
    s: Seq<char>,
    i: int,
    mode: InlineMode,
    cur: Seq<char>,
    acc: Seq<(Seq<char>, SpanStyle)>,
) -> Seq<(Seq<char>, SpanStyle)>
    decreases s.len() - i,
{
    if i < 0 || i >= s.len() {
        add_span(acc, cur, mode_style(mode))
    } else {
        match mode {
            InlineMode::Normal => if double_star_at(s, i) {
                inline_scan(s, i + 2, InlineMode::InBold, seq![], add_span(acc, cur, SpanStyle::Plain))
            } else if s[i] == '*' {
                inline_scan(s, i + 1, InlineMode::InItalic, seq![], add_span(acc, cur, SpanStyle::Plain))
            } else if s[i] == '`' {
                inline_scan(s, i + 1, InlineMode::InCode, seq![], add_span(acc, cur, SpanStyle::Plain))
            } else {
                inline_scan(s, i + 1, mode, cur.push(s[i]), acc)
            },
            InlineMode::InBold => if double_star_at(s, i) {
                inline_scan(s, i + 2, InlineMode::Normal, seq![], add_span(acc, cur, SpanStyle::Bold))
            } else {
                inline_scan(s, i + 1, mode, cur.push(s[i]), acc)
            },
            InlineMode::InItalic => if s[i] == '*' {
                inline_scan(s, i + 1, InlineMode::Normal, seq![], add_span(acc, cur, SpanStyle::Italic))
            } else {
                inline_scan(s, i + 1, mode, cur.push(s[i]), acc)
            },
            InlineMode::InCode => if s[i] == '`' {
                inline_scan(s, i + 1, InlineMode::Normal, seq![], add_span(acc, cur, SpanStyle::Code))
            } else {
                inline_scan(s, i + 1, mode, cur.push(s[i]), acc)
            },
        }
    }
}

/// The spans of a line of text; a line that gives no span (empty, or only
/// empty markers) is one plain span of itself.
pub open spec fn inline_spans(s: Seq<char>) -> Seq<(Seq<char>, SpanStyle)> {
    let r = inline_scan(s, 0, InlineMode::Normal, seq![], seq![]);
    if r.len() == 0 {
        seq![(s, SpanStyle::Plain)]
    } else {
        r
    }
}

fn push_span(acc: &mut Vec<StyledSpan>, text: &Vec<char>, style: SpanStyle)
    ensures
        line_view(*final(acc)) == add_span(line_view(*old(acc)), text@, style),
{
    if text.len() > 0 {
        let ghost before = line_view(*acc);
        acc.push(StyledSpan { text: string_from(text.as_slice()), style });
        assert(line_view(*acc) =~= before.push((text@, style)));
    }
}

/// The styled spans of a line of text (see `inline_spans`).
pub fn parse_inline_formatting(text: &[char]) -> (r: Vec<StyledSpan>)
    ensures
        line_view(r) == inline_spans(text@),
{
    let n = text.len();
    let mut acc: Vec<StyledSpan> = Vec::new();
    let mut cur: Vec<char> = Vec::new();
    let mut mode = InlineMode::Normal;
    let mut i: usize = 0;
    assert(line_view(acc) =~= Seq::<(Seq<char>, SpanStyle)>::empty());
    while i < n
        invariant
            n == text@.len(),
            i <= n,
            inline_scan(text@, 0, InlineMode::Normal, seq![], seq![]) == inline_scan(
                text@,
                i as int,
                mode,
                cur@,
                line_view(acc),
            ),
        decreases n - i,
    {
        let c = text[i];
        let double = c == '*' && i + 1 < n && text[i + 1] == '*';
        match mode {
            InlineMode::Normal => {
                if double {
                    push_span(&mut acc, &cur, SpanStyle::Plain);
                    cur = Vec::new();
                    mode = InlineMode::InBold;
                    i = i + 2;
                } else if c == '*' {
                    push_span(&mut acc, &cur, SpanStyle::Plain);
                    cur = Vec::new();
                    mode = InlineMode::InItalic;
                    i = i + 1;
                } else if c == '`' {
                    push_span(&mut acc, &cur, SpanStyle::Plain);
                    cur = Vec::new();
                    mode = InlineMode::InCode;
                    i = i + 1;
                } else {
                    cur.push(c);
                    i = i + 1;
                }
            },
            InlineMode::InBold => {
                if double {
                    push_span(&mut acc, &cur, SpanStyle::Bold);
                    cur = Vec::new();
                    mode = InlineMode::Normal;
                    i = i + 2;
                } else {
                    cur.push(c);
                    i = i + 1;
                }
            },
            InlineMode::InItalic => {
                if c == '*' {
                    push_span(&mut acc, &cur, SpanStyle::Italic);
                    cur = Vec::new();
                    mode = InlineMode::Normal;
                } else {
                    cur.push(c);
                }
                i = i + 1;
            },
            InlineMode::InCode => {
                if c == '`' {
                    push_span(&mut acc, &cur, SpanStyle::Code);
                    cur = Vec::new();
                    mode = InlineMode::Normal;
                } else {
                    cur.push(c);
                }
                i = i + 1;
            },
        }
    }
    let style = match mode {
        InlineMode::Normal => SpanStyle::Plain,
        InlineMode::InBold => SpanStyle::Bold,
        InlineMode::InItalic => SpanStyle::Italic,
        InlineMode::InCode => SpanStyle::Code,
    };
    push_span(&mut acc, &cur, style);
    if acc.len() == 0 {
        acc.push(StyledSpan { text: string_from(text), style: SpanStyle::Plain });
    }
    acc
}

/// Whether `char::is_numeric` holds of `c` (a Unicode number).
pub uninterp spec fn numeric_char(c: char) -> bool;

/// `char::is_numeric`: true for characters of the Unicode number
/// categories, among them the ASCII digits; the rest is named, not
/// described.
#[verifier::external_body]
fn is_numeric(c: char) -> (r: bool)
    ensures
        r == numeric_char(c),
        '0' <= c <= '9' ==> r,
{
    c.is_numeric()
}

/// The leading run of numeric characters of `s`.
pub open spec fn numeric_prefix(s: Seq<char>) -> Seq<char>
    decreases s.len(),
{
    if s.len() > 0 && numeric_char(s[0]) {
        seq![s[0]] + numeric_prefix(s.drop_first())
    } else {
        seq![]
    }
}

/// `n` spaces.
pub open spec fn spaces(n: nat) -> Seq<char> {
    Seq::new(n, |i: int| ' ')
}

/// A line outside code blocks: a header, a bullet or numbered list item
/// (indented by as many spaces as the line's leading whitespace has
/// bytes), or text with inline formatting.
pub open spec fn render_line(l: Seq<char>) -> Seq<(Seq<char>, SpanStyle)> {
    let t = trim_start(l);
    let indent = (encode_utf8(l).len() - encode_utf8(t).len()) as nat;
    if seq_starts_with(l, "# "@) {
        seq![(l.skip(2), SpanStyle::Title)]
    } else if seq_starts_with(l, "## "@) {
        seq![(l.skip(3), SpanStyle::Heading)]
    } else if seq_starts_with(l, "### "@) {
        seq![(l.skip(4), SpanStyle::Heading)]
    } else if seq_starts_with(t, "- "@) || seq_starts_with(t, "* "@) {
        seq![(spaces(indent), SpanStyle::Plain), ("\u{2022} "@, SpanStyle::Marker)] + inline_spans(
            trim(t.skip(2)),
        )
    } else if t.len() > 0 && numeric_char(t[0]) && seq_starts_with(t.skip(1), ". "@) {
        seq![(spaces(indent), SpanStyle::Plain), (numeric_prefix(t) + ". "@, SpanStyle::Marker)]
            + inline_spans(trim(t.skip(3)))
    } else {
        inline_spans(l)
    }
}

/// The lines of a finished code block, indented and styled as code.
pub open spec fn code_lines(pending: Seq<Seq<char>>) -> Seq<Seq<(Seq<char>, SpanStyle)>> {
    pending.map_values(|c: Seq<char>| seq![("  "@ + c, SpanStyle::Code)])
}

/// Renders the lines `ls[i..]`; `pending` holds the lines of an open code
/// block, shown once the block closes (never, if it does not).
pub open spec fn render_from(
    ls: Seq<Seq<char>>,
    i: int,
    in_code: bool,
    pending: Seq<Seq<char>>,
    acc: Seq<Seq<(Seq<char>, SpanStyle)>>,
) -> Seq<Seq<(Seq<char>, SpanStyle)>>
    decreases ls.len() - i,
{
    if i < 0 || i >= ls.len() {
        acc
    } else if seq_starts_with(trim_start(ls[i]), "```"@) {
        if in_code {
            render_from(ls, i + 1, false, seq![], acc + code_lines(pending))
        } else {
            render_from(ls, i + 1, true, pending, acc)
        }
    } else if in_code {
        render_from(ls, i + 1, true, pending.push(ls[i]), acc)
    } else {
        render_from(ls, i + 1, false, pending, acc.push(render_line(ls[i])))
    }
}

/// The rendering of `text`.
pub open spec fn rendered_markdown(text: Seq<char>) -> Seq<Seq<(Seq<char>, SpanStyle)>> {
    render_from(lines(text), 0, false, seq![], seq![])
}

fn lit_span(text: &str, style: SpanStyle) -> (r: StyledSpan)
    ensures
        span_view(r) == (text@, style),
{
    StyledSpan { text: crate::text::owned(text), style }
}

fn chars_span(text: &[char], style: SpanStyle) -> (r: StyledSpan)
    ensures
        span_view(r) == (text@, style),
{
    StyledSpan { text: string_from(text), style }
}

fn spaces_exec(n: usize) -> (r: Vec<char>)
    ensures
        r@ == spaces(n as nat),
{
    let mut v: Vec<char> = Vec::new();
    let mut i: usize = 0;
    while i < n
        invariant
            i <= n,
            v@ == spaces(i as nat),
        decreases n - i,
    {
        v.push(' ');
        i = i + 1;
        assert(v@ =~= spaces(i as nat));
    }
    v
}

fn numeric_prefix_exec(s: &[char]) -> (r: Vec<char>)
    ensures
        r@ == numeric_prefix(s@),
{
    let mut i: usize = 0;
    assert(s@.skip(0) =~= s@);
    assert(s@.take(0) =~= Seq::<char>::empty());
    while i < s.len() && is_numeric(s[i])
        invariant
            i <= s@.len(),
            numeric_prefix(s@) == s@.take(i as int) + numeric_prefix(s@.skip(i as int)),
        decreases s@.len() - i,
    {
        assert(s@.skip(i as int).drop_first() =~= s@.skip(i + 1));
        assert(s@.take(i + 1) =~= s@.take(i as int) + seq![s@[i as int]]);
        i = i + 1;
    }
    assert(numeric_prefix(s@.skip(i as int)) =~= Seq::<char>::empty());
    let r = slice_range(s, 0, i);
    assert(r@ =~= s@.take(i as int));
    r
}

fn append_spans(line: &mut Vec<StyledSpan>, more: Vec<StyledSpan>)
    ensures
        line_view(*final(line)) == line_view(*old(line)) + line_view(more),
{
    let mut more = more;
    let ghost a = line_view(*line);
    let ghost b = line_view(more);
    line.append(&mut more);
    assert(line_view(*line) =~= a + b);
}

fn render_line_exec(l: &[char]) -> (r: Vec<StyledSpan>)
    ensures
        line_view(r) == render_line(l@),
{
    let mut out: Vec<StyledSpan> = Vec::new();
    let h1 = chars_of("# ");
    let h2 = chars_of("## ");
    let h3 = chars_of("### ");
    let dash = chars_of("- ");
    let star = chars_of("* ");
    let dot = chars_of(". ");
    proof {
        reveal_strlit("# ");
        reveal_strlit("## ");
        reveal_strlit("### ");
        reveal_strlit("- ");
        reveal_strlit("* ");
        reveal_strlit(". ");
    }
    if starts_with(l, h1.as_slice()) {
        let rest = slice_range(l, 2, l.len());
        out.push(chars_span(rest.as_slice(), SpanStyle::Title));
        assert(line_view(out) =~= render_line(l@));
        return out;
    }
    if starts_with(l, h2.as_slice()) {
        let rest = slice_range(l, 3, l.len());
        out.push(chars_span(rest.as_slice(), SpanStyle::Heading));
        assert(line_view(out) =~= render_line(l@));
        return out;
    }
    if starts_with(l, h3.as_slice()) {
        let rest = slice_range(l, 4, l.len());
        out.push(chars_span(rest.as_slice(), SpanStyle::Heading));
        assert(line_view(out) =~= render_line(l@));
        return out;
    }
    let t = trim_start_chars(l);
    let line_str = string_from(l);
    let t_str = string_from(t.as_slice());
    let lb = byte_len(line_str.as_str());
    let tb = byte_len(t_str.as_str());
    proof {
        crate::text::lemma_trim_start_suffix(l@);
        crate::text::lemma_encode_concat(l@.take(l@.len() - t@.len()), t@);
        assert(l@.take(l@.len() - t@.len()) + t@ =~= l@);
    }
    let indent = lb - tb;
    if starts_with(t.as_slice(), dash.as_slice()) || starts_with(t.as_slice(), star.as_slice()) {
        let sp = spaces_exec(indent);
        out.push(chars_span(sp.as_slice(), SpanStyle::Plain));
        out.push(lit_span("\u{2022} ", SpanStyle::Marker));
        let rest = slice_range(t.as_slice(), 2, t.len());
        let content = trim_chars(rest.as_slice());
        let spans = parse_inline_formatting(content.as_slice());
        append_spans(&mut out, spans);
        assert(line_view(out) =~= render_line(l@));
        return out;
    }
    if t.len() > 0 && is_numeric(t[0]) {
        let after = slice_range(t.as_slice(), 1, t.len());
        assert(after@ =~= t@.skip(1));
        if starts_with(after.as_slice(), dot.as_slice()) {
            let sp = spaces_exec(indent);
            out.push(chars_span(sp.as_slice(), SpanStyle::Plain));
            let mut label = numeric_prefix_exec(t.as_slice());
            label.push('.');
            label.push(' ');
            assert(label@ =~= numeric_prefix(t@) + ". "@);
            out.push(chars_span(label.as_slice(), SpanStyle::Marker));
            assert(line_view(out) =~= seq![
                (spaces(indent as nat), SpanStyle::Plain),
                (numeric_prefix(t@) + ". "@, SpanStyle::Marker),
            ]);
            let rest = slice_range(t.as_slice(), 3, t.len());
            let content = trim_chars(rest.as_slice());
            let spans = parse_inline_formatting(content.as_slice());
            append_spans(&mut out, spans);
            assert(after@.skip(2) =~= t@.skip(3));
            assert(line_view(out) =~= render_line(l@));
            return out;
        }
    }
    parse_inline_formatting(l)
}

/// Renders `text` as styled lines (see `rendered_markdown`).
pub fn render_markdown(text: &str) -> (r: Vec<Vec<StyledSpan>>)
    ensures
        r@.map_values(|l: Vec<StyledSpan>| line_view(l)) == rendered_markdown(text@),
{
    let cs = chars_of(text);
    let ls = split_lines(cs.as_slice());
    let fence = chars_of("```");
    let ghost v = views(ls@);
    let mut out: Vec<Vec<StyledSpan>> = Vec::new();
    let mut pending: Vec<Vec<char>> = Vec::new();
    let mut in_code = false;
    let mut i: usize = 0;
    assert(views(pending@) =~= Seq::<Seq<char>>::empty());
    assert(out@.map_values(|l: Vec<StyledSpan>| line_view(l)) =~= Seq::<Seq<(Seq<char>, SpanStyle)>>::empty());
    while i < ls.len()
        invariant
            i <= ls@.len(),
            v == views(ls@),
            v == lines(text@),
            fence@ == "```"@,
            rendered_markdown(text@) == render_from(
                v,
                i as int,
                in_code,
                views(pending@),
                out@.map_values(|l: Vec<StyledSpan>| line_view(l)),
            ),
        decreases ls@.len() - i,
    {
        let l = ls[i].as_slice();
        assert(l@ == v[i as int]);
        let ghost acc0 = out@.map_values(|l: Vec<StyledSpan>| line_view(l));
        let ghost pend0 = views(pending@);
        let t = trim_start_chars(l);
        if starts_with(t.as_slice(), fence.as_slice()) {
            if in_code {
                let mut k: usize = 0;
                while k < pending.len()
                    invariant
                        k <= pending@.len(),
                        pend0 == views(pending@),
                        out@.map_values(|l: Vec<StyledSpan>| line_view(l)) == acc0 + code_lines(
                            pend0.take(k as int),
                        ),
                    decreases pending@.len() - k,
                {
                    let mut m: Vec<char> = Vec::new();
                    m.push(' ');
                    m.push(' ');
                    crate::text::push_all(&mut m, pending[k].as_slice());
                    let mut line: Vec<StyledSpan> = Vec::new();
                    line.push(chars_span(m.as_slice(), SpanStyle::Code));
                    proof {
                        reveal_strlit("  ");
                    }
                    assert(pend0[k as int] == pending@[k as int]@);
                    assert(m@ =~= "  "@ + pend0[k as int]);
                    assert(line_view(line) =~= seq![("  "@ + pend0[k as int], SpanStyle::Code)]);
                    let ghost before = out@;
                    out.push(line);
                    assert(out@.map_values(|l: Vec<StyledSpan>| line_view(l)) =~= before.map_values(
                        |l: Vec<StyledSpan>| line_view(l),
                    ).push(seq![("  "@ + pend0[k as int], SpanStyle::Code)]));
                    assert(code_lines(pend0.take(k + 1)) =~= code_lines(pend0.take(k as int)).push(
                        seq![("  "@ + pend0[k as int], SpanStyle::Code)],
                    ));
                    k = k + 1;
                }
                assert(pend0.take(pend0.len() as int) =~= pend0);
                pending = Vec::new();
                assert(views(pending@) =~= Seq::<Seq<char>>::empty());
                in_code = false;
            } else {
                in_code = true;
            }
        } else if in_code {
            let mut copy: Vec<char> = Vec::new();
            crate::text::push_all(&mut copy, l);
            pending.push(copy);
            assert(views(pending@) =~= pend0.push(l@));
        } else {
            let line = render_line_exec(l);
            let ghost before = out@;
            let ghost lv = line_view(line);
            out.push(line);
            assert(out@.map_values(|l: Vec<StyledSpan>| line_view(l)) =~= before.map_values(
                |l: Vec<StyledSpan>| line_view(l),
            ).push(lv));
        }
        i = i + 1;
    }
    out
}

/// A line that starts with a character other than whitespace is its own
/// start without whitespace.
proof fn lemma_trim_start_unchanged(l: Seq<char>)
    requires
        l.len() > 0,
        !crate::text::spec_is_whitespace(l[0]),
    ensures
        trim_start(l) == l,
{
    assert(crate::text::skip_ws_from(l, 0) == 0);
    assert(l.subrange(0, l.len() as int) =~= l);
}

/// A line that starts with `#` is not a bullet or numbered item.
proof fn lemma_header_start(l: Seq<char>)
    requires
        l.len() > 0,
        l[0] == '#',
    ensures
        trim_start(l)[0] == '#',
        trim_start(l).len() > 0,
{
    lemma_trim_start_unchanged(l);
}

/// A bullet item, `- ` or `* ` after any indentation, renders as the
/// indentation, the bullet marker and the inline spans of the item's
/// trimmed text.
pub proof fn law_bullet_items(l: Seq<char>)
    requires
        seq_starts_with(trim_start(l), "- "@) || seq_starts_with(trim_start(l), "* "@),
    ensures
        ({
            let t = trim_start(l);
            let r = render_line(l);
            &&& r.len() >= 2
            &&& r[0].1 == SpanStyle::Plain
            &&& forall|k: int| 0 <= k < r[0].0.len() ==> #[trigger] r[0].0[k] == ' '
            &&& r[1] == ("\u{2022} "@, SpanStyle::Marker)
            &&& r.skip(2) == inline_spans(trim(t.skip(2)))
        }),
{
    reveal_strlit("- ");
    reveal_strlit("* ");
    reveal_strlit("# ");
    reveal_strlit("## ");
    reveal_strlit("### ");
    let t = trim_start(l);
    assert(t.subrange(0, 2)[0] == t[0]);
    assert(t[0] == '-' || t[0] == '*');
    if l.len() > 0 && l[0] == '#' {
        lemma_header_start(l);
    }
    if seq_starts_with(l, "# "@) {
        assert(l.subrange(0, 2)[0] == l[0]);
        lemma_header_start(l);
    }
    if seq_starts_with(l, "## "@) {
        assert(l.subrange(0, 3)[0] == l[0]);
        lemma_header_start(l);
    }
    if seq_starts_with(l, "### "@) {
        assert(l.subrange(0, 4)[0] == l[0]);
        lemma_header_start(l);
    }
    let r = render_line(l);
    let head = seq![
        (spaces((encode_utf8(l).len() - encode_utf8(t).len()) as nat), SpanStyle::Plain),
        ("\u{2022} "@, SpanStyle::Marker),
    ];
    assert(r == head + inline_spans(trim(t.skip(2))));
    assert(r.skip(2) =~= inline_spans(trim(t.skip(2))));
}

/// A header line, `# `, `## ` or `### ` at the very start, renders as one
/// span of the rest of the line: a title for `# `, a heading otherwise.
pub proof fn law_header_lines(rest: Seq<char>)
    ensures
        render_line("# "@ + rest) == seq![(rest, SpanStyle::Title)],
        render_line("## "@ + rest) == seq![(rest, SpanStyle::Heading)],
        render_line("### "@ + rest) == seq![(rest, SpanStyle::Heading)],
{
    reveal_strlit("# ");
    reveal_strlit("## ");
    reveal_strlit("### ");
    let a = "# "@ + rest;
    let b = "## "@ + rest;
    let c = "### "@ + rest;
    assert(a.subrange(0, 2) =~= "# "@);
    assert(a.skip(2) =~= rest);
    assert(b.subrange(0, 3) =~= "## "@);
    assert(b.skip(3) =~= rest);
    assert(!seq_starts_with(b, "# "@)) by {
        assert(b.subrange(0, 2)[1] == '#');
    }
    assert(c.subrange(0, 4) =~= "### "@);
    assert(c.skip(4) =~= rest);
    assert(!seq_starts_with(c, "# "@)) by {
        assert(c.subrange(0, 2)[1] == '#');
    }
    assert(!seq_starts_with(c, "## "@)) by {
        assert(c.subrange(0, 3)[2] == '#');
    }
}

/// A character that ends or starts a span in mode `m`: `*` and `` ` ``
/// outside spans, `*` in bold and italic text, `` ` `` in code.
pub open spec fn marker_in(m: InlineMode, c: char) -> bool {
    match m {
        InlineMode::Normal => c == '*' || c == '`',
        InlineMode::InBold => c == '*',
        InlineMode::InItalic => c == '*',
        InlineMode::InCode => c == '`',
    }
}

/// Scanning text without markers only collects it.
proof fn lemma_scan_plain_run(
    s: Seq<char>,
    i: int,
    j: int,
    m: InlineMode,
    cur: Seq<char>,
    acc: Seq<(Seq<char>, SpanStyle)>,
)
    requires
        0 <= i <= j <= s.len(),
        forall|k: int| i <= k < j ==> !marker_in(m, #[trigger] s[k]),
    ensures
        inline_scan(s, i, m, cur, acc) == inline_scan(s, j, m, cur + s.subrange(i, j), acc),
    decreases j - i,
{
    if i < j {
        assert(!marker_in(m, s[i]));
        lemma_scan_plain_run(s, i + 1, j, m, cur.push(s[i]), acc);
        assert(cur.push(s[i]) + s.subrange(i + 1, j) =~= cur + s.subrange(i, j));
    } else {
        assert(cur + s.subrange(i, j) =~= cur);
    }
}

/// Text without `*` or `` ` `` is one plain span of itself.
pub proof fn law_plain_text_one_span(t: Seq<char>)
    requires
        forall|k: int| 0 <= k < t.len() ==> #[trigger] t[k] != '*' && t[k] != '`',
    ensures
        inline_spans(t) == seq![(t, SpanStyle::Plain)],
{
    lemma_scan_plain_run(t, 0, t.len() as int, InlineMode::Normal, seq![], seq![]);
    assert(Seq::<char>::empty() + t.subrange(0, t.len() as int) =~= t);
}

/// Text between `**` pairs is bold, between single `*` italic, between
/// backquotes code; the plain text around it stays plain.
pub proof fn law_marked_span(a: Seq<char>, b: Seq<char>, c: Seq<char>)
    requires
        a.len() > 0,
        b.len() > 0,
        c.len() > 0,
        forall|k: int| 0 <= k < a.len() ==> #[trigger] a[k] != '*' && a[k] != '`',
        forall|k: int| 0 <= k < b.len() ==> #[trigger] b[k] != '*' && b[k] != '`',
        forall|k: int| 0 <= k < c.len() ==> #[trigger] c[k] != '*' && c[k] != '`',
    ensures
        inline_spans(a + "**"@ + b + "**"@ + c) == seq![
            (a, SpanStyle::Plain),
            (b, SpanStyle::Bold),
            (c, SpanStyle::Plain),
        ],
        inline_spans(a + "*"@ + b + "*"@ + c) == seq![
            (a, SpanStyle::Plain),
            (b, SpanStyle::Italic),
            (c, SpanStyle::Plain),
        ],
        inline_spans(a + "`"@ + b + "`"@ + c) == seq![
            (a, SpanStyle::Plain),
            (b, SpanStyle::Code),
            (c, SpanStyle::Plain),
        ],
{
    reveal_strlit("**");
    reveal_strlit("*");
    reveal_strlit("`");
    let e = Seq::<(Seq<char>, SpanStyle)>::empty();
    let na = a.len() as int;
    let nb = b.len() as int;
    let nc = c.len() as int;
    // bold
    let s1 = a + "**"@ + b + "**"@ + c;
    assert(s1.subrange(0, na) =~= a);
    assert(s1.subrange(na + 2, na + 2 + nb) =~= b);
    assert(s1.subrange(na + 4 + nb, s1.len() as int) =~= c);
    lemma_scan_plain_run(s1, 0, na, InlineMode::Normal, seq![], e);
    assert(Seq::<char>::empty() + a =~= a);
    assert(double_star_at(s1, na));
    lemma_scan_plain_run(s1, na + 2, na + 2 + nb, InlineMode::InBold, seq![], seq![(a, SpanStyle::Plain)]);
    assert(Seq::<char>::empty() + b =~= b);
    assert(double_star_at(s1, na + 2 + nb));
    lemma_scan_plain_run(
        s1,
        na + 4 + nb,
        s1.len() as int,
        InlineMode::Normal,
        seq![],
        seq![(a, SpanStyle::Plain), (b, SpanStyle::Bold)],
    );
    assert(Seq::<char>::empty() + c =~= c);
    assert(seq![(a, SpanStyle::Plain)].push((b, SpanStyle::Bold)) =~= seq![(a, SpanStyle::Plain), (b, SpanStyle::Bold)]);
    assert(seq![(a, SpanStyle::Plain), (b, SpanStyle::Bold)].push((c, SpanStyle::Plain)) =~= seq![
        (a, SpanStyle::Plain),
        (b, SpanStyle::Bold),
        (c, SpanStyle::Plain),
    ]);
    // italic
    let s2 = a + "*"@ + b + "*"@ + c;
    assert(s2.subrange(0, na) =~= a);
    assert(s2.subrange(na + 1, na + 1 + nb) =~= b);
    assert(s2.subrange(na + 2 + nb, s2.len() as int) =~= c);
    lemma_scan_plain_run(s2, 0, na, InlineMode::Normal, seq![], e);
    assert(!double_star_at(s2, na));
    lemma_scan_plain_run(s2, na + 1, na + 1 + nb, InlineMode::InItalic, seq![], seq![(a, SpanStyle::Plain)]);
    lemma_scan_plain_run(
        s2,
        na + 2 + nb,
        s2.len() as int,
        InlineMode::Normal,
        seq![],
        seq![(a, SpanStyle::Plain), (b, SpanStyle::Italic)],
    );
    assert(seq![(a, SpanStyle::Plain)].push((b, SpanStyle::Italic)) =~= seq![(a, SpanStyle::Plain), (b, SpanStyle::Italic)]);
    assert(seq![(a, SpanStyle::Plain), (b, SpanStyle::Italic)].push((c, SpanStyle::Plain)) =~= seq![
        (a, SpanStyle::Plain),
        (b, SpanStyle::Italic),
        (c, SpanStyle::Plain),
    ]);
    // code
    let s3 = a + "`"@ + b + "`"@ + c;
    assert(s3.subrange(0, na) =~= a);
    assert(s3.subrange(na + 1, na + 1 + nb) =~= b);
    assert(s3.subrange(na + 2 + nb, s3.len() as int) =~= c);
    lemma_scan_plain_run(s3, 0, na, InlineMode::Normal, seq![], e);
    assert(!double_star_at(s3, na));
    lemma_scan_plain_run(s3, na + 1, na + 1 + nb, InlineMode::InCode, seq![], seq![(a, SpanStyle::Plain)]);
    lemma_scan_plain_run(
        s3,
        na + 2 + nb,
        s3.len() as int,
        InlineMode::Normal,
        seq![],
        seq![(a, SpanStyle::Plain), (b, SpanStyle::Code)],
    );
    assert(seq![(a, SpanStyle::Plain)].push((b, SpanStyle::Code)) =~= seq![(a, SpanStyle::Plain), (b, SpanStyle::Code)]);
    assert(seq![(a, SpanStyle::Plain), (b, SpanStyle::Code)].push((c, SpanStyle::Plain)) =~= seq![
        (a, SpanStyle::Plain),
        (b, SpanStyle::Code),
        (c, SpanStyle::Plain),
    ]);
}

proof fn lemma_code_run(
    ls: Seq<Seq<char>>,
    i: int,
    j: int,
    pending: Seq<Seq<char>>,
    acc: Seq<Seq<(Seq<char>, SpanStyle)>>,
)
    requires
        0 <= i <= j <= ls.len(),
        forall|k: int| i <= k < j ==> !seq_starts_with(trim_start(#[trigger] ls[k]), "```"@),
    ensures
        render_from(ls, i, true, pending, acc) == render_from(ls, j, true, pending + ls.subrange(i, j), acc),
    decreases j - i,
{
    if i < j {
        lemma_code_run(ls, i + 1, j, pending.push(ls[i]), acc);
        assert(pending.push(ls[i]) + ls.subrange(i + 1, j) =~= pending + ls.subrange(i, j));
    } else {
        assert(pending + ls.subrange(i, j) =~= pending);
    }
}

/// A fenced code block shows its lines, and only them, each indented by
/// two spaces and styled as code; the fences themselves show nothing.
pub proof fn law_code_block_lines(open: Seq<char>, body: Seq<Seq<char>>, close: Seq<char>)
    requires
        seq_starts_with(trim_start(open), "```"@),
        seq_starts_with(trim_start(close), "```"@),
        forall|k: int| 0 <= k < body.len() ==> !seq_starts_with(trim_start(#[trigger] body[k]), "```"@),
    ensures
        ({
            let r = render_from(seq![open] + body + seq![close], 0, false, seq![], seq![]);
            &&& r.len() == body.len()
            &&& forall|k: int| 0 <= k < body.len() ==> #[trigger] r[k] == seq![("  "@ + body[k], SpanStyle::Code)]
        }),
{
    let ls = seq![open] + body + seq![close];
    let n = body.len() as int;
    assert(ls[0] == open);
    assert(ls[n + 1] == close);
    assert forall|k: int| 1 <= k < n + 1 implies !seq_starts_with(trim_start(#[trigger] ls[k]), "```"@) by {
        assert(ls[k] == body[k - 1]);
    }
    lemma_code_run(ls, 1, n + 1, seq![], seq![]);
    assert(Seq::<Seq<char>>::empty() + ls.subrange(1, n + 1) =~= body);
    let acc = Seq::<Seq<(Seq<char>, SpanStyle)>>::empty() + code_lines(body);
    assert(render_from(ls, n + 2, false, seq![], acc) == acc);
    assert(acc =~= code_lines(body));
}

} // verus!
