//! Line diffs for previews of edits, computed with the `similar` crate and
//! rendered here.

use vstd::prelude::*;
use crate::text::{chars_of, push_all, push_str, string_from};

verus! {

/// How a line takes part in a diff.
#[derive(Debug, Clone, Copy, PartialEq, Eq, Structural)]
pub enum DiffTag {
    Equal,
    Delete,
    Insert,
}

/// The changes, in order, that `similar::TextDiff::from_lines(old, new)`
/// yields from `iter_all_changes`: each with its tag and its line (the
/// line's own line break included when it has one).
pub uninterp spec fn line_changes_of(old: Seq<char>, new: Seq<char>) -> Seq<(DiffTag, Seq<char>)>;

/// Calls `similar::TextDiff::from_lines(old, new).iter_all_changes()` and
/// keeps each change's tag and value; the result is named, not described.
#[verifier::external_body]
fn line_changes(old: &str, new: &str) -> (r: Vec<(DiffTag, String)>)
    ensures
        r@.map_values(|c: (DiffTag, String)| (c.0, c.1@)) == line_changes_of(old@, new@),
{
    similar::TextDiff::from_lines(old, new)
        .iter_all_changes()
        .map(|c| {
            let tag = match c.tag() {
                similar::ChangeTag::Equal => DiffTag::Equal,
                similar::ChangeTag::Delete => DiffTag::Delete,
                similar::ChangeTag::Insert => DiffTag::Insert,
            };
            (tag, c.value().to_string())
        })
        .collect()
}

/// The sign that starts a line of a diff.
pub open spec fn diff_sign(t: DiffTag) -> char {
    match t {
        DiffTag::Equal => ' ',
        DiffTag::Delete => '-',
        DiffTag::Insert => '+',
    }
}

/// A change as printed: its sign, its line, and a line break when the line
/// does not end with `\n` or `\r`.
pub open spec fn change_line(c: (DiffTag, Seq<char>)) -> Seq<char> {
    let ends = c.1.len() > 0 && (c.1.last() == '\n' || c.1.last() == '\r');
    seq![diff_sign(c.0)] + c.1 + if ends {
        Seq::<char>::empty()
    } else {
        seq!['\n']
    }
}

/// The printed lines of the first `n` changes.
pub open spec fn rendered_changes(cs: Seq<(DiffTag, Seq<char>)>, n: int) -> Seq<char>
    decreases n,
{
    if n <= 0 || n > cs.len() {
        seq![]
    } else {
        rendered_changes(cs, n - 1) + change_line(cs[n - 1])
    }
}

/// Renders the changes `cs` of a line diff, one signed line each.
pub fn render_changes(cs: &Vec<(DiffTag, String)>) -> (r: String)
    ensures
        r@ == rendered_changes(
            cs@.map_values(|c: (DiffTag, String)| (c.0, c.1@)),
            cs@.len() as int,
        ),
{
    let ghost v = cs@.map_values(|c: (DiffTag, String)| (c.0, c.1@));
    let mut out: Vec<char> = Vec::new();
    let mut i: usize = 0;
    while i < cs.len()
        invariant
            i <= cs@.len(),
            v == cs@.map_values(|c: (DiffTag, String)| (c.0, c.1@)),
            out@ == rendered_changes(v, i as int),
        decreases cs@.len() - i,
    {
        let tag = cs[i].0;
        let line = chars_of(cs[i].1.as_str());
        let sign = match tag {
            DiffTag::Equal => ' ',
            DiffTag::Delete => '-',
            DiffTag::Insert => '+',
        };
        out.push(sign);
        push_all(&mut out, line.as_slice());
        let n = line.len();
        if !(n > 0 && (line[n - 1] == '\n' || line[n - 1] == '\r')) {
            out.push('\n');
        }
        assert(v[i as int] == (tag, line@));
        assert(out@ =~= rendered_changes(v, i + 1));
        i = i + 1;
    }
    string_from(out.as_slice())
}

/// The line diff from `old` to `new`, one signed line per change.
pub fn compute_diff(old: &str, new: &str) -> (r: String)
    ensures
        r@ == rendered_changes(line_changes_of(old@, new@), line_changes_of(old@, new@).len() as int),
{
    let cs = line_changes(old, new);
    render_changes(&cs)
}

/// The number of `\n` characters in `s`.
pub open spec fn line_breaks(s: Seq<char>) -> nat
    decreases s.len(),
{
    if s.len() == 0 {
        0
    } else {
        line_breaks(s.drop_last()) + if s.last() == '\n' {
            1nat
        } else {
            0nat
        }
    }
}

pub(crate) proof fn lemma_line_breaks_add(a: Seq<char>, b: Seq<char>)
    ensures
        line_breaks(a + b) == line_breaks(a) + line_breaks(b),
    decreases b.len(),
{
    if b.len() == 0 {
        assert(a + b =~= a);
    } else {
        assert((a + b).drop_last() =~= a + b.drop_last());
        assert((a + b).last() == b.last());
        lemma_line_breaks_add(a, b.drop_last());
    }
}

pub(crate) proof fn lemma_no_line_breaks(s: Seq<char>)
    requires
        forall|k: int| 0 <= k < s.len() ==> s[k] != '\n',
    ensures
        line_breaks(s) == 0,
    decreases s.len(),
{
    if s.len() > 0 {
        assert(s.last() == s[s.len() - 1]);
        lemma_no_line_breaks(s.drop_last());
    }
}

/// A line as a line diff gives it: no carriage return, and a line break
/// only at its end.
pub open spec fn diff_line(l: Seq<char>) -> bool {
    &&& forall|k: int| 0 <= k < l.len() ==> #[trigger] l[k] != '\r'
    &&& forall|k: int| 0 <= k < l.len() - 1 ==> #[trigger] l[k] != '\n'
}

proof fn lemma_change_one_line(c: (DiffTag, Seq<char>))
    requires
        diff_line(c.1),
    ensures
        line_breaks(change_line(c)) == 1,
{
    let l = c.1;
    let ends = l.len() > 0 && (l.last() == '\n' || l.last() == '\r');
    let tail = if ends {
        Seq::<char>::empty()
    } else {
        seq!['\n']
    };
    assert(line_breaks(seq![diff_sign(c.0)]) == 0) by {
        lemma_no_line_breaks(seq![diff_sign(c.0)]);
    }
    if l.len() > 0 {
        assert(l.last() == l[l.len() - 1]);
        assert forall|k: int| 0 <= k < l.drop_last().len() implies l.drop_last()[k] != '\n' by {
            assert(l.drop_last()[k] == l[k]);
        }
        lemma_no_line_breaks(l.drop_last());
    }
    assert(line_breaks(l) == if l.len() > 0 && l.last() == '\n' { 1nat } else { 0nat });
    assert(line_breaks(Seq::<char>::empty()) == 0);
    assert(line_breaks(seq!['\n']) == 1) by {
        assert(seq!['\n'].drop_last() =~= Seq::<char>::empty());
    }
    lemma_line_breaks_add(seq![diff_sign(c.0)], l);
    lemma_line_breaks_add(seq![diff_sign(c.0)] + l, tail);
}

/// A rendered line diff has one line per change: when every change is a
/// single line, the first `n` changes print exactly `n` line breaks.
pub proof fn law_one_line_per_change(cs: Seq<(DiffTag, Seq<char>)>, n: int)
    requires
        0 <= n <= cs.len(),
        forall|i: int| 0 <= i < cs.len() ==> diff_line(#[trigger] cs[i].1),
    ensures
        line_breaks(rendered_changes(cs, n)) == n,
    decreases n,
{
    if n > 0 {
        law_one_line_per_change(cs, n - 1);
        lemma_change_one_line(cs[n - 1]);
        lemma_line_breaks_add(rendered_changes(cs, n - 1), change_line(cs[n - 1]));
    } else {
        assert(line_breaks(Seq::<char>::empty()) == 0);
    }
}

/// Each change is printed after the ones before it as its sign, then its
/// line, and the printed diff so far ends a line.
pub proof fn law_change_printed_after_earlier(cs: Seq<(DiffTag, Seq<char>)>, n: int)
    requires
        0 <= n < cs.len(),
    ensures
        ({
            let before = rendered_changes(cs, n);
            let after = rendered_changes(cs, n + 1);
            &&& after.take(before.len() as int) == before
            &&& after[before.len() as int] == diff_sign(cs[n].0)
            &&& after.subrange(before.len() as int + 1, before.len() + 1 + cs[n].1.len() as int) == cs[n].1
            &&& after.last() == '\n' || after.last() == '\r'
        }),
{
    let before = rendered_changes(cs, n);
    let c = cs[n];
    let after = rendered_changes(cs, n + 1);
    assert(after == before + change_line(c));
    assert(after.take(before.len() as int) =~= before);
    assert(after.subrange(before.len() as int + 1, before.len() + 1 + c.1.len() as int) =~= c.1);
    if c.1.len() > 0 && (c.1.last() == '\n' || c.1.last() == '\r') {
        assert(after.last() == c.1.last());
    }
}

/// Each line of `lines` after `+ `, the lines joined by line breaks.
pub open spec fn added_lines(lines: Seq<Seq<char>>) -> Seq<char>
    decreases lines.len(),
{
    if lines.len() == 0 {
        seq![]
    } else if lines.len() == 1 {
        "+ "@ + lines[0]
    } else {
        added_lines(lines.drop_last()) + "\n"@ + "+ "@ + lines.last()
    }
}

/// The preview of a new file: every line of `content` marked as added.
pub fn new_file_diff(content: &str) -> (r: String)
    ensures
        r@ == added_lines(crate::text::lines(content@)),
{
    let cs = chars_of(content);
    let ls = crate::text::split_lines(cs.as_slice());
    let ghost v = crate::text::views(ls@);
    let mut out: Vec<char> = Vec::new();
    let mut i: usize = 0;
    while i < ls.len()
        invariant
            i <= ls@.len(),
            v == crate::text::views(ls@),
            out@ == added_lines(v.take(i as int)),
        decreases ls@.len() - i,
    {
        if i > 0 {
            push_str(&mut out, "\n");
        }
        push_str(&mut out, "+ ");
        push_all(&mut out, ls[i].as_slice());
        assert(v.take(i + 1).drop_last() =~= v.take(i as int));
        assert(v.take(i + 1).last() == ls@[i as int]@);
        i = i + 1;
    }
    assert(v.take(v.len() as int) =~= v);
    string_from(out.as_slice())
}

} // verus!
