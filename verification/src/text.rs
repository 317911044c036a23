//! Character-level helpers over `Seq<char>` shared by the rest of the crate.
//!
//! Each executable helper works on slices of `char` and is proved against a
//! spec function that states what the corresponding `str` operation computes.

use vstd::prelude::*;
use vstd::utf8::{char_is_scalar, encode_scalar, encode_utf8};

verus! {

/// The characters that Unicode gives the White_Space property; this is
/// the set that `char::is_whitespace` recognises.
pub open spec fn spec_is_whitespace(c: char) -> bool {
    ||| c == '\t'
    ||| c == '\n'
    ||| c == '\u{0B}'
    ||| c == '\u{0C}'
    ||| c == '\r'
    ||| c == ' '
    ||| c == '\u{85}'
    ||| c == '\u{A0}'
    ||| c == '\u{1680}'
    ||| ('\u{2000}' <= c && c <= '\u{200A}')
    ||| c == '\u{2028}'
    ||| c == '\u{2029}'
    ||| c == '\u{202F}'
    ||| c == '\u{205F}'
    ||| c == '\u{3000}'
}

/// Whether `c` is a whitespace character.
pub fn is_whitespace(c: char) -> (r: bool)
    ensures
        r == spec_is_whitespace(c),
{
    c == '\t' || c == '\n' || c == '\u{0B}' || c == '\u{0C}' || c == '\r' || c == ' '
        || c == '\u{85}' || c == '\u{A0}' || c == '\u{1680}' || ('\u{2000}' <= c && c
        <= '\u{200A}') || c == '\u{2028}' || c == '\u{2029}' || c == '\u{202F}' || c
        == '\u{205F}' || c == '\u{3000}'
}

/// The characters of `s`, in order (`str::chars` collected into a vector).
#[verifier::external_body]
pub(crate) fn chars_of(s: &str) -> (r: Vec<char>)
    ensures
        r@ == s@,
{
    s.chars().collect()
}

/// The string made of the characters of `v` (`FromIterator<char>` for `String`).
#[verifier::external_body]
pub(crate) fn string_from(v: &[char]) -> (r: String)
    ensures
        r@ == v@,
{
    v.iter().collect()
}

/// `p` is a prefix of `s`.
pub open spec fn seq_starts_with(s: Seq<char>, p: Seq<char>) -> bool {
    p.len() <= s.len() && s.subrange(0, p.len() as int) == p
}

/// `p` is a suffix of `s`.
pub open spec fn seq_ends_with(s: Seq<char>, p: Seq<char>) -> bool {
    p.len() <= s.len() && s.subrange(s.len() - p.len(), s.len() as int) == p
}

/// `p` occurs in `s` starting at index `i`.
pub open spec fn occurs_at(s: Seq<char>, p: Seq<char>, i: int) -> bool {
    0 <= i && i + p.len() <= s.len() && s.subrange(i, i + p.len()) == p
}

/// `p` occurs somewhere in `s`.
pub open spec fn seq_contains(s: Seq<char>, p: Seq<char>) -> bool {
    exists|i: int| occurs_at(s, p, i)
}

/// Whether `p` is a prefix of `s`.
pub fn starts_with(s: &[char], p: &[char]) -> (r: bool)
    ensures
        r == seq_starts_with(s@, p@),
{
    if p.len() > s.len() {
        return false;
    }
    let mut i: usize = 0;
    while i < p.len()
        invariant
            p@.len() <= s@.len(),
            i <= p@.len(),
            forall|j: int| 0 <= j < i ==> s@[j] == p@[j],
        decreases p@.len() - i,
    {
        if s[i] != p[i] {
            assert(s@.subrange(0, p@.len() as int)[i as int] != p@[i as int]);
            return false;
        }
        i = i + 1;
    }
    assert(s@.subrange(0, p@.len() as int) =~= p@);
    true
}

/// Whether `p` occurs in `s` at index `i`.
pub fn matches_at(s: &[char], p: &[char], i: usize) -> (r: bool)
    ensures
        r == occurs_at(s@, p@, i as int),
{
    if i > s.len() || p.len() > s.len() - i {
        return false;
    }
    let n = s.len();
    let mut k: usize = 0;
    while k < p.len()
        invariant
            n == s@.len(),
            i + p@.len() <= s@.len(),
            k <= p@.len(),
            forall|j: int| 0 <= j < k ==> s@[i + j] == p@[j],
        decreases p@.len() - k,
    {
        if s[i + k] != p[k] {
            assert(s@.subrange(i as int, i + p@.len())[k as int] != p@[k as int]);
            return false;
        }
        k = k + 1;
    }
    assert(s@.subrange(i as int, i + p@.len()) =~= p@);
    true
}

/// Whether `p` is a suffix of `s`.
pub fn ends_with(s: &[char], p: &[char]) -> (r: bool)
    ensures
        r == seq_ends_with(s@, p@),
{
    if p.len() > s.len() {
        return false;
    }
    matches_at(s, p, s.len() - p.len())
}

/// Whether `p` occurs in `s`.
pub fn contains(s: &[char], p: &[char]) -> (r: bool)
    ensures
        r == seq_contains(s@, p@),
{
    if p.len() > s.len() {
        assert(forall|i: int| !occurs_at(s@, p@, i));
        return false;
    }
    let last = s.len() - p.len();
    let mut i: usize = 0;
    loop
        invariant
            p@.len() <= s@.len(),
            last == s@.len() - p@.len(),
            i <= last,
            forall|j: int| 0 <= j < i ==> !occurs_at(s@, p@, j),
        ensures
            forall|j: int| 0 <= j <= last ==> !occurs_at(s@, p@, j),
        decreases last - i,
    {
        if matches_at(s, p, i) {
            return true;
        }
        if i == last {
            break;
        }
        i = i + 1;
    }
    assert forall|j: int| !occurs_at(s@, p@, j) by {
        if 0 <= j && j <= last {
        }
    }
    false
}

/// Whether the character `c` occurs in `s`.
pub fn contains_char(s: &[char], c: char) -> (r: bool)
    ensures
        r == s@.contains(c),
{
    let mut i: usize = 0;
    while i < s.len()
        invariant
            i <= s@.len(),
            forall|j: int| 0 <= j < i ==> s@[j] != c,
        decreases s@.len() - i,
    {
        if s[i] == c {
            return true;
        }
        i = i + 1;
    }
    false
}

/// Index of the first occurrence of `c` in `s` at or after `i`.
pub open spec fn find_char_from(s: Seq<char>, c: char, i: int) -> Option<int>
    decreases s.len() - i,
{
    if i < 0 || i >= s.len() {
        None
    } else if s[i] == c {
        Some(i)
    } else {
        find_char_from(s, c, i + 1)
    }
}

/// Index of the first occurrence of `c` in `s` (`str::find` with a char).
pub open spec fn find_char(s: Seq<char>, c: char) -> Option<int> {
    find_char_from(s, c, 0)
}

/// Finds the first occurrence of `c` in `s`.
pub fn find_first(s: &[char], c: char) -> (r: Option<usize>)
    ensures
        match r {
            Some(i) => find_char(s@, c) == Some(i as int),
            None => find_char(s@, c) is None,
        },
{
    let mut i: usize = 0;
    while i < s.len()
        invariant
            i <= s@.len(),
            find_char(s@, c) == find_char_from(s@, c, i as int),
        decreases s@.len() - i,
    {
        if s[i] == c {
            return Some(i);
        }
        i = i + 1;
    }
    None
}

/// `s` with every trailing `c` removed (`str::trim_end_matches` with a char).
pub open spec fn trim_end_char(s: Seq<char>, c: char) -> Seq<char>
    decreases s.len(),
{
    if s.len() > 0 && s.last() == c {
        trim_end_char(s.drop_last(), c)
    } else {
        s
    }
}

/// Removes every trailing `c` from `s`.
pub fn trim_end_matching(s: &[char], c: char) -> (r: Vec<char>)
    ensures
        r@ == trim_end_char(s@, c),
{
    let mut n: usize = s.len();
    assert(s@.subrange(0, n as int) =~= s@);
    while n > 0 && s[n - 1] == c
        invariant
            n <= s@.len(),
            trim_end_char(s@, c) == trim_end_char(s@.subrange(0, n as int), c),
        decreases n,
    {
        assert(s@.subrange(0, n as int).drop_last() =~= s@.subrange(0, n - 1));
        n = n - 1;
    }
    slice_range(s, 0, n)
}

/// The characters of `s` from `lo` up to `hi`.
pub fn slice_range(s: &[char], lo: usize, hi: usize) -> (r: Vec<char>)
    requires
        lo <= hi <= s@.len(),
    ensures
        r@ == s@.subrange(lo as int, hi as int),
{
    let mut out: Vec<char> = Vec::new();
    let mut i: usize = lo;
    while i < hi
        invariant
            lo <= i <= hi <= s@.len(),
            out@ == s@.subrange(lo as int, i as int),
        decreases hi - i,
    {
        out.push(s[i]);
        i = i + 1;
        assert(out@ =~= s@.subrange(lo as int, i as int));
    }
    out
}

/// A copy of the characters of `s`.
pub fn copy_chars(s: &[char]) -> (r: Vec<char>)
    ensures
        r@ == s@,
{
    let r = slice_range(s, 0, s.len());
    assert(s@.subrange(0, s@.len() as int) =~= s@);
    r
}

/// Appends the characters of `s` to `out`.
pub fn push_all(out: &mut Vec<char>, s: &[char])
    ensures
        final(out)@ == old(out)@ + s@,
{
    let ghost start = out@;
    let mut i: usize = 0;
    while i < s.len()
        invariant
            i <= s@.len(),
            out@ == start + s@.subrange(0, i as int),
        decreases s@.len() - i,
    {
        out.push(s[i]);
        i = i + 1;
        assert(out@ =~= start + s@.subrange(0, i as int));
    }
    assert(s@.subrange(0, s@.len() as int) =~= s@);
}

/// Appends the characters of the string `s` to `out`.
pub fn push_str(out: &mut Vec<char>, s: &str)
    ensures
        final(out)@ == old(out)@ + s@,
{
    let v = chars_of(s);
    push_all(out, v.as_slice());
}

/// An owned copy of the string `s`.
pub fn owned(s: &str) -> (r: String)
    ensures
        r@ == s@,
{
    s.to_owned()
}

/// Whether the string `s` is exactly the string `lit`.
pub fn str_eq(s: &str, lit: &str) -> (r: bool)
    ensures
        r == (s@ == lit@),
{
    let a = chars_of(s);
    let b = chars_of(lit);
    chars_eq(a.as_slice(), b.as_slice())
}

/// Whether two character sequences are equal.
pub fn chars_eq(a: &[char], b: &[char]) -> (r: bool)
    ensures
        r == (a@ == b@),
{
    if a.len() != b.len() {
        return false;
    }
    let r = starts_with(a, b);
    proof {
        if r {
            assert(a@.subrange(0, b@.len() as int) =~= a@);
        } else {
            if a@ == b@ {
                assert(a@.subrange(0, b@.len() as int) =~= a@);
            }
        }
    }
    r
}


/// The character sequences held by a sequence of character vectors.
pub open spec fn views(v: Seq<Vec<char>>) -> Seq<Seq<char>> {
    v.map_values(|w: Vec<char>| w@)
}

/// Splits `s[i..]` into maximal runs of non-whitespace characters, where
/// `cur` is the run in progress and `acc` the runs already completed.
pub open spec fn words_fold(s: Seq<char>, i: int, cur: Seq<char>, acc: Seq<Seq<char>>) -> Seq<
    Seq<char>,
>
    decreases s.len() - i,
{
    if i < 0 || i >= s.len() {
        if cur.len() > 0 {
            acc.push(cur)
        } else {
            acc
        }
    } else if spec_is_whitespace(s[i]) {
        words_fold(s, i + 1, seq![], if cur.len() > 0 { acc.push(cur) } else { acc })
    } else {
        words_fold(s, i + 1, cur.push(s[i]), acc)
    }
}

/// The whitespace-separated words of `s` (`str::split_whitespace`).
pub open spec fn words(s: Seq<char>) -> Seq<Seq<char>> {
    words_fold(s, 0, seq![], seq![])
}

/// Splits `s` into its whitespace-separated words.
pub fn split_words(s: &[char]) -> (r: Vec<Vec<char>>)
    ensures
        views(r@) == words(s@),
{
    let mut acc: Vec<Vec<char>> = Vec::new();
    let mut cur: Vec<char> = Vec::new();
    let mut i: usize = 0;
    assert(views(acc@) =~= Seq::<Seq<char>>::empty());
    assert(cur@ =~= Seq::<char>::empty());
    while i < s.len()
        invariant
            i <= s@.len(),
            words(s@) == words_fold(s@, i as int, cur@, views(acc@)),
        decreases s@.len() - i,
    {
        let c = s[i];
        if is_whitespace(c) {
            if cur.len() > 0 {
                let ghost old_acc = views(acc@);
                let ghost old_cur = cur@;
                acc.push(cur);
                assert(views(acc@) =~= old_acc.push(old_cur));
                cur = Vec::new();
            } else {
                assert(cur@ =~= Seq::<char>::empty());
            }
        } else {
            cur.push(c);
        }
        i = i + 1;
    }
    if cur.len() > 0 {
        let ghost old_acc = views(acc@);
        let ghost old_cur = cur@;
        acc.push(cur);
        assert(views(acc@) =~= old_acc.push(old_cur));
    }
    acc
}

/// `line` without one trailing carriage return.
pub open spec fn strip_cr(line: Seq<char>) -> Seq<char> {
    if line.len() > 0 && line.last() == '\r' {
        line.drop_last()
    } else {
        line
    }
}

/// Splits `s[i..]` into lines, where `cur` is the line in progress and
/// `acc` the lines already completed.
pub open spec fn lines_fold(s: Seq<char>, i: int, cur: Seq<char>, acc: Seq<Seq<char>>) -> Seq<
    Seq<char>,
>
    decreases s.len() - i,
{
    if i < 0 || i >= s.len() {
        if cur.len() > 0 {
            acc.push(cur)
        } else {
            acc
        }
    } else if s[i] == '\n' {
        lines_fold(s, i + 1, seq![], acc.push(strip_cr(cur)))
    } else {
        lines_fold(s, i + 1, cur.push(s[i]), acc)
    }
}

/// The lines of `s` (`str::lines`): split at `\n`, a `\r` right before a
/// `\n` dropped, and no empty line after a final `\n`.
pub open spec fn lines(s: Seq<char>) -> Seq<Seq<char>> {
    lines_fold(s, 0, seq![], seq![])
}

/// No character of `s` is `c`.
pub open spec fn lacks(s: Seq<char>, c: char) -> bool {
    forall|k: int| 0 <= k < s.len() ==> s[k] != c
}

/// Words hold no whitespace, so in particular no newline.
pub(crate) proof fn lemma_words_fold_lack_newline(
    s: Seq<char>,
    i: int,
    cur: Seq<char>,
    acc: Seq<Seq<char>>,
)
    requires
        lacks(cur, '\n'),
        forall|k: int| 0 <= k < acc.len() ==> lacks(#[trigger] acc[k], '\n'),
    ensures
        forall|k: int|
            0 <= k < words_fold(s, i, cur, acc).len() ==> lacks(
                #[trigger] words_fold(s, i, cur, acc)[k],
                '\n',
            ),
    decreases s.len() - i,
{
    if i < 0 || i >= s.len() {
        if cur.len() > 0 {
            assert forall|k: int| 0 <= k < acc.push(cur).len() implies lacks(
                #[trigger] acc.push(cur)[k],
                '\n',
            ) by {
                if k < acc.len() {
                    assert(acc.push(cur)[k] == acc[k]);
                }
            }
        }
    } else if spec_is_whitespace(s[i]) {
        let acc2 = if cur.len() > 0 {
            acc.push(cur)
        } else {
            acc
        };
        assert forall|k: int| 0 <= k < acc2.len() implies lacks(#[trigger] acc2[k], '\n') by {
            if k < acc.len() {
                assert(acc2[k] == acc[k]);
            }
        }
        lemma_words_fold_lack_newline(s, i + 1, seq![], acc2);
        assert(words_fold(s, i, cur, acc) == words_fold(s, i + 1, seq![], acc2));
    } else {
        assert(s[i] != '\n');
        assert forall|k: int| 0 <= k < cur.push(s[i]).len() implies #[trigger] cur.push(s[i])[k]
            != '\n' by {
            if k < cur.len() {
                assert(cur.push(s[i])[k] == cur[k]);
            }
        }
        lemma_words_fold_lack_newline(s, i + 1, cur.push(s[i]), acc);
        assert(words_fold(s, i, cur, acc) == words_fold(s, i + 1, cur.push(s[i]), acc));
    }
}

/// No line holds a newline.
pub(crate) proof fn lemma_lines_fold_lack_newline(
    s: Seq<char>,
    i: int,
    cur: Seq<char>,
    acc: Seq<Seq<char>>,
)
    requires
        lacks(cur, '\n'),
        forall|k: int| 0 <= k < acc.len() ==> lacks(#[trigger] acc[k], '\n'),
    ensures
        forall|k: int|
            0 <= k < lines_fold(s, i, cur, acc).len() ==> lacks(
                #[trigger] lines_fold(s, i, cur, acc)[k],
                '\n',
            ),
    decreases s.len() - i,
{
    if i < 0 || i >= s.len() {
        if cur.len() > 0 {
            assert forall|k: int| 0 <= k < acc.push(cur).len() implies lacks(
                #[trigger] acc.push(cur)[k],
                '\n',
            ) by {
                if k < acc.len() {
                    assert(acc.push(cur)[k] == acc[k]);
                }
            }
        }
    } else if s[i] == '\n' {
        let acc2 = acc.push(strip_cr(cur));
        assert forall|k: int| 0 <= k < strip_cr(cur).len() implies #[trigger] strip_cr(cur)[k]
            != '\n' by {
            assert(strip_cr(cur)[k] == cur[k]);
        }
        assert forall|k: int| 0 <= k < acc2.len() implies lacks(#[trigger] acc2[k], '\n') by {
            if k < acc.len() {
                assert(acc2[k] == acc[k]);
            }
        }
        lemma_lines_fold_lack_newline(s, i + 1, seq![], acc2);
        assert(lines_fold(s, i, cur, acc) == lines_fold(s, i + 1, seq![], acc2));
    } else {
        assert forall|k: int| 0 <= k < cur.push(s[i]).len() implies #[trigger] cur.push(s[i])[k]
            != '\n' by {
            if k < cur.len() {
                assert(cur.push(s[i])[k] == cur[k]);
            }
        }
        lemma_lines_fold_lack_newline(s, i + 1, cur.push(s[i]), acc);
        assert(lines_fold(s, i, cur, acc) == lines_fold(s, i + 1, cur.push(s[i]), acc));
    }
}

/// Splits `s` into its lines.
pub fn split_lines(s: &[char]) -> (r: Vec<Vec<char>>)
    ensures
        views(r@) == lines(s@),
{
    let mut acc: Vec<Vec<char>> = Vec::new();
    let mut cur: Vec<char> = Vec::new();
    let mut i: usize = 0;
    assert(views(acc@) =~= Seq::<Seq<char>>::empty());
    assert(cur@ =~= Seq::<char>::empty());
    while i < s.len()
        invariant
            i <= s@.len(),
            lines(s@) == lines_fold(s@, i as int, cur@, views(acc@)),
        decreases s@.len() - i,
    {
        let c = s[i];
        if c == '\n' {
            let ghost old_acc = views(acc@);
            let ghost old_cur = cur@;
            if cur.len() > 0 && cur[cur.len() - 1] == '\r' {
                cur.pop();
            }
            assert(cur@ == strip_cr(old_cur));
            acc.push(cur);
            assert(views(acc@) =~= old_acc.push(strip_cr(old_cur)));
            cur = Vec::new();
        } else {
            cur.push(c);
        }
        i = i + 1;
    }
    if cur.len() > 0 {
        let ghost old_acc = views(acc@);
        let ghost old_cur = cur@;
        acc.push(cur);
        assert(views(acc@) =~= old_acc.push(old_cur));
    }
    acc
}

/// Index of the first non-whitespace character of `s` at or after `i`
/// (or `s.len()`).
pub open spec fn skip_ws_from(s: Seq<char>, i: int) -> int
    decreases s.len() - i,
{
    if 0 <= i < s.len() && spec_is_whitespace(s[i]) {
        skip_ws_from(s, i + 1)
    } else {
        i
    }
}

/// One past the last non-whitespace character of `s[..n]` (or 0).
pub open spec fn ws_trimmed_end(s: Seq<char>, n: int) -> int
    decreases n,
{
    if 0 < n <= s.len() && spec_is_whitespace(s[n - 1]) {
        ws_trimmed_end(s, n - 1)
    } else {
        n
    }
}

/// `s` without leading whitespace (`str::trim_start`).
pub open spec fn trim_start(s: Seq<char>) -> Seq<char> {
    s.subrange(skip_ws_from(s, 0), s.len() as int)
}

/// `s` without trailing whitespace (`str::trim_end`).
pub open spec fn trim_end(s: Seq<char>) -> Seq<char> {
    s.subrange(0, ws_trimmed_end(s, s.len() as int))
}

/// `s` without leading or trailing whitespace (`str::trim`).
pub open spec fn trim(s: Seq<char>) -> Seq<char> {
    trim_end(trim_start(s))
}

proof fn lemma_skip_ws_bounds(s: Seq<char>, i: int)
    requires
        0 <= i <= s.len(),
    ensures
        i <= skip_ws_from(s, i) <= s.len(),
    decreases s.len() - i,
{
    if i < s.len() && spec_is_whitespace(s[i]) {
        lemma_skip_ws_bounds(s, i + 1);
    }
}

pub(crate) proof fn lemma_trimmed_end_bounds(s: Seq<char>, n: int)
    requires
        0 <= n <= s.len(),
    ensures
        0 <= ws_trimmed_end(s, n) <= n,
    decreases n,
{
    if 0 < n && spec_is_whitespace(s[n - 1]) {
        lemma_trimmed_end_bounds(s, n - 1);
    }
}

/// `s` without leading whitespace.
pub fn trim_start_chars(s: &[char]) -> (r: Vec<char>)
    ensures
        r@ == trim_start(s@),
{
    let mut i: usize = 0;
    while i < s.len() && is_whitespace(s[i])
        invariant
            i <= s@.len(),
            skip_ws_from(s@, 0) == skip_ws_from(s@, i as int),
        decreases s@.len() - i,
    {
        i = i + 1;
    }
    slice_range(s, i, s.len())
}

/// `s` without trailing whitespace.
pub fn trim_end_chars(s: &[char]) -> (r: Vec<char>)
    ensures
        r@ == trim_end(s@),
{
    let mut n: usize = s.len();
    while n > 0 && is_whitespace(s[n - 1])
        invariant
            n <= s@.len(),
            ws_trimmed_end(s@, s@.len() as int) == ws_trimmed_end(s@, n as int),
        decreases n,
    {
        n = n - 1;
    }
    slice_range(s, 0, n)
}

/// `s` without leading or trailing whitespace.
pub fn trim_chars(s: &[char]) -> (r: Vec<char>)
    ensures
        r@ == trim(s@),
{
    let a = trim_start_chars(s);
    trim_end_chars(a.as_slice())
}

/// `s[i..]` with every non-overlapping occurrence of `from`, scanning left
/// to right, replaced by `to` (`str::replace`).
pub open spec fn replace_from(s: Seq<char>, from: Seq<char>, to: Seq<char>, i: int) -> Seq<char>
    decreases s.len() - i,
{
    if i < 0 || i >= s.len() {
        seq![]
    } else if from.len() > 0 && occurs_at(s, from, i) {
        to + replace_from(s, from, to, i + from.len())
    } else {
        seq![s[i]] + replace_from(s, from, to, i + 1)
    }
}

/// `s` with every occurrence of the non-empty `from` replaced by `to`.
pub open spec fn replace_all(s: Seq<char>, from: Seq<char>, to: Seq<char>) -> Seq<char> {
    replace_from(s, from, to, 0)
}

/// Replaces every occurrence of `from` in `s` by `to`.
pub fn replace(s: &[char], from: &[char], to: &[char]) -> (r: Vec<char>)
    requires
        from@.len() > 0,
    ensures
        r@ == replace_all(s@, from@, to@),
{
    let mut out: Vec<char> = Vec::new();
    let mut i: usize = 0;
    while i < s.len()
        invariant
            i <= s@.len(),
            from@.len() > 0,
            replace_all(s@, from@, to@) == out@ + replace_from(s@, from@, to@, i as int),
        decreases s@.len() - i,
    {
        if matches_at(s, from, i) {
            let ghost before = out@;
            push_all(&mut out, to);
            assert(before + (to@ + replace_from(s@, from@, to@, i + from@.len())) =~= out@
                + replace_from(s@, from@, to@, i + from@.len()));
            i = i + from.len();
        } else {
            let ghost before = out@;
            out.push(s[i]);
            assert(before + (seq![s@[i as int]] + replace_from(s@, from@, to@, i + 1)) =~= out@
                + replace_from(s@, from@, to@, i + 1));
            i = i + 1;
        }
    }
    assert(out@ + Seq::<char>::empty() =~= out@);
    out
}

/// The decimal digit character for `d < 10`.
pub open spec fn digit_char(d: int) -> char {
    seq!['0', '1', '2', '3', '4', '5', '6', '7', '8', '9'][d]
}

/// The decimal representation of `n`, without leading zeros.
pub open spec fn decimal(n: nat) -> Seq<char>
    decreases n,
{
    if n < 10 {
        seq![digit_char(n as int)]
    } else {
        decimal(n / 10).push(digit_char((n % 10) as int))
    }
}

fn digit(d: u64) -> (c: char)
    requires
        d < 10,
    ensures
        c == digit_char(d as int),
{
    if d == 0 {
        '0'
    } else if d == 1 {
        '1'
    } else if d == 2 {
        '2'
    } else if d == 3 {
        '3'
    } else if d == 4 {
        '4'
    } else if d == 5 {
        '5'
    } else if d == 6 {
        '6'
    } else if d == 7 {
        '7'
    } else if d == 8 {
        '8'
    } else {
        '9'
    }
}

/// The decimal digits of `n`.
pub fn decimal_chars(n: u64) -> (r: Vec<char>)
    ensures
        r@ == decimal(n as nat),
    decreases n,
{
    if n < 10 {
        let mut v: Vec<char> = Vec::new();
        v.push(digit(n));
        assert(v@ =~= seq![digit_char(n as int)]);
        v
    } else {
        let mut v = decimal_chars(n / 10);
        v.push(digit(n % 10));
        v
    }
}

/// `to` before, between and after the characters of `s`: what
/// `str::replace` gives for an empty pattern.
pub open spec fn interleave(s: Seq<char>, to: Seq<char>) -> Seq<char>
    decreases s.len(),
{
    if s.len() == 0 {
        to
    } else {
        to + seq![s[0]] + interleave(s.drop_first(), to)
    }
}

/// `str::replace`: every occurrence of `from` replaced by `to`, where an
/// empty `from` occurs before, between and after all characters.
pub open spec fn str_replace(s: Seq<char>, from: Seq<char>, to: Seq<char>) -> Seq<char> {
    if from.len() == 0 {
        interleave(s, to)
    } else {
        replace_all(s, from, to)
    }
}

/// Replaces every occurrence of `from` in `s` by `to`, as `str::replace`
/// does, an empty `from` included.
pub fn replace_any(s: &[char], from: &[char], to: &[char]) -> (r: Vec<char>)
    ensures
        r@ == str_replace(s@, from@, to@),
{
    if from.len() > 0 {
        return replace(s, from, to);
    }
    let mut out: Vec<char> = Vec::new();
    let mut i: usize = 0;
    assert(s@.skip(0) =~= s@);
    while i < s.len()
        invariant
            i <= s@.len(),
            from@.len() == 0,
            interleave(s@, to@) == out@ + interleave(s@.skip(i as int), to@),
        decreases s@.len() - i,
    {
        let ghost rest = s@.skip(i as int);
        let ghost before = out@;
        push_all(&mut out, to);
        out.push(s[i]);
        assert(rest.drop_first() =~= s@.skip(i + 1));
        assert(rest[0] == s@[i as int]);
        assert(before + (to@ + seq![rest[0]] + interleave(rest.drop_first(), to@)) =~= out@
            + interleave(s@.skip(i + 1), to@));
        i = i + 1;
    }
    let ghost before = out@;
    push_all(&mut out, to);
    assert(s@.skip(i as int) =~= Seq::<char>::empty());
    out
}

/// The number of bytes of the UTF-8 encoding of `s` (`str::len`).
pub fn byte_len(s: &str) -> (n: usize)
    ensures
        n == encode_utf8(s@).len(),
{
    s.as_bytes().len()
}

/// The strings of a list, as character sequences.
pub open spec fn string_views(v: Seq<String>) -> Seq<Seq<char>> {
    v.map_values(|s: String| s@)
}

/// The texts joined by `sep`.
pub open spec fn join_with(ss: Seq<Seq<char>>, sep: Seq<char>) -> Seq<char>
    decreases ss.len(),
{
    if ss.len() == 0 {
        seq![]
    } else if ss.len() == 1 {
        ss[0]
    } else {
        join_with(ss.drop_last(), sep) + sep + ss.last()
    }
}

/// Joins the strings of `v` with `sep`.
pub fn join_strings(v: &Vec<String>, sep: &str) -> (r: String)
    ensures
        r@ == join_with(string_views(v@), sep@),
{
    let ghost sv = string_views(v@);
    let mut out: Vec<char> = Vec::new();
    let mut i: usize = 0;
    while i < v.len()
        invariant
            i <= v@.len(),
            sv == string_views(v@),
            out@ == join_with(sv.take(i as int), sep@),
        decreases v@.len() - i,
    {
        if i > 0 {
            push_str(&mut out, sep);
        }
        push_str(&mut out, v[i].as_str());
        assert(sv.take(i + 1).drop_last() =~= sv.take(i as int));
        assert(sv.take(i + 1).last() == v@[i as int]@);
        i = i + 1;
    }
    assert(sv.take(sv.len() as int) =~= sv);
    string_from(out.as_slice())
}

/// An owned string equal to `s` (a `String` copied).
pub fn copy_string(s: &String) -> (r: String)
    ensures
        r@ == s@,
{
    owned(s.as_str())
}

/// The UTF-8 encoding of a sequence splits at any point into the
/// encodings of its two parts.
pub proof fn lemma_encode_concat(a: Seq<char>, b: Seq<char>)
    ensures
        encode_utf8(a + b) == encode_utf8(a) + encode_utf8(b),
    decreases a.len(),
{
    if a.len() == 0 {
        assert(a + b =~= b);
        assert(encode_utf8(a) =~= Seq::<u8>::empty());
        assert(encode_utf8(a) + encode_utf8(b) =~= encode_utf8(b));
    } else {
        lemma_encode_concat(a.drop_first(), b);
        assert((a + b).drop_first() =~= a.drop_first() + b);
        assert((a + b)[0] == a[0]);
        assert(encode_utf8(a + b) =~= encode_scalar(a[0] as u32) + (encode_utf8(a.drop_first())
            + encode_utf8(b)));
    }
}

/// Each character takes at least one byte: longer prefixes have longer
/// encodings.
pub proof fn lemma_encode_prefix_grows(s: Seq<char>, i: int, j: int)
    requires
        0 <= i < j <= s.len(),
    ensures
        encode_utf8(s.take(i)).len() < encode_utf8(s.take(j)).len(),
    decreases j - i,
{
    lemma_encode_concat(s.take(j - 1), seq![s[j - 1]]);
    assert(s.take(j) =~= s.take(j - 1) + seq![s[j - 1]]);
    assert(seq![s[j - 1]].drop_first() =~= Seq::<char>::empty());
    assert(encode_utf8(Seq::<char>::empty()) =~= Seq::<u8>::empty());
    assert(encode_utf8(seq![s[j - 1]]).len() >= 1);
    if i < j - 1 {
        lemma_encode_prefix_grows(s, i, j - 1);
    }
}

/// `s` has a character boundary `n` bytes into its UTF-8 encoding.
pub open spec fn has_byte_boundary(s: Seq<char>, n: nat) -> bool {
    exists|k: int| 0 <= k <= s.len() && #[trigger] encode_utf8(s.take(k)).len() == n
}

/// The characters of `s` that make up its first `n` bytes, where there is
/// a character boundary (`&s[..n]`).
pub fn byte_prefix(s: &[char], n: usize) -> (r: Vec<char>)
    requires
        has_byte_boundary(s@, n as nat),
    ensures
        r@ == s@.take(r@.len() as int),
        encode_utf8(r@).len() == n,
{
    let ghost k = choose|k: int| 0 <= k <= s@.len() && #[trigger] encode_utf8(s@.take(k)).len() == n;
    let mut pos: usize = 0;
    let mut i: usize = 0;
    assert(s@.take(0) =~= Seq::<char>::empty());
    assert(encode_utf8(Seq::<char>::empty()) =~= Seq::<u8>::empty());
    proof {
        if k > 0 {
            lemma_encode_prefix_grows(s@, 0, k);
        }
    }
    while pos < n
        invariant
            i <= s@.len(),
            0 <= k <= s@.len(),
            encode_utf8(s@.take(k)).len() == n,
            pos == encode_utf8(s@.take(i as int)).len(),
            i <= k,
        decreases n - pos,
    {
        proof {
            if i == k {
                assert(false);
            }
        }
        let c = s[i];
        proof {
            char_is_scalar(c);
            lemma_encode_concat(s@.take(i as int), seq![c]);
            assert(s@.take(i + 1) =~= s@.take(i as int) + seq![c]);
            assert(seq![c].drop_first() =~= Seq::<char>::empty());
            assert(seq![c][0] == c);
            assert(encode_utf8(Seq::<char>::empty()) =~= Seq::<u8>::empty());
            assert(encode_utf8(seq![c]) =~= encode_scalar(c as u32));
            if i + 1 < k {
                lemma_encode_prefix_grows(s@, i + 1, k);
            }
        }
        let w: usize = if (c as u32) < 0x80 {
            1
        } else if (c as u32) < 0x800 {
            2
        } else if (c as u32) < 0x10000 {
            3
        } else {
            4
        };
        assert(w == encode_scalar(c as u32).len());
        pos = pos + w;
        i = i + 1;
    }
    proof {
        if i < k {
            lemma_encode_prefix_grows(s@, i as int, k);
        }
    }
    let r = slice_range(s, 0, i);
    assert(r@ =~= s@.take(i as int));
    r
}

/// `trim_start(s)` is what follows the leading whitespace of `s`.
pub(crate) proof fn lemma_trim_start_suffix(s: Seq<char>)
    ensures
        trim_start(s).len() <= s.len(),
        s.take(s.len() - trim_start(s).len()) + trim_start(s) == s,
{
    lemma_skip_ws_bounds(s, 0);
    let k = skip_ws_from(s, 0);
    assert(s.take(k) + s.subrange(k, s.len() as int) =~= s);
}

proof fn lemma_replace_run(s: Seq<char>, from: Seq<char>, to: Seq<char>, i: int, j: int)
    requires
        from.len() > 0,
        0 <= i <= j <= s.len(),
        forall|k: int| i <= k < j ==> !#[trigger] occurs_at(s, from, k),
    ensures
        replace_from(s, from, to, i) == s.subrange(i, j) + replace_from(s, from, to, j),
    decreases j - i,
{
    if i < j {
        assert(!occurs_at(s, from, i));
        lemma_replace_run(s, from, to, i + 1, j);
        assert(seq![s[i]] + s.subrange(i + 1, j) =~= s.subrange(i, j));
        assert(seq![s[i]] + (s.subrange(i + 1, j) + replace_from(s, from, to, j)) =~= s.subrange(i, j)
            + replace_from(s, from, to, j));
    } else {
        assert(s.subrange(i, j) + replace_from(s, from, to, j) =~= replace_from(s, from, to, j));
    }
}

proof fn lemma_replace_suffix(x: Seq<char>, b: Seq<char>, from: Seq<char>, to: Seq<char>, j: int)
    requires
        from.len() > 0,
        0 <= j <= b.len(),
    ensures
        replace_from(x + b, from, to, x.len() + j) == replace_from(b, from, to, j),
    decreases b.len() - j,
{
    let s = x + b;
    let n = x.len() as int;
    if j < b.len() {
        assert(occurs_at(s, from, n + j) == occurs_at(b, from, j)) by {
            if j + from.len() <= b.len() {
                assert(s.subrange(n + j, n + j + from.len()) =~= b.subrange(j, j + from.len()));
            }
        }
        assert(s[n + j] == b[j]);
        if occurs_at(b, from, j) {
            lemma_replace_suffix(x, b, from, to, j + from.len());
        } else {
            lemma_replace_suffix(x, b, from, to, j + 1);
        }
    }
}

/// Replacing goes left to right and replaces every occurrence: in text
/// made of a part where `from` does not start, then `from`, then a rest,
/// the first part is kept, `from` becomes `to`, and the rest is replaced
/// in turn.
pub proof fn law_replace_every_occurrence(a: Seq<char>, b: Seq<char>, from: Seq<char>, to: Seq<char>)
    requires
        from.len() > 0,
        forall|k: int| 0 <= k < a.len() ==> !#[trigger] occurs_at(a + from + b, from, k),
    ensures
        str_replace(a + from + b, from, to) == a + to + str_replace(b, from, to),
{
    let s = a + from + b;
    let n = a.len() as int;
    lemma_replace_run(s, from, to, 0, n);
    assert(s.subrange(0, n) =~= a);
    assert(occurs_at(s, from, n)) by {
        assert(s.subrange(n, n + from.len()) =~= from);
    }
    assert(s =~= (a + from) + b);
    lemma_replace_suffix(a + from, b, from, to, 0);
    assert(replace_from(s, from, to, n) == to + replace_from(s, from, to, n + from.len()));
}

/// Text in which `from` does not occur is left as it is.
pub proof fn law_replace_nothing_to_replace(s: Seq<char>, from: Seq<char>, to: Seq<char>)
    requires
        from.len() > 0,
        forall|k: int| 0 <= k < s.len() ==> !#[trigger] occurs_at(s, from, k),
    ensures
        str_replace(s, from, to) == s,
{
    lemma_replace_run(s, from, to, 0, s.len() as int);
    assert(s.subrange(0, s.len() as int) =~= s);
    assert(s + Seq::<char>::empty() =~= s);
}

} // verus!
