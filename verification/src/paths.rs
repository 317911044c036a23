//! Unix path handling on strings: the parts of `std::path` that the
//! library's rules depend on.

use vstd::prelude::*;
use crate::text::{chars_of, push_all, string_from};

verus! {

/// A Unix path is absolute when it starts at the root `/`.
pub open spec fn is_absolute_path(p: Seq<char>) -> bool {
    p.len() > 0 && p[0] == '/'
}

/// `rel` adjoined to `base` (`PathBuf::join` on Unix): an absolute `rel`
/// replaces `base`; otherwise a separator is put between them unless
/// `base` is empty or already ends with one.
pub open spec fn join_path(base: Seq<char>, rel: Seq<char>) -> Seq<char> {
    if is_absolute_path(rel) {
        rel
    } else if base.len() == 0 || base.last() == '/' {
        base + rel
    } else {
        base + seq!['/'] + rel
    }
}

/// Whether `p` is absolute.
pub fn is_absolute(p: &[char]) -> (r: bool)
    ensures
        r == is_absolute_path(p@),
{
    p.len() > 0 && p[0] == '/'
}

/// Adjoins `rel` to `base`.
pub fn join(base: &[char], rel: &[char]) -> (r: Vec<char>)
    ensures
        r@ == join_path(base@, rel@),
{
    let mut out: Vec<char> = Vec::new();
    if is_absolute(rel) {
        push_all(&mut out, rel);
        assert(out@ =~= rel@);
        return out;
    }
    push_all(&mut out, base);
    if base.len() > 0 && base[base.len() - 1] != '/' {
        out.push('/');
    }
    push_all(&mut out, rel);
    out
}

/// Adjoins the relative path `rel` to the path string `base`.
pub fn join_str(base: &str, rel: &str) -> (r: String)
    ensures
        r@ == join_path(base@, rel@),
{
    let b = chars_of(base);
    let c = chars_of(rel);
    let j = join(b.as_slice(), c.as_slice());
    string_from(j.as_slice())
}

/// What `Path::parent` gives for the path `p`, as a string.
pub uninterp spec fn path_parent_of(p: Seq<char>) -> Option<Seq<char>>;

/// What `Path::file_name` gives for the path `p`, as a string.
pub uninterp spec fn path_file_name_of(p: Seq<char>) -> Option<Seq<char>>;

/// Calls `std::path::Path::parent` on `p` and renders the result as a
/// string; the contract only ties the result to `p` through a name.
#[verifier::external_body]
pub(crate) fn path_parent(p: &str) -> (r: Option<String>)
    ensures
        match r {
            Some(d) => path_parent_of(p@) == Some(d@),
            None => path_parent_of(p@) is None,
        },
{
    std::path::Path::new(p).parent().map(|d| d.to_string_lossy().to_string())
}

/// Calls `std::path::Path::file_name` on `p` and keeps it when it is valid
/// UTF-8 (always, for a path made from a `str`); the contract only ties the
/// result to `p` through a name.
#[verifier::external_body]
pub(crate) fn path_file_name(p: &str) -> (r: Option<String>)
    ensures
        match r {
            Some(n) => path_file_name_of(p@) == Some(n@),
            None => path_file_name_of(p@) is None,
        },
{
    std::path::Path::new(p).file_name().and_then(|n| n.to_str()).map(|n| n.to_string())
}

} // verus!
