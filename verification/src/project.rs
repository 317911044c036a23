//! Project naming: the name of a project directory and its file-system safe
//! form.

use vstd::prelude::*;
use crate::paths::{path_file_name, path_file_name_of};
use crate::text::{chars_of, string_from};

verus! {

/// The longest normalised project name.
pub const MAX_PROJECT_NAME_LEN: usize = 50;

/// `c` is an ASCII letter or digit.
pub open spec fn is_ascii_alnum(c: char) -> bool {
    ('a' <= c && c <= 'z') || ('A' <= c && c <= 'Z') || ('0' <= c && c <= '9')
}

/// The ASCII lower-case form of `c` (other characters unchanged).
pub open spec fn ascii_lower(c: char) -> char {
    if 'A' <= c && c <= 'Z' {
        ((c as u32) + 32) as char
    } else {
        c
    }
}

/// A character of a project name made safe: ASCII letters and digits
/// lower-cased, `-` and `_` kept, anything else replaced by `_`.
pub open spec fn safe_char(c: char) -> char {
    if is_ascii_alnum(c) || c == '-' || c == '_' {
        ascii_lower(c)
    } else {
        '_'
    }
}

/// `name` with every character made safe and at most its first 50 kept.
pub open spec fn spec_normalize_project_name(name: Seq<char>) -> Seq<char> {
    let mapped = name.map_values(|c: char| safe_char(c));
    if mapped.len() <= MAX_PROJECT_NAME_LEN {
        mapped
    } else {
        mapped.take(MAX_PROJECT_NAME_LEN as int)
    }
}

/// A character that may stand in a normalised project name.
pub open spec fn is_name_char(c: char) -> bool {
    ('a' <= c && c <= 'z') || ('0' <= c && c <= '9') || c == '-' || c == '_'
}

fn safe_char_exec(c: char) -> (r: char)
    ensures
        r == safe_char(c),
{
    if 'A' <= c && c <= 'Z' {
        let b = (c as u8) + 32;
        b as char
    } else if ('a' <= c && c <= 'z') || ('0' <= c && c <= '9') || c == '-' || c == '_' {
        c
    } else {
        '_'
    }
}

/// Extracts the project name from `path`: its last component.
pub fn extract_project_name(path: &str) -> (r: Result<String, String>)
    ensures
        match path_file_name_of(path@) {
            Some(n) => r matches Ok(s) && s@ == n,
            None => r matches Err(e) && e@ == "Failed to extract project name from path"@,
        },
{
    match path_file_name(path) {
        Some(n) => Ok(n),
        None => Err(crate::text::owned("Failed to extract project name from path")),
    }
}

/// Normalises a project name for use in file names: lower-case ASCII
/// letters and digits, `-` and `_` kept, everything else turned into `_`,
/// and no more than 50 characters.
pub fn normalize_project_name(name: &str) -> (r: String)
    ensures
        r@ == spec_normalize_project_name(name@),
{
    let cs = chars_of(name);
    let mut out: Vec<char> = Vec::new();
    let mut i: usize = 0;
    while i < cs.len() && i < MAX_PROJECT_NAME_LEN
        invariant
            i <= cs@.len(),
            i <= MAX_PROJECT_NAME_LEN,
            cs@ == name@,
            out@ == cs@.take(i as int).map_values(|c: char| safe_char(c)),
        decreases cs@.len() - i,
    {
        let c = safe_char_exec(cs[i]);
        out.push(c);
        i = i + 1;
        assert(out@ =~= cs@.take(i as int).map_values(|c: char| safe_char(c)));
    }
    proof {
        let mapped = name@.map_values(|c: char| safe_char(c));
        if mapped.len() <= MAX_PROJECT_NAME_LEN {
            assert(cs@.take(i as int) =~= cs@);
            assert(out@ =~= mapped);
        } else {
            assert(out@ =~= mapped.take(MAX_PROJECT_NAME_LEN as int));
        }
    }
    string_from(out.as_slice())
}

/// A normalised name is at most 50 characters long and made only of
/// lower-case ASCII letters, digits, `-` and `_`.
pub proof fn law_normalized_name_is_safe(name: Seq<char>)
    ensures
        spec_normalize_project_name(name).len() <= MAX_PROJECT_NAME_LEN,
        spec_normalize_project_name(name).len() == if name.len() <= 50 {
            name.len()
        } else {
            50
        },
        forall|i: int|
            0 <= i < spec_normalize_project_name(name).len() ==> is_name_char(
                #[trigger] spec_normalize_project_name(name)[i],
            ),
{
    let r = spec_normalize_project_name(name);
    assert forall|i: int| 0 <= i < r.len() implies is_name_char(#[trigger] r[i]) by {
        let c = name[i];
        assert(r[i] == safe_char(c));
        if 'A' <= c && c <= 'Z' {
            assert(('a' as u32) <= (c as u32) + 32 <= ('z' as u32));
        }
    }
}

/// Normalising a name twice gives the same as normalising it once.
pub proof fn law_normalize_idempotent(name: Seq<char>)
    ensures
        spec_normalize_project_name(spec_normalize_project_name(name)) == spec_normalize_project_name(name),
{
    let r = spec_normalize_project_name(name);
    law_normalized_name_is_safe(name);
    let rr = spec_normalize_project_name(r);
    assert forall|i: int| 0 <= i < r.len() implies #[trigger] safe_char(r[i]) == r[i] by {
        assert(is_name_char(r[i]));
    }
    assert(rr =~= r);
}

/// The root of the git repository from the output of
/// `git rev-parse --show-toplevel`: its trimmed output when it succeeded.
pub fn git_root_from(success: bool, stdout: &str) -> (r: Result<String, String>)
    ensures
        success ==> r is Ok && r->Ok_0@ == crate::text::trim(stdout@),
        !success ==> r is Err && r->Err_0@ == "Not a git repository"@,
{
    if !success {
        return Err(crate::text::owned("Not a git repository"));
    }
    let cs = chars_of(stdout);
    let t = crate::text::trim_chars(cs.as_slice());
    Ok(string_from(t.as_slice()))
}

/// A name that is already safe and short enough is kept as it is; in any
/// name the first 50 characters keep their place: upper-case ASCII letters
/// become lower-case, other characters that are not safe become `_`.
pub proof fn law_normalize_keeps_safe_names(name: Seq<char>)
    ensures
        name.len() <= MAX_PROJECT_NAME_LEN && (forall|i: int| 0 <= i < name.len() ==> is_name_char(
            #[trigger] name[i],
        )) ==> spec_normalize_project_name(name) == name,
        forall|i: int|
            0 <= i < spec_normalize_project_name(name).len() ==> {
                let c = name[i];
                let d = #[trigger] spec_normalize_project_name(name)[i];
                &&& is_name_char(c) ==> d == c
                &&& ('A' <= c && c <= 'Z') ==> d as u32 == c as u32 + 32
                &&& !(is_name_char(c) || ('A' <= c && c <= 'Z')) ==> d == '_'
            },
{
    let r = spec_normalize_project_name(name);
    if name.len() <= MAX_PROJECT_NAME_LEN && (forall|i: int| 0 <= i < name.len() ==> is_name_char(
        #[trigger] name[i],
    )) {
        assert forall|i: int| 0 <= i < name.len() implies #[trigger] r[i] == name[i] by {
            assert(is_name_char(name[i]));
        }
        assert(r =~= name);
    }
    assert forall|i: int| 0 <= i < r.len() implies {
        let c = name[i];
        let d = #[trigger] r[i];
        &&& is_name_char(c) ==> d == c
        &&& ('A' <= c && c <= 'Z') ==> d as u32 == c as u32 + 32
        &&& !(is_name_char(c) || ('A' <= c && c <= 'Z')) ==> d == '_'
    } by {
        assert(r[i] == safe_char(name[i]));
    }
}

} // verus!
