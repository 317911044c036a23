//! The project's own instructions for the model, kept in
//! `.synthia/.SYNTHIA.md`. Creating the directory and the file and reading
//! it is the application's part.

use vstd::prelude::*;
use crate::paths::{join_path, join_str};
use crate::text::{chars_of, owned, trim, trim_chars};

verus! {

/// The project's context: its custom instructions, if any, and its
/// `.synthia` directory.
pub struct ProjectContext {
    pub custom_instructions: Option<String>,
    pub synthia_dir: String,
}

/// The `.synthia` directory of the working directory `cwd`.
pub fn synthia_dir_in(cwd: &str) -> (r: String)
    ensures
        r@ == join_path(cwd@, ".synthia"@),
{
    join_str(cwd, ".synthia")
}

/// The instructions file in the `.synthia` directory `dir`.
pub fn instructions_path(dir: &str) -> (r: String)
    ensures
        r@ == join_path(dir@, ".SYNTHIA.md"@),
{
    join_str(dir, ".SYNTHIA.md")
}

/// The instructions held by a file with `content`: none when it is blank,
/// otherwise the content as it is.
pub fn custom_instructions_from(content: String) -> (r: Option<String>)
    ensures
        trim(content@).len() == 0 ==> r is None,
        trim(content@).len() > 0 ==> r is Some && r->0 == content,
{
    let c = chars_of(content.as_str());
    let t = trim_chars(c.as_slice());
    if t.len() == 0 {
        None
    } else {
        Some(content)
    }
}

impl ProjectContext {
    /// The context found in the working directory `cwd` whose instructions
    /// file holds `content`; when the directory or the file could not be
    /// had (`found` is an error) the context is empty, with `.synthia` as
    /// its directory.
    pub fn load(found: Result<(String, String), String>) -> (r: ProjectContext)
        ensures
            match found {
                Ok((cwd, content)) => r.synthia_dir@ == join_path(cwd@, ".synthia"@) && (trim(
                    content@,
                ).len() == 0 ==> r.custom_instructions is None) && (trim(content@).len() > 0
                    ==> r.custom_instructions == Some(content)),
                Err(_) => r.synthia_dir@ == ".synthia"@ && r.custom_instructions is None,
            },
    {
        match found {
            Ok((cwd, content)) => ProjectContext {
                custom_instructions: custom_instructions_from(content),
                synthia_dir: synthia_dir_in(cwd.as_str()),
            },
            Err(_) => ProjectContext { custom_instructions: None, synthia_dir: owned(".synthia") },
        }
    }
}

} // verus!
