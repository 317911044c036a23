//! The tools that run an external program (git, fd or find, rg or grep):
//! the command line each one builds from its parameters and the result it
//! reports from the program's output. Spawning the program is the
//! application's part.

use vstd::prelude::*;
use crate::params::{bool_param, list_param, missing_param_message, str_param, uint_param, ToolParams};
use crate::text::{
    chars_of, contains_char, copy_string, decimal, decimal_chars, join_strings, join_with, owned,
    push_all, push_str, seq_contains, string_from, string_views, trim, trim_chars,
};
use crate::tools::{bash_output, BashTool, ToolResult};

verus! {

/// A program's command line arguments and working directory.
pub struct CommandPlan {
    pub args: Vec<String>,
    pub cwd: Option<String>,
}

fn lit(s: &str) -> (r: String)
    ensures
        r@ == s@,
{
    owned(s)
}

fn err_msg(a: &str, b: &str) -> (r: String)
    ensures
        r@ == a@ + b@,
{
    let mut m: Vec<char> = Vec::new();
    push_str(&mut m, a);
    push_str(&mut m, b);
    string_from(m.as_slice())
}

// ---------------------------------------------------------------- git

/// Runs common git operations.
pub struct GitTool {
    pub timeout_seconds: u64,
}

/// The arguments of git for a call with `params`, or the error.
pub open spec fn git_args_of(params: ToolParams) -> Result<Seq<Seq<char>>, Seq<char>> {
    let e = params.entries@;
    match str_param(e, "operation"@) {
        None => Err(missing_param_message("operation"@)),
        Some(op) => if op == "init"@ {
            Ok(seq!["init"@])
        } else if op == "status"@ {
            Ok(seq!["status"@])
        } else if op == "diff"@ {
            if bool_param(e, "staged"@) == Some(true) {
                Ok(seq!["diff"@, "--cached"@])
            } else {
                Ok(seq!["diff"@])
            }
        } else if op == "log"@ {
            let limit: u32 = match uint_param(e, "limit"@) {
                Some(l) => l as u32,
                None => 10u32,
            };
            Ok(seq!["log"@, "--oneline"@, "-n"@, decimal(limit as nat)])
        } else if op == "add"@ {
            match list_param(e, "files"@) {
                None => Err("Missing 'files' parameter for add operation"@),
                Some(fs) => if fs.len() == 0 {
                    Err("No files specified for git add"@)
                } else {
                    Ok(seq!["add"@] + string_views(fs))
                },
            }
        } else if op == "commit"@ {
            match str_param(e, "message"@) {
                None => Err("Missing 'message' parameter for commit operation"@),
                Some(m) => if m.len() == 0 {
                    Err("Commit message cannot be empty"@)
                } else {
                    Ok(seq!["commit"@, "-m"@, m])
                },
            }
        } else if op == "push"@ {
            match str_param(e, "remote"@) {
                None => Ok(seq!["push"@]),
                Some(r) => match str_param(e, "branch"@) {
                    None => Ok(seq!["push"@, r]),
                    Some(b) => Ok(seq!["push"@, r, b]),
                },
            }
        } else {
            Err("Unknown git operation: "@ + op)
        }
    }
}

/// The operation names of git are told apart.
proof fn lemma_git_ops_distinct()
    ensures
        "push"@ != "init"@,
        "push"@ != "status"@,
        "push"@ != "diff"@,
        "push"@ != "log"@,
        "push"@ != "add"@,
        "push"@ != "commit"@,
        "add"@ != "init"@,
        "add"@ != "status"@,
        "add"@ != "diff"@,
        "add"@ != "log"@,
        "commit"@ != "init"@,
        "commit"@ != "status"@,
        "commit"@ != "diff"@,
        "commit"@ != "log"@,
        "commit"@ != "add"@,
        "diff"@ != "init"@,
        "diff"@ != "status"@,
{
    reveal_strlit("push");
    reveal_strlit("init");
    reveal_strlit("status");
    reveal_strlit("diff");
    reveal_strlit("log");
    reveal_strlit("add");
    reveal_strlit("commit");
    assert("push"@[0] != "init"@[0]);
    assert("push"@[0] != "status"@[0]);
    assert("push"@[0] != "diff"@[0]);
    assert("push"@[0] != "log"@[0]);
    assert("push"@[0] != "add"@[0]);
    assert("push"@[0] != "commit"@[0]);
    assert("add"@[0] != "init"@[0]);
    assert("add"@[0] != "status"@[0]);
    assert("add"@[0] != "diff"@[0]);
    assert("add"@[0] != "log"@[0]);
    assert("commit"@[0] != "init"@[0]);
    assert("commit"@[0] != "status"@[0]);
    assert("commit"@[0] != "diff"@[0]);
    assert("commit"@[0] != "log"@[0]);
    assert("commit"@[0] != "add"@[0]);
    assert("diff"@[0] != "init"@[0]);
    assert("diff"@[0] != "status"@[0]);
}

/// A push goes to the remote given, and then to the branch given with it:
/// with a remote, git gets `push`, the remote and, when a branch is given
/// too, the branch; without a remote, plain `push` (a branch alone is not
/// passed).
pub proof fn law_git_push_targets(params: ToolParams)
    requires
        str_param(params.entries@, "operation"@) == Some("push"@),
    ensures
        git_args_of(params) is Ok,
        ({
            let a = git_args_of(params)->Ok_0;
            &&& a.len() >= 1 && a[0] == "push"@
            &&& match str_param(params.entries@, "remote"@) {
                Some(r) => a.len() >= 2 && a[1] == r && match str_param(params.entries@, "branch"@) {
                    Some(b) => a.len() == 3 && a[2] == b,
                    None => a.len() == 2,
                },
                None => a.len() == 1,
            }
        }),
{
    lemma_git_ops_distinct();
}

/// Every git call that is accepted runs the operation it names: the first
/// argument is the operation; `add` passes exactly the files, in order;
/// `commit` passes the message after `-m`; `diff` asks for the staged
/// changes exactly when `staged` is true.
pub proof fn law_git_runs_named_operation(params: ToolParams)
    ensures
        git_args_of(params) matches Ok(a) ==> {
            let op = str_param(params.entries@, "operation"@)->0;
            &&& str_param(params.entries@, "operation"@) is Some
            &&& a.len() >= 1 && a[0] == op
            &&& op == "add"@ ==> a.skip(1) == string_views(list_param(params.entries@, "files"@)->0)
            &&& op == "commit"@ ==> a.len() == 3 && a[1] == "-m"@ && a[2] == str_param(params.entries@, "message"@)->0
            &&& op == "diff"@ ==> (a.len() == 2 && a[1] == "--cached"@) == (bool_param(params.entries@, "staged"@) == Some(true))
        },
{
    lemma_git_ops_distinct();
    if git_args_of(params) is Ok {
        let op = str_param(params.entries@, "operation"@)->0;
        let a = git_args_of(params)->Ok_0;
        if op == "add"@ {
            let fs = list_param(params.entries@, "files"@)->0;
            assert((seq!["add"@] + string_views(fs)).skip(1) =~= string_views(fs));
        }
    }
}

/// What a git command reports: the command line, then its output.
pub open spec fn git_report(args: Seq<Seq<char>>, stdout: Seq<char>, stderr: Seq<char>) -> Seq<char> {
    "Command: git "@ + join_with(args, " "@) + "\n\n"@ + bash_output(stdout, stderr)
}

impl GitTool {
    pub fn new(timeout_seconds: u64) -> (r: GitTool)
        ensures
            r.timeout_seconds == timeout_seconds,
    {
        GitTool { timeout_seconds }
    }

    /// The git command line for a call with `params` (see `git_args_of`),
    /// run in the directory given as `cwd`, if any.
    pub fn plan(params: &ToolParams) -> (r: Result<CommandPlan, String>)
        ensures
            match git_args_of(*params) {
                Ok(a) => r is Ok && string_views(r->Ok_0.args@) == a && match (
                    r->Ok_0.cwd,
                    str_param(params.entries@, "cwd"@),
                ) {
                    (Some(c), Some(d)) => c@ == d,
                    (None, None) => true,
                    _ => false,
                },
                Err(m) => r is Err && r->Err_0@ == m,
            },
    {
        let op = match params.require_str("operation") {
            Ok(op) => op,
            Err(e) => return Err(e),
        };
        let cwd = match params.get_str("cwd") {
            Some(c) => Some(string_from(c.as_slice())),
            None => None,
        };
        let mut args: Vec<String> = Vec::new();
        let o = op.as_str();
        if crate::text::str_eq(o, "init") {
            args.push(lit("init"));
        } else if crate::text::str_eq(o, "status") {
            args.push(lit("status"));
        } else if crate::text::str_eq(o, "diff") {
            args.push(lit("diff"));
            if params.get_bool("staged") == Some(true) {
                args.push(lit("--cached"));
            }
        } else if crate::text::str_eq(o, "log") {
            let limit: u32 = match params.get_u64("limit") {
                Some(l) => l as u32,
                None => 10,
            };
            args.push(lit("log"));
            args.push(lit("--oneline"));
            args.push(lit("-n"));
            let d = decimal_chars(limit as u64);
            args.push(string_from(d.as_slice()));
        } else if crate::text::str_eq(o, "add") {
            let files = match params.get_list("files") {
                None => return Err(lit("Missing 'files' parameter for add operation")),
                Some(fs) => fs,
            };
            if files.len() == 0 {
                return Err(lit("No files specified for git add"));
            }
            args.push(lit("add"));
            let mut i: usize = 0;
            while i < files.len()
                invariant
                    i <= files@.len(),
                    string_views(args@) == seq!["add"@] + string_views(files@.take(i as int)),
                decreases files@.len() - i,
            {
                let ghost before = args@;
                args.push(copy_string(&files[i]));
                assert(string_views(args@) =~= string_views(before).push(files@[i as int]@));
                assert(string_views(files@.take(i + 1)) =~= string_views(files@.take(i as int)).push(
                    files@[i as int]@,
                ));
                assert(string_views(args@) =~= seq!["add"@] + string_views(files@.take(i + 1)));
                i = i + 1;
            }
            assert(files@.take(files@.len() as int) =~= files@);
        } else if crate::text::str_eq(o, "commit") {
            let message = match params.get_str("message") {
                None => return Err(lit("Missing 'message' parameter for commit operation")),
                Some(m) => m,
            };
            if message.len() == 0 {
                return Err(lit("Commit message cannot be empty"));
            }
            args.push(lit("commit"));
            args.push(lit("-m"));
            args.push(string_from(message.as_slice()));
        } else if crate::text::str_eq(o, "push") {
            args.push(lit("push"));
            if let Some(r) = params.get_str("remote") {
                args.push(string_from(r.as_slice()));
                if let Some(b) = params.get_str("branch") {
                    args.push(string_from(b.as_slice()));
                }
            }
        } else {
            return Err(err_msg("Unknown git operation: ", o));
        }
        assert(string_views(args@) =~= git_args_of(*params)->Ok_0);
        Ok(CommandPlan { args, cwd })
    }

    /// The result of a git command with `args` that printed `stdout` and
    /// `stderr`: an error exactly when it did not succeed.
    pub fn report(args: &Vec<String>, stdout: &str, stderr: &str, success: bool) -> (r: ToolResult)
        ensures
            r.content@ == git_report(string_views(args@), stdout@, stderr@),
            r.is_error == !success,
    {
        let out = BashTool::outcome(stdout, stderr, success);
        let mut m: Vec<char> = Vec::new();
        push_str(&mut m, "Command: git ");
        let joined = join_strings(args, " ");
        push_str(&mut m, joined.as_str());
        push_str(&mut m, "\n\n");
        push_str(&mut m, out.content.as_str());
        ToolResult { content: string_from(m.as_slice()), is_error: out.is_error }
    }
}

// ---------------------------------------------------------------- glob

/// Finds files by name.
pub struct GlobTool;

/// The `find -name` pattern for `pattern`: itself when it has a `*`,
/// otherwise wrapped in `*`.
pub open spec fn find_name_pattern(pattern: Seq<char>) -> Seq<char> {
    if pattern.contains('*') {
        pattern
    } else {
        "*"@ + pattern + "*"@
    }
}

/// What a file search reports. A failure without output is "path not
/// found" (an error) when the program said so, "no files" otherwise;
/// blank output is "no files"; otherwise the output itself.
pub open spec fn search_report(
    not_found_msg: Seq<char>,
    pattern: Seq<char>,
    path: Seq<char>,
    success: bool,
    stdout: Seq<char>,
    stderr: Seq<char>,
    blank_means_none: bool,
) -> (Seq<char>, bool) {
    if !success && stdout.len() == 0 {
        if seq_contains(stderr, "No such file or directory"@) {
            ("Path not found: "@ + path, true)
        } else {
            (not_found_msg + pattern, false)
        }
    } else if blank_means_none && trim(stdout).len() == 0 {
        (not_found_msg + pattern, false)
    } else {
        (stdout, false)
    }
}

fn report_search(
    not_found_msg: &str,
    pattern: &str,
    path: &str,
    success: bool,
    stdout: &str,
    stderr: &str,
    blank_means_none: bool,
) -> (r: ToolResult)
    ensures
        (r.content@, r.is_error) == search_report(
            not_found_msg@,
            pattern@,
            path@,
            success,
            stdout@,
            stderr@,
            blank_means_none,
        ),
{
    let out = chars_of(stdout);
    if !success && out.len() == 0 {
        let err = chars_of(stderr);
        let needle = chars_of("No such file or directory");
        if crate::text::contains(err.as_slice(), needle.as_slice()) {
            return ToolResult { content: err_msg("Path not found: ", path), is_error: true };
        }
        return ToolResult { content: err_msg(not_found_msg, pattern), is_error: false };
    }
    if blank_means_none {
        let t = trim_chars(out.as_slice());
        if t.len() == 0 {
            return ToolResult { content: err_msg(not_found_msg, pattern), is_error: false };
        }
    }
    ToolResult { content: lit(stdout), is_error: false }
}

/// A search pattern and the path to search, "." by default.
pub open spec fn pattern_and_path(params: ToolParams) -> Result<(Seq<char>, Seq<char>), Seq<char>> {
    match str_param(params.entries@, "pattern"@) {
        None => Err(missing_param_message("pattern"@)),
        Some(p) => Ok(
            (
                p,
                match str_param(params.entries@, "path"@) {
                    Some(d) => d,
                    None => "."@,
                },
            ),
        ),
    }
}

fn request_pattern_and_path(params: &ToolParams) -> (r: Result<(String, String), String>)
    ensures
        match pattern_and_path(*params) {
            Ok((p, d)) => r is Ok && r->Ok_0.0@ == p && r->Ok_0.1@ == d,
            Err(m) => r is Err && r->Err_0@ == m,
        },
{
    let pattern = match params.require_str("pattern") {
        Ok(p) => p,
        Err(e) => return Err(e),
    };
    let path = match params.get_str("path") {
        Some(d) => string_from(d.as_slice()),
        None => lit("."),
    };
    Ok((pattern, path))
}

impl GlobTool {
    pub fn new() -> (r: GlobTool) {
        GlobTool
    }

    /// The pattern and the directory to search ("." by default).
    pub fn request(params: &ToolParams) -> (r: Result<(String, String), String>)
        ensures
            match pattern_and_path(*params) {
                Ok((p, d)) => r is Ok && r->Ok_0.0@ == p && r->Ok_0.1@ == d,
                Err(m) => r is Err && r->Err_0@ == m,
            },
    {
        request_pattern_and_path(params)
    }

    /// The arguments of `fd`: files only, no colours.
    pub fn fd_args(pattern: &str, path: &str) -> (r: Vec<String>)
        ensures
            string_views(r@) == seq!["--type"@, "f"@, "--color"@, "never"@, pattern@, path@],
    {
        let mut a: Vec<String> = Vec::new();
        a.push(lit("--type"));
        a.push(lit("f"));
        a.push(lit("--color"));
        a.push(lit("never"));
        a.push(lit(pattern));
        a.push(lit(path));
        assert(string_views(a@) =~= seq!["--type"@, "f"@, "--color"@, "never"@, pattern@, path@]);
        a
    }

    /// The arguments of `find`, when `fd` is not available.
    pub fn find_args(pattern: &str, path: &str) -> (r: Vec<String>)
        ensures
            string_views(r@) == seq![path@, "-type"@, "f"@, "-name"@, find_name_pattern(pattern@)],
    {
        let p = chars_of(pattern);
        let name = if contains_char(p.as_slice(), '*') {
            lit(pattern)
        } else {
            let mut m: Vec<char> = Vec::new();
            m.push('*');
            push_all(&mut m, p.as_slice());
            m.push('*');
            proof {
                reveal_strlit("*");
            }
            assert(m@ =~= "*"@ + pattern@ + "*"@);
            string_from(m.as_slice())
        };
        let mut a: Vec<String> = Vec::new();
        a.push(lit(path));
        a.push(lit("-type"));
        a.push(lit("f"));
        a.push(lit("-name"));
        a.push(name);
        assert(string_views(a@) =~= seq![path@, "-type"@, "f"@, "-name"@, find_name_pattern(pattern@)]);
        a
    }

    /// What the search reports (see `search_report`).
    pub fn report(pattern: &str, path: &str, success: bool, stdout: &str, stderr: &str) -> (r: ToolResult)
        ensures
            (r.content@, r.is_error) == search_report(
                "No files found matching pattern: "@,
                pattern@,
                path@,
                success,
                stdout@,
                stderr@,
                true,
            ),
    {
        report_search("No files found matching pattern: ", pattern, path, success, stdout, stderr, true)
    }
}

// ---------------------------------------------------------------- grep

/// Searches file contents.
pub struct GrepTool;

/// The options of a content search.
pub struct GrepRequest {
    pub pattern: String,
    pub path: String,
    pub case_insensitive: bool,
    pub files_with_matches: bool,
    pub glob: Option<String>,
}

/// The arguments of `rg`.
pub open spec fn rg_args_of(r: GrepRequest) -> Seq<Seq<char>> {
    seq![r.pattern@, r.path@, "--color"@, "never"@, "--no-heading"@] + (if r.case_insensitive {
        seq!["--ignore-case"@]
    } else {
        Seq::<Seq<char>>::empty()
    }) + (if r.files_with_matches {
        seq!["--files-with-matches"@]
    } else {
        seq!["--line-number"@]
    }) + match r.glob {
        Some(g) => seq!["--glob"@, g@],
        None => Seq::<Seq<char>>::empty(),
    }
}

/// The arguments of `grep`, when `rg` is not available (the glob is not
/// supported there and is ignored).
pub open spec fn grep_args_of(r: GrepRequest) -> Seq<Seq<char>> {
    seq!["-r"@] + (if r.case_insensitive {
        seq!["-i"@]
    } else {
        Seq::<Seq<char>>::empty()
    }) + (if r.files_with_matches {
        seq!["-l"@]
    } else {
        seq!["-n"@]
    }) + seq![r.pattern@, r.path@]
}

/// `rg` gets the pattern, then the path, then its fixed options, the
/// case option when asked for, the file-names-only or line-number option,
/// and the glob last; `grep` gets `-r`, its options, then the pattern and
/// the path last.
pub proof fn law_search_args(r: GrepRequest)
    ensures
        ({
            let a = rg_args_of(r);
            let k: int = if r.case_insensitive { 6 } else { 5 };
            &&& a[0] == r.pattern@ && a[1] == r.path@
            &&& r.case_insensitive ==> a[5] == "--ignore-case"@
            &&& a[k] == if r.files_with_matches { "--files-with-matches"@ } else { "--line-number"@ }
            &&& match r.glob {
                Some(g) => a.len() == k + 3 && a[k + 1] == "--glob"@ && a[k + 2] == g@,
                None => a.len() == k + 1,
            }
        }),
        ({
            let a = grep_args_of(r);
            let k: int = if r.case_insensitive { 2 } else { 1 };
            &&& a.len() == k + 3
            &&& a[0] == "-r"@
            &&& r.case_insensitive ==> a[1] == "-i"@
            &&& a[k] == if r.files_with_matches { "-l"@ } else { "-n"@ }
            &&& a[k + 1] == r.pattern@ && a[k + 2] == r.path@
        }),
{
}

/// A file-name pattern without `*` finds the names that contain it;
/// one with `*` is used as it is.
pub proof fn law_find_name_pattern(pattern: Seq<char>)
    ensures
        pattern.contains('*') ==> find_name_pattern(pattern) == pattern,
        !pattern.contains('*') ==> find_name_pattern(pattern).len() == pattern.len() + 2
            && find_name_pattern(pattern)[0] == '*'
            && find_name_pattern(pattern)[pattern.len() as int + 1] == '*'
            && find_name_pattern(pattern).subrange(1, pattern.len() as int + 1) == pattern,
{
    reveal_strlit("*");
    if !pattern.contains('*') {
        assert(find_name_pattern(pattern).subrange(1, pattern.len() as int + 1) =~= pattern);
    }
}

impl GrepTool {
    pub fn new() -> (r: GrepTool) {
        GrepTool
    }

    /// The options of a call with `params`: the pattern (required), the
    /// path ("." by default), the two flags (off by default), the glob.
    pub fn request(params: &ToolParams) -> (r: Result<GrepRequest, String>)
        ensures
            match pattern_and_path(*params) {
                Ok((p, d)) => r is Ok && r->Ok_0.pattern@ == p && r->Ok_0.path@ == d
                    && r->Ok_0.case_insensitive == (bool_param(
                    params.entries@,
                    "case_insensitive"@,
                ) == Some(true)) && r->Ok_0.files_with_matches == (bool_param(
                    params.entries@,
                    "files_with_matches"@,
                ) == Some(true)) && match (r->Ok_0.glob, str_param(params.entries@, "glob"@)) {
                    (Some(g), Some(h)) => g@ == h,
                    (None, None) => true,
                    _ => false,
                },
                Err(m) => r is Err && r->Err_0@ == m,
            },
    {
        let (pattern, path) = match request_pattern_and_path(params) {
            Ok(pp) => pp,
            Err(e) => return Err(e),
        };
        let glob = match params.get_str("glob") {
            Some(g) => Some(string_from(g.as_slice())),
            None => None,
        };
        Ok(
            GrepRequest {
                pattern,
                path,
                case_insensitive: params.get_bool("case_insensitive") == Some(true),
                files_with_matches: params.get_bool("files_with_matches") == Some(true),
                glob,
            },
        )
    }

    /// The arguments of `rg` for `r`.
    pub fn rg_args(r: &GrepRequest) -> (a: Vec<String>)
        ensures
            string_views(a@) == rg_args_of(*r),
    {
        let mut a: Vec<String> = Vec::new();
        a.push(copy_string(&r.pattern));
        a.push(copy_string(&r.path));
        a.push(lit("--color"));
        a.push(lit("never"));
        a.push(lit("--no-heading"));
        if r.case_insensitive {
            a.push(lit("--ignore-case"));
        }
        if r.files_with_matches {
            a.push(lit("--files-with-matches"));
        } else {
            a.push(lit("--line-number"));
        }
        if let Some(g) = &r.glob {
            a.push(lit("--glob"));
            a.push(copy_string(g));
        }
        assert(string_views(a@) =~= rg_args_of(*r));
        a
    }

    /// The arguments of `grep` for `r`.
    pub fn grep_args(r: &GrepRequest) -> (a: Vec<String>)
        ensures
            string_views(a@) == grep_args_of(*r),
    {
        let mut a: Vec<String> = Vec::new();
        a.push(lit("-r"));
        if r.case_insensitive {
            a.push(lit("-i"));
        }
        if r.files_with_matches {
            a.push(lit("-l"));
        } else {
            a.push(lit("-n"));
        }
        a.push(copy_string(&r.pattern));
        a.push(copy_string(&r.path));
        assert(string_views(a@) =~= grep_args_of(*r));
        a
    }

    /// What the search reports (see `search_report`; blank output is kept).
    pub fn report(pattern: &str, path: &str, success: bool, stdout: &str, stderr: &str) -> (r: ToolResult)
        ensures
            (r.content@, r.is_error) == search_report(
                "No matches found for pattern: "@,
                pattern@,
                path@,
                success,
                stdout@,
                stderr@,
                false,
            ),
    {
        report_search("No matches found for pattern: ", pattern, path, success, stdout, stderr, false)
    }
}

// ---------------------------------------------------------------- workshop and powertools

/// What a failed helper program reports: its standard error, or its
/// standard output when the error stream is empty.
pub open spec fn failure_output(stdout: Seq<char>, stderr: Seq<char>) -> Seq<char> {
    if stderr.len() > 0 {
        stderr
    } else {
        stdout
    }
}

/// Runs the `workshop` CLI, which keeps notes, decisions and gotchas of a
/// project.
pub struct WorkshopTool {
    pub timeout_seconds: u64,
}

/// The string elements of the array `key`, each after a `-t` flag.
pub open spec fn tag_args(tags: Seq<Seq<char>>) -> Seq<Seq<char>>
    decreases tags.len(),
{
    if tags.len() == 0 {
        seq![]
    } else {
        tag_args(tags.drop_last()) + seq!["-t"@, tags.last()]
    }
}

/// The arguments of `workshop` for a call with `params`, or the error.
pub open spec fn workshop_args_of(params: ToolParams) -> Result<Seq<Seq<char>>, Seq<char>> {
    let e = params.entries@;
    match str_param(e, "operation"@) {
        None => Err(missing_param_message("operation"@)),
        Some(op) => if op == "context"@ {
            Ok(seq!["context"@])
        } else if op == "recent"@ {
            Ok(seq!["recent"@])
        } else if op == "search"@ || op == "why"@ {
            match str_param(e, "query"@) {
                None => Err("Missing 'query' parameter for "@ + op + " operation"@),
                Some(q) => Ok(seq![op, q]),
            }
        } else if op == "note"@ || op == "decision"@ || op == "gotcha"@ {
            match str_param(e, "text"@) {
                None => Err("Missing 'text' parameter for "@ + op + " operation"@),
                Some(t) => if op == "note"@ {
                    Ok(seq![op, t])
                } else if op == "decision"@ {
                    match str_param(e, "reasoning"@) {
                        Some(r) => Ok(seq![op, t, "-r"@, r]),
                        None => Ok(seq![op, t]),
                    }
                } else {
                    match list_param(e, "tags"@) {
                        Some(ts) => Ok(seq![op, t] + tag_args(string_views(ts))),
                        None => Ok(seq![op, t]),
                    }
                },
            }
        } else {
            Err("Unknown workshop operation: "@ + op)
        }
    }
}

proof fn lemma_workshop_ops_distinct()
    ensures
        "search"@ != "context"@,
        "search"@ != "recent"@,
        "why"@ != "context"@,
        "why"@ != "recent"@,
        "note"@ != "context"@,
        "note"@ != "recent"@,
        "note"@ != "search"@,
        "note"@ != "why"@,
        "decision"@ != "context"@,
        "decision"@ != "recent"@,
        "decision"@ != "search"@,
        "decision"@ != "why"@,
        "decision"@ != "note"@,
        "gotcha"@ != "context"@,
        "gotcha"@ != "recent"@,
        "gotcha"@ != "search"@,
        "gotcha"@ != "why"@,
        "gotcha"@ != "note"@,
        "gotcha"@ != "decision"@,
{
    reveal_strlit("context");
    reveal_strlit("recent");
    reveal_strlit("search");
    reveal_strlit("why");
    reveal_strlit("note");
    reveal_strlit("decision");
    reveal_strlit("gotcha");
    assert("search"@[0] != "context"@[0]);
    assert("search"@[0] != "recent"@[0]);
    assert("why"@[0] != "context"@[0]);
    assert("why"@[0] != "recent"@[0]);
    assert("note"@[0] != "context"@[0]);
    assert("note"@[0] != "recent"@[0]);
    assert("note"@[0] != "search"@[0]);
    assert("note"@[0] != "why"@[0]);
    assert("decision"@[0] != "context"@[0]);
    assert("decision"@[0] != "recent"@[0]);
    assert("decision"@[0] != "search"@[0]);
    assert("decision"@[0] != "why"@[0]);
    assert("decision"@[0] != "note"@[0]);
    assert("gotcha"@[0] != "context"@[0]);
    assert("gotcha"@[0] != "recent"@[0]);
    assert("gotcha"@[0] != "search"@[0]);
    assert("gotcha"@[0] != "why"@[0]);
    assert("gotcha"@[0] != "note"@[0]);
    assert("gotcha"@[0] != "decision"@[0]);
}

/// Each tag is passed after its own `-t` flag, in order.
pub proof fn law_tags_flagged(tags: Seq<Seq<char>>)
    ensures
        tag_args(tags).len() == 2 * tags.len(),
        forall|k: int| 0 <= k < tags.len() ==> #[trigger] tag_args(tags)[2 * k] == "-t"@ && tag_args(tags)[2 * k + 1] == tags[k],
    decreases tags.len(),
{
    if tags.len() > 0 {
        let init = tags.drop_last();
        law_tags_flagged(init);
        assert forall|k: int| 0 <= k < tags.len() implies #[trigger] tag_args(tags)[2 * k] == "-t"@ && tag_args(tags)[2 * k + 1] == tags[k] by {
            if k < init.len() {
                assert(tag_args(tags)[2 * k] == tag_args(init)[2 * k]);
                assert(tag_args(tags)[2 * k + 1] == tag_args(init)[2 * k + 1]);
                assert(init[k] == tags[k]);
            }
        }
    }
}

/// An accepted workshop call runs the operation it names with its
/// argument: the query of a search or why, the text of a note, decision
/// or gotcha; a decision's reasoning follows `-r`.
pub proof fn law_workshop_runs_named_operation(params: ToolParams)
    ensures
        workshop_args_of(params) matches Ok(a) ==> {
            let e = params.entries@;
            let op = str_param(e, "operation"@)->0;
            &&& str_param(e, "operation"@) is Some
            &&& a.len() >= 1 && a[0] == op
            &&& (op == "search"@ || op == "why"@) ==> a.len() == 2 && a[1] == str_param(e, "query"@)->0
            &&& (op == "note"@ || op == "decision"@ || op == "gotcha"@) ==> a.len() >= 2 && a[1]
                == str_param(e, "text"@)->0
            &&& (op == "decision"@ && str_param(e, "reasoning"@) is Some) ==> a.len() == 4 && a[2] == "-r"@
                && a[3] == str_param(e, "reasoning"@)->0
        },
{
    lemma_workshop_ops_distinct();
    if workshop_args_of(params) is Ok {
        let e = params.entries@;
        let op = str_param(e, "operation"@)->0;
        if op == "gotcha"@ && list_param(e, "tags"@) is Some {
            let ts = string_views(list_param(e, "tags"@)->0);
            assert((seq![op, str_param(e, "text"@)->0] + tag_args(ts))[0] == op);
            assert((seq![op, str_param(e, "text"@)->0] + tag_args(ts))[1] == str_param(e, "text"@)->0);
        }
    }
}

fn push_lit(v: &mut Vec<String>, s: &str)
    ensures
        string_views(final(v)@) == string_views(old(v)@).push(s@),
{
    let ghost before = v@;
    v.push(lit(s));
    assert(string_views(v@) =~= string_views(before).push(s@));
}

fn push_copy(v: &mut Vec<String>, s: &String)
    ensures
        string_views(final(v)@) == string_views(old(v)@).push(s@),
{
    let ghost before = v@;
    v.push(copy_string(s));
    assert(string_views(v@) =~= string_views(before).push(s@));
}

fn push_chars(v: &mut Vec<String>, s: &Vec<char>)
    ensures
        string_views(final(v)@) == string_views(old(v)@).push(s@),
{
    let ghost before = v@;
    v.push(string_from(s.as_slice()));
    assert(string_views(v@) =~= string_views(before).push(s@));
}

impl WorkshopTool {
    pub fn new(timeout_seconds: u64) -> (r: WorkshopTool)
        ensures
            r.timeout_seconds == timeout_seconds,
    {
        WorkshopTool { timeout_seconds }
    }

    /// The `workshop` arguments for a call with `params` (see
    /// `workshop_args_of`).
    pub fn plan(params: &ToolParams) -> (r: Result<Vec<String>, String>)
        ensures
            match workshop_args_of(*params) {
                Ok(a) => r is Ok && string_views(r->Ok_0@) == a,
                Err(m) => r is Err && r->Err_0@ == m,
            },
    {
        let op = match params.require_str("operation") {
            Ok(op) => op,
            Err(e) => return Err(e),
        };
        let o = op.as_str();
        let mut args: Vec<String> = Vec::new();
        if crate::text::str_eq(o, "context") {
            push_lit(&mut args, "context");
        } else if crate::text::str_eq(o, "recent") {
            push_lit(&mut args, "recent");
        } else if crate::text::str_eq(o, "search") || crate::text::str_eq(o, "why") {
            let q = match params.get_str("query") {
                None => {
                    let mut m: Vec<char> = Vec::new();
                    push_str(&mut m, "Missing 'query' parameter for ");
                    push_str(&mut m, o);
                    push_str(&mut m, " operation");
                    return Err(string_from(m.as_slice()));
                },
                Some(q) => q,
            };
            push_copy(&mut args, &op);
            push_chars(&mut args, &q);
        } else if crate::text::str_eq(o, "note") || crate::text::str_eq(o, "decision")
            || crate::text::str_eq(o, "gotcha") {
            let t = match params.get_str("text") {
                None => {
                    let mut m: Vec<char> = Vec::new();
                    push_str(&mut m, "Missing 'text' parameter for ");
                    push_str(&mut m, o);
                    push_str(&mut m, " operation");
                    return Err(string_from(m.as_slice()));
                },
                Some(t) => t,
            };
            push_copy(&mut args, &op);
            push_chars(&mut args, &t);
            if crate::text::str_eq(o, "note") {
            } else if crate::text::str_eq(o, "decision") {
                if let Some(r) = params.get_str("reasoning") {
                    push_lit(&mut args, "-r");
                    push_chars(&mut args, &r);
                }
                assert(string_views(args@) =~= workshop_args_of(*params)->Ok_0);
            } else {
                if let Some(tags) = params.get_list("tags") {
                    let ghost head = string_views(args@);
                    let mut i: usize = 0;
                    while i < tags.len()
                        invariant
                            i <= tags@.len(),
                            string_views(args@) == head + tag_args(
                                string_views(tags@.take(i as int)),
                            ),
                        decreases tags@.len() - i,
                    {
                        push_lit(&mut args, "-t");
                        push_copy(&mut args, &tags[i]);
                        assert(string_views(tags@.take(i + 1)).drop_last() =~= string_views(
                            tags@.take(i as int),
                        ));
                        assert(string_views(args@) =~= head + tag_args(
                            string_views(tags@.take(i + 1)),
                        ));
                        i = i + 1;
                    }
                    assert(tags@.take(tags@.len() as int) =~= tags@);
                }
                assert(string_views(args@) =~= workshop_args_of(*params)->Ok_0);
            }
        } else {
            return Err(err_msg("Unknown workshop operation: ", o));
        }
        assert(string_views(args@) =~= workshop_args_of(*params)->Ok_0);
        Ok(args)
    }

    /// The result when the `workshop` CLI is not installed.
    pub fn not_installed() -> (r: ToolResult)
        ensures
            r.is_error,
            r.content@ == "Workshop CLI not found in PATH. Workshop is part of the agent-power-tools project. Install instructions: https://github.com/anthropics/agent-power-tools"@,
    {
        ToolResult {
            content: lit(
                "Workshop CLI not found in PATH. Workshop is part of the agent-power-tools project. Install instructions: https://github.com/anthropics/agent-power-tools",
            ),
            is_error: true,
        }
    }

    /// What a finished `workshop` command reports.
    pub fn report(stdout: &str, stderr: &str, success: bool) -> (r: ToolResult)
        ensures
            r.is_error == !success,
            r.content@ == if success {
                stdout@
            } else {
                failure_output(stdout@, stderr@)
            },
    {
        if !success {
            let e = chars_of(stderr);
            if e.len() > 0 {
                return ToolResult { content: lit(stderr), is_error: true };
            }
            return ToolResult { content: lit(stdout), is_error: true };
        }
        ToolResult { content: lit(stdout), is_error: false }
    }
}

/// Runs the powertools binary for semantic code navigation.
pub struct PowertoolsTool {
    pub binary_path: String,
    pub timeout_seconds: u64,
}

/// `-p` and the value of the string parameter `key`, when there is one.
pub open spec fn opt_path_args(e: Seq<crate::params::ParamEntry>, key: Seq<char>) -> Seq<Seq<char>> {
    match str_param(e, key) {
        Some(p) => seq!["-p"@, p],
        None => Seq::<Seq<char>>::empty(),
    }
}

/// The powertools command line for a call with `params`: its arguments,
/// and whether it runs in the directory `cwd` (definition and references
/// do not); or the error.
pub open spec fn powertools_args_of(params: ToolParams) -> Result<(Seq<Seq<char>>, bool), Seq<char>> {
    let e = params.entries@;
    match str_param(e, "operation"@) {
        None => Err(missing_param_message("operation"@)),
        Some(op) => if op == "index"@ {
            let auto = match bool_param(e, "auto_install"@) {
                Some(b) => b,
                None => true,
            };
            Ok(
                (
                    seq!["index"@, "--format"@, "json"@] + (if auto {
                        seq!["--auto-install"@]
                    } else {
                        Seq::<Seq<char>>::empty()
                    }) + match list_param(e, "languages"@) {
                        Some(ls) => seq!["--languages"@] + string_views(ls),
                        None => Seq::<Seq<char>>::empty(),
                    },
                    true,
                ),
            )
        } else if op == "definition"@ {
            match str_param(e, "location"@) {
                None => Err("Missing 'location' parameter for definition operation"@),
                Some(l) => Ok(
                    (
                        seq!["definition"@, l, "--format"@, "json"@] + opt_path_args(
                            e,
                            "project_root"@,
                        ),
                        false,
                    ),
                ),
            }
        } else if op == "references"@ {
            match str_param(e, "symbol"@) {
                None => Err("Missing 'symbol' parameter for references operation"@),
                Some(sym) => Ok(
                    (
                        seq!["references"@, sym, "--format"@, "json"@] + (if bool_param(
                            e,
                            "include_declarations"@,
                        ) == Some(true) {
                            seq!["--include-declarations"@]
                        } else {
                            Seq::<Seq<char>>::empty()
                        }) + opt_path_args(e, "project_root"@),
                        false,
                    ),
                ),
            }
        } else if op == "functions"@ || op == "classes"@ || op == "stats"@ {
            Ok((seq![op, "--format"@, "json"@] + opt_path_args(e, "path"@), true))
        } else {
            Err("Unknown powertools operation: "@ + op)
        }
    }
}

proof fn lemma_powertools_ops_distinct()
    ensures
        "definition"@ != "index"@,
        "references"@ != "index"@,
        "references"@ != "definition"@,
        "functions"@ != "index"@,
        "functions"@ != "definition"@,
        "functions"@ != "references"@,
        "classes"@ != "index"@,
        "classes"@ != "definition"@,
        "classes"@ != "references"@,
        "stats"@ != "index"@,
        "stats"@ != "definition"@,
        "stats"@ != "references"@,
{
    reveal_strlit("index");
    reveal_strlit("definition");
    reveal_strlit("references");
    reveal_strlit("functions");
    reveal_strlit("classes");
    reveal_strlit("stats");
    assert("definition"@[0] != "index"@[0]);
    assert("references"@[0] != "index"@[0]);
    assert("references"@[0] != "definition"@[0]);
    assert("functions"@[0] != "index"@[0]);
    assert("functions"@[0] != "definition"@[0]);
    assert("functions"@[0] != "references"@[0]);
    assert("classes"@[0] != "index"@[0]);
    assert("classes"@[0] != "definition"@[0]);
    assert("classes"@[0] != "references"@[0]);
    assert("stats"@[0] != "index"@[0]);
    assert("stats"@[0] != "definition"@[0]);
    assert("stats"@[0] != "references"@[0]);
}

/// An accepted powertools call runs the operation it names, asks for JSON,
/// passes the location of a definition or the symbol of a references
/// lookup right after the operation, and runs in the call's directory
/// except for those two lookups.
pub proof fn law_powertools_runs_named_operation(params: ToolParams)
    ensures
        powertools_args_of(params) matches Ok((a, in_cwd)) ==> {
            let e = params.entries@;
            let op = str_param(e, "operation"@)->0;
            &&& str_param(e, "operation"@) is Some
            &&& a.len() >= 3 && a[0] == op
            &&& in_cwd == (op != "definition"@ && op != "references"@)
            &&& op == "definition"@ ==> a[1] == str_param(e, "location"@)->0 && a[2] == "--format"@ && a[3] == "json"@
            &&& op == "references"@ ==> a[1] == str_param(e, "symbol"@)->0 && a[2] == "--format"@ && a[3] == "json"@
            &&& op != "definition"@ && op != "references"@ ==> a[1] == "--format"@ && a[2] == "json"@
        },
{
    lemma_powertools_ops_distinct();
}

/// The JSON text `text` pretty-printed by `serde_json`, when it is JSON.
pub uninterp spec fn pretty_json_of(text: Seq<char>) -> Option<Seq<char>>;

/// Parses `text` with `serde_json` and, when it is JSON, prints it with
/// `serde_json::to_string_pretty`; the result is named, not described.
#[verifier::external_body]
fn pretty_json(text: &str) -> (r: Option<String>)
    ensures
        match r {
            Some(p) => pretty_json_of(text@) == Some(p@),
            None => pretty_json_of(text@) is None,
        },
{
    serde_json::from_str::<serde_json::Value>(text).ok().and_then(|v| serde_json::to_string_pretty(&v).ok())
}

fn push_opt_path(args: &mut Vec<String>, params: &ToolParams, key: &str)
    ensures
        string_views(final(args)@) == string_views(old(args)@) + opt_path_args(params.entries@, key@),
{
    let ghost before = string_views(args@);
    if let Some(p) = params.get_str(key) {
        push_lit(args, "-p");
        push_chars(args, &p);
    }
    assert(string_views(args@) =~= before + opt_path_args(params.entries@, key@));
}

impl PowertoolsTool {
    /// A tool running the binary at `binary_path`, two minutes per command.
    pub fn new(binary_path: String) -> (r: PowertoolsTool)
        ensures
            r.binary_path == binary_path,
            r.timeout_seconds == 120,
    {
        PowertoolsTool { binary_path, timeout_seconds: 120 }
    }

    /// The command line for a call with `params` (see
    /// `powertools_args_of`), with the directory `cwd` when the operation
    /// uses it.
    pub fn plan(params: &ToolParams) -> (r: Result<CommandPlan, String>)
        ensures
            match powertools_args_of(*params) {
                Ok((a, uses_cwd)) => r is Ok && string_views(r->Ok_0.args@) == a && match (
                    r->Ok_0.cwd,
                    if uses_cwd {
                        str_param(params.entries@, "cwd"@)
                    } else {
                        None
                    },
                ) {
                    (Some(c), Some(d)) => c@ == d,
                    (None, None) => true,
                    _ => false,
                },
                Err(m) => r is Err && r->Err_0@ == m,
            },
    {
        let op = match params.require_str("operation") {
            Ok(op) => op,
            Err(e) => return Err(e),
        };
        let o = op.as_str();
        let cwd = match params.get_str("cwd") {
            Some(c) => Some(string_from(c.as_slice())),
            None => None,
        };
        let mut args: Vec<String> = Vec::new();
        if crate::text::str_eq(o, "index") {
            push_lit(&mut args, "index");
            push_lit(&mut args, "--format");
            push_lit(&mut args, "json");
            let auto = match params.get_bool("auto_install") {
                Some(b) => b,
                None => true,
            };
            if auto {
                push_lit(&mut args, "--auto-install");
            }
            if let Some(langs) = params.get_list("languages") {
                push_lit(&mut args, "--languages");
                let ghost head = string_views(args@);
                let mut i: usize = 0;
                while i < langs.len()
                    invariant
                        i <= langs@.len(),
                        string_views(args@) == head + string_views(langs@.take(i as int)),
                    decreases langs@.len() - i,
                {
                    push_copy(&mut args, &langs[i]);
                    assert(string_views(langs@.take(i + 1)) =~= string_views(langs@.take(i as int)).push(
                        langs@[i as int]@,
                    ));
                    i = i + 1;
                }
                assert(langs@.take(langs@.len() as int) =~= langs@);
            }
            assert(string_views(args@) =~= powertools_args_of(*params)->Ok_0.0);
            return Ok(CommandPlan { args, cwd });
        } else if crate::text::str_eq(o, "definition") {
            let l = match params.get_str("location") {
                None => return Err(lit("Missing 'location' parameter for definition operation")),
                Some(l) => l,
            };
            push_lit(&mut args, "definition");
            push_chars(&mut args, &l);
            push_lit(&mut args, "--format");
            push_lit(&mut args, "json");
            push_opt_path(&mut args, params, "project_root");
            assert(string_views(args@) =~= powertools_args_of(*params)->Ok_0.0);
            return Ok(CommandPlan { args, cwd: None });
        } else if crate::text::str_eq(o, "references") {
            let sym = match params.get_str("symbol") {
                None => return Err(lit("Missing 'symbol' parameter for references operation")),
                Some(s) => s,
            };
            push_lit(&mut args, "references");
            push_chars(&mut args, &sym);
            push_lit(&mut args, "--format");
            push_lit(&mut args, "json");
            if params.get_bool("include_declarations") == Some(true) {
                push_lit(&mut args, "--include-declarations");
            }
            push_opt_path(&mut args, params, "project_root");
            assert(string_views(args@) =~= powertools_args_of(*params)->Ok_0.0);
            return Ok(CommandPlan { args, cwd: None });
        } else if crate::text::str_eq(o, "functions") || crate::text::str_eq(o, "classes")
            || crate::text::str_eq(o, "stats") {
            push_copy(&mut args, &op);
            push_lit(&mut args, "--format");
            push_lit(&mut args, "json");
            push_opt_path(&mut args, params, "path");
            assert(string_views(args@) =~= powertools_args_of(*params)->Ok_0.0);
            return Ok(CommandPlan { args, cwd });
        }
        Err(err_msg("Unknown powertools operation: ", o))
    }

    /// The result when the binary is missing.
    pub fn binary_missing(&self) -> (r: ToolResult)
        ensures
            r.is_error,
            r.content@ == "Powertools binary not found at "@ + self.binary_path@
                + ". Please build it with: cd powertools-cli && cargo build --release"@,
    {
        let mut m: Vec<char> = Vec::new();
        push_str(&mut m, "Powertools binary not found at ");
        push_str(&mut m, self.binary_path.as_str());
        push_str(&mut m, ". Please build it with: cd powertools-cli && cargo build --release");
        ToolResult { content: string_from(m.as_slice()), is_error: true }
    }

    /// What a finished powertools command reports: on success its output,
    /// pretty-printed when it is JSON.
    pub fn report(stdout: &str, stderr: &str, success: bool) -> (r: ToolResult)
        ensures
            r.is_error == !success,
            r.content@ == if success {
                match pretty_json_of(stdout@) {
                    Some(p) => p,
                    None => stdout@,
                }
            } else {
                failure_output(stdout@, stderr@)
            },
    {
        if !success {
            return WorkshopTool::report(stdout, stderr, false);
        }
        match pretty_json(stdout) {
            Some(p) => ToolResult { content: p, is_error: false },
            None => ToolResult { content: lit(stdout), is_error: false },
        }
    }
}

} // verus!
