//! The decisions of the tool registry around a tool call: what the
//! permission decision leads to, what a permission prompt shows, what an
//! answer does, and what an edit or write approval previews and reports.
//! Sending to the interface, awaiting answers and running the tools is the
//! application's part.

use vstd::prelude::*;
use crate::diff::{added_lines, compute_diff, line_changes_of, new_file_diff, rendered_changes};
use crate::messages::{ApprovalResponse, PermissionResponse};
use crate::params::{str_param, ToolParams};
use crate::permission_config::allow_after_add;
use crate::permission_manager::{spec_build_pattern, PermissionDecision, PermissionManager};
use crate::text::{
    chars_of, contains, decimal, decimal_chars, push_all, push_str, seq_contains, str_replace,
    replace_any, str_eq, string_from,
};
use crate::cache::{entries_after_put, key_index, lru_capacity, result_view, ToolCache};
use crate::tools::ToolResult;
use crate::wire::json_text_of;

verus! {

/// Tools whose results depend only on their parameters, so that they may
/// be served from the cache.
pub open spec fn deterministic_tool(name: Seq<char>) -> bool {
    name == "read"@ || name == "grep"@ || name == "glob"@ || name == "powertools"@
}

/// Whether results of the tool `name` may be cached.
pub fn is_deterministic(name: &str) -> (r: bool)
    ensures
        r == deterministic_tool(name@),
{
    str_eq(name, "read") || str_eq(name, "grep") || str_eq(name, "glob") || str_eq(
        name,
        "powertools",
    )
}

/// The cached result of calling `tool_name` with `params`, looked up only
/// for deterministic tools (see `ToolCache::get`); the cache is not
/// touched for the others.
pub fn cached_result(cache: &mut ToolCache, tool_name: &str, params: &serde_json::Value) -> (r: Option<ToolResult>)
    requires
        deterministic_tool(tool_name@) ==> old(cache).hits < u64::MAX && old(cache).misses < u64::MAX,
    ensures
        !deterministic_tool(tool_name@) ==> r is None && final(cache).entries() == old(cache).entries()
            && final(cache).hits == old(cache).hits && final(cache).misses == old(cache).misses,
        deterministic_tool(tool_name@) && !old(cache).enabled ==> r is None && final(cache).entries()
            == old(cache).entries() && final(cache).hits == old(cache).hits && final(cache).misses
            == old(cache).misses,
        deterministic_tool(tool_name@) && old(cache).enabled ==> match key_index(
            old(cache).entries(),
            (tool_name@, json_text_of(*params)),
            0,
        ) {
            Some(i) => r is Some && result_view(r->0) == old(cache).entries()[i].1
                && final(cache).entries() == seq![old(cache).entries()[i]] + old(cache).entries().remove(i)
                && final(cache).hits == old(cache).hits + 1 && final(cache).misses == old(cache).misses,
            None => r is None && final(cache).entries() == old(cache).entries() && final(cache).hits
                == old(cache).hits && final(cache).misses == old(cache).misses + 1,
        },
        final(cache).enabled == old(cache).enabled,
        lru_capacity(final(cache).cache) == lru_capacity(old(cache).cache),
{
    if is_deterministic(tool_name) {
        cache.get(tool_name, params)
    } else {
        None
    }
}

/// Keeps `result` of calling `tool_name` with `params` in the cache when
/// the tool is deterministic (see `ToolCache::put`); for other tools the
/// cache does not change.
pub fn remember_result(cache: &mut ToolCache, tool_name: &str, params: &serde_json::Value, result: ToolResult)
    ensures
        deterministic_tool(tool_name@) && old(cache).enabled ==> final(cache).entries()
            == entries_after_put(
            old(cache).entries(),
            (tool_name@, json_text_of(*params)),
            result_view(result),
            lru_capacity(old(cache).cache),
        ),
        !(deterministic_tool(tool_name@) && old(cache).enabled) ==> final(cache).entries()
            == old(cache).entries(),
        final(cache).enabled == old(cache).enabled,
        final(cache).hits == old(cache).hits,
        final(cache).misses == old(cache).misses,
        lru_capacity(final(cache).cache) == lru_capacity(old(cache).cache),
{
    if is_deterministic(tool_name) {
        cache.put(tool_name, params, result);
    }
}

/// Where a tool call goes after the permission check.
#[derive(Debug, Clone, Copy, PartialEq, Eq, Structural)]
pub enum Route {
    /// Refused: report `denied_result`.
    Deny,
    /// Run the tool.
    Run,
    /// Show the diff of the edit or write for information, then run it.
    RunWithDiff,
    /// Ask the user to approve the edit.
    ApproveEdit,
    /// Ask the user to approve the write.
    ApproveWrite,
    /// Ask the user for permission, then run the tool or not.
    Prompt,
}

/// The route of a call of `tool` with the permission `decision`, when an
/// interface is attached (`has_ui`) or not.
pub open spec fn route_of(decision: PermissionDecision, tool: Seq<char>, has_ui: bool) -> Route {
    let file_tool = tool == "edit"@ || tool == "write"@;
    match decision {
        PermissionDecision::Deny => Route::Deny,
        PermissionDecision::Allow => if file_tool && has_ui {
            Route::RunWithDiff
        } else {
            Route::Run
        },
        PermissionDecision::Ask => if !has_ui {
            Route::Run
        } else if tool == "edit"@ {
            Route::ApproveEdit
        } else if tool == "write"@ {
            Route::ApproveWrite
        } else {
            Route::Prompt
        },
    }
}

/// Routes a call of `tool` after the permission `decision`.
pub fn route(decision: PermissionDecision, tool: &str, has_ui: bool) -> (r: Route)
    ensures
        r == route_of(decision, tool@, has_ui),
{
    let is_edit = str_eq(tool, "edit");
    let is_write = str_eq(tool, "write");
    match decision {
        PermissionDecision::Deny => Route::Deny,
        PermissionDecision::Allow => if (is_edit || is_write) && has_ui {
            Route::RunWithDiff
        } else {
            Route::Run
        },
        PermissionDecision::Ask => if !has_ui {
            Route::Run
        } else if is_edit {
            Route::ApproveEdit
        } else if is_write {
            Route::ApproveWrite
        } else {
            Route::Prompt
        },
    }
}

fn result_of(content: Vec<char>, is_error: bool) -> (r: ToolResult)
    ensures
        r.content@ == content@,
        r.is_error == is_error,
{
    ToolResult { content: string_from(content.as_slice()), is_error }
}

/// The result of a call that the permissions refuse.
pub fn denied_result() -> (r: ToolResult)
    ensures
        r.content@ == "Operation denied by permissions"@,
        r.is_error,
{
    let mut m: Vec<char> = Vec::new();
    push_str(&mut m, "Operation denied by permissions");
    result_of(m, true)
}

/// A string parameter, or "unknown".
pub open spec fn param_or_unknown(params: ToolParams, key: Seq<char>) -> Seq<char> {
    match str_param(params.entries@, key) {
        Some(v) => v,
        None => "unknown"@,
    }
}

fn push_param_or_unknown(out: &mut Vec<char>, params: &ToolParams, key: &str)
    ensures
        final(out)@ == old(out)@ + param_or_unknown(*params, key@),
{
    match params.get_str(key) {
        Some(v) => push_all(out, v.as_slice()),
        None => push_str(out, "unknown"),
    }
}

/// What a permission prompt says about a call of `tool` with `params`, run
/// in the directory `cwd`.
pub open spec fn operation_details_of(tool: Seq<char>, params: ToolParams, cwd: Seq<char>) -> Seq<
    char,
> {
    if tool == "bash"@ {
        "Command: "@ + param_or_unknown(params, "command"@) + "\nDirectory: "@ + cwd
    } else if tool == "read"@ {
        "Read file: "@ + param_or_unknown(params, "file_path"@)
    } else if tool == "git"@ {
        "Git command: "@ + param_or_unknown(params, "command"@)
    } else if tool == "webfetch"@ {
        "Fetch URL: "@ + param_or_unknown(params, "url"@)
    } else {
        "Operation: "@ + tool + " with params"@
    }
}

/// Describes a call of `tool` with `params` for a permission prompt.
pub fn operation_details(tool: &str, params: &ToolParams, cwd: &str) -> (r: String)
    ensures
        r@ == operation_details_of(tool@, *params, cwd@),
{
    let mut m: Vec<char> = Vec::new();
    if str_eq(tool, "bash") {
        push_str(&mut m, "Command: ");
        push_param_or_unknown(&mut m, params, "command");
        push_str(&mut m, "\nDirectory: ");
        push_str(&mut m, cwd);
    } else if str_eq(tool, "read") {
        push_str(&mut m, "Read file: ");
        push_param_or_unknown(&mut m, params, "file_path");
    } else if str_eq(tool, "git") {
        push_str(&mut m, "Git command: ");
        push_param_or_unknown(&mut m, params, "command");
    } else if str_eq(tool, "webfetch") {
        push_str(&mut m, "Fetch URL: ");
        push_param_or_unknown(&mut m, params, "url");
    } else {
        push_str(&mut m, "Operation: ");
        push_str(&mut m, tool);
        push_str(&mut m, " with params");
    }
    string_from(m.as_slice())
}

/// Acts on the user's answer to a permission prompt for `tool` with
/// `params`: a yes runs the tool once, a yes-and-don't-ask also allows the
/// pattern of the call from now on, a no cancels it (`Some` result).
pub fn answer_permission(
    manager: &mut PermissionManager,
    answer: PermissionResponse,
    tool: &str,
    params: &ToolParams,
) -> (r: Option<ToolResult>)
    ensures
        match answer {
            PermissionResponse::Yes => r is None && *final(manager) == *old(manager),
            PermissionResponse::YesAndDontAsk(_) => r is None && final(manager).config.allow_view()
                == allow_after_add(
                old(manager).config.allow_view(),
                spec_build_pattern(old(manager).project_root@, tool@, params.entries@),
            ) && final(manager).config.deny_view() == old(manager).config.deny_view()
                && final(manager).config.ask_view() == old(manager).config.ask_view()
                && final(manager).project_root == old(manager).project_root,
            PermissionResponse::No => r is Some && !r->0.is_error && r->0.content@
                == "Operation cancelled by user"@ && *final(manager) == *old(manager),
        },
{
    match answer {
        PermissionResponse::Yes => None,
        PermissionResponse::YesAndDontAsk(_) => {
            let pattern = manager.build_pattern(tool, params);
            let _ = manager.add_permission(pattern);
            None
        },
        PermissionResponse::No => {
            let mut m: Vec<char> = Vec::new();
            push_str(&mut m, "Operation cancelled by user");
            Some(result_of(m, false))
        },
    }
}

/// The preview of an edit: the new content and its diff, or the error
/// result when `old` does not occur in `content`.
pub fn edit_preview(content: &str, old: &str, new: &str) -> (r: Result<(String, String), ToolResult>)
    ensures
        seq_contains(content@, old@) ==> r is Ok && r->Ok_0.0@ == str_replace(content@, old@, new@)
            && r->Ok_0.1@ == rendered_changes(
            line_changes_of(content@, str_replace(content@, old@, new@)),
            line_changes_of(content@, str_replace(content@, old@, new@)).len() as int,
        ),
        !seq_contains(content@, old@) ==> r is Err && r->Err_0.is_error && r->Err_0.content@
            == "String '"@ + old@ + "' not found in file"@,
{
    let c = chars_of(content);
    let o = chars_of(old);
    if !contains(c.as_slice(), o.as_slice()) {
        let mut m: Vec<char> = Vec::new();
        push_str(&mut m, "String '");
        push_all(&mut m, o.as_slice());
        push_str(&mut m, "' not found in file");
        return Err(result_of(m, true));
    }
    let n = chars_of(new);
    let replaced = replace_any(c.as_slice(), o.as_slice(), n.as_slice());
    let new_content = string_from(replaced.as_slice());
    let diff = compute_diff(content, new_content.as_str());
    Ok((new_content, diff))
}

/// What the approval prompt of a write shows.
pub struct WritePreview {
    /// The path, with `[OVERWRITE]` or `[CREATE]`.
    pub file_label: String,
    /// `[NEW FILE]` or `[EXISTING FILE]`.
    pub old_label: String,
    /// The number of lines to write.
    pub new_label: String,
    pub diff: String,
}

/// The diff of writing `new` over a file holding `old` (empty for a file
/// that does not exist): every line added for an empty file, a line diff
/// otherwise.
pub open spec fn write_diff_of(old: Seq<char>, new: Seq<char>) -> Seq<char> {
    if old.len() == 0 {
        added_lines(crate::text::lines(new))
    } else {
        rendered_changes(line_changes_of(old, new), line_changes_of(old, new).len() as int)
    }
}

/// The diff shown when writing `new` over a file holding `old`.
pub fn write_diff(old: &str, new: &str) -> (r: String)
    ensures
        r@ == write_diff_of(old@, new@),
{
    let o = chars_of(old);
    if o.len() == 0 {
        new_file_diff(new)
    } else {
        compute_diff(old, new)
    }
}

/// The approval preview of writing `new` to `path`, whose current content
/// is `existing` (`None` when it cannot be read).
pub fn write_preview(path: &str, existing: Option<String>, new: &str) -> (r: WritePreview)
    ensures
        r.file_label@ == path@ + (if existing is Some {
            " [OVERWRITE]"@
        } else {
            " [CREATE]"@
        }),
        ({
            let old = match existing {
                Some(s) => s@,
                None => Seq::<char>::empty(),
            };
            &&& r.old_label@ == (if old.len() == 0 {
                "[NEW FILE]"@
            } else {
                "[EXISTING FILE]"@
            })
            &&& r.new_label@ == decimal(crate::text::lines(new@).len()) + " lines"@
            &&& r.diff@ == write_diff_of(old, new@)
        }),
{
    let mut label: Vec<char> = Vec::new();
    push_str(&mut label, path);
    let old = match existing {
        Some(s) => {
            push_str(&mut label, " [OVERWRITE]");
            s
        },
        None => {
            push_str(&mut label, " [CREATE]");
            String::new()
        },
    };
    let oc = chars_of(old.as_str());
    let mut old_label: Vec<char> = Vec::new();
    if oc.len() == 0 {
        push_str(&mut old_label, "[NEW FILE]");
    } else {
        push_str(&mut old_label, "[EXISTING FILE]");
    }
    let nc = chars_of(new);
    let ls = crate::text::split_lines(nc.as_slice());
    let mut count: Vec<char> = Vec::new();
    let d = decimal_chars(ls.len() as u64);
    push_all(&mut count, d.as_slice());
    push_str(&mut count, " lines");
    let diff = write_diff(old.as_str(), new);
    WritePreview {
        file_label: string_from(label.as_slice()),
        old_label: string_from(old_label.as_slice()),
        new_label: string_from(count.as_slice()),
        diff,
    }
}

/// Which approval is pending.
#[derive(Debug, Clone, Copy, PartialEq, Eq, Structural)]
pub enum ApprovalKind {
    Edit,
    Write,
}

/// What an approval answer leads to: `None` to run the tool, or the result
/// to report (`answer` is `None` when the interface went away).
pub fn approval_outcome(kind: ApprovalKind, answer: Option<ApprovalResponse>) -> (r: Option<ToolResult>)
    ensures
        match answer {
            Some(ApprovalResponse::Approve) => r is None,
            Some(ApprovalResponse::Reject) => r is Some && !r->0.is_error && r->0.content@ == (
            if kind == ApprovalKind::Edit {
                "Edit cancelled by user"@
            } else {
                "Write cancelled by user"@
            }),
            None => r is Some && r->0.is_error && r->0.content@ == (if kind == ApprovalKind::Edit {
                "Edit approval cancelled"@
            } else {
                "Write approval cancelled"@
            }),
        },
{
    let mut m: Vec<char> = Vec::new();
    match answer {
        Some(ApprovalResponse::Approve) => None,
        Some(ApprovalResponse::Reject) => {
            match kind {
                ApprovalKind::Edit => push_str(&mut m, "Edit cancelled by user"),
                ApprovalKind::Write => push_str(&mut m, "Write cancelled by user"),
            }
            Some(result_of(m, false))
        },
        None => {
            match kind {
                ApprovalKind::Edit => push_str(&mut m, "Edit approval cancelled"),
                ApprovalKind::Write => push_str(&mut m, "Write approval cancelled"),
            }
            Some(result_of(m, true))
        },
    }
}

/// The error for calling a tool that is not registered.
pub fn tool_not_found(name: &str) -> (r: String)
    ensures
        r@ == "Tool '"@ + name@ + "' not found"@,
{
    let mut m: Vec<char> = Vec::new();
    push_str(&mut m, "Tool '");
    push_str(&mut m, name);
    push_str(&mut m, "' not found");
    string_from(m.as_slice())
}

/// The error for registering a second tool named `name`.
pub fn name_collision(name: &str) -> (r: String)
    ensures
        r@ == "Tool name collision: '"@ + name@ + "' is already registered"@,
{
    let mut m: Vec<char> = Vec::new();
    push_str(&mut m, "Tool name collision: '");
    push_str(&mut m, name);
    push_str(&mut m, "' is already registered");
    string_from(m.as_slice())
}

/// Registering a tool named `name` beside the tools `registered`: refused
/// with the collision error when the name is taken.
pub fn check_new_tool(registered: &Vec<String>, name: &str) -> (r: Result<(), String>)
    ensures
        (exists|i: int| 0 <= i < registered@.len() && #[trigger] registered@[i]@ == name@) ==> (r matches Err(
            m,
        ) && m@ == "Tool name collision: '"@ + name@ + "' is already registered"@),
        !(exists|i: int| 0 <= i < registered@.len() && #[trigger] registered@[i]@ == name@) ==> r is Ok,
{
    let mut i: usize = 0;
    while i < registered.len()
        invariant
            i <= registered@.len(),
            forall|j: int| 0 <= j < i ==> #[trigger] registered@[j]@ != name@,
        decreases registered@.len() - i,
    {
        if str_eq(registered[i].as_str(), name) {
            return Err(name_collision(name));
        }
        i = i + 1;
    }
    Ok(())
}

/// A denied call never runs and only a denied call is refused; without an
/// interface every other call runs; approvals are asked only for edits and
/// writes the user has not allowed, and prompts only for other tools.
pub proof fn law_routes(decision: PermissionDecision, tool: Seq<char>, has_ui: bool)
    ensures
        (route_of(decision, tool, has_ui) == Route::Deny) <==> (decision == PermissionDecision::Deny),
        !has_ui && decision != PermissionDecision::Deny ==> route_of(decision, tool, has_ui) == Route::Run,
        route_of(decision, tool, has_ui) == Route::ApproveEdit ==> tool == "edit"@ && has_ui
            && decision == PermissionDecision::Ask,
        route_of(decision, tool, has_ui) == Route::ApproveWrite ==> tool == "write"@ && has_ui
            && decision == PermissionDecision::Ask,
        route_of(decision, tool, has_ui) == Route::Prompt ==> tool != "edit"@ && tool != "write"@
            && has_ui && decision == PermissionDecision::Ask,
        decision == PermissionDecision::Allow && tool != "edit"@ && tool != "write"@ ==> route_of(
            decision,
            tool,
            has_ui,
        ) == Route::Run,
{
}

} // verus!
