use synthia::cache::ToolCache;
use synthia::messages::{ApprovalResponse, PermissionResponse};
use synthia::tools::ToolResult;
use synthia::params::ToolParams;
use synthia::permission_config::PermissionConfig;
use synthia::permission_manager::{PermissionDecision, PermissionManager};
use synthia::registry::{
    answer_permission, approval_outcome, cached_result, check_new_tool, denied_result, edit_preview,
    is_deterministic, remember_result,
    name_collision, operation_details, route, tool_not_found, write_diff, write_preview,
    ApprovalKind, Route,
};

#[test]
fn only_pure_tools_are_cached() {
    for t in ["read", "grep", "glob", "powertools"] {
        assert!(is_deterministic(t));
    }
    for t in ["bash", "write", "edit", "git", "webfetch", "todo"] {
        assert!(!is_deterministic(t));
    }
}

#[test]
fn routing_after_permission_check() {
    assert_eq!(route(PermissionDecision::Deny, "bash", true), Route::Deny);
    assert_eq!(route(PermissionDecision::Allow, "bash", true), Route::Run);
    assert_eq!(route(PermissionDecision::Allow, "edit", true), Route::RunWithDiff);
    assert_eq!(route(PermissionDecision::Allow, "write", false), Route::Run);
    assert_eq!(route(PermissionDecision::Ask, "edit", true), Route::ApproveEdit);
    assert_eq!(route(PermissionDecision::Ask, "write", true), Route::ApproveWrite);
    assert_eq!(route(PermissionDecision::Ask, "bash", true), Route::Prompt);
    assert_eq!(route(PermissionDecision::Ask, "bash", false), Route::Run);
    let d = denied_result();
    assert!(d.is_error);
    assert_eq!(d.content, "Operation denied by permissions");
}

#[test]
fn permission_prompt_details() {
    let cmd = ToolParams::new().with_str("command", "ls -la");
    assert_eq!(operation_details("bash", &cmd, "/w"), "Command: ls -la\nDirectory: /w");
    assert_eq!(operation_details("bash", &ToolParams::new(), "/w"), "Command: unknown\nDirectory: /w");
    assert_eq!(operation_details("read", &ToolParams::new().with_str("file_path", "a"), "/w"), "Read file: a");
    assert_eq!(operation_details("git", &cmd, "/w"), "Git command: ls -la");
    assert_eq!(operation_details("webfetch", &ToolParams::new().with_str("url", "u"), "/w"), "Fetch URL: u");
    assert_eq!(operation_details("todo", &ToolParams::new(), "/w"), "Operation: todo with params");
}

#[test]
fn answering_a_permission_prompt() {
    let mut m = PermissionManager::new("/p".to_string(), PermissionConfig::default());
    let p = ToolParams::new().with_str("command", "cargo test");
    assert!(answer_permission(&mut m, PermissionResponse::Yes, "bash", &p).is_none());
    assert!(m.config.permissions.allow.is_empty());
    let no = answer_permission(&mut m, PermissionResponse::No, "bash", &p).unwrap();
    assert_eq!(no.content, "Operation cancelled by user");
    assert!(!no.is_error);
    assert!(answer_permission(&mut m, PermissionResponse::YesAndDontAsk("x".to_string()), "bash", &p).is_none());
    assert_eq!(m.config.permissions.allow, vec!["Bash(cargo:*)".to_string()]);
    assert_eq!(m.check_permission("bash", &p), PermissionDecision::Allow);
}

#[test]
fn edit_and_write_previews() {
    let (new_content, diff) = edit_preview("a\nb\n", "b", "c").unwrap();
    assert_eq!(new_content, "a\nc\n");
    assert_eq!(diff, " a\n-b\n+c\n");
    let err = edit_preview("a", "zz", "c").unwrap_err();
    assert!(err.is_error);
    assert_eq!(err.content, "String 'zz' not found in file");

    assert_eq!(write_diff("", "x\ny"), "+ x\n+ y");
    assert_eq!(write_diff("x\n", "y\n"), "-x\n+y\n");
    let created = write_preview("f.rs", None, "one\ntwo\n");
    assert_eq!(created.file_label, "f.rs [CREATE]");
    assert_eq!(created.old_label, "[NEW FILE]");
    assert_eq!(created.new_label, "2 lines");
    assert_eq!(created.diff, "+ one\n+ two");
    let over = write_preview("f.rs", Some("one\n".to_string()), "one\n");
    assert_eq!(over.file_label, "f.rs [OVERWRITE]");
    assert_eq!(over.old_label, "[EXISTING FILE]");
    assert_eq!(over.diff, " one\n");
}

#[test]
fn approval_answers() {
    assert!(approval_outcome(ApprovalKind::Edit, Some(ApprovalResponse::Approve)).is_none());
    let r = approval_outcome(ApprovalKind::Write, Some(ApprovalResponse::Reject)).unwrap();
    assert_eq!(r.content, "Write cancelled by user");
    assert!(!r.is_error);
    let r = approval_outcome(ApprovalKind::Edit, None).unwrap();
    assert_eq!(r.content, "Edit approval cancelled");
    assert!(r.is_error);
}

#[test]
fn registry_error_messages() {
    assert_eq!(tool_not_found("nope"), "Tool 'nope' not found");
    assert_eq!(name_collision("bash"), "Tool name collision: 'bash' is already registered");
}

#[test]
fn cache_only_serves_deterministic_tools() {
    let mut cache = ToolCache::new(10);
    let params: serde_json::Value = serde_json::from_str("{\"pattern\":\"x\"}").unwrap();
    let r = ToolResult { content: "found".to_string(), is_error: false };
    remember_result(&mut cache, "bash", &params, r.clone());
    assert_eq!(cache.stats().size, 0);
    assert!(cached_result(&mut cache, "bash", &params).is_none());
    assert_eq!(cache.stats().misses, 0);
    assert!(cached_result(&mut cache, "grep", &params).is_none());
    assert_eq!(cache.stats().misses, 1);
    remember_result(&mut cache, "grep", &params, r);
    let hit = cached_result(&mut cache, "grep", &params).unwrap();
    assert_eq!(hit.content, "found");
    assert_eq!(cache.stats().hits, 1);
}

#[test]
fn register_refuses_taken_names() {
    let names = vec!["read".to_string(), "bash".to_string()];
    assert!(check_new_tool(&names, "grep").is_ok());
    assert_eq!(check_new_tool(&names, "bash").unwrap_err(), "Tool name collision: 'bash' is already registered");
}
