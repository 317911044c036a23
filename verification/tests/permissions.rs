use synthia::params::{ParamValue, ToolParams};
use synthia::permission_config::PermissionConfig;
use synthia::permission_manager::{parse_permission, PermissionDecision, PermissionManager};

fn create_test_manager() -> PermissionManager {
    PermissionManager::new("/tmp/test_project".to_string(), PermissionConfig::default())
}

fn command(cmd: &str) -> ToolParams {
    ToolParams::new().with_str("command", cmd)
}

fn file_path(p: &str) -> ToolParams {
    ToolParams::new().with_str("file_path", p)
}

#[test]
fn test_new_manager_loads_empty_config() {
    let manager = create_test_manager();
    assert!(manager.config.permissions.allow.is_empty());
    assert_eq!(manager.config_path, "/tmp/test_project/.synthia/settings-local.json");
}

#[test]
fn test_bash_pattern_matching() {
    let mut manager = create_test_manager();
    manager.add_permission("Bash(cargo:*)".to_string()).unwrap();
    assert_eq!(manager.check_permission("bash", &command("cargo test")), PermissionDecision::Allow);
}

#[test]
fn test_bash_different_command_not_matched() {
    let mut manager = create_test_manager();
    manager.add_permission("Bash(cargo:*)".to_string()).unwrap();
    assert_eq!(manager.check_permission("bash", &command("npm install")), PermissionDecision::Ask);
}

#[test]
fn test_read_glob_pattern_matching() {
    let mut manager = create_test_manager();
    manager.add_permission("Read(//Users/test/**)".to_string()).unwrap();
    assert_eq!(
        manager.check_permission("read", &file_path("/Users/test/foo/bar.txt")),
        PermissionDecision::Allow
    );
}

#[test]
fn test_write_exact_file_matching() {
    let mut manager = create_test_manager();
    manager.add_permission("Write(//Users/test/file.rs)".to_string()).unwrap();
    assert_eq!(
        manager.check_permission("write", &file_path("/Users/test/file.rs")),
        PermissionDecision::Allow
    );
}

#[test]
fn test_deny_overrides_allow() {
    let mut manager = create_test_manager();
    manager.config.permissions.allow.push("Bash(cargo:*)".to_string());
    manager.config.permissions.deny.push("Bash(cargo:*)".to_string());
    assert_eq!(manager.check_permission("bash", &command("cargo test")), PermissionDecision::Deny);
}

#[test]
fn test_default_is_ask() {
    let manager = create_test_manager();
    assert_eq!(manager.check_permission("bash", &command("cargo test")), PermissionDecision::Ask);
}

#[test]
fn test_mcp_tool_exact_match() {
    let mut manager = create_test_manager();
    manager.add_permission("mcp__powertools__index_project".to_string()).unwrap();
    assert_eq!(
        manager.check_permission("mcp__powertools__index_project", &ToolParams::new()),
        PermissionDecision::Allow
    );
}

#[test]
fn test_suggest_pattern_bash() {
    let manager = create_test_manager();
    let suggestion = manager.suggest_pattern("bash", &command("cargo test --all"));
    assert!(suggestion.contains("cargo"));
}

#[test]
fn build_pattern_describes_each_tool() {
    let m = create_test_manager();
    assert_eq!(m.build_pattern("bash", &command("cargo build --release")), "Bash(cargo:*)");
    assert_eq!(m.build_pattern("bash", &ToolParams::new()), "Bash(unknown:*)");
    assert_eq!(m.build_pattern("read", &file_path("src/main.rs")), "Read(//tmp/test_project/src/main.rs)");
    assert_eq!(m.build_pattern("edit", &file_path("/etc/hosts")), "Edit(//etc/hosts)");
    assert_eq!(m.build_pattern("write", &ToolParams::new()), "write(unknown)");
    assert_eq!(m.build_pattern("git", &command("git commit -m x")), "Git(commit:*)");
    assert_eq!(m.build_pattern("git", &command("status")), "Git(unknown:*)");
    assert_eq!(
        m.build_pattern("webfetch", &ToolParams::new().with_str("url", "https://docs.rs/serde")),
        "WebFetch(domain:docs.rs)"
    );
    assert_eq!(m.build_pattern("webfetch", &ToolParams::new().with_str("url", "not a url")), "WebFetch(unknown)");
    assert_eq!(m.build_pattern("grep", &ToolParams::new()), "grep");
}

#[test]
fn suggestions_per_tool() {
    let m = create_test_manager();
    assert_eq!(m.suggest_pattern("bash", &command("ls -la")), "don't ask again for 'ls' commands");
    assert_eq!(
        m.suggest_pattern("read", &file_path("/a/b/c.txt")),
        "don't ask again for reads in /a/b/**"
    );
    assert_eq!(m.suggest_pattern("write", &file_path("x.rs")), "don't ask again for edits to x.rs");
    assert_eq!(m.suggest_pattern("grep", &ToolParams::new()), "don't ask again for this operation");
}

#[test]
fn matching_rules() {
    let m = create_test_manager();
    assert!(m.matches("Bash(cargo:*)", "Bash(cargo:*)"));
    assert!(m.matches("Bash(cargo:*)", "Bash(*)"));
    assert!(m.matches("Bash(cargo:*)", "Bash"));
    assert!(!m.matches("Bash(cargo:*)", "Bash(npm:*)"));
    assert!(m.matches("WebFetch(domain:api.docs.rs)", "WebFetch(domain:*.docs.rs)"));
    assert!(m.matches_any("Bash(ls:*)", &vec!["Read(//x)".to_string(), "Bash(ls:*)".to_string()]));
    assert!(!m.matches_any("Bash(ls:*)", &vec![]));
}

#[test]
fn dont_ask_again_allows_same_call_afterwards() {
    let mut m = create_test_manager();
    let p = command("make all");
    assert_eq!(m.check_permission("bash", &p), PermissionDecision::Ask);
    let pattern = m.build_pattern("bash", &p);
    m.add_permission(pattern).unwrap();
    assert_eq!(m.check_permission("bash", &p), PermissionDecision::Allow);
}

#[test]
fn normalize_path_joins_relative_paths() {
    let m = create_test_manager();
    assert_eq!(m.normalize_path("a/b"), "/tmp/test_project/a/b");
    assert_eq!(m.normalize_path("/abs"), "/abs");
}

#[test]
fn parse_permission_splits_tool_and_pattern() {
    assert_eq!(parse_permission("Bash(cargo:*)"), ("Bash".to_string(), "cargo:*".to_string()));
    assert_eq!(parse_permission("mcp__x"), ("mcp__x".to_string(), "".to_string()));
}

#[test]
fn params_last_entry_wins() {
    let p = ToolParams::new().with_str("k", "a").with_str("k", "b").with_u64("n", 3);
    assert_eq!(p.get_str("k"), Some("b".chars().collect()));
    assert_eq!(p.get_u64("n"), Some(3));
    assert_eq!(p.get_bool("n"), None);
    assert!(matches!(p.get("missing"), None));
    assert!(matches!(p.get("n"), Some(ParamValue::UInt(3))));
    assert_eq!(p.require_str("k").unwrap(), "b");
    assert!(p.require_str("zz").is_err());
}
