use synthia::config::{
    config_paths, default_api_base, default_max_tokens, default_model, project_config_path,
    user_config_path, TimeoutConfig, ToolsConfig, UIConfig,
};
use synthia::permission_config::PermissionConfig;
use synthia::project::{extract_project_name, git_root_from, normalize_project_name};
use synthia::session::{
    generate_session_id, get_most_recent_session, get_session_path, session_id_from,
    sessions_dir_in, sort_by_recency, Session, SessionInfo,
};
use synthia::types::{ContentBlock, Message, Role};

#[test]
fn test_edit_approval_default() {
    let config = UIConfig::default();
    assert_eq!(config.edit_approval, true);
}

#[test]
fn config_defaults_match_documented_values() {
    assert_eq!(default_api_base(), "http://localhost:1234/v1");
    assert_eq!(default_model(), "google/gemma-3-12b");
    assert_eq!(default_max_tokens(), Some(4096));
    let t = TimeoutConfig::default();
    assert_eq!(t.bash_timeout, 300);
    assert_eq!(t.git_timeout, 120);
    assert_eq!(t.workshop_timeout, 30);
    assert_eq!(t.powertools_timeout, 60);
    let ui = UIConfig::default();
    assert!(ui.syntax_highlighting);
    assert_eq!(ui.max_output_lines, 1000);
    let tools = ToolsConfig::default();
    assert!(tools.powertools_binary_path.is_none());
    assert_eq!(tools.max_bash_output_chars, 50000);
    assert_eq!(tools.max_read_output_chars, 200000);
    assert_eq!(tools.read_warn_at_chars, 100000);
}

#[test]
fn config_paths_put_global_before_project() {
    assert_eq!(project_config_path(), "synthia.toml");
    assert_eq!(user_config_path("/home/u"), "/home/u/.config/synthia/config.toml");
    assert_eq!(
        config_paths(Some("/home/u")),
        vec!["/home/u/.config/synthia/config.toml".to_string(), "synthia.toml".to_string()]
    );
    assert_eq!(config_paths(None), vec!["synthia.toml".to_string()]);
}

#[test]
fn permission_config_test_default_config() {
    let config = PermissionConfig::default();
    assert!(config.permissions.allow.is_empty());
    assert!(config.permissions.deny.is_empty());
    assert!(config.permissions.ask.is_empty());
}

#[test]
fn test_add_permission_avoids_duplicates() {
    let mut config = PermissionConfig::default();
    config.add_permission("Bash(cargo:*)".to_string()).unwrap();
    config.add_permission("Bash(cargo:*)".to_string()).unwrap();
    assert_eq!(config.permissions.allow.len(), 1);
}

#[test]
fn add_permission_appends_new_patterns_in_order() {
    let mut config = PermissionConfig::default();
    config.add_permission("Bash(cargo:*)".to_string()).unwrap();
    config.add_permission("Read(//Users/test/**)".to_string()).unwrap();
    assert_eq!(
        config.permissions.allow,
        vec!["Bash(cargo:*)".to_string(), "Read(//Users/test/**)".to_string()]
    );
    assert!(config.permissions.deny.is_empty());
}

#[test]
fn test_normalize_project_name() {
    assert_eq!(normalize_project_name("My Project"), "my_project");
    assert_eq!(normalize_project_name("Agent-Powertools"), "agent-powertools");
    assert_eq!(normalize_project_name("Project@#$%123"), "project____123");
    assert_eq!(normalize_project_name("hello world! 2024"), "hello_world__2024");
    let long_name = "a".repeat(100);
    assert_eq!(normalize_project_name(&long_name).len(), 50);
}

#[test]
fn normalize_is_idempotent_on_examples() {
    for name in ["My Project", "Ünïcödé name", "x@y", ""] {
        let once = normalize_project_name(name);
        assert_eq!(normalize_project_name(&once), once);
        assert!(once.chars().all(|c| c.is_ascii_lowercase() || c.is_ascii_digit() || c == '-' || c == '_'));
    }
}

#[test]
fn test_extract_project_name() {
    let path = "/home/user/projects/my-project";
    assert_eq!(extract_project_name(path).unwrap(), "my-project");
    let path = "/home/user/projects/Agent Powertools";
    assert_eq!(extract_project_name(path).unwrap(), "Agent Powertools");
}

#[test]
fn extract_project_name_of_root_fails() {
    assert_eq!(
        extract_project_name("/").unwrap_err(),
        "Failed to extract project name from path"
    );
}

#[test]
fn git_root_is_trimmed_output() {
    assert_eq!(git_root_from(true, "/repo/root\n").unwrap(), "/repo/root");
    assert_eq!(git_root_from(false, "fatal").unwrap_err(), "Not a git repository");
}

#[test]
fn test_session_new() {
    let session = Session::new("test-model".to_string());
    assert!(!session.id.is_empty());
    assert_eq!(session.model, "test-model");
    assert_eq!(session.messages.len(), 0);
    assert!(session.created_at > 0);
    assert_eq!(session.created_at, session.last_modified);
}

fn text_message(text: &str) -> Message {
    Message { role: Role::User, content: vec![ContentBlock::Text { text: text.to_string() }] }
}

#[test]
fn test_session_info_from_session() {
    let mut session = Session::new("test-model".to_string());
    session.add_message(text_message("Test"));
    let info = SessionInfo::from(&session);
    assert_eq!(info.id, session.id);
    assert_eq!(info.model, session.model);
    assert_eq!(info.message_count, 1);
    assert_eq!(info.created_at, session.created_at);
    assert_eq!(info.last_modified, session.last_modified);
}

#[test]
fn test_generate_session_id() {
    let id1 = generate_session_id();
    let id2 = generate_session_id();
    assert!(!id1.is_empty());
    assert!(!id2.is_empty());
    assert_ne!(id1, id2);
}

#[test]
fn session_add_message_and_name_at_given_times() {
    let mut s = Session::create("m".to_string(), "id1".to_string(), 100);
    s.add_message_at(text_message("hi"), 250);
    assert_eq!(s.messages.len(), 1);
    assert_eq!(s.last_modified, 250);
    assert_eq!(s.created_at, 100);
    s.set_name_at("work".to_string(), 300);
    assert_eq!(s.name.as_deref(), Some("work"));
    assert_eq!(s.last_modified, 300);
}

#[test]
fn session_id_is_stamp_and_random_suffix() {
    assert_eq!(session_id_from("20240101_120000", &[0, 10, 35, 36, 71, 255]), "20240101_120000_0az0z3");
    let id = generate_session_id();
    let suffix: Vec<char> = id.chars().rev().take(6).collect();
    assert_eq!(id.chars().rev().nth(6), Some('_'));
    assert!(suffix.iter().all(|c| c.is_ascii_digit() || c.is_ascii_lowercase()));
}

#[test]
fn session_paths() {
    assert_eq!(sessions_dir_in("/data"), "/data/synthia/sessions");
    assert_eq!(get_session_path("/data/synthia/sessions", "abc"), "/data/synthia/sessions/abc.json");
}

fn info(id: &str, modified: i64) -> SessionInfo {
    SessionInfo {
        id: id.to_string(),
        name: None,
        created_at: 0,
        last_modified: modified,
        model: "m".to_string(),
        message_count: 0,
    }
}

#[test]
fn sessions_sorted_most_recent_first_stably() {
    let sorted = sort_by_recency(vec![info("a", 1), info("b", 3), info("c", 2), info("d", 3)]);
    let ids: Vec<&str> = sorted.iter().map(|s| s.id.as_str()).collect();
    assert_eq!(ids, vec!["b", "d", "c", "a"]);
}

#[test]
fn most_recent_session_is_first_sorted() {
    assert_eq!(get_most_recent_session(vec![]), None);
    assert_eq!(
        get_most_recent_session(vec![info("old", 5), info("new", 9)]),
        Some("new".to_string())
    );
}
