use synthia::diff::{compute_diff, new_file_diff, render_changes, DiffTag};
use synthia::params::ToolParams;
use synthia::todo::{Todo, TodoStatus, TodoTool};
use synthia::tools::{BashTool, EditTool, ReadTool, WriteTool, MAX_WRITE_SIZE};

#[test]
fn test_compute_diff_addition() {
    let old = "line 1\nline 2\n";
    let new = "line 1\nline 2\nline 3\n";
    let diff = compute_diff(old, new);
    assert!(diff.contains(" line 1"));
    assert!(diff.contains(" line 2"));
    assert!(diff.contains("+line 3"));
}

#[test]
fn test_compute_diff_deletion() {
    let old = "line 1\nline 2\nline 3\n";
    let new = "line 1\nline 3\n";
    let diff = compute_diff(old, new);
    assert!(diff.contains(" line 1"));
    assert!(diff.contains("-line 2"));
    assert!(diff.contains(" line 3"));
}

#[test]
fn test_compute_diff_modification() {
    let old = "hello world\n";
    let new = "hello Synthia\n";
    let diff = compute_diff(old, new);
    assert!(diff.contains("-hello world"));
    assert!(diff.contains("+hello Synthia"));
}

#[test]
fn test_compute_diff_no_change() {
    let old = "same\n";
    let new = "same\n";
    let diff = compute_diff(old, new);
    assert!(diff.contains(" same"));
    assert!(!diff.contains("+"));
    assert!(!diff.contains("-"));
}

#[test]
fn diff_rendering_is_sign_then_line() {
    let changes = vec![
        (DiffTag::Equal, "a\n".to_string()),
        (DiffTag::Delete, "b\n".to_string()),
        (DiffTag::Insert, "c\n".to_string()),
    ];
    assert_eq!(render_changes(&changes), " a\n-b\n+c\n");
    assert_eq!(compute_diff("a\nb\n", "a\nc\n"), " a\n-b\n+c\n");
    assert_eq!(new_file_diff("x\ny"), "+ x\n+ y");
}

fn todo(content: &str, status: TodoStatus, active: &str) -> Todo {
    Todo { content: content.to_string(), status, active_form: active.to_string() }
}

#[test]
fn todo_empty_list() {
    let mut tool = TodoTool::new();
    let result = tool.set_todos(vec![]);
    assert!(!result.is_error);
    assert_eq!(result.content, "No todos");
}

#[test]
fn todo_single_pending() {
    let mut tool = TodoTool::new();
    let result = tool.set_todos(vec![todo("Write tests", TodoStatus::Pending, "Writing tests")]);
    assert!(!result.is_error);
    assert!(result.content.contains("☐"));
    assert!(result.content.contains("Write tests"));
}

#[test]
fn todo_in_progress_shows_active_form() {
    let mut tool = TodoTool::new();
    let result = tool.set_todos(vec![todo("Implement feature", TodoStatus::InProgress, "Implementing feature")]);
    assert!(!result.is_error);
    assert!(result.content.contains("⏳"));
    assert!(result.content.contains("Implementing feature"));
    assert!(!result.content.contains("Implement feature"));
}

#[test]
fn todo_multiple_statuses_exact_rendering() {
    let mut tool = TodoTool::new();
    let result = tool.set_todos(vec![
        todo("Write tests", TodoStatus::Completed, "Writing tests"),
        todo("Implement code", TodoStatus::InProgress, "Implementing code"),
        todo("Write docs", TodoStatus::Pending, "Writing docs"),
    ]);
    assert!(!result.is_error);
    assert_eq!(
        result.content,
        "Todo List:\n\n1. ✓ Write tests\n2. ⏳ Implementing code\n3. ☐ Write docs\n"
    );
}

#[test]
fn todo_replaces_existing_list() {
    let mut tool = TodoTool::new();
    tool.set_todos(vec![todo("Old task", TodoStatus::Pending, "Old task")]);
    let result = tool.set_todos(vec![todo("New task", TodoStatus::Pending, "New task")]);
    assert!(!result.is_error);
    assert!(result.content.contains("New task"));
    assert!(!result.content.contains("Old task"));
    assert_eq!(tool.todos.len(), 1);
    assert_eq!(tool.format_todos(), result.content);
}

#[test]
fn bash_command_and_outcome() {
    let p = ToolParams::new().with_str("command", "ls");
    assert_eq!(BashTool::command(&p, "{}").unwrap(), "ls");
    assert_eq!(
        BashTool::command(&ToolParams::new(), "{\"cmd\":1}").unwrap_err(),
        "Missing 'command' parameter. Received params: {\"cmd\":1}"
    );
    let ok = BashTool::outcome("out\n", "", true);
    assert_eq!(ok.content, "out\n");
    assert!(!ok.is_error);
    let err = BashTool::outcome("o", "e", false);
    assert_eq!(err.content, "stdout:\no\nstderr:\ne");
    assert!(err.is_error);
}

#[test]
fn bash_timeout_message_names_limit_and_command() {
    let t = BashTool::new(300);
    let m = t.timeout_message("sleep 1000");
    assert!(m.starts_with("Command timed out after 300 seconds.\n\n"));
    assert!(m.ends_with("Command: sleep 1000"));
}

#[test]
fn edit_request_and_apply() {
    let p = ToolParams::new()
        .with_str("file_path", "a.txt")
        .with_str("old_string", "foo")
        .with_str("new_string", "bar");
    let r = EditTool::request(&p).unwrap();
    assert_eq!(r.file_path, "a.txt");
    assert_eq!(r.old_string, "foo");
    assert_eq!(r.new_string, "bar");
    assert_eq!(EditTool::request(&ToolParams::new()).err().unwrap(), "Missing 'file_path' parameter");
    assert_eq!(
        EditTool::request(&ToolParams::new().with_str("file_path", "a")).err().unwrap(),
        "Missing 'old_string' parameter"
    );
    assert_eq!(
        EditTool::request(&ToolParams::new().with_str("file_path", "a").with_str("old_string", "b")).err().unwrap(),
        "Missing 'new_string' parameter"
    );
    assert_eq!(EditTool::apply("foo foo baz", "foo", "bar").unwrap(), "bar bar baz");
    let missing = EditTool::apply("abc", "xyz", "q").unwrap_err();
    assert!(missing.is_error);
    assert_eq!(missing.content, "String 'xyz' not found in file");
    assert_eq!(EditTool::success("a.txt").content, "Successfully edited a.txt");
}

#[test]
fn read_results() {
    let tool = ReadTool::new(10, 5);
    let small = tool.present("f", "abc");
    assert!(!small.is_error);
    assert_eq!(small.content, "File: f\n\nabc");
    let warned = tool.present("f", "abcdefgh");
    assert!(!warned.is_error);
    assert!(warned.content.starts_with("File: f\n\n⚠️  WARNING: Large file (8 chars / ~2 tokens)\n"));
    assert!(warned.content.ends_with("abcdefgh"));
    let big = tool.present("f", "abcdefghijkl");
    assert!(big.is_error);
    assert!(big.content.starts_with("ERROR: File too large to read in full\n\nFile: f\nSize: 12 chars (~3 tokens)\nLimit: 10 chars (~2 tokens)\n"));
    assert_eq!(ReadTool::not_found("x").content, "File not found: x");
    assert!(ReadTool::not_found("x").is_error);
    assert_eq!(ReadTool::request(&ToolParams::new()).unwrap_err(), "Missing 'file_path' parameter");
}

#[test]
fn write_checks_size_and_duplication() {
    assert!(WriteTool::check("fn main() {}\n").is_none());
    let big = "x".repeat(MAX_WRITE_SIZE + 1);
    let r = WriteTool::check(&big).unwrap();
    assert!(r.is_error);
    assert!(r.content.starts_with("Error: Content size (102401 bytes) exceeds maximum allowed size"));

    let block: String = (0..10).map(|i| format!("line {}\n", i)).collect();
    let repeated = block.repeat(4);
    assert!(WriteTool::has_excessive_duplication(&repeated));
    let r = WriteTool::check(&repeated).unwrap();
    assert!(r.content.starts_with("Error: Content contains excessive duplicate code blocks"));

    let thrice = block.repeat(3);
    assert!(!WriteTool::has_excessive_duplication(&thrice));
    let varied: String = (0..200).map(|i| format!("line {}\n", i)).collect();
    assert!(!WriteTool::has_excessive_duplication(&varied));

    let (f, c) = WriteTool::request(&ToolParams::new().with_str("file_path", "p").with_str("content", "c")).unwrap();
    assert_eq!((f.as_str(), c.as_str()), ("p", "c"));
    assert_eq!(WriteTool::request(&ToolParams::new().with_str("file_path", "p")).unwrap_err(), "Missing 'content' parameter");
    assert_eq!(WriteTool::success("p").content, "Successfully wrote to p");
}

#[test]
fn read_limits_count_characters() {
    let tool = ReadTool::new(100, 50);
    let c = "é".repeat(60);
    let r = tool.present("p", &c);
    assert!(!r.is_error);
    assert_eq!(
        r.content,
        format!(
            "File: p\n\n⚠️  WARNING: Large file (60 chars / ~15 tokens)\nConsider using grep/head/tail for large files to reduce token usage.\n\n{}",
            c
        )
    );
    let big = tool.present("p", &"é".repeat(101));
    assert!(big.is_error);
    assert!(big.content.contains("Size: 101 chars (~25 tokens)"));
}
