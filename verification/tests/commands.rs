use synthia::commands::{GitTool, GlobTool, GrepTool, PowertoolsTool, WorkshopTool};
use synthia::params::ToolParams;
use synthia::webfetch::{HeaderEntry, NetworkFailure, WebFetchTool};

fn strs(v: &[String]) -> Vec<&str> {
    v.iter().map(|s| s.as_str()).collect()
}

fn op(o: &str) -> ToolParams {
    ToolParams::new().with_str("operation", o)
}

#[test]
fn git_commit_empty_message_is_refused() {
    let p = op("commit").with_str("cwd", "/repo").with_str("message", "");
    let err = GitTool::plan(&p).err().unwrap();
    assert!(err.contains("Commit message cannot be empty"));
}

#[test]
fn git_add_without_files_is_refused() {
    let p = op("add").with_str("cwd", "/repo").with_list("files", vec![]);
    assert!(GitTool::plan(&p).err().unwrap().contains("No files specified"));
    assert_eq!(GitTool::plan(&op("add")).err().unwrap(), "Missing 'files' parameter for add operation");
}

#[test]
fn git_unknown_operation_is_refused() {
    let err = GitTool::plan(&op("invalid_operation")).err().unwrap();
    assert!(err.contains("Unknown git operation"));
    assert_eq!(err, "Unknown git operation: invalid_operation");
    assert_eq!(GitTool::plan(&ToolParams::new()).err().unwrap(), "Missing 'operation' parameter");
}

#[test]
fn git_command_lines() {
    let plan = GitTool::plan(&op("status").with_str("cwd", "/repo")).unwrap();
    assert_eq!(strs(&plan.args), vec!["status"]);
    assert_eq!(plan.cwd.as_deref(), Some("/repo"));
    assert_eq!(strs(&GitTool::plan(&op("diff").with_bool("staged", true)).unwrap().args), vec!["diff", "--cached"]);
    assert_eq!(strs(&GitTool::plan(&op("log")).unwrap().args), vec!["log", "--oneline", "-n", "10"]);
    assert_eq!(strs(&GitTool::plan(&op("log").with_u64("limit", 3)).unwrap().args), vec!["log", "--oneline", "-n", "3"]);
    let add = op("add").with_list("files", vec!["a.rs".to_string(), "b.rs".to_string()]);
    assert_eq!(strs(&GitTool::plan(&add).unwrap().args), vec!["add", "a.rs", "b.rs"]);
    assert_eq!(strs(&GitTool::plan(&op("commit").with_str("message", "fix")).unwrap().args), vec!["commit", "-m", "fix"]);
    assert_eq!(
        strs(&GitTool::plan(&op("push").with_str("remote", "origin").with_str("branch", "main")).unwrap().args),
        vec!["push", "origin", "main"]
    );
    assert!(GitTool::plan(&op("init")).unwrap().cwd.is_none());
}

#[test]
fn git_report_shows_command_then_output() {
    let args = vec!["log".to_string(), "-n".to_string(), "1".to_string()];
    let r = GitTool::report(&args, "abc fix\n", "", true);
    assert_eq!(r.content, "Command: git log -n 1\n\nabc fix\n");
    assert!(!r.is_error);
    let r = GitTool::report(&vec!["push".to_string()], "", "fatal: no remote", false);
    assert_eq!(r.content, "Command: git push\n\nstdout:\n\nstderr:\nfatal: no remote");
    assert!(r.is_error);
}

#[test]
fn glob_arguments_and_reports() {
    let (pattern, path) = GlobTool::request(&ToolParams::new().with_str("pattern", "*.rs")).unwrap();
    assert_eq!((pattern.as_str(), path.as_str()), ("*.rs", "."));
    assert_eq!(GlobTool::request(&ToolParams::new()).unwrap_err(), "Missing 'pattern' parameter");
    assert_eq!(strs(&GlobTool::fd_args("*.rs", "src")), vec!["--type", "f", "--color", "never", "*.rs", "src"]);
    assert_eq!(strs(&GlobTool::find_args("main", "src")), vec!["src", "-type", "f", "-name", "*main*"]);
    assert_eq!(strs(&GlobTool::find_args("*.rs", "src")), vec!["src", "-type", "f", "-name", "*.rs"]);
    assert_eq!(GlobTool::report("*.rs", ".", true, "a.rs\n", "").content, "a.rs\n");
    assert_eq!(GlobTool::report("*.zz", ".", true, "  \n", "").content, "No files found matching pattern: *.zz");
    let missing = GlobTool::report("*.rs", "/nope", false, "", "find: /nope: No such file or directory");
    assert!(missing.is_error);
    assert_eq!(missing.content, "Path not found: /nope");
}

#[test]
fn grep_arguments_and_reports() {
    let p = ToolParams::new()
        .with_str("pattern", "fn main")
        .with_str("path", "src")
        .with_bool("case_insensitive", true)
        .with_str("glob", "*.rs");
    let r = GrepTool::request(&p).unwrap();
    assert!(r.case_insensitive);
    assert!(!r.files_with_matches);
    assert_eq!(
        strs(&GrepTool::rg_args(&r)),
        vec!["fn main", "src", "--color", "never", "--no-heading", "--ignore-case", "--line-number", "--glob", "*.rs"]
    );
    assert_eq!(strs(&GrepTool::grep_args(&r)), vec!["-r", "-i", "-n", "fn main", "src"]);
    let q = GrepTool::request(&ToolParams::new().with_str("pattern", "x").with_bool("files_with_matches", true)).unwrap();
    assert_eq!(strs(&GrepTool::rg_args(&q)), vec!["x", ".", "--color", "never", "--no-heading", "--files-with-matches"]);
    assert_eq!(GrepTool::report("zz", ".", false, "", "").content, "No matches found for pattern: zz");
    assert_eq!(GrepTool::report("zz", ".", true, "  ", "").content, "  ");
}

#[test]
fn test_workshop_missing_text_for_note() {
    let err = WorkshopTool::plan(&op("note")).err().unwrap();
    assert!(err.contains("Missing 'text' parameter"));
    assert_eq!(err, "Missing 'text' parameter for note operation");
}

#[test]
fn test_workshop_missing_query_for_search() {
    let err = WorkshopTool::plan(&op("search")).err().unwrap();
    assert!(err.contains("Missing 'query' parameter"));
}

#[test]
fn test_workshop_invalid_operation() {
    let err = WorkshopTool::plan(&op("invalid_operation")).err().unwrap();
    assert!(err.contains("Unknown workshop operation"));
}

#[test]
fn workshop_command_lines() {
    assert_eq!(strs(&WorkshopTool::plan(&op("context")).unwrap()), vec!["context"]);
    assert_eq!(strs(&WorkshopTool::plan(&op("why").with_str("query", "db")).unwrap()), vec!["why", "db"]);
    assert_eq!(strs(&WorkshopTool::plan(&op("decision").with_str("text", "Use TypeScript")).unwrap()), vec!["decision", "Use TypeScript"]);
    assert_eq!(
        strs(&WorkshopTool::plan(&op("decision").with_str("text", "t").with_str("reasoning", "r")).unwrap()),
        vec!["decision", "t", "-r", "r"]
    );
    assert_eq!(strs(&WorkshopTool::plan(&op("gotcha").with_str("text", "Some constraint")).unwrap()), vec!["gotcha", "Some constraint"]);
    let tagged = op("gotcha").with_str("text", "g").with_list("tags", vec!["a".to_string(), "b".to_string()]);
    assert_eq!(strs(&WorkshopTool::plan(&tagged).unwrap()), vec!["gotcha", "g", "-t", "a", "-t", "b"]);
    assert!(WorkshopTool::not_installed().is_error);
    assert!(WorkshopTool::not_installed().content.starts_with("Workshop CLI not found in PATH."));
    assert_eq!(WorkshopTool::report("ok", "", true).content, "ok");
    assert_eq!(WorkshopTool::report("out", "", false).content, "out");
    assert_eq!(WorkshopTool::report("out", "bad", false).content, "bad");
}

#[test]
fn powertools_parameter_errors() {
    assert!(PowertoolsTool::plan(&op("invalid_operation")).err().unwrap().contains("Unknown powertools operation"));
    assert!(PowertoolsTool::plan(&op("definition")).err().unwrap().contains("Missing 'location' parameter"));
    assert!(PowertoolsTool::plan(&op("references")).err().unwrap().contains("Missing 'symbol' parameter"));
}

#[test]
fn powertools_command_lines() {
    let stats = PowertoolsTool::plan(&op("stats").with_str("cwd", ".").with_str("path", "src")).unwrap();
    assert_eq!(strs(&stats.args), vec!["stats", "--format", "json", "-p", "src"]);
    assert_eq!(stats.cwd.as_deref(), Some("."));
    let index = PowertoolsTool::plan(&op("index")).unwrap();
    assert_eq!(strs(&index.args), vec!["index", "--format", "json", "--auto-install"]);
    let langs = op("index").with_bool("auto_install", false).with_list("languages", vec!["rust".to_string()]);
    assert_eq!(strs(&PowertoolsTool::plan(&langs).unwrap().args), vec!["index", "--format", "json", "--languages", "rust"]);
    let def = PowertoolsTool::plan(&op("definition").with_str("location", "a.rs:1:2").with_str("cwd", "/x")).unwrap();
    assert_eq!(strs(&def.args), vec!["definition", "a.rs:1:2", "--format", "json"]);
    assert!(def.cwd.is_none());
    let refs = op("references").with_str("symbol", "main").with_bool("include_declarations", true);
    assert_eq!(
        strs(&PowertoolsTool::plan(&refs).unwrap().args),
        vec!["references", "main", "--format", "json", "--include-declarations"]
    );
}

#[test]
fn powertools_binary_missing_and_reports() {
    let tool = PowertoolsTool::new("/nonexistent/path/powertools".to_string());
    let r = tool.binary_missing();
    assert!(r.is_error);
    assert!(r.content.contains("Powertools binary not found"));
    let pretty = PowertoolsTool::report("{\"a\":1}", "", true);
    assert_eq!(pretty.content, "{\n  \"a\": 1\n}");
    assert_eq!(PowertoolsTool::report("plain", "", true).content, "plain");
    assert!(PowertoolsTool::report("", "boom", false).is_error);
}

#[test]
fn webfetch_invalid_scheme_is_reported() {
    let r = WebFetchTool::request(&ToolParams::new().with_str("url", "ftp://example.com")).unwrap().err().unwrap();
    assert!(r.is_error);
    assert!(r.content.contains("Invalid URL"));
    assert_eq!(r.content, "Invalid URL scheme 'ftp': must be http or https");
}

#[test]
fn webfetch_missing_url_fails_the_call() {
    assert_eq!(WebFetchTool::request(&ToolParams::new()).err().unwrap(), "Missing 'url' parameter");
}

#[test]
fn webfetch_malformed_urls_are_reported() {
    for url in ["not-a-url", "htp://missing-t.com", "://no-scheme.com", "http://", ""] {
        let r = WebFetchTool::request(&ToolParams::new().with_str("url", url)).unwrap().err().unwrap();
        assert!(r.is_error, "Expected error for malformed URL: {}", url);
        assert!(r.content.contains("Malformed URL") || r.content.contains("Invalid URL"));
    }
}

#[test]
fn webfetch_limits_and_results() {
    let req = WebFetchTool::request(&ToolParams::new().with_str("url", "https://example.com/x").with_u64("max_size_mb", 1))
        .unwrap()
        .ok()
        .unwrap();
    assert_eq!(req.url, "https://example.com/x");
    assert_eq!(req.timeout_seconds, 30);
    assert_eq!(req.max_size_bytes, 1048576);
    assert!(WebFetchTool::size_check(&req, 1048576).is_none());
    assert_eq!(
        WebFetchTool::size_check(&req, 3 * 1048576).unwrap().content,
        "Response too large: 3 MB exceeds maximum of 1 MB"
    );
    let ok = WebFetchTool::body_result(&req, "response".to_string());
    assert_eq!(ok.content, "response");
    assert!(!ok.is_error);
    assert_eq!(WebFetchTool::http_error(404, Some("Not Found")).content, "HTTP error 404: Not Found");
    assert_eq!(WebFetchTool::http_error(599, None).content, "HTTP error 599: Unknown error");
    assert_eq!(WebFetchTool::network_error(7, NetworkFailure::Timeout, "x").content, "Request timed out after 7 seconds");
    assert_eq!(WebFetchTool::network_error(7, NetworkFailure::Connect, "refused").content, "Connection failed: refused");
    assert_eq!(WebFetchTool::body_error("eof").content, "Failed to read response body: eof");
}

#[test]
fn webfetch_headers_must_be_strings() {
    let ok = WebFetchTool::parse_headers(&vec![HeaderEntry {
        name: "X-Custom-Header".to_string(),
        value: Some("test-value".to_string()),
        value_debug: "String(\"test-value\")".to_string(),
    }])
    .unwrap();
    assert_eq!(ok, vec![("X-Custom-Header".to_string(), "test-value".to_string())]);
    let err = WebFetchTool::parse_headers(&vec![HeaderEntry {
        name: "X-Custom-Header".to_string(),
        value: None,
        value_debug: "Number(123)".to_string(),
    }])
    .unwrap_err();
    assert!(err.contains("must be a string"));
    assert_eq!(err, "Header value for 'X-Custom-Header' must be a string, got: Number(123)");
    let bad_name = WebFetchTool::parse_headers(&vec![HeaderEntry {
        name: "bad name".to_string(),
        value: Some("v".to_string()),
        value_debug: String::new(),
    }])
    .unwrap_err();
    assert!(bad_name.starts_with("Invalid header name 'bad name': "));
    let bad_value = WebFetchTool::parse_headers(&vec![HeaderEntry {
        name: "X".to_string(),
        value: Some("a\nb".to_string()),
        value_debug: String::new(),
    }])
    .unwrap_err();
    assert!(bad_value.starts_with("Invalid header value for 'X': "));
}

#[test]
fn webfetch_url_checked_before_size_limit() {
    let huge = u64::MAX / 2;
    let bad = ToolParams::new().with_str("url", "not-a-url").with_u64("max_size_mb", huge);
    let r = WebFetchTool::checked_request(&bad).unwrap().unwrap().err().unwrap();
    assert!(r.is_error);
    assert!(r.content.starts_with("Malformed URL"));
    let r = WebFetchTool::request(&bad).unwrap().err().unwrap();
    assert!(r.content.starts_with("Malformed URL"));
    let ok_url = ToolParams::new().with_str("url", "https://example.com").with_u64("max_size_mb", huge);
    assert!(WebFetchTool::checked_request(&ok_url).is_none());
    let fine = ToolParams::new().with_str("url", "https://example.com");
    let req = WebFetchTool::checked_request(&fine).unwrap().unwrap().ok().unwrap();
    assert_eq!(req.max_size_bytes, 10 * 1048576);
    assert_eq!(WebFetchTool::check_url(&fine).unwrap().ok().unwrap(), "https://example.com");
}

#[test]
fn webfetch_header_errors_are_exact() {
    let entry = |name: &str, value: &str| HeaderEntry {
        name: name.to_string(),
        value: Some(value.to_string()),
        value_debug: String::new(),
    };
    assert_eq!(
        WebFetchTool::parse_headers(&vec![entry("bad name", "v")]).unwrap_err(),
        "Invalid header name 'bad name': invalid HTTP header name"
    );
    assert_eq!(
        WebFetchTool::parse_headers(&vec![entry("", "v")]).unwrap_err(),
        "Invalid header name '': invalid HTTP header name"
    );
    assert_eq!(
        WebFetchTool::parse_headers(&vec![entry("X", "a\nb")]).unwrap_err(),
        "Invalid header value for 'X': failed to parse header value"
    );
    assert!(WebFetchTool::parse_headers(&vec![entry("Accept", "caf\u{e9}\tx")]).is_ok());
    assert!(WebFetchTool::parse_headers(&vec![entry(&"a".repeat(100), "v")]).is_ok());
}
