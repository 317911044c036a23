use synthia::agent::{
    create_system_prompt, initial_conversation, should_continue, tool_error_content, tool_limit_message,
    tool_calls_in, tool_outcome, tool_output_preview, tool_result_message, AgentMemory, user_message, with_system_prompt, StreamAccumulator,
    StreamReaction, TurnControl, TurnStep, MAX_TOOL_CALLS, SYSTEM_PROMPT,
};
use synthia::colors::PastelColors;
use synthia::context::{
    format_messages_for_summary, replace_with_summary, summary_prompt, summary_text_of,
    truncate_to, MAX_MESSAGES,
};
use synthia::display::{
    edit_approval_rows, input_layout, session_saved_notice, tool_result_preview, usable_width,
    RowKind, StreamDisplay,
};
use synthia::input::{permission_answer, InputState, Key, Render, UpdateKind};
use synthia::json_parser::JsonParser;
use synthia::jsonl_logger::{get_projects_log_dir, log_file_name_for, JsonlLogger};
use synthia::messages::{ApprovalResponse, Command, PermissionResponse};
use synthia::project_context::{custom_instructions_from, instructions_path, ProjectContext};
use synthia::sse::StreamEvent;
use synthia::types::{ContentBlock, Message, Role, StopReason, TokenUsage};

fn text(role: Role, t: &str) -> Message {
    Message { role, content: vec![ContentBlock::Text { text: t.to_string() }] }
}

#[test]
fn test_format_messages_for_summary() {
    let input: serde_json::Value = serde_json::from_str(r#"{"file_path": "test.txt"}"#).unwrap();
    let messages = vec![
        text(Role::User, "Hello"),
        Message {
            role: Role::Assistant,
            content: vec![ContentBlock::ToolUse { id: "1".to_string(), name: "read".to_string(), input }],
        },
        Message {
            role: Role::User,
            content: vec![ContentBlock::ToolResult {
                tool_use_id: "1".to_string(),
                content: "File contents here".to_string(),
                is_error: false,
            }],
        },
    ];
    let formatted = format_messages_for_summary(&messages);
    assert!(formatted.contains("User: Hello"));
    assert!(formatted.contains("Assistant: [Called tool: read]"));
    assert!(formatted.contains("User: [Tool result:"));
    assert_eq!(
        formatted,
        "User: Hello\nAssistant: [Called tool: read]\nUser: [Tool result: File contents here]"
    );
    assert!(summary_prompt(&messages).starts_with("Summarize this conversation segment concisely"));
}

#[test]
fn summary_cuts_long_results_and_keeps_errors() {
    let long = "x".repeat(150);
    let m = Message {
        role: Role::User,
        content: vec![
            ContentBlock::ToolResult { tool_use_id: "a".to_string(), content: long.clone(), is_error: false },
            ContentBlock::ToolResult { tool_use_id: "b".to_string(), content: long.clone(), is_error: true },
        ],
    };
    let f = format_messages_for_summary(&[m]);
    assert_eq!(f, format!("User: [Tool result: {}] [Tool error: {}]", "x".repeat(100), long));
}

#[test]
fn summary_replaces_a_range_and_truncation_keeps_newest() {
    let mut ms: Vec<Message> = (0..6).map(|i| text(Role::User, &i.to_string())).collect();
    replace_with_summary(&mut ms, 1, 4, "sum");
    assert_eq!(ms.len(), 4);
    assert!(matches!(&ms[1].content[0], ContentBlock::Text { text } if text == "[Conversation Summary]: sum"));
    assert_eq!(ms[1].role, Role::System);
    assert!(matches!(&ms[2].content[0], ContentBlock::Text { text } if text == "4"));

    let mut many: Vec<Message> = (0..105).map(|i| text(Role::User, &i.to_string())).collect();
    truncate_to(&mut many, MAX_MESSAGES);
    assert_eq!(many.len(), 100);
    assert!(matches!(&many[0].content[0], ContentBlock::Text { text } if text == "5"));

    assert_eq!(summary_text_of(&vec![]), "[Summary generation failed]");
    assert_eq!(summary_text_of(&vec![ContentBlock::Text { text: "s".to_string() }]), "s");
}

#[test]
fn conversation_setup() {
    let sys = create_system_prompt();
    assert_eq!(sys.role, Role::System);
    assert!(matches!(&sys.content[0], ContentBlock::Text { text } if text == SYSTEM_PROMPT));
    let conv = with_system_prompt(vec![user_message("hi".to_string())]);
    assert_eq!(conv.len(), 2);
    assert_eq!(conv[0].role, Role::System);
    let again = with_system_prompt(conv.clone());
    assert_eq!(again.len(), 2);
    assert!(!should_continue(&vec![]));
    assert!(!should_continue(&again));
    let with_result = vec![tool_result_message("id".to_string(), "out".to_string(), false)];
    assert!(should_continue(&with_result));
}

#[test]
fn tool_texts() {
    assert_eq!(tool_output_preview("short"), "short");
    let long = "y".repeat(600);
    assert_eq!(tool_output_preview(&long), format!("{}...", "y".repeat(500)));
    assert_eq!(
        tool_error_content("Missing 'command' parameter"),
        "Error: Missing 'command' parameter. Please check the tool schema and retry with valid JSON parameters."
    );
    assert_eq!(tool_error_content("disk full"), "Error: disk full");
    assert!(tool_limit_message().starts_with("Tool call limit exceeded (50 calls)."));
}

#[test]
fn turn_control_stops_on_cancel_and_at_limit() {
    let mut t = TurnControl::new();
    t.begin();
    assert_eq!(t.next_step(), TurnStep::Generate);
    t.record_tool_calls(MAX_TOOL_CALLS);
    assert_eq!(t.next_step(), TurnStep::LimitExceeded);
    t.begin();
    assert_eq!(t.command_during_turn(&Command::ShowMenu), None);
    assert_eq!(t.next_step(), TurnStep::Generate);
    assert_eq!(t.command_during_turn(&Command::Cancel).as_deref(), Some("Generation canceled by user"));
    assert_eq!(t.next_step(), TurnStep::Stop);
    let mut u = TurnControl::new();
    u.interrupt(&Command::NewSession);
    assert!(u.cancel_requested);
}

#[test]
fn stream_accumulator_gathers_reply() {
    let mut acc = StreamAccumulator::new();
    assert!(matches!(acc.apply(StreamEvent::TextDelta("Hi ".to_string())), StreamReaction::ShowDelta(d) if d == "Hi "));
    acc.apply(StreamEvent::TextDelta("there".to_string()));
    assert!(matches!(
        acc.apply(StreamEvent::ToolCallStart { id: "c1".to_string(), name: "read".to_string() }),
        StreamReaction::ShowToolStart { .. }
    ));
    acc.apply(StreamEvent::ToolCallDelta { id: "c1".to_string(), arguments_delta: "{\"file_path\":".to_string() });
    acc.apply(StreamEvent::ToolCallDelta { id: "c1".to_string(), arguments_delta: "\"a.rs\"}".to_string() });
    acc.apply(StreamEvent::ToolCallDelta { id: "zz".to_string(), arguments_delta: "lost".to_string() });
    assert!(matches!(
        acc.apply(StreamEvent::Done { stop_reason: StopReason::EndTurn, usage: TokenUsage { input_tokens: 0, output_tokens: 0 } }),
        StreamReaction::Finish
    ));
    assert!(matches!(acc.apply(StreamEvent::Error("x".to_string())), StreamReaction::Fail(m) if m == "Stream error: x"));
    let content = acc.content(&JsonParser::new());
    assert_eq!(content.len(), 2);
    assert!(matches!(&content[0], ContentBlock::Text { text } if text == "Hi there"));
    match &content[1] {
        ContentBlock::ToolUse { id, name, input } => {
            assert_eq!(id, "c1");
            assert_eq!(name, "read");
            assert_eq!(input["file_path"], "a.rs");
        }
        _ => panic!("expected a tool call"),
    }
}

#[test]
fn stream_display_wraps_on_completion() {
    assert_eq!(usable_width(80), 70);
    assert_eq!(usable_width(5), 0);
    let mut d = StreamDisplay::new();
    assert_eq!(d.complete(10), None);
    assert!(d.delta("hello "));
    assert!(!d.delta("big world"));
    assert_eq!(d.complete(10).as_deref(), Some("hello big\nworld"));
    assert!(!d.is_streaming);
    assert!(d.buffer.is_empty());
}

#[test]
fn tool_result_preview_and_notices() {
    let p = tool_result_preview(Some("echo\thi"), "a\n\tb\nc\nd\ne\nf");
    assert_eq!(p.command.as_deref(), Some("echo    hi"));
    assert_eq!(p.lines, vec!["a", "b", "c", "d", "e"]);
    assert!(p.has_more);
    let q = tool_result_preview(None, "ok");
    assert!(q.command.is_none());
    assert!(!q.has_more);
    let long_cmd = "z".repeat(70);
    assert_eq!(tool_result_preview(Some(&long_cmd), "").command.unwrap(), format!("{}...", "z".repeat(60)));
    assert_eq!(session_saved_notice("abc"), "[Session saved: abc]");
    assert_eq!(session_saved_notice("20240101_120000_abcdef"), "[Session saved: 20240101_120000_abcd]");
    assert_eq!(input_layout(10, 3, 10), (2, 8, 0));
    assert_eq!(input_layout(0, 0, 80), (1, 5, 0));
}

#[test]
fn edit_approval_box_rows() {
    let rows = edit_approval_rows("src/a.rs", " x\n-y\n+z\n");
    assert!(rows.iter().any(|r| r.kind == RowKind::Added && r.text.contains('z')));
    assert!(rows.iter().any(|r| r.kind == RowKind::Removed && r.text.contains('y')));
    assert!(rows.iter().any(|r| r.kind == RowKind::Prompt));
    assert_eq!(rows.first().unwrap().kind, RowKind::Border);
}

#[test]
fn typing_editing_and_sending() {
    let mut s = InputState::new();
    for c in "hey".chars() {
        s.handle_key(Key::Char(c));
    }
    s.handle_key(Key::Left);
    s.handle_key(Key::Backspace);
    assert_eq!(s.input.iter().collect::<String>(), "hy");
    assert_eq!(s.cursor, 1);
    s.handle_key(Key::Char('\t'));
    let out = s.handle_key(Key::Enter);
    assert_eq!(out.echo.as_deref(), Some("h    y"));
    assert!(matches!(out.command, Some(Command::SendMessage(m)) if m == "h\ty"));
    assert!(s.input.is_empty());
    assert!(s.handle_key(Key::Enter).command.is_none());
    let quit = s.handle_key(Key::Ctrl('d'));
    assert!(matches!(quit.command, Some(Command::Shutdown)));
    assert!(s.should_quit);
}

#[test]
fn type_then_backspace_restores_line() {
    let mut s = InputState::new();
    for c in "abc".chars() {
        s.handle_key(Key::Char(c));
    }
    s.handle_key(Key::Home);
    let before: String = s.input.iter().collect();
    s.handle_key(Key::Char('X'));
    s.handle_key(Key::Backspace);
    assert_eq!(s.input.iter().collect::<String>(), before);
    assert_eq!(s.cursor, 0);
}

#[test]
fn menus_and_approvals() {
    let mut s = InputState::new();
    assert_eq!(s.handle_key(Key::Ctrl('m')).render, Render::Menu);
    s.handle_key(Key::Down);
    s.handle_key(Key::Down);
    s.handle_key(Key::Down);
    assert_eq!(s.handle_key(Key::Enter).render, Render::ReasoningMenu);
    s.handle_key(Key::Down);
    let chosen = s.handle_key(Key::Enter);
    assert!(matches!(chosen.command, Some(Command::SetReasoningLevel(l)) if l == "high"));
    assert_eq!(chosen.notice.unwrap().0, "Reasoning level set to: high");

    s.show_sessions(vec!["s1".to_string(), "s2".to_string()]);
    s.handle_key(Key::Down);
    let load = s.handle_key(Key::Enter);
    assert!(matches!(load.command, Some(Command::LoadSession(id)) if id == "s2"));
    assert!(!s.show_session_list);

    s.await_approval();
    assert!(s.handle_key(Key::Char('x')).reply.is_none());
    assert_eq!(s.handle_key(Key::Char('A')).reply, Some(ApprovalResponse::Approve));
    assert!(!s.awaiting_approval);
}

#[test]
fn colors_logger_and_project_context() {
    let h = PastelColors::header();
    assert_eq!((h.r, h.g, h.b), (135, 206, 250));
    assert_eq!(get_projects_log_dir("/home/u"), "/home/u/.synthia/projects");
    assert_eq!(log_file_name_for("20240101_120000", 42), "20240101_120000_000000042.jsonl");
    let mut l = JsonlLogger::new("proj", "/logs");
    assert_eq!(l.project_name(), "proj");
    assert!(l.needs_rotation(Some(0)));
    l.rotate_to("20240101_120000", 7);
    assert_eq!(l.current_log_file.as_deref(), Some("/logs/proj/20240101_120000_000000007.jsonl"));
    assert!(!l.needs_rotation(Some(10)));
    assert!(l.needs_rotation(Some(10 * 1024 * 1024)));
    assert!(l.needs_rotation(None));
    assert_eq!(l.get_or_create_log_file(Some(5)), "/logs/proj/20240101_120000_000000007.jsonl");
    let fresh = l.get_or_create_log_file(None);
    assert!(fresh.starts_with("/logs/proj/") && fresh.ends_with(".jsonl"));

    assert_eq!(custom_instructions_from("  \n".to_string()), None);
    assert_eq!(custom_instructions_from("Be terse.".to_string()).as_deref(), Some("Be terse."));
    assert_eq!(instructions_path("/w/.synthia"), "/w/.synthia/.SYNTHIA.md");
    let ctx = ProjectContext::load(Ok(("/w".to_string(), "Use tabs".to_string())));
    assert_eq!(ctx.synthia_dir, "/w/.synthia");
    assert_eq!(ctx.custom_instructions.as_deref(), Some("Use tabs"));
    let none = ProjectContext::load(Err("no cwd".to_string()));
    assert_eq!(none.synthia_dir, ".synthia");
    assert!(none.custom_instructions.is_none());
}

#[test]
fn test_actor_with_no_project_context() {
    let conversation = initial_conversation(None);
    assert_eq!(conversation.len(), 1);
    assert!(matches!(conversation[0].role, Role::System));
}

#[test]
fn test_actor_with_project_context() {
    let conversation = initial_conversation(Some("Always respond in haiku".to_string()));
    assert_eq!(conversation.len(), 2);
    assert!(matches!(conversation[0].role, Role::System));
    assert!(matches!(conversation[1].role, Role::System));
    if let ContentBlock::Text { text } = &conversation[1].content[0] {
        assert!(text.contains("<project-instructions>"));
        assert!(text.contains("Always respond in haiku"));
        assert!(text.contains("</project-instructions>"));
    } else {
        panic!("Expected text content block");
    }
}

#[test]
fn permission_prompt_keys() {
    assert!(matches!(permission_answer(Key::Char('y'), "p".to_string()), Some(PermissionResponse::Yes)));
    assert!(matches!(
        permission_answer(Key::Char('A'), "Bash(ls:*)".to_string()),
        Some(PermissionResponse::YesAndDontAsk(p)) if p == "Bash(ls:*)"
    ));
    assert!(matches!(permission_answer(Key::Char('n'), String::new()), Some(PermissionResponse::No)));
    assert!(matches!(permission_answer(Key::Esc, String::new()), Some(PermissionResponse::No)));
    assert!(permission_answer(Key::Char('x'), String::new()).is_none());
    assert!(permission_answer(Key::Enter, String::new()).is_none());
}

#[test]
fn test_parallel_execution_documentation() {
    println!("\n=== Parallel Tool Execution ===");
    println!("When the LLM returns multiple tool calls in a single response:");
    println!("1. All tool calls are collected into a Vec");
    println!("2. Futures are created for each tool execution");
    println!("3. join_all() executes all tools concurrently");
    println!("4. Results are processed in order after all complete");
    println!("\nPerformance Impact:");
    println!("- 3 tools @ 100ms each:");
    println!("  - Sequential: ~300ms total");
    println!("  - Parallel:   ~100ms total (3x speedup)");
    println!("- 5 tools @ 2s each:");
    println!("  - Sequential: ~10s total");
    println!("  - Parallel:   ~2s total (5x speedup)");
}

#[test]
fn input_redrawn_after_updates() {
    let mut s = InputState::new();
    s.input_needs_render = false;
    s.after_update(UpdateKind::AssistantThinking, false);
    assert!(!s.input_needs_render);
    s.after_update(UpdateKind::Complete, false);
    assert!(!s.input_needs_render);
    s.after_update(UpdateKind::Complete, true);
    assert!(s.input_needs_render);
    s.input_needs_render = false;
    s.after_update(UpdateKind::ToolResult, false);
    assert!(s.input_needs_render);
    s.input_needs_render = false;
    s.after_update(UpdateKind::Error, true);
    assert!(s.input_needs_render);
}

#[test]
fn tool_calls_and_outcomes() {
    let input: serde_json::Value = serde_json::from_str("{\"command\":\"ls\"}").unwrap();
    let content = vec![
        ContentBlock::Text { text: "I'll look.".to_string() },
        ContentBlock::ToolUse { id: "a".to_string(), name: "bash".to_string(), input: input.clone() },
        ContentBlock::ToolUse { id: "b".to_string(), name: "read".to_string(), input: input.clone() },
    ];
    let calls = tool_calls_in(&content);
    assert_eq!(calls.len(), 2);
    assert_eq!((calls[0].id.as_str(), calls[0].name.as_str()), ("a", "bash"));
    assert_eq!((calls[1].id.as_str(), calls[1].name.as_str()), ("b", "read"));
    assert_eq!(calls[1].input, input);

    let ok = tool_outcome(Ok(synthia::tools::ToolResult { content: "x".repeat(600), is_error: false }));
    assert_eq!(ok.content, "x".repeat(600));
    assert!(!ok.is_error);
    assert_eq!(ok.shown, format!("{}...", "x".repeat(500)));
    let failed = tool_outcome(Err("Missing 'command' parameter".to_string()));
    assert!(failed.is_error);
    assert_eq!(
        failed.content,
        "Error: Missing 'command' parameter. Please check the tool schema and retry with valid JSON parameters."
    );
    assert_eq!(failed.shown, failed.content);
}

#[test]
fn agent_memory_sessions() {
    let mut memory = AgentMemory {
        conversation: vec![create_system_prompt()],
        session: synthia::session::Session::new("m".to_string()),
    };
    let first_id = memory.session.id.clone();
    memory.record(user_message("hello".to_string()));
    assert_eq!(memory.conversation.len(), 2);
    assert_eq!(memory.session.messages.len(), 1);
    let previous = memory.start_new_session("m2".to_string());
    assert_eq!(previous.id, first_id);
    assert_eq!(previous.messages.len(), 1);
    assert_eq!(memory.conversation.len(), 1);
    assert_eq!(memory.conversation[0].role, Role::System);
    assert_eq!(memory.session.model, "m2");
    assert!(memory.session.messages.is_empty());
    let back = memory.switch_to(previous);
    assert_eq!(back.model, "m2");
    assert_eq!(memory.session.id, first_id);
    assert_eq!(memory.conversation.len(), 1);
    assert_eq!(memory.conversation[0].role, Role::User);
}
