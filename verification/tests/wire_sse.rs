use synthia::json_parser::JsonParser;
use synthia::sse::{ChoiceChunk, SseChunk, SseDecoder, StreamEvent, ToolCallChunk, UsageChunk};
use synthia::types::{ContentBlock, Message, Role, StopReason};
use synthia::wire::{
    completion_response, convert_messages, role_name, stop_reason_for, ChoiceReply,
    CompletionReply, FunctionReply, ToolCallReply, WireMessage,
};

fn text_msg(role: Role, text: &str) -> Message {
    Message { role, content: vec![ContentBlock::Text { text: text.to_string() }] }
}

#[test]
fn test_convert_messages_text() {
    let messages = vec![text_msg(Role::User, "Hello")];
    let converted = convert_messages(&messages, "medium");
    assert_eq!(converted.len(), 1);
    match &converted[0] {
        WireMessage::Text { role, content } => {
            assert_eq!(role_name(*role), "user");
            assert_eq!(content, "Hello");
        }
        _ => panic!("expected a text message"),
    }
}

#[test]
fn test_reasoning_level_injection_into_system_message() {
    let messages = vec![text_msg(Role::System, "You are a helpful assistant.")];
    let converted = convert_messages(&messages, "high");
    assert_eq!(converted.len(), 1);
    match &converted[0] {
        WireMessage::Text { role, content } => {
            assert_eq!(role_name(*role), "system");
            assert_eq!(content, "You are a helpful assistant.\n\nReasoning: high");
        }
        _ => panic!("expected a text message"),
    }
}

#[test]
fn test_convert_messages_with_tool_use() {
    let input: serde_json::Value = serde_json::from_str(r#"{"city": "San Francisco"}"#).unwrap();
    let messages = vec![Message {
        role: Role::Assistant,
        content: vec![
            ContentBlock::Text { text: "I'll use a tool".to_string() },
            ContentBlock::ToolUse { id: "call_123".to_string(), name: "get_weather".to_string(), input },
        ],
    }];
    let converted = convert_messages(&messages, "medium");
    assert_eq!(converted.len(), 1);
    match &converted[0] {
        WireMessage::Calls { role, content, tool_calls } => {
            assert_eq!(role_name(*role), "assistant");
            assert_eq!(content.as_deref(), Some("I'll use a tool"));
            assert_eq!(tool_calls.len(), 1);
            assert_eq!(tool_calls[0].id, "call_123");
            assert_eq!(tool_calls[0].name, "get_weather");
            let args: serde_json::Value = serde_json::from_str(&tool_calls[0].arguments).unwrap();
            assert_eq!(args["city"], "San Francisco");
        }
        _ => panic!("expected a tool call message"),
    }
}

#[test]
fn test_convert_messages_with_tool_result() {
    let messages = vec![Message {
        role: Role::User,
        content: vec![ContentBlock::ToolResult {
            tool_use_id: "call_123".to_string(),
            content: "Temperature: 72F".to_string(),
            is_error: false,
        }],
    }];
    let converted = convert_messages(&messages, "medium");
    assert_eq!(converted.len(), 1);
    match &converted[0] {
        WireMessage::Tool { tool_call_id, content } => {
            assert_eq!(tool_call_id, "call_123");
            assert_eq!(content, "Temperature: 72F");
        }
        _ => panic!("expected a tool message"),
    }
}

#[test]
fn reasoning_level_only_on_leading_system_prompt() {
    let messages = vec![text_msg(Role::User, "hi"), text_msg(Role::System, "sys")];
    let converted = convert_messages(&messages, "low");
    assert_eq!(converted.len(), 2);
    match &converted[1] {
        WireMessage::Text { content, .. } => assert_eq!(content, "sys"),
        _ => panic!("expected a text message"),
    }
    let empty = vec![Message { role: Role::User, content: vec![] }];
    assert_eq!(convert_messages(&empty, "low").len(), 0);
}

#[test]
fn finish_reasons_map_to_stop_reasons() {
    assert_eq!(stop_reason_for("length"), StopReason::MaxTokens);
    assert_eq!(stop_reason_for("tool_calls"), StopReason::StopSequence);
    assert_eq!(stop_reason_for("stop"), StopReason::EndTurn);
    assert_eq!(stop_reason_for("whatever"), StopReason::EndTurn);
}

fn reply(choices: Option<Vec<ChoiceReply>>) -> CompletionReply {
    CompletionReply { pretty: "{}".to_string(), choices, prompt_tokens: Some(12), completion_tokens: None }
}

fn choice(content: Option<&str>, tool_calls: Option<Vec<ToolCallReply>>) -> ChoiceReply {
    ChoiceReply {
        has_message: true,
        content: content.map(|s| s.to_string()),
        tool_calls,
        finish_reason: Some("tool_calls".to_string()),
    }
}

fn call(id: Option<&str>, name: Option<&str>, args: Option<&str>) -> ToolCallReply {
    ToolCallReply {
        id: id.map(|s| s.to_string()),
        function: Some(FunctionReply { name: name.map(|s| s.to_string()), arguments: args.map(|s| s.to_string()) }),
    }
}

#[test]
fn completion_reply_is_read_into_blocks() {
    let parser = JsonParser::new();
    let r = completion_response(
        &parser,
        &reply(Some(vec![choice(Some("Let me look"), Some(vec![call(Some("c1"), Some("read"), Some("{'file_path': 'a.rs',}"))]))])),
    )
    .unwrap();
    assert_eq!(r.stop_reason, StopReason::StopSequence);
    assert_eq!(r.usage.input_tokens, 12);
    assert_eq!(r.usage.output_tokens, 0);
    assert_eq!(r.content.len(), 2);
    assert!(matches!(&r.content[0], ContentBlock::Text { text } if text == "Let me look"));
    match &r.content[1] {
        ContentBlock::ToolUse { id, name, input } => {
            assert_eq!(id, "c1");
            assert_eq!(name, "read");
            assert_eq!(input["file_path"], "a.rs");
        }
        _ => panic!("expected a tool call"),
    }
}

#[test]
fn unparsable_arguments_become_empty_object() {
    let parser = JsonParser::new();
    let r = completion_response(&parser, &reply(Some(vec![choice(Some(""), Some(vec![call(Some("c"), Some("n"), Some("???"))]))])))
        .unwrap();
    assert_eq!(r.content.len(), 1);
    match &r.content[0] {
        ContentBlock::ToolUse { input, .. } => assert!(input.as_object().unwrap().is_empty()),
        _ => panic!("expected a tool call"),
    }
}

#[test]
fn completion_reply_errors() {
    let parser = JsonParser::new();
    assert_eq!(
        completion_response(&parser, &reply(None)).err().unwrap(),
        "No choices in response. Full response: {}"
    );
    assert_eq!(completion_response(&parser, &reply(Some(vec![]))).err().unwrap(), "Empty choices array");
    let mut no_msg = choice(None, None);
    no_msg.has_message = false;
    assert_eq!(completion_response(&parser, &reply(Some(vec![no_msg]))).err().unwrap(), "No message in choice");
    let bad = |c: ToolCallReply| completion_response(&parser, &reply(Some(vec![choice(None, Some(vec![c]))]))).err().unwrap();
    assert_eq!(bad(call(None, Some("n"), Some("{}"))), "Tool call missing id");
    assert_eq!(bad(ToolCallReply { id: Some("i".to_string()), function: None }), "Tool call missing function");
    assert_eq!(bad(call(Some("i"), None, Some("{}"))), "Tool call function missing name");
    assert_eq!(bad(call(Some("i"), Some("n"), None)), "Tool call function missing arguments");
}

#[test]
fn sse_messages_are_framed_by_blank_lines() {
    let mut d = SseDecoder::new();
    d.push_text("data: {\"a\":1}\n\ndata: par");
    assert_eq!(d.next_message().as_deref(), Some("data: {\"a\":1}"));
    assert_eq!(d.next_message(), None);
    d.push_text("tial\n\n");
    assert_eq!(d.next_message().as_deref(), Some("data: partial"));
    assert_eq!(SseDecoder::data_payloads("event: x\ndata: one\ndata: two"), vec!["one".to_string(), "two".to_string()]);
}

fn chunk_with(choice: ChoiceChunk) -> Option<SseChunk> {
    Some(SseChunk { error: None, choice: Some(choice), usage: None })
}

#[test]
fn sse_events_from_chunks() {
    let mut d = SseDecoder::new();
    assert!(matches!(d.handle_data(" [DONE] ", None), Some(StreamEvent::Done { stop_reason: StopReason::EndTurn, .. })));
    assert!(d.handle_data("garbage", None).is_none());
    let err = d.handle_data("{}", Some(SseChunk { error: Some(None), choice: None, usage: None }));
    assert!(matches!(err, Some(StreamEvent::Error(m)) if m == "Unknown error"));
    let text = d.handle_data("{}", chunk_with(ChoiceChunk { content: Some("Hi".to_string()), tool_calls: None, finish_reason: None }));
    assert!(matches!(text, Some(StreamEvent::TextDelta(t)) if t == "Hi"));

    let start = d.handle_data(
        "{}",
        chunk_with(ChoiceChunk {
            content: None,
            tool_calls: Some(vec![ToolCallChunk { id: Some("c1".to_string()), name: Some("bash".to_string()), arguments: None }]),
            finish_reason: None,
        }),
    );
    assert!(matches!(start, Some(StreamEvent::ToolCallStart { id, name }) if id == "c1" && name == "bash"));
    let delta = d.handle_data(
        "{}",
        chunk_with(ChoiceChunk {
            content: None,
            tool_calls: Some(vec![ToolCallChunk { id: None, name: None, arguments: Some("{\"command\":".to_string()) }]),
            finish_reason: None,
        }),
    );
    assert!(matches!(delta, Some(StreamEvent::ToolCallDelta { id, arguments_delta }) if id == "c1" && arguments_delta == "{\"command\":"));
    assert_eq!(d.calls.len(), 1);
    assert_eq!(d.calls[0].arguments, "{\"command\":");

    let done = d.handle_data(
        "{}",
        Some(SseChunk {
            error: None,
            choice: Some(ChoiceChunk { content: None, tool_calls: None, finish_reason: Some("length".to_string()) }),
            usage: Some(UsageChunk { prompt_tokens: Some(5), completion_tokens: Some(7) }),
        }),
    );
    match done {
        Some(StreamEvent::Done { stop_reason, usage }) => {
            assert_eq!(stop_reason, StopReason::MaxTokens);
            assert_eq!(usage.input_tokens, 5);
            assert_eq!(usage.output_tokens, 7);
        }
        _ => panic!("expected the end of the stream"),
    }
}
