use xrl_router::from_chat_completions::{
    chat_completions_chunk_to_ir, chat_completions_req_to_ir, ChatCompletionsParseState,
};
use xrl_router::ir::{
    IrContentBlock, IrContentBlockStart, IrContentDelta, IrImageSource, IrRole, IrStopReason,
    IrStreamEvent, IrSystemContent, IrToolChoice,
};
use xrl_router::json::{parse_json, Json};

fn j(text: &str) -> Json {
    parse_json(text).expect("test JSON parses")
}

#[test]
fn from_chat_completions_test_basic_request() {
    let req = j(r#"{
        "model": "gpt-4o",
        "messages": [
            {"role": "system", "content": "You are helpful."},
            {"role": "user", "content": "Hello"}
        ],
        "max_tokens": 4096,
        "stream": true
    }"#);
    let ir = chat_completions_req_to_ir(&req);
    assert_eq!(ir.model, "gpt-4o");
    assert_eq!(ir.max_tokens, Some(4096));
    assert!(ir.stream);
    assert!(matches!(ir.system, Some(IrSystemContent::Text(ref t)) if t == "You are helpful."));
    assert_eq!(ir.messages.len(), 1);
    assert_eq!(ir.messages[0].role, IrRole::User);
}

#[test]
fn test_multiple_system_messages() {
    let req = j(r#"{
        "model": "gpt-4o",
        "messages": [
            {"role": "system", "content": "Part 1"},
            {"role": "system", "content": "Part 2"},
            {"role": "user", "content": "Hello"}
        ]
    }"#);
    let ir = chat_completions_req_to_ir(&req);
    match ir.system.unwrap() {
        IrSystemContent::Blocks(blocks) => {
            assert_eq!(blocks.len(), 2);
            assert_eq!(blocks[0].text, "Part 1");
            assert_eq!(blocks[1].text, "Part 2");
        }
        _ => panic!("expected Blocks"),
    }
}

#[test]
fn test_content_parts_with_image() {
    let req = j(r#"{
        "model": "gpt-4o",
        "messages": [{
            "role": "user",
            "content": [
                {"type": "text", "text": "What is this?"},
                {"type": "image_url", "image_url": {"url": "https://example.com/img.png"}},
                {"type": "image_url", "image_url": {"url": "data:image/png;base64,abc123"}}
            ]
        }]
    }"#);
    let ir = chat_completions_req_to_ir(&req);
    assert_eq!(ir.messages[0].content.len(), 3);
    assert!(matches!(&ir.messages[0].content[0], IrContentBlock::Text { text, .. } if text == "What is this?"));
    assert!(matches!(&ir.messages[0].content[1], IrContentBlock::Image { source: IrImageSource::Url { url } } if url == "https://example.com/img.png"));
    assert!(matches!(&ir.messages[0].content[2], IrContentBlock::Image { source: IrImageSource::Base64 { media_type, data } } if media_type == "image/png" && data == "abc123"));
}

#[test]
fn test_tool_calls_and_results() {
    let req = j(r#"{
        "model": "gpt-4o",
        "messages": [
            {
                "role": "assistant",
                "content": null,
                "tool_calls": [{
                    "id": "call_1",
                    "type": "function",
                    "function": {"name": "search", "arguments": "{\"q\":\"test\"}"}
                }]
            },
            {"role": "tool", "tool_call_id": "call_1", "content": "result text"}
        ],
        "tools": [{
            "type": "function",
            "function": {
                "name": "search",
                "description": "Search the web",
                "parameters": {"type": "object", "properties": {"q": {"type": "string"}}}
            }
        }],
        "tool_choice": "auto"
    }"#);
    let ir = chat_completions_req_to_ir(&req);
    assert!(matches!(&ir.messages[0].content[0], IrContentBlock::ToolUse { id, name, .. } if id == "call_1" && name == "search"));
    assert!(matches!(&ir.messages[1].content[0], IrContentBlock::ToolResult { tool_use_id, .. } if tool_use_id == "call_1"));
    assert_eq!(ir.tools.len(), 1);
    assert_eq!(ir.tools[0].name, "search");
    assert!(matches!(ir.tool_choice, Some(IrToolChoice::Auto)));
}

#[test]
fn from_chat_completions_test_tool_choice_variants() {
    let req = j(r#"{"model": "x", "messages": [], "tool_choice": "required"}"#);
    let ir = chat_completions_req_to_ir(&req);
    assert!(matches!(ir.tool_choice, Some(IrToolChoice::Any)));

    let req = j(r#"{"model": "x", "messages": [], "tool_choice": "none"}"#);
    let ir = chat_completions_req_to_ir(&req);
    assert!(matches!(ir.tool_choice, Some(IrToolChoice::NoTools)));

    let req = j(r#"{
        "model": "x",
        "messages": [],
        "tool_choice": {"type": "function", "function": {"name": "search"}}
    }"#);
    let ir = chat_completions_req_to_ir(&req);
    assert!(matches!(ir.tool_choice, Some(IrToolChoice::Tool { ref name }) if name == "search"));
}

#[test]
fn test_reasoning_content() {
    let req = j(r#"{
        "model": "qwen-max",
        "messages": [{"role": "assistant", "reasoning_content": "let me think", "content": "answer"}]
    }"#);
    let ir = chat_completions_req_to_ir(&req);
    assert_eq!(ir.messages[0].content.len(), 2);
    assert!(matches!(&ir.messages[0].content[0], IrContentBlock::Thinking { thinking, .. } if thinking == "let me think"));
    assert!(matches!(&ir.messages[0].content[1], IrContentBlock::Text { text, .. } if text == "answer"));
}

#[test]
fn test_reasoning_effort() {
    let req = j(r#"{"model": "o1", "messages": [], "reasoning_effort": "high"}"#);
    let ir = chat_completions_req_to_ir(&req);
    let thinking = ir.thinking.unwrap();
    assert!(thinking.enabled);
    assert_eq!(thinking.budget_tokens, Some(16384));
}

#[test]
fn test_max_completion_tokens() {
    let req = j(r#"{"model": "o1", "messages": [], "max_completion_tokens": 8192}"#);
    let ir = chat_completions_req_to_ir(&req);
    assert_eq!(ir.max_tokens, Some(8192));
}

#[test]
fn from_chat_completions_test_chunk_message_start() {
    let mut state = ChatCompletionsParseState::new();
    let chunk = j(r#"{"id": "chatcmpl-123", "model": "gpt-4o", "choices": []}"#);
    let events = chat_completions_chunk_to_ir(&chunk, &mut state);
    assert_eq!(events.len(), 1);
    assert!(matches!(&events[0], IrStreamEvent::MessageStart { id, model, .. } if id == "chatcmpl-123" && model == "gpt-4o"));
}

#[test]
fn from_chat_completions_test_chunk_text_delta() {
    let mut state = ChatCompletionsParseState::new();
    state.msg_id = "chatcmpl-1".to_string();
    state.model = "gpt-4o".to_string();
    let chunk = j(r#"{
        "id": "chatcmpl-1",
        "model": "gpt-4o",
        "choices": [{"index": 0, "delta": {"content": "Hello"}, "finish_reason": null}]
    }"#);
    let events = chat_completions_chunk_to_ir(&chunk, &mut state);
    assert!(events.iter().any(|e| matches!(e, IrStreamEvent::ContentBlockStart { index: 0, block: IrContentBlockStart::Text })));
    assert!(events.iter().any(|e| matches!(e, IrStreamEvent::ContentBlockDelta { index: 0, delta: IrContentDelta::TextDelta(t) } if t == "Hello")));
}

#[test]
fn from_chat_completions_test_chunk_reasoning_then_text() {
    let mut state = ChatCompletionsParseState::new();
    state.msg_id = "chatcmpl-1".to_string();
    state.model = "qwen-max".to_string();
    let chunk1 = j(r#"{
        "id": "chatcmpl-1",
        "model": "qwen-max",
        "choices": [{"index": 0, "delta": {"reasoning_content": "thinking..."}, "finish_reason": null}]
    }"#);
    let events1 = chat_completions_chunk_to_ir(&chunk1, &mut state);
    assert!(events1.iter().any(|e| matches!(e, IrStreamEvent::ContentBlockStart { index: 0, block: IrContentBlockStart::Thinking { .. } })));
    assert!(events1.iter().any(|e| matches!(e, IrStreamEvent::ContentBlockDelta { index: 0, delta: IrContentDelta::ThinkingDelta(t) } if t == "thinking...")));

    let chunk2 = j(r#"{
        "id": "chatcmpl-1",
        "model": "qwen-max",
        "choices": [{"index": 0, "delta": {"content": "answer"}, "finish_reason": null}]
    }"#);
    let events2 = chat_completions_chunk_to_ir(&chunk2, &mut state);
    assert!(events2.iter().any(|e| matches!(e, IrStreamEvent::ContentBlockStop { index: 0 })));
    assert!(events2.iter().any(|e| matches!(e, IrStreamEvent::ContentBlockStart { index: 1, block: IrContentBlockStart::Text })));
    assert!(events2.iter().any(|e| matches!(e, IrStreamEvent::ContentBlockDelta { index: 1, delta: IrContentDelta::TextDelta(t) } if t == "answer")));
}

#[test]
fn test_chunk_tool_calls() {
    let mut state = ChatCompletionsParseState::new();
    state.msg_id = "chatcmpl-1".to_string();
    state.model = "gpt-4o".to_string();
    let chunk1 = j(r#"{
        "id": "chatcmpl-1",
        "model": "gpt-4o",
        "choices": [{
            "index": 0,
            "delta": {"tool_calls": [{
                "index": 0, "id": "call_1", "type": "function",
                "function": {"name": "search", "arguments": ""}
            }]},
            "finish_reason": null
        }]
    }"#);
    let events1 = chat_completions_chunk_to_ir(&chunk1, &mut state);
    assert!(events1.iter().any(|e| matches!(e, IrStreamEvent::ContentBlockStart { index: 0, block: IrContentBlockStart::ToolUse { id, name } } if id == "call_1" && name == "search")));

    let chunk2 = j(r#"{
        "id": "chatcmpl-1",
        "model": "gpt-4o",
        "choices": [{
            "index": 0,
            "delta": {"tool_calls": [{"index": 0, "function": {"arguments": "{\"q\":"}}]},
            "finish_reason": null
        }]
    }"#);
    let events2 = chat_completions_chunk_to_ir(&chunk2, &mut state);
    assert!(events2.iter().any(|e| matches!(e, IrStreamEvent::ContentBlockDelta { index: 0, delta: IrContentDelta::InputJsonDelta(p) } if p == "{\"q\":")));
}

#[test]
fn test_chunk_finish_reason() {
    let mut state = ChatCompletionsParseState::new();
    state.msg_id = "chatcmpl-1".to_string();
    state.model = "gpt-4o".to_string();
    state.text_started = true;
    state.text_index = 0;
    let chunk = j(r#"{
        "id": "chatcmpl-1",
        "model": "gpt-4o",
        "choices": [{"index": 0, "delta": {}, "finish_reason": "stop"}],
        "usage": {"prompt_tokens": 100, "completion_tokens": 50}
    }"#);
    let events = chat_completions_chunk_to_ir(&chunk, &mut state);
    assert!(events.iter().any(|e| matches!(e, IrStreamEvent::ContentBlockStop { index: 0 })));
    assert!(events.iter().any(|e| matches!(e, IrStreamEvent::MessageDelta { stop_reason: Some(IrStopReason::EndTurn), .. })));
    assert!(events.iter().any(|e| matches!(e, IrStreamEvent::MessageStop)));
    assert_eq!(state.usage.input_tokens, 100);
    assert_eq!(state.usage.output_tokens, 50);
}

#[test]
fn chat_chunk_empty_chunk_after_start_announces_again() {
    // A chunk that yields nothing else announces the message whenever id and
    // model are known.
    let mut state = ChatCompletionsParseState::new();
    let first = j(r#"{"id": "c1", "model": "m", "choices": []}"#);
    assert_eq!(chat_completions_chunk_to_ir(&first, &mut state).len(), 1);
    let again = j(r#"{"id": "c1", "model": "m", "choices": [{"index": 0}]}"#);
    let events = chat_completions_chunk_to_ir(&again, &mut state);
    assert_eq!(events.len(), 1);
    // without choices nothing is announced
    let none = j(r#"{"id": "c1", "model": "m"}"#);
    assert!(chat_completions_chunk_to_ir(&none, &mut state).is_empty());
}

#[test]
fn chat_chunk_tools_after_text_close_text_and_count() {
    let mut state = ChatCompletionsParseState::new();
    let c1 = j(r#"{"id": "c", "model": "m", "choices": [{"delta": {"content": "hi"}}]}"#);
    chat_completions_chunk_to_ir(&c1, &mut state);
    let c2 = j(r#"{"choices": [{"delta": {"tool_calls": [{"index": 1, "id": "t", "function": {"name": "f"}}]}}]}"#);
    let ev = chat_completions_chunk_to_ir(&c2, &mut state);
    assert!(matches!(&ev[0], IrStreamEvent::ContentBlockStop { index: 0 }));
    assert!(matches!(&ev[1], IrStreamEvent::ContentBlockStart { index: 2, .. }));
    assert_eq!(state.tool_count, 2);
    let c3 = j(r#"{"choices": [{"delta": {}, "finish_reason": "tool_calls"}]}"#);
    let ev = chat_completions_chunk_to_ir(&c3, &mut state);
    // two tool slots are closed at indexes 1 and 2
    assert!(matches!(&ev[0], IrStreamEvent::ContentBlockStop { index: 1 }));
    assert!(matches!(&ev[1], IrStreamEvent::ContentBlockStop { index: 2 }));
    assert!(matches!(&ev[2], IrStreamEvent::MessageDelta { stop_reason: Some(IrStopReason::ToolUse), .. }));
    assert!(matches!(&ev[3], IrStreamEvent::MessageStop));
}

#[test]
fn chat_request_data_url_without_comma_is_dropped() {
    let req = j(r#"{"model": "m", "messages": [{"role": "user", "content": [
        {"type": "image_url", "image_url": {"url": "data:image/png"}},
        {"type": "text", "text": "x"}
    ]}]}"#);
    let ir = chat_completions_req_to_ir(&req);
    assert_eq!(ir.messages[0].content.len(), 1);
}

#[test]
fn chat_request_bad_arguments_give_null_input() {
    let req = j(r#"{"model": "m", "messages": [{"role": "assistant", "tool_calls": [
        {"id": "c", "function": {"name": "f", "arguments": "not json"}}
    ]}]}"#);
    let ir = chat_completions_req_to_ir(&req);
    assert!(matches!(&ir.messages[0].content[0], IrContentBlock::ToolUse { input: Json::Null, .. }));
}
