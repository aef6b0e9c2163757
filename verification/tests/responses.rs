use xrl_router::from_responses::{responses_chunk_to_ir, responses_req_to_ir, ResponsesParseState};
use xrl_router::ir::{
    IrContentBlock, IrContentBlockStart, IrContentDelta, IrImageSource, IrRole, IrStopReason,
    IrStreamEvent, IrSystemContent, IrToolChoice, IrToolResultContent,
};
use xrl_router::json::{parse_json, Json};

fn j(text: &str) -> Json {
    parse_json(text).expect("test JSON parses")
}

fn feed(state: &mut ResponsesParseState, chunks: &[&str]) -> Vec<IrStreamEvent> {
    let mut all = vec![];
    for c in chunks {
        all.extend(responses_chunk_to_ir(&j(c), state));
    }
    all
}

#[test]
fn test_basic_request_string_input() {
    let req = j(r#"{"model": "gpt-4o", "input": "Hello", "stream": true}"#);
    let ir = responses_req_to_ir(&req);
    assert_eq!(ir.model, "gpt-4o");
    assert!(ir.stream);
    assert_eq!(ir.messages.len(), 1);
    assert_eq!(ir.messages[0].role, IrRole::User);
    assert!(matches!(&ir.messages[0].content[0], IrContentBlock::Text { text, .. } if text == "Hello"));
}

#[test]
fn test_basic_request_array_input() {
    let req = j(r#"{
        "model": "gpt-4o",
        "input": [
            {
                "type": "message",
                "role": "system",
                "content": [{"type": "input_text", "text": "You are helpful."}]
            },
            {
                "type": "message",
                "role": "user",
                "content": [{"type": "input_text", "text": "Hello"}]
            }
        ],
        "max_output_tokens": 4096
    }"#);
    let ir = responses_req_to_ir(&req);
    assert!(matches!(ir.system, Some(IrSystemContent::Text(ref t)) if t == "You are helpful."));
    assert_eq!(ir.messages.len(), 1);
    assert_eq!(ir.max_tokens, Some(4096));
}

#[test]
fn test_top_level_instructions_field() {
    let req = j(r#"{
        "model": "gpt-4o",
        "instructions": "You are a helpful assistant.",
        "input": [
            {"type": "message", "role": "user", "content": [{"type": "input_text", "text": "Hello"}]}
        ],
        "stream": true
    }"#);
    let ir = responses_req_to_ir(&req);
    assert!(matches!(ir.system, Some(IrSystemContent::Text(ref t)) if t == "You are a helpful assistant."));
    assert_eq!(ir.messages.len(), 1);

    let req2 = j(r#"{
        "model": "gpt-4o",
        "instructions": "Top-level instructions.",
        "input": [
            {"type": "message", "role": "system", "content": [{"type": "input_text", "text": "In-input system."}]},
            {"type": "message", "role": "user", "content": [{"type": "input_text", "text": "Hello"}]}
        ],
        "stream": true
    }"#);
    let ir2 = responses_req_to_ir(&req2);
    let combined = match ir2.system {
        Some(IrSystemContent::Text(ref t)) => t.clone(),
        Some(IrSystemContent::Blocks(ref blocks)) => {
            blocks.iter().map(|b| b.text.clone()).collect::<Vec<_>>().join(" ")
        }
        None => String::new(),
    };
    assert!(combined.contains("Top-level instructions."));
    assert!(combined.contains("In-input system."));
    assert_eq!(ir2.messages.len(), 1);

    let req3 = j(r#"{"model": "gpt-4o", "instructions": "Be brief.", "input": "Hello", "stream": true}"#);
    let ir3 = responses_req_to_ir(&req3);
    assert!(matches!(ir3.system, Some(IrSystemContent::Text(ref t)) if t == "Be brief."));
    assert_eq!(ir3.messages.len(), 1);
}

#[test]
fn test_function_call_and_output() {
    let req = j(r#"{
        "model": "gpt-4o",
        "input": [
            {"type": "function_call", "call_id": "call_1", "name": "search", "arguments": "{\"q\":\"test\"}"},
            {"type": "function_call_output", "call_id": "call_1", "output": "result text"}
        ],
        "tools": [{
            "type": "function",
            "name": "search",
            "description": "Search the web",
            "parameters": {"type": "object", "properties": {"q": {"type": "string"}}}
        }],
        "tool_choice": "auto"
    }"#);
    let ir = responses_req_to_ir(&req);
    assert!(matches!(&ir.messages[0].content[0], IrContentBlock::ToolUse { id, name, .. } if id == "call_1" && name == "search"));
    assert!(matches!(&ir.messages[1].content[0], IrContentBlock::ToolResult { tool_use_id, .. } if tool_use_id == "call_1"));
    assert_eq!(ir.tools.len(), 1);
    assert_eq!(ir.tools[0].name, "search");
}

#[test]
fn test_server_side_web_search_tool() {
    let req = j(r#"{
        "model": "gpt-4o",
        "input": "What's the news?",
        "tools": [{"type": "web_search_preview", "search_context_size": "medium"}]
    }"#);
    let ir = responses_req_to_ir(&req);
    assert_eq!(ir.tools.len(), 1);
    assert_eq!(ir.tools[0].name, "web_search", "a built-in web_search_preview tool reads as web_search");
}

#[test]
fn test_reasoning_config() {
    let req = j(r#"{"model": "o1", "input": "Hello", "reasoning": {"effort": "high"}}"#);
    let ir = responses_req_to_ir(&req);
    let thinking = ir.thinking.unwrap();
    assert!(thinking.enabled);
    assert_eq!(thinking.budget_tokens, Some(16384));
}

#[test]
fn test_image_input() {
    let req = j(r#"{
        "model": "gpt-4o",
        "input": [{
            "type": "message",
            "role": "user",
            "content": [
                {"type": "input_text", "text": "What is this?"},
                {"type": "input_image", "image_url": "https://example.com/img.png"}
            ]
        }]
    }"#);
    let ir = responses_req_to_ir(&req);
    assert_eq!(ir.messages[0].content.len(), 2);
    assert!(matches!(&ir.messages[0].content[1], IrContentBlock::Image { source: IrImageSource::Url { url } } if url == "https://example.com/img.png"));
}

#[test]
fn test_chunk_response_created() {
    let mut state = ResponsesParseState::new();
    let chunk = j(r#"{"type": "response.created", "response": {"id": "resp_123", "model": "gpt-4o"}}"#);
    let events = responses_chunk_to_ir(&chunk, &mut state);
    assert_eq!(events.len(), 1);
    assert!(matches!(&events[0], IrStreamEvent::MessageStart { id, model, usage: Some(_) } if id == "resp_123" && model == "gpt-4o"));
}

#[test]
fn from_responses_test_chunk_text_delta() {
    let mut state = ResponsesParseState::new();
    state.msg_id = "resp_1".to_string();
    state.model = "gpt-4o".to_string();
    let chunk = j(r#"{"type": "response.output_text.delta", "delta": "Hello"}"#);
    let events = responses_chunk_to_ir(&chunk, &mut state);
    assert!(events.iter().any(|e| matches!(e, IrStreamEvent::ContentBlockStart { index: 0, block: IrContentBlockStart::Text })));
    assert!(events.iter().any(|e| matches!(e, IrStreamEvent::ContentBlockDelta { index: 0, delta: IrContentDelta::TextDelta(t) } if t == "Hello")));
}

#[test]
fn from_responses_test_chunk_reasoning_then_text() {
    let mut state = ResponsesParseState::new();
    state.msg_id = "resp_1".to_string();
    state.model = "o1".to_string();
    let chunk1 = j(r#"{"type": "response.reasoning.delta", "delta": "thinking..."}"#);
    let events1 = responses_chunk_to_ir(&chunk1, &mut state);
    assert!(events1.iter().any(|e| matches!(e, IrStreamEvent::ContentBlockStart { index: 0, block: IrContentBlockStart::Thinking { .. } })));
    assert!(events1.iter().any(|e| matches!(e, IrStreamEvent::ContentBlockDelta { index: 0, delta: IrContentDelta::ThinkingDelta(t) } if t == "thinking...")));

    let chunk2 = j(r#"{"type": "response.output_text.delta", "delta": "answer"}"#);
    let events2 = responses_chunk_to_ir(&chunk2, &mut state);
    assert!(events2.iter().any(|e| matches!(e, IrStreamEvent::ContentBlockStop { index: 0 })));
    assert!(events2.iter().any(|e| matches!(e, IrStreamEvent::ContentBlockStart { index: 1, block: IrContentBlockStart::Text })));
    assert!(events2.iter().any(|e| matches!(e, IrStreamEvent::ContentBlockDelta { index: 1, delta: IrContentDelta::TextDelta(t) } if t == "answer")));
}

#[test]
fn test_chunk_function_call() {
    let mut state = ResponsesParseState::new();
    state.msg_id = "resp_1".to_string();
    state.model = "gpt-4o".to_string();
    let chunk1 = j(r#"{
        "type": "response.output_item.added",
        "item": {"type": "function_call", "call_id": "call_1", "name": "search"}
    }"#);
    let events1 = responses_chunk_to_ir(&chunk1, &mut state);
    assert!(events1.iter().any(|e| matches!(e, IrStreamEvent::ContentBlockStart { index: 0, block: IrContentBlockStart::ToolUse { id, name } } if id == "call_1" && name == "search")));

    let chunk2 = j(r#"{"type": "response.function_call_arguments.delta", "delta": "{\"q\":"}"#);
    let events2 = responses_chunk_to_ir(&chunk2, &mut state);
    assert!(events2.iter().any(|e| matches!(e, IrStreamEvent::ContentBlockDelta { index: 0, delta: IrContentDelta::InputJsonDelta(p) } if p == "{\"q\":")));
}

#[test]
fn test_chunk_response_completed() {
    let mut state = ResponsesParseState::new();
    state.msg_id = "resp_1".to_string();
    state.model = "gpt-4o".to_string();
    state.text_open = Some((0, 0));
    let chunk = j(r#"{
        "type": "response.completed",
        "response": {
            "status": "completed",
            "usage": {
                "input_tokens": 100,
                "output_tokens": 50,
                "input_tokens_details": {"cached_tokens": 80}
            }
        }
    }"#);
    let events = responses_chunk_to_ir(&chunk, &mut state);
    assert!(events.iter().any(|e| matches!(e, IrStreamEvent::ContentBlockStop { index: 0 })));
    assert!(events.iter().any(|e| matches!(e, IrStreamEvent::MessageDelta { stop_reason: Some(IrStopReason::EndTurn), .. })));
    assert!(events.iter().any(|e| matches!(e, IrStreamEvent::MessageStop)));
    assert_eq!(state.usage.input_tokens, 20);
    assert_eq!(state.usage.output_tokens, 50);
    assert_eq!(state.usage.cache_read_input_tokens, 80);
}

#[test]
fn test_subagent_thinking_then_direct_tool() {
    let mut state = ResponsesParseState::new();
    state.msg_id = "resp_1".to_string();
    state.model = "o1".to_string();
    let all = feed(
        &mut state,
        &[
            r#"{"type": "response.output_item.added", "output_index": 0, "item": {"id": "r1", "type": "reasoning", "status": "in_progress", "content": [], "summary": []}}"#,
            r#"{"type": "response.reasoning.delta", "item_id": "r1", "output_index": 0, "delta": "Need to check weather"}"#,
            r#"{"type": "response.output_item.added", "output_index": 1, "item": {"id": "fc1", "type": "function_call", "call_id": "call_1", "name": "get_weather", "status": "in_progress"}}"#,
            r#"{"type": "response.function_call_arguments.delta", "item_id": "fc1", "output_index": 1, "delta": "{\"city\":\"Tokyo\"}"}"#,
            r#"{"type": "response.completed", "response": {"id": "resp_1", "status": "completed"}}"#,
        ],
    );
    let kinds: Vec<&str> = all
        .iter()
        .map(|e| match e {
            IrStreamEvent::ContentBlockStart { block: IrContentBlockStart::Thinking { .. }, .. } => "t_start",
            IrStreamEvent::ContentBlockStart { block: IrContentBlockStart::ToolUse { .. }, .. } => "tool_start",
            IrStreamEvent::ContentBlockStop { .. } => "stop",
            _ => "other",
        })
        .collect();
    let stops = kinds.iter().filter(|k| **k == "stop").count();
    assert_eq!(stops, 2, "thinking and tool are closed once each: {:?}", kinds);
    let tool_start_idx = all
        .iter()
        .find_map(|e| match e {
            IrStreamEvent::ContentBlockStart { index, block: IrContentBlockStart::ToolUse { .. } } => Some(*index),
            _ => None,
        })
        .unwrap();
    let args_idx = all
        .iter()
        .find_map(|e| match e {
            IrStreamEvent::ContentBlockDelta { index, delta: IrContentDelta::InputJsonDelta(_) } => Some(*index),
            _ => None,
        })
        .unwrap();
    assert_eq!(tool_start_idx, 1);
    assert_eq!(args_idx, tool_start_idx, "argument deltas go to the tool block");
}

#[test]
fn test_subagent_thinking_text_then_tool() {
    let mut state = ResponsesParseState::new();
    state.msg_id = "resp_1".to_string();
    state.model = "o1".to_string();
    let all = feed(
        &mut state,
        &[
            r#"{"type": "response.output_item.added", "output_index": 0, "item": {"id": "r1", "type": "reasoning", "status": "in_progress", "content": [], "summary": []}}"#,
            r#"{"type": "response.reasoning.delta", "item_id": "r1", "output_index": 0, "delta": "Reasoning"}"#,
            r#"{"type": "response.output_item.added", "output_index": 1, "item": {"id": "m1", "type": "message", "status": "in_progress", "role": "assistant", "content": []}}"#,
            r#"{"type": "response.output_text.delta", "item_id": "m1", "output_index": 1, "content_index": 0, "delta": "Let me check"}"#,
            r#"{"type": "response.output_item.added", "output_index": 2, "item": {"id": "fc1", "type": "function_call", "call_id": "call_1", "name": "Bash", "status": "in_progress"}}"#,
            r#"{"type": "response.function_call_arguments.delta", "item_id": "fc1", "output_index": 2, "delta": "{\"command\":\"ls\"}"}"#,
            r#"{"type": "response.completed", "response": {"id": "resp_1", "status": "completed"}}"#,
        ],
    );
    let stops: Vec<usize> = all
        .iter()
        .filter_map(|e| match e {
            IrStreamEvent::ContentBlockStop { index } => Some(*index),
            _ => None,
        })
        .collect();
    assert_eq!(stops, vec![0, 1, 2], "thinking, text and tool close once each: {:?}", stops);
    let args_idx = all
        .iter()
        .find_map(|e| match e {
            IrStreamEvent::ContentBlockDelta { index, delta: IrContentDelta::InputJsonDelta(_) } => Some(*index),
            _ => None,
        })
        .unwrap();
    assert_eq!(args_idx, 2);
}

#[test]
fn test_subagent_tool_then_followup_text() {
    let mut state = ResponsesParseState::new();
    state.msg_id = "resp_1".to_string();
    state.model = "gpt-4o".to_string();
    let all = feed(
        &mut state,
        &[
            r#"{"type": "response.output_item.added", "output_index": 0, "item": {"id": "m1", "type": "message", "status": "in_progress", "role": "assistant", "content": []}}"#,
            r#"{"type": "response.output_text.delta", "item_id": "m1", "output_index": 0, "content_index": 0, "delta": "Checking"}"#,
            r#"{"type": "response.output_item.added", "output_index": 1, "item": {"id": "fc1", "type": "function_call", "call_id": "call_1", "name": "Bash", "status": "in_progress"}}"#,
            r#"{"type": "response.function_call_arguments.delta", "item_id": "fc1", "output_index": 1, "delta": "{\"command\":\"ls\"}"}"#,
            r#"{"type": "response.output_item.added", "output_index": 2, "item": {"id": "m2", "type": "message", "status": "in_progress", "role": "assistant", "content": []}}"#,
            r#"{"type": "response.output_text.delta", "item_id": "m2", "output_index": 2, "content_index": 0, "delta": "Done"}"#,
            r#"{"type": "response.completed", "response": {"id": "resp_1", "status": "completed"}}"#,
        ],
    );
    let starts: Vec<usize> = all
        .iter()
        .filter_map(|e| match e {
            IrStreamEvent::ContentBlockStart { index, .. } => Some(*index),
            _ => None,
        })
        .collect();
    assert_eq!(starts, vec![0, 1, 2], "two texts and a tool each start once: {:?}", starts);
    let text0: String = all
        .iter()
        .filter_map(|e| match e {
            IrStreamEvent::ContentBlockDelta { index: 0, delta: IrContentDelta::TextDelta(t) } => Some(t.clone()),
            _ => None,
        })
        .collect();
    let text2: String = all
        .iter()
        .filter_map(|e| match e {
            IrStreamEvent::ContentBlockDelta { index: 2, delta: IrContentDelta::TextDelta(t) } => Some(t.clone()),
            _ => None,
        })
        .collect();
    assert_eq!(text0, "Checking");
    assert_eq!(text2, "Done");
    let mut stops: Vec<usize> = all
        .iter()
        .filter_map(|e| match e {
            IrStreamEvent::ContentBlockStop { index } => Some(*index),
            _ => None,
        })
        .collect();
    stops.sort_unstable();
    assert_eq!(stops, vec![0, 1, 2], "each block closes once: {:?}", stops);
}

#[test]
fn test_subagent_multi_turn_history() {
    let req = j(r#"{
        "model": "gpt-4o",
        "input": [
            {"type": "message", "role": "user", "content": [{"type": "input_text", "text": "Do task"}]},
            {"type": "function_call", "call_id": "call_1", "name": "Bash", "arguments": "{\"command\":\"ls\"}"},
            {"type": "function_call_output", "call_id": "call_1", "output": [{"type": "output_text", "text": "file.txt"}]},
            {"type": "message", "role": "user", "content": [{"type": "input_text", "text": "Now summarize"}]}
        ]
    }"#);
    let ir = responses_req_to_ir(&req);
    assert_eq!(ir.messages.len(), 4);
    assert_eq!(ir.messages[0].role, IrRole::User);
    assert!(matches!(&ir.messages[1].content[0], IrContentBlock::ToolUse { id, name, .. } if id == "call_1" && name == "Bash"));
    assert!(matches!(&ir.messages[2].content[0], IrContentBlock::ToolResult { tool_use_id, .. } if tool_use_id == "call_1"));
    assert_eq!(ir.messages[3].role, IrRole::User);
    let text = match &ir.messages[2].content[0] {
        IrContentBlock::ToolResult { content: IrToolResultContent::Text(t), .. } => t.clone(),
        _ => String::new(),
    };
    assert_eq!(text, "file.txt");
}

#[test]
fn test_subagent_interleaved_text_and_thinking() {
    let mut state = ResponsesParseState::new();
    state.msg_id = "resp_1".to_string();
    state.model = "o1".to_string();
    let all = feed(
        &mut state,
        &[
            r#"{"type": "response.output_item.added", "output_index": 0, "item": {"id": "r1", "type": "reasoning", "status": "in_progress", "content": [], "summary": []}}"#,
            r#"{"type": "response.reasoning.delta", "item_id": "r1", "output_index": 0, "delta": "think part 1"}"#,
            r#"{"type": "response.output_item.added", "output_index": 1, "item": {"id": "m1", "type": "message", "status": "in_progress", "role": "assistant", "content": []}}"#,
            r#"{"type": "response.output_text.delta", "item_id": "m1", "output_index": 1, "content_index": 0, "delta": "answer part 1"}"#,
            r#"{"type": "response.reasoning.delta", "item_id": "r1", "output_index": 0, "delta": "think part 2"}"#,
            r#"{"type": "response.output_text.delta", "item_id": "m1", "output_index": 1, "content_index": 0, "delta": " answer part 2"}"#,
            r#"{"type": "response.completed", "response": {"id": "resp_1", "status": "completed"}}"#,
        ],
    );
    let text: String = all
        .iter()
        .filter_map(|e| match e {
            IrStreamEvent::ContentBlockDelta { delta: IrContentDelta::TextDelta(t), .. } => Some(t.clone()),
            _ => None,
        })
        .collect();
    assert_eq!(text, "answer part 1 answer part 2");
    let thinking_starts = all
        .iter()
        .filter(|e| matches!(e, IrStreamEvent::ContentBlockStart { block: IrContentBlockStart::Thinking { .. }, .. }))
        .count();
    assert_eq!(thinking_starts, 1, "thinking opens once");
}

#[test]
fn responses_consecutive_function_calls_join_one_assistant_message() {
    let req = j(r#"{
        "model": "m",
        "instructions": ["ignored", {"text": "A"}, {"text": "B"}],
        "input": [
            {"type": "function_call", "call_id": "c1", "name": "f", "arguments": "not json"},
            {"type": "function_call", "id": "c2", "name": "g"},
            {"type": "function_call_output", "call_id": "c1", "output": 7, "is_error": true}
        ],
        "tool_choice": {"type": "function", "name": "f"},
        "reasoning": {},
        "max_output_tokens": "many",
        "max_tokens": 10
    }"#);
    let ir = responses_req_to_ir(&req);
    assert_eq!(ir.messages.len(), 2);
    assert_eq!(ir.messages[0].role, IrRole::Assistant);
    assert_eq!(ir.messages[0].content.len(), 2);
    assert!(matches!(&ir.messages[0].content[0], IrContentBlock::ToolUse { id, input: Json::Null, .. } if id == "c1"));
    assert!(matches!(&ir.messages[0].content[1], IrContentBlock::ToolUse { id, .. } if id == "c2"));
    assert!(matches!(&ir.messages[1].content[0], IrContentBlock::ToolResult { content: IrToolResultContent::Text(t), is_error: true, .. } if t.is_empty()));
    match ir.system {
        Some(IrSystemContent::Blocks(b)) => {
            assert_eq!(b.len(), 2);
            assert_eq!(b[0].text, "A");
            assert_eq!(b[1].text, "B");
        }
        _ => panic!("expected two system blocks"),
    }
    assert!(matches!(ir.tool_choice, Some(IrToolChoice::Tool { ref name }) if name == "f"));
    assert_eq!(ir.thinking.unwrap().budget_tokens, Some(4096));
    assert_eq!(ir.max_tokens, None);
}

#[test]
fn responses_instructions_without_input_are_joined() {
    let req = j(r#"{"model": "m", "instructions": [{"text": "one"}, {"text": "two"}]}"#);
    let ir = responses_req_to_ir(&req);
    assert!(ir.messages.is_empty());
    assert!(matches!(ir.system, Some(IrSystemContent::Text(ref t)) if t == "one two"));
    assert!(ir.tool_choice.is_none());
    assert!(ir.thinking.is_none());
}

#[test]
fn responses_data_url_image_and_unknown_tools() {
    let req = j(r#"{
        "model": "m",
        "input": [{"type": "message", "role": "assistant", "content": [
            {"type": "input_image", "image_url": "data:image/jpeg;base64,QUJD"},
            {"type": "input_image", "image_url": "data:nocomma"},
            {"type": "reasoning", "text": "hm"}
        ]}],
        "tools": [{"type": "file_search"}, {"type": "function"}, {"type": "function", "name": "x"}],
        "tool_choice": "required"
    }"#);
    let ir = responses_req_to_ir(&req);
    assert_eq!(ir.messages[0].role, IrRole::Assistant);
    assert_eq!(ir.messages[0].content.len(), 2);
    assert!(matches!(&ir.messages[0].content[0], IrContentBlock::Image { source: IrImageSource::Base64 { media_type, data } } if media_type == "image/jpeg" && data == "QUJD"));
    assert!(matches!(&ir.messages[0].content[1], IrContentBlock::Thinking { thinking, .. } if thinking == "hm"));
    assert_eq!(ir.tools.len(), 1);
    assert_eq!(ir.tools[0].name, "x");
    assert!(matches!(ir.tools[0].input_schema, Json::Object(_)));
    assert!(matches!(ir.tool_choice, Some(IrToolChoice::Any)));
}

#[test]
fn responses_completed_incomplete_status_and_tool_order() {
    let mut state = ResponsesParseState::new();
    let all = feed(
        &mut state,
        &[
            r#"{"type": "response.output_item.added", "output_index": 5, "item": {"type": "function_call", "call_id": "a", "name": "f"}}"#,
            r#"{"type": "response.output_item.added", "output_index": 3, "item": {"type": "function_call", "call_id": "b", "name": "g"}}"#,
            r#"{"type": "response.function_call_arguments.delta", "output_index": 9, "delta": "x"}"#,
            r#"{"type": "response.completed", "response": {"status": "incomplete", "usage": {"input_tokens": 5, "output_tokens": 0}}}"#,
        ],
    );
    assert!(matches!(&all[2], IrStreamEvent::ContentBlockDelta { index: 1, .. }));
    assert!(matches!(&all[3], IrStreamEvent::ContentBlockStop { index: 0 }));
    assert!(matches!(&all[4], IrStreamEvent::ContentBlockStop { index: 1 }));
    assert!(matches!(&all[5], IrStreamEvent::MessageDelta { stop_reason: Some(IrStopReason::MaxTokens), .. }));
    assert_eq!(state.usage.input_tokens, 5);
}

fn starts_and_stops(events: &[IrStreamEvent]) -> (Vec<usize>, Vec<usize>) {
    let mut starts = Vec::new();
    let mut stops = Vec::new();
    for ev in events {
        match ev {
            IrStreamEvent::ContentBlockStart { index, .. } => starts.push(*index),
            IrStreamEvent::ContentBlockStop { index } => stops.push(*index),
            _ => {},
        }
    }
    (starts, stops)
}

#[test]
fn responses_reasoning_after_text_gets_its_own_block() {
    let mut st = ResponsesParseState::new();
    let events = feed(
        &mut st,
        &[
            r#"{"type":"response.created","response":{"id":"r1","model":"m"}}"#,
            r#"{"type":"response.output_text.delta","output_index":0,"delta":"hi"}"#,
            r#"{"type":"response.output_item.added","output_index":1,"item":{"type":"reasoning"}}"#,
            r#"{"type":"response.reasoning.delta","output_index":1,"delta":"hmm"}"#,
            r#"{"type":"response.output_item.added","output_index":2,"item":{"type":"function_call","call_id":"c1","name":"f"}}"#,
            r#"{"type":"response.output_item.added","output_index":2,"item":{"type":"function_call","call_id":"c2","name":"g"}}"#,
            r#"{"type":"response.function_call_arguments.delta","output_index":2,"delta":"{}"}"#,
            r#"{"type":"response.completed","response":{"status":"completed"}}"#,
        ],
    );
    let (starts, mut stops) = starts_and_stops(&events);
    assert_eq!(starts, vec![0, 1, 2, 3]);
    assert!(events.iter().any(|e| matches!(e, IrStreamEvent::ContentBlockDelta { index: 1, delta: IrContentDelta::ThinkingDelta(t) } if t == "hmm")));
    assert!(events.iter().any(|e| matches!(e, IrStreamEvent::ContentBlockDelta { index: 3, delta: IrContentDelta::InputJsonDelta(_) })));
    stops.sort();
    assert_eq!(stops, vec![0, 1, 2, 3]);
}
