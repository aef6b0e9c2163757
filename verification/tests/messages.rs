use xrl_router::from_messages::{messages_chunk_to_ir, messages_req_to_ir, MessagesParseState};
use xrl_router::from_anthropic::{anthropic_chunk_to_ir, anthropic_req_to_ir, AnthropicParseState};
use xrl_router::ir::{
IrContentBlock, IrContentBlockStart, IrContentDelta, IrImageSource, IrRole, IrStopReason,
IrStreamEvent, IrSystemContent, IrToolChoice,
};
use xrl_router::json::{parse_json, Json};

fn j(text: &str) -> Json {
parse_json(text).expect("test JSON parses")
}

#[test]
fn from_messages_test_basic_request() {
    let req = j(r#"{
        "model": "opus-4-8",
        "messages": [{"role": "user", "content": "Hello"}],
        "max_tokens": 4096,
        "system": "You are helpful.",
        "stream": true
    }"#);
    let ir = messages_req_to_ir(&req);
    assert_eq!(ir.model, "opus-4-8");
    assert_eq!(ir.max_tokens, Some(4096));
    assert!(ir.stream);
    assert!(matches!(ir.system, Some(IrSystemContent::Text(ref t)) if t == "You are helpful."));
    assert_eq!(ir.messages.len(), 1);
    assert_eq!(ir.messages[0].role, IrRole::User);
}

#[test]
fn from_messages_test_system_blocks() {
    let req = j(r#"{
        "model": "opus",
        "messages": [],
        "system": [
            {"type": "text", "text": "Part 1", "cache_control": {"type": "ephemeral"}},
            {"type": "text", "text": "Part 2"}
        ]
    }"#);
    let ir = messages_req_to_ir(&req);
    match ir.system.unwrap() {
        IrSystemContent::Blocks(blocks) => {
            assert_eq!(blocks.len(), 2);
            assert_eq!(blocks[0].text, "Part 1");
            assert!(blocks[0].cache_control.is_some());
            assert_eq!(blocks[1].text, "Part 2");
            assert!(blocks[1].cache_control.is_none());
        }
        _ => panic!("expected Blocks"),
    }
}

#[test]
fn from_messages_test_content_blocks_with_image() {
    let req = j(r#"{
        "model": "opus",
        "messages": [{
            "role": "user",
            "content": [
                {"type": "text", "text": "What is this?"},
                {"type": "image", "source": {"type": "base64", "media_type": "image/png", "data": "abc"}},
                {"type": "image", "source": {"type": "url", "url": "https://example.com/img.png"}}
            ]
        }]
    }"#);
    let ir = messages_req_to_ir(&req);
    assert_eq!(ir.messages[0].content.len(), 3);
    assert!(matches!(&ir.messages[0].content[0], IrContentBlock::Text { text, .. } if text == "What is this?"));
    assert!(matches!(&ir.messages[0].content[1], IrContentBlock::Image { source: IrImageSource::Base64 { media_type, .. } } if media_type == "image/png"));
    assert!(matches!(&ir.messages[0].content[2], IrContentBlock::Image { source: IrImageSource::Url { url } } if url == "https://example.com/img.png"));
}

#[test]
fn from_messages_test_tool_use_and_result() {
    let req = j(r#"{
        "model": "opus",
        "messages": [
            {"role": "assistant", "content": [
                {"type": "tool_use", "id": "call_1", "name": "search", "input": {"q": "test"}}
            ]},
            {"role": "user", "content": [
                {"type": "tool_result", "tool_use_id": "call_1", "content": "result text"}
            ]}
        ],
        "tools": [{
            "name": "search",
            "description": "Search the web",
            "input_schema": {"type": "object", "properties": {"q": {"type": "string"}}}
        }],
        "tool_choice": {"type": "auto"}
    }"#);
    let ir = messages_req_to_ir(&req);
    // Tool use in assistant message
    assert!(matches!(&ir.messages[0].content[0], IrContentBlock::ToolUse { id, name, .. } if id == "call_1" && name == "search"));
    // Tool result in user message
    assert!(matches!(&ir.messages[1].content[0], IrContentBlock::ToolResult { tool_use_id, .. } if tool_use_id == "call_1"));
    // Tool definition
    assert_eq!(ir.tools.len(), 1);
    assert_eq!(ir.tools[0].name, "search");
    // Tool choice
    assert!(matches!(ir.tool_choice, Some(IrToolChoice::Auto)));
}

#[test]
fn from_messages_test_tool_choice_variants() {
    // "any" string
    let req = j(r#"{"model": "x", "messages": [], "tool_choice": "any"}"#);
    let ir = messages_req_to_ir(&req);
    assert!(matches!(ir.tool_choice, Some(IrToolChoice::Any)));

    // "none" string
    let req = j(r#"{"model": "x", "messages": [], "tool_choice": "none"}"#);
    let ir = messages_req_to_ir(&req);
    assert!(matches!(ir.tool_choice, Some(IrToolChoice::NoTools)));

    // Specific tool
    let req = j(r#"{"model": "x", "messages": [], "tool_choice": {"type": "tool", "name": "search"}}"#);
    let ir = messages_req_to_ir(&req);
    assert!(matches!(ir.tool_choice, Some(IrToolChoice::Tool { ref name }) if name == "search"));
}

#[test]
fn from_messages_test_thinking_config() {
    let req = j(r#"{
        "model": "opus",
        "messages": [],
        "thinking": {"type": "enabled", "budget_tokens": 5000}
    }"#);
    let ir = messages_req_to_ir(&req);
    let thinking = ir.thinking.unwrap();
    assert!(thinking.enabled);
    assert_eq!(thinking.budget_tokens, Some(5000));
}

#[test]
fn from_messages_test_thinking_block_in_message() {
    let req = j(r#"{
        "model": "opus",
        "messages": [{
            "role": "assistant",
            "content": [
                {"type": "thinking", "thinking": "let me think", "signature": "sig_abc"},
                {"type": "text", "text": "answer"}
            ]
        }]
    }"#);
    let ir = messages_req_to_ir(&req);
    assert_eq!(ir.messages[0].content.len(), 2);
    assert!(matches!(&ir.messages[0].content[0], IrContentBlock::Thinking { thinking, signature } if thinking == "let me think" && signature.as_deref() == Some("sig_abc")));
}

// ── 流式 chunk 测试 ──

#[test]
fn from_messages_test_chunk_message_start() {
    let mut state = MessagesParseState::new();
    let chunk = j(r#"{
        "type": "message_start",
        "message": {
            "id": "msg_123",
            "model": "opus-4-8",
            "role": "assistant",
            "content": [],
            "usage": {
                "input_tokens": 100,
                "cache_creation_input_tokens": 50,
                "cache_read_input_tokens": 8000,
                "output_tokens": 0
            }
        }
    }"#);
    let events = messages_chunk_to_ir(&chunk, &mut state);
    assert_eq!(events.len(), 1);
    assert!(matches!(&events[0], IrStreamEvent::MessageStart { id, model, usage: Some(u) } if id == "msg_123" && model == "opus-4-8" && u.input_tokens == 100));
    // IR 口径：input_tokens 为纯 miss（100），cache_creation 独立存放（50）
    assert_eq!(state.usage.input_tokens, 100);
    assert_eq!(state.usage.cache_read_input_tokens, 8000);
    assert_eq!(state.usage.cache_creation_input_tokens, 50);
}

#[test]
fn from_messages_test_chunk_content_block_sequence() {
    let mut state = MessagesParseState::new();

    // content_block_start (text)
    let start = j(r#"{"type": "content_block_start", "index": 0, "content_block": {"type": "text", "text": ""}}"#);
    let events = messages_chunk_to_ir(&start, &mut state);
    assert!(matches!(&events[0], IrStreamEvent::ContentBlockStart { index: 0, block: IrContentBlockStart::Text }));

    // content_block_delta (text)
    let delta = j(r#"{"type": "content_block_delta", "index": 0, "delta": {"type": "text_delta", "text": "Hello"}}"#);
    let events = messages_chunk_to_ir(&delta, &mut state);
    assert!(matches!(&events[0], IrStreamEvent::ContentBlockDelta { index: 0, delta: IrContentDelta::TextDelta(t) } if t == "Hello"));
    assert_eq!(state.usage.output_chars, 5);

    // content_block_stop
    let stop = j(r#"{"type": "content_block_stop", "index": 0}"#);
    let events = messages_chunk_to_ir(&stop, &mut state);
    assert!(matches!(&events[0], IrStreamEvent::ContentBlockStop { index: 0 }));
}

#[test]
fn from_messages_test_chunk_tool_use_sequence() {
    let mut state = MessagesParseState::new();

    let start = j(r#"{"type": "content_block_start", "index": 1, "content_block": {"type": "tool_use", "id": "call_1", "name": "search", "input": {}}}"#);
    let events = messages_chunk_to_ir(&start, &mut state);
    assert!(matches!(&events[0], IrStreamEvent::ContentBlockStart { index: 1, block: IrContentBlockStart::ToolUse { id, name } } if id == "call_1" && name == "search"));

    let delta = j(r#"{"type": "content_block_delta", "index": 1, "delta": {"type": "input_json_delta", "partial_json": "{\"q\":"}}"#);
    let events = messages_chunk_to_ir(&delta, &mut state);
    assert!(matches!(&events[0], IrStreamEvent::ContentBlockDelta { index: 1, delta: IrContentDelta::InputJsonDelta(p) } if p == "{\"q\":"));
}

#[test]
fn from_messages_test_chunk_message_delta_with_usage() {
    let mut state = MessagesParseState::new();
    state.usage.input_tokens = 150;

    let chunk = j(r#"{
        "type": "message_delta",
        "delta": {"stop_reason": "end_turn"},
        "usage": {"output_tokens": 300, "cache_read_input_tokens": 8000}
    }"#);
    let events = messages_chunk_to_ir(&chunk, &mut state);
    assert_eq!(events.len(), 1);
    match &events[0] {
        IrStreamEvent::MessageDelta { stop_reason, usage } => {
            assert_eq!(*stop_reason, Some(IrStopReason::EndTurn));
            let u = usage.as_ref().unwrap();
            assert_eq!(u.output_tokens, 300);
            assert_eq!(u.cache_read_input_tokens, 8000);
        }
        _ => panic!("expected MessageDelta"),
    }
}

#[test]
fn from_messages_test_chunk_thinking_delta_counts_chars() {
    let mut state = MessagesParseState::new();
    let chunk = j(r#"{
        "type": "content_block_delta",
        "index": 0,
        "delta": {"type": "thinking_delta", "thinking": "思考中..."}
    }"#);
    messages_chunk_to_ir(&chunk, &mut state);
    assert_eq!(state.usage.output_chars, 6); // "思考中..." = 3 汉字 + 3 点 = 6 chars
}

#[test]
fn from_anthropic_test_basic_request() {
    let req = j(r#"{
        "model": "opus-4-8",
        "messages": [{"role": "user", "content": "Hello"}],
        "max_tokens": 4096,
        "system": "You are helpful.",
        "stream": true
    }"#);
    let ir = anthropic_req_to_ir(&req);
    assert_eq!(ir.model, "opus-4-8");
    assert_eq!(ir.max_tokens, Some(4096));
    assert!(ir.stream);
    assert!(matches!(ir.system, Some(IrSystemContent::Text(ref t)) if t == "You are helpful."));
    assert_eq!(ir.messages.len(), 1);
    assert_eq!(ir.messages[0].role, IrRole::User);
}

#[test]
fn from_anthropic_test_system_blocks() {
    let req = j(r#"{
        "model": "opus",
        "messages": [],
        "system": [
            {"type": "text", "text": "Part 1", "cache_control": {"type": "ephemeral"}},
            {"type": "text", "text": "Part 2"}
        ]
    }"#);
    let ir = anthropic_req_to_ir(&req);
    match ir.system.unwrap() {
        IrSystemContent::Blocks(blocks) => {
            assert_eq!(blocks.len(), 2);
            assert_eq!(blocks[0].text, "Part 1");
            assert!(blocks[0].cache_control.is_some());
            assert_eq!(blocks[1].text, "Part 2");
            assert!(blocks[1].cache_control.is_none());
        }
        _ => panic!("expected Blocks"),
    }
}

#[test]
fn from_anthropic_test_content_blocks_with_image() {
    let req = j(r#"{
        "model": "opus",
        "messages": [{
            "role": "user",
            "content": [
                {"type": "text", "text": "What is this?"},
                {"type": "image", "source": {"type": "base64", "media_type": "image/png", "data": "abc"}},
                {"type": "image", "source": {"type": "url", "url": "https://example.com/img.png"}}
            ]
        }]
    }"#);
    let ir = anthropic_req_to_ir(&req);
    assert_eq!(ir.messages[0].content.len(), 3);
    assert!(matches!(&ir.messages[0].content[0], IrContentBlock::Text { text, .. } if text == "What is this?"));
    assert!(matches!(&ir.messages[0].content[1], IrContentBlock::Image { source: IrImageSource::Base64 { media_type, .. } } if media_type == "image/png"));
    assert!(matches!(&ir.messages[0].content[2], IrContentBlock::Image { source: IrImageSource::Url { url } } if url == "https://example.com/img.png"));
}

#[test]
fn from_anthropic_test_tool_use_and_result() {
    let req = j(r#"{
        "model": "opus",
        "messages": [
            {"role": "assistant", "content": [
                {"type": "tool_use", "id": "call_1", "name": "search", "input": {"q": "test"}}
            ]},
            {"role": "user", "content": [
                {"type": "tool_result", "tool_use_id": "call_1", "content": "result text"}
            ]}
        ],
        "tools": [{
            "name": "search",
            "description": "Search the web",
            "input_schema": {"type": "object", "properties": {"q": {"type": "string"}}}
        }],
        "tool_choice": {"type": "auto"}
    }"#);
    let ir = anthropic_req_to_ir(&req);
    // Tool use in assistant message
    assert!(matches!(&ir.messages[0].content[0], IrContentBlock::ToolUse { id, name, .. } if id == "call_1" && name == "search"));
    // Tool result in user message
    assert!(matches!(&ir.messages[1].content[0], IrContentBlock::ToolResult { tool_use_id, .. } if tool_use_id == "call_1"));
    // Tool definition
    assert_eq!(ir.tools.len(), 1);
    assert_eq!(ir.tools[0].name, "search");
    // Tool choice
    assert!(matches!(ir.tool_choice, Some(IrToolChoice::Auto)));
}

#[test]
fn from_anthropic_test_tool_choice_variants() {
    // "any" string
    let req = j(r#"{"model": "x", "messages": [], "tool_choice": "any"}"#);
    let ir = anthropic_req_to_ir(&req);
    assert!(matches!(ir.tool_choice, Some(IrToolChoice::Any)));

    // "none" string
    let req = j(r#"{"model": "x", "messages": [], "tool_choice": "none"}"#);
    let ir = anthropic_req_to_ir(&req);
    assert!(matches!(ir.tool_choice, Some(IrToolChoice::NoTools)));

    // Specific tool
    let req = j(r#"{"model": "x", "messages": [], "tool_choice": {"type": "tool", "name": "search"}}"#);
    let ir = anthropic_req_to_ir(&req);
    assert!(matches!(ir.tool_choice, Some(IrToolChoice::Tool { ref name }) if name == "search"));
}

#[test]
fn from_anthropic_test_thinking_config() {
    let req = j(r#"{
        "model": "opus",
        "messages": [],
        "thinking": {"type": "enabled", "budget_tokens": 5000}
    }"#);
    let ir = anthropic_req_to_ir(&req);
    let thinking = ir.thinking.unwrap();
    assert!(thinking.enabled);
    assert_eq!(thinking.budget_tokens, Some(5000));
}

#[test]
fn from_anthropic_test_thinking_block_in_message() {
    let req = j(r#"{
        "model": "opus",
        "messages": [{
            "role": "assistant",
            "content": [
                {"type": "thinking", "thinking": "let me think", "signature": "sig_abc"},
                {"type": "text", "text": "answer"}
            ]
        }]
    }"#);
    let ir = anthropic_req_to_ir(&req);
    assert_eq!(ir.messages[0].content.len(), 2);
    assert!(matches!(&ir.messages[0].content[0], IrContentBlock::Thinking { thinking, signature } if thinking == "let me think" && signature.as_deref() == Some("sig_abc")));
}

// ── 流式 chunk 测试 ──

#[test]
fn from_anthropic_test_chunk_message_start() {
    let mut state = AnthropicParseState::new();
    let chunk = j(r#"{
        "type": "message_start",
        "message": {
            "id": "msg_123",
            "model": "opus-4-8",
            "role": "assistant",
            "content": [],
            "usage": {
                "input_tokens": 100,
                "cache_creation_input_tokens": 50,
                "cache_read_input_tokens": 8000,
                "output_tokens": 0
            }
        }
    }"#);
    let events = anthropic_chunk_to_ir(&chunk, &mut state);
    assert_eq!(events.len(), 1);
    assert!(matches!(&events[0], IrStreamEvent::MessageStart { id, model, .. } if id == "msg_123" && model == "opus-4-8"));
    // input_tokens = 100 + 50 (cache_creation)
    assert_eq!(state.usage.input_tokens, 150);
    assert_eq!(state.usage.cache_read_input_tokens, 8000);
    assert_eq!(state.usage.cache_creation_input_tokens, 50);
}

#[test]
fn from_anthropic_test_chunk_content_block_sequence() {
    let mut state = AnthropicParseState::new();

    // content_block_start (text)
    let start = j(r#"{"type": "content_block_start", "index": 0, "content_block": {"type": "text", "text": ""}}"#);
    let events = anthropic_chunk_to_ir(&start, &mut state);
    assert!(matches!(&events[0], IrStreamEvent::ContentBlockStart { index: 0, block: IrContentBlockStart::Text }));

    // content_block_delta (text)
    let delta = j(r#"{"type": "content_block_delta", "index": 0, "delta": {"type": "text_delta", "text": "Hello"}}"#);
    let events = anthropic_chunk_to_ir(&delta, &mut state);
    assert!(matches!(&events[0], IrStreamEvent::ContentBlockDelta { index: 0, delta: IrContentDelta::TextDelta(t) } if t == "Hello"));
    assert_eq!(state.usage.output_chars, 5);

    // content_block_stop
    let stop = j(r#"{"type": "content_block_stop", "index": 0}"#);
    let events = anthropic_chunk_to_ir(&stop, &mut state);
    assert!(matches!(&events[0], IrStreamEvent::ContentBlockStop { index: 0 }));
}

#[test]
fn from_anthropic_test_chunk_tool_use_sequence() {
    let mut state = AnthropicParseState::new();

    let start = j(r#"{"type": "content_block_start", "index": 1, "content_block": {"type": "tool_use", "id": "call_1", "name": "search", "input": {}}}"#);
    let events = anthropic_chunk_to_ir(&start, &mut state);
    assert!(matches!(&events[0], IrStreamEvent::ContentBlockStart { index: 1, block: IrContentBlockStart::ToolUse { id, name } } if id == "call_1" && name == "search"));

    let delta = j(r#"{"type": "content_block_delta", "index": 1, "delta": {"type": "input_json_delta", "partial_json": "{\"q\":"}}"#);
    let events = anthropic_chunk_to_ir(&delta, &mut state);
    assert!(matches!(&events[0], IrStreamEvent::ContentBlockDelta { index: 1, delta: IrContentDelta::InputJsonDelta(p) } if p == "{\"q\":"));
}

#[test]
fn from_anthropic_test_chunk_message_delta_with_usage() {
    let mut state = AnthropicParseState::new();
    state.usage.input_tokens = 150;

    let chunk = j(r#"{
        "type": "message_delta",
        "delta": {"stop_reason": "end_turn"},
        "usage": {"output_tokens": 300, "cache_read_input_tokens": 8000}
    }"#);
    let events = anthropic_chunk_to_ir(&chunk, &mut state);
    assert_eq!(events.len(), 1);
    match &events[0] {
        IrStreamEvent::MessageDelta { stop_reason, usage } => {
            assert_eq!(*stop_reason, Some(IrStopReason::EndTurn));
            let u = usage.as_ref().unwrap();
            assert_eq!(u.output_tokens, 300);
            assert_eq!(u.cache_read_input_tokens, 8000);
        }
        _ => panic!("expected MessageDelta"),
    }
}


#[test]
fn from_anthropic_test_chunk_thinking_delta_counts_chars() {
    let mut state = AnthropicParseState::new();
    let chunk = j(r#"{
        "type": "content_block_delta",
        "index": 0,
        "delta": {"type": "thinking_delta", "thinking": "思考中..."}
    }"#);
    anthropic_chunk_to_ir(&chunk, &mut state);
    // "思考中..." is 3 CJK characters and 3 dots: 6 characters, as the
    // same test of the Messages reader counts them.
    assert_eq!(state.usage.output_chars, 6);
}
