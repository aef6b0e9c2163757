use xrl_router::ir::{
    IrContentBlock, IrContentBlockStart, IrContentDelta, IrImageSource, IrMessage, IrRequest,
    IrRole, IrStopReason, IrStreamEvent, IrSystemBlock, IrSystemContent, IrThinkingConfig, IrTool,
    IrToolChoice, IrToolResultContent, IrUsage,
};
use xrl_router::json::{parse_json, Json, JsonNumber};
use xrl_router::to_chat_completions::{
    ir_req_to_chat_completions, sse_data_frame, ChatCompletionsRenderState,
};
use xrl_router::to_messages::{ir_req_to_messages, sse_event_frame, MessagesRenderState};

fn j(text: &str) -> Json {
    parse_json(text).expect("test JSON parses")
}

fn at<'a>(v: &'a Json, key: &str) -> &'a Json {
    v.get(key).unwrap_or_else(|| panic!("missing key {}", key))
}

fn nth(v: &Json, i: usize) -> &Json {
    match v {
        Json::Array(items) => &items[i],
        _ => panic!("not an array"),
    }
}

fn s(v: &Json) -> &str {
    v.as_str().expect("a string")
}

fn empty_request(model: &str) -> IrRequest {
    IrRequest {
        model: model.to_string(),
        system: None,
        messages: vec![],
        tools: vec![],
        tool_choice: None,
        max_tokens: None,
        temperature: None,
        top_p: None,
        thinking: None,
        stream: false,
    }
}

fn text_block(t: &str) -> IrContentBlock {
    IrContentBlock::Text { text: t.to_string(), cache_control: None }
}

// ---- Chat Completions ----

#[test]
fn test_ir_req_to_chat_completions_basic() {
    let req = IrRequest {
        system: Some(IrSystemContent::Text("Be helpful.".to_string())),
        messages: vec![IrMessage { role: IrRole::User, content: vec![text_block("Hello")] }],
        max_tokens: Some(4096),
        stream: true,
        ..empty_request("gpt-4o")
    };
    let v = ir_req_to_chat_completions(&req);
    assert_eq!(s(at(&v, "model")), "gpt-4o");
    let messages = at(&v, "messages");
    assert_eq!(s(at(nth(messages, 0), "role")), "system");
    assert_eq!(s(at(nth(messages, 0), "content")), "Be helpful.");
    assert_eq!(s(at(nth(messages, 1), "role")), "user");
    assert_eq!(s(at(nth(messages, 1), "content")), "Hello");
    assert_eq!(at(&v, "max_tokens").as_u64(), Some(4096));
    assert_eq!(at(&v, "stream").as_bool(), Some(true));
}

#[test]
fn test_ir_req_to_chat_completions_with_tools() {
    let req = IrRequest {
        tools: vec![IrTool {
            name: "search".to_string(),
            description: Some("Search the web".to_string()),
            input_schema: j(r#"{"type": "object", "properties": {"q": {"type": "string"}}}"#),
        }],
        tool_choice: Some(IrToolChoice::Any),
        max_tokens: Some(1024),
        temperature: Some(JsonNumber::Float("0.7".to_string())),
        thinking: Some(IrThinkingConfig { enabled: true, budget_tokens: Some(16384) }),
        stream: true,
        ..empty_request("gpt-4o")
    };
    let v = ir_req_to_chat_completions(&req);
    let tool = nth(at(&v, "tools"), 0);
    assert_eq!(s(at(tool, "type")), "function");
    assert_eq!(s(at(at(tool, "function"), "name")), "search");
    assert_eq!(s(at(at(tool, "function"), "description")), "Search the web");
    assert_eq!(s(at(&v, "tool_choice")), "required");
    assert_eq!(s(at(&v, "reasoning_effort")), "high");
    match at(&v, "temperature") {
        Json::Number(JsonNumber::Float(t)) => assert_eq!(t.parse::<f64>().unwrap(), 0.7),
        other => panic!("unexpected temperature {:?}", other),
    }
}

#[test]
fn test_ir_req_to_chat_completions_tool_use_and_result() {
    let req = IrRequest {
        messages: vec![
            IrMessage {
                role: IrRole::Assistant,
                content: vec![IrContentBlock::ToolUse {
                    id: "call_1".to_string(),
                    name: "search".to_string(),
                    input: j(r#"{"q": "test"}"#),
                }],
            },
            IrMessage {
                role: IrRole::User,
                content: vec![IrContentBlock::ToolResult {
                    tool_use_id: "call_1".to_string(),
                    content: IrToolResultContent::Text("result text".to_string()),
                    is_error: false,
                }],
            },
        ],
        ..empty_request("gpt-4o")
    };
    let v = ir_req_to_chat_completions(&req);
    let messages = at(&v, "messages");
    assert_eq!(s(at(nth(messages, 0), "role")), "assistant");
    let call = nth(at(nth(messages, 0), "tool_calls"), 0);
    assert_eq!(s(at(call, "id")), "call_1");
    assert_eq!(s(at(at(call, "function"), "name")), "search");
    assert_eq!(s(at(at(call, "function"), "arguments")), r#"{"q":"test"}"#);
    assert!(matches!(at(nth(messages, 0), "content"), Json::Null));
    assert_eq!(s(at(nth(messages, 1), "role")), "tool");
    assert_eq!(s(at(nth(messages, 1), "tool_call_id")), "call_1");
    assert_eq!(s(at(nth(messages, 1), "content")), "result text");
}

#[test]
fn chat_request_image_after_text_becomes_parts() {
    let req = IrRequest {
        system: Some(IrSystemContent::Blocks(vec![
            IrSystemBlock { text: "A".to_string(), cache_control: None },
            IrSystemBlock { text: "B".to_string(), cache_control: None },
        ])),
        messages: vec![IrMessage {
            role: IrRole::User,
            content: vec![
                text_block("look"),
                text_block("here"),
                IrContentBlock::Image {
                    source: IrImageSource::Base64 { media_type: "image/png".to_string(), data: "QQ==".to_string() },
                },
                IrContentBlock::Thinking { thinking: "hm".to_string(), signature: None },
            ],
        }],
        tool_choice: Some(IrToolChoice::Tool { name: "f".to_string() }),
        thinking: Some(IrThinkingConfig { enabled: true, budget_tokens: Some(2048) }),
        ..empty_request("m")
    };
    let v = ir_req_to_chat_completions(&req);
    let messages = at(&v, "messages");
    assert_eq!(s(at(nth(messages, 0), "content")), "A\nB");
    let parts = at(nth(messages, 1), "content");
    assert_eq!(s(at(nth(parts, 0), "text")), "look\nhere");
    assert_eq!(s(at(at(nth(parts, 1), "image_url"), "url")), "data:image/png;base64,QQ==");
    assert_eq!(s(at(nth(messages, 1), "reasoning_content")), "hm");
    assert_eq!(s(at(at(at(&v, "tool_choice"), "function"), "name")), "f");
    assert_eq!(s(at(&v, "reasoning_effort")), "low");
    assert!(v.get("tools").is_none());
}

#[test]
fn chat_request_tool_result_only_message_keeps_empty_content() {
    let req = IrRequest {
        messages: vec![IrMessage {
            role: IrRole::User,
            content: vec![IrContentBlock::ToolResult {
                tool_use_id: "t".to_string(),
                content: IrToolResultContent::Blocks(vec![text_block("x"), text_block("y")]),
                is_error: true,
            }],
        }],
        ..empty_request("m")
    };
    let v = ir_req_to_chat_completions(&req);
    let messages = at(&v, "messages");
    assert_eq!(s(at(nth(messages, 0), "content")), "x\ny");
    assert_eq!(s(at(nth(messages, 1), "role")), "user");
    assert_eq!(s(at(nth(messages, 1), "content")), "");
}

#[test]
fn to_chat_completions_test_render_event_text_delta() {
    let mut state = ChatCompletionsRenderState::new();
    state.msg_id = "chatcmpl-1".to_string();
    state.model = "gpt-4o".to_string();
    let ev = IrStreamEvent::ContentBlockDelta { index: 0, delta: IrContentDelta::TextDelta("Hello".to_string()) };
    let out = state.render_event(&ev).unwrap();
    assert!(out.contains("data: "));
    assert!(out.contains("\"content\":\"Hello\""));
    assert!(out.contains("\"role\":\"assistant\""));
    let again = state.render_event(&ev).unwrap();
    assert!(!again.contains("\"role\""));
}

#[test]
fn test_render_event_reasoning_delta() {
    let mut state = ChatCompletionsRenderState::new();
    state.msg_id = "chatcmpl-1".to_string();
    state.model = "qwen-max".to_string();
    let ev = IrStreamEvent::ContentBlockDelta {
        index: 0,
        delta: IrContentDelta::ThinkingDelta("thinking...".to_string()),
    };
    let out = state.render_event(&ev).unwrap();
    assert!(out.contains("\"reasoning_content\":\"thinking...\""));
}

#[test]
fn test_render_event_message_delta_with_finish() {
    let mut state = ChatCompletionsRenderState::new();
    state.msg_id = "chatcmpl-1".to_string();
    state.model = "gpt-4o".to_string();
    let ev = IrStreamEvent::MessageDelta {
        stop_reason: Some(IrStopReason::EndTurn),
        usage: Some(IrUsage {
            input_tokens: 100,
            output_tokens: 50,
            cache_read_input_tokens: 80,
            ..Default::default()
        }),
    };
    let out = state.render_event(&ev).unwrap();
    assert!(out.contains("\"finish_reason\":\"stop\""));
    assert!(out.contains("\"prompt_tokens\":180"));
    assert!(out.contains("\"completion_tokens\":50"));
    assert!(out.contains("\"cached_tokens\":80"));
    assert!(out.contains("\"total_tokens\":230"));
}

#[test]
fn test_render_event_message_stop() {
    let mut state = ChatCompletionsRenderState::new();
    let out = state.render_event(&IrStreamEvent::MessageStop).unwrap();
    assert_eq!(out.trim(), "data: [DONE]");
}

#[test]
fn test_render_event_tool_use_start() {
    let mut state = ChatCompletionsRenderState::new();
    state.msg_id = "chatcmpl-1".to_string();
    state.model = "gpt-4o".to_string();
    state.tool_count = 1;
    let ev = IrStreamEvent::ContentBlockStart {
        index: 0,
        block: IrContentBlockStart::ToolUse { id: "call_1".to_string(), name: "search".to_string() },
    };
    let out = state.render_event(&ev).unwrap();
    assert!(out.contains("\"tool_calls\""));
    assert!(out.contains("\"id\":\"call_1\""));
    assert!(out.contains("\"name\":\"search\""));
    assert!(out.contains("\"index\":1"));
    assert_eq!(state.tool_count, 2);
}

#[test]
fn chat_render_silent_events_and_argument_index() {
    let mut state = ChatCompletionsRenderState::new();
    let start = IrStreamEvent::MessageStart { id: "c9".to_string(), model: "m".to_string(), usage: None };
    assert!(state.render_event(&start).is_none());
    assert_eq!(state.msg_id, "c9");
    assert!(state.render_event(&IrStreamEvent::ContentBlockStart { index: 0, block: IrContentBlockStart::Text }).is_none());
    assert!(state.render_event(&IrStreamEvent::ContentBlockStop { index: 0 }).is_none());
    state.tool_count = 2;
    let ev = IrStreamEvent::ContentBlockDelta { index: 3, delta: IrContentDelta::InputJsonDelta("{}".to_string()) };
    let out = state.render_event(&ev).unwrap();
    assert!(out.contains("\"index\":2"));
    assert!(out.contains("\"arguments\":\"{}\""));
    let finish = state.render_event(&IrStreamEvent::MessageDelta { stop_reason: None, usage: None }).unwrap();
    assert!(finish.contains("\"finish_reason\":null"));
    assert!(!finish.contains("usage"));
    let fin = state.finalize(&IrUsage::default());
    assert_eq!(fin, vec!["data: [DONE]\n\n".to_string()]);
}

#[test]
fn sse_frames_are_exact() {
    assert_eq!(sse_data_frame("{}"), "data: {}\n\n");
    assert_eq!(sse_event_frame("ping", "{}"), "event: ping\ndata: {}\n\n");
}

// ---- Anthropic Messages ----

#[test]
fn test_ir_req_to_messages_basic() {
    let req = IrRequest {
        system: Some(IrSystemContent::Text("Be helpful.".to_string())),
        messages: vec![IrMessage { role: IrRole::User, content: vec![text_block("Hello")] }],
        max_tokens: Some(4096),
        stream: true,
        ..empty_request("opus-4-8")
    };
    let v = ir_req_to_messages(&req);
    assert_eq!(s(at(&v, "model")), "opus-4-8");
    assert_eq!(s(at(&v, "system")), "Be helpful.");
    assert_eq!(at(&v, "max_tokens").as_u64(), Some(4096));
    assert_eq!(at(&v, "stream").as_bool(), Some(true));
    assert_eq!(s(at(nth(at(&v, "messages"), 0), "role")), "user");
}

#[test]
fn test_ir_req_to_messages_with_tools() {
    let req = IrRequest {
        tools: vec![IrTool {
            name: "search".to_string(),
            description: Some("Search the web".to_string()),
            input_schema: j(r#"{"type": "object", "properties": {"q": {"type": "string"}}}"#),
        }],
        tool_choice: Some(IrToolChoice::Any),
        max_tokens: Some(1024),
        temperature: Some(JsonNumber::Float("0.7".to_string())),
        thinking: Some(IrThinkingConfig { enabled: true, budget_tokens: Some(5000) }),
        stream: true,
        ..empty_request("opus")
    };
    let v = ir_req_to_messages(&req);
    let tool = nth(at(&v, "tools"), 0);
    assert_eq!(s(at(tool, "name")), "search");
    assert_eq!(s(at(tool, "description")), "Search the web");
    assert_eq!(s(at(at(&v, "tool_choice"), "type")), "any");
    assert_eq!(s(at(at(&v, "thinking"), "type")), "enabled");
    assert_eq!(at(at(&v, "thinking"), "budget_tokens").as_u64(), Some(5000));
    match at(&v, "temperature") {
        Json::Number(JsonNumber::Float(t)) => assert_eq!(t.parse::<f64>().unwrap(), 0.7),
        other => panic!("unexpected temperature {:?}", other),
    }
}

#[test]
fn test_ir_req_to_messages_image() {
    let req = IrRequest {
        messages: vec![IrMessage {
            role: IrRole::User,
            content: vec![
                text_block("What is this?"),
                IrContentBlock::Image {
                    source: IrImageSource::Base64 { media_type: "image/png".to_string(), data: "abc123".to_string() },
                },
            ],
        }],
        max_tokens: Some(1024),
        ..empty_request("opus")
    };
    let v = ir_req_to_messages(&req);
    let content = at(nth(at(&v, "messages"), 0), "content");
    assert_eq!(s(at(nth(content, 0), "type")), "text");
    assert_eq!(s(at(nth(content, 1), "type")), "image");
    assert_eq!(s(at(at(nth(content, 1), "source"), "type")), "base64");
    assert_eq!(s(at(at(nth(content, 1), "source"), "data")), "abc123");
}

#[test]
fn messages_request_nested_tool_result_and_flags() {
    let req = IrRequest {
        messages: vec![IrMessage {
            role: IrRole::User,
            content: vec![IrContentBlock::ToolResult {
                tool_use_id: "t1".to_string(),
                content: IrToolResultContent::Blocks(vec![
                    text_block("inner"),
                    IrContentBlock::Thinking { thinking: "x".to_string(), signature: Some("sig".to_string()) },
                ]),
                is_error: true,
            }],
        }],
        tool_choice: Some(IrToolChoice::Tool { name: "f".to_string() }),
        thinking: Some(IrThinkingConfig { enabled: false, budget_tokens: Some(1) }),
        ..empty_request("opus")
    };
    let v = ir_req_to_messages(&req);
    let block = nth(at(nth(at(&v, "messages"), 0), "content"), 0);
    assert_eq!(s(at(block, "type")), "tool_result");
    assert_eq!(at(block, "is_error").as_bool(), Some(true));
    assert_eq!(s(at(nth(at(block, "content"), 0), "text")), "inner");
    assert_eq!(s(at(nth(at(block, "content"), 1), "signature")), "sig");
    assert_eq!(s(at(at(&v, "tool_choice"), "name")), "f");
    assert!(v.get("thinking").is_none());
    assert!(v.get("tools").is_none());
}

#[test]
fn test_render_event_message_start() {
    let mut state = MessagesRenderState::new();
    let ev = IrStreamEvent::MessageStart {
        id: "msg_123".to_string(),
        model: "opus-4-8".to_string(),
        usage: None,
    };
    let out = state.render_event(&ev).unwrap();
    assert!(out.contains("event: message_start"));
    assert!(out.contains("\"id\":\"msg_123\""));
    assert!(out.contains("\"model\":\"opus-4-8\""));
    assert!(state.started);
}

#[test]
fn test_render_event_content_block_text() {
    let mut state = MessagesRenderState::new();
    let ev = IrStreamEvent::ContentBlockStart { index: 0, block: IrContentBlockStart::Text };
    let out = state.render_event(&ev).unwrap();
    assert!(out.contains("event: content_block_start"));
    assert!(out.contains("\"type\":\"text\""));
}

#[test]
fn to_messages_test_render_event_text_delta() {
    let mut state = MessagesRenderState::new();
    let ev = IrStreamEvent::ContentBlockDelta { index: 0, delta: IrContentDelta::TextDelta("Hello".to_string()) };
    let out = state.render_event(&ev).unwrap();
    assert!(out.contains("event: content_block_delta"));
    assert!(out.contains("\"type\":\"text_delta\""));
    assert!(out.contains("\"text\":\"Hello\""));
}

#[test]
fn test_render_event_message_delta_deferred() {
    let mut state = MessagesRenderState::new();
    let ev = IrStreamEvent::MessageDelta {
        stop_reason: Some(IrStopReason::EndTurn),
        usage: Some(IrUsage { output_tokens: 100, ..Default::default() }),
    };
    assert!(state.render_event(&ev).is_none());
    assert_eq!(state.last_stop_reason, Some(IrStopReason::EndTurn));
}

#[test]
fn test_finalize_emits_message_delta_and_stop() {
    let mut state = MessagesRenderState::new();
    state.last_stop_reason = Some(IrStopReason::ToolUse);
    let usage = IrUsage { output_tokens: 300, cache_read_input_tokens: 8000, ..Default::default() };
    let events = state.finalize(&usage);
    assert_eq!(events.len(), 2);
    assert!(events[0].contains("event: message_delta"));
    assert!(events[0].contains("\"stop_reason\":\"tool_use\""));
    assert!(events[0].contains("\"output_tokens\":300"));
    assert!(events[1].contains("event: message_stop"));
}

#[test]
fn test_finalize_fallback_chars_to_tokens() {
    let mut state = MessagesRenderState::new();
    let usage = IrUsage { output_tokens: 0, output_chars: 120, ..Default::default() };
    let events = state.finalize(&usage);
    assert!(events[0].contains("\"output_tokens\":30"));
    assert!(events[0].contains("\"stop_reason\":\"end_turn\""));
}

#[test]
fn messages_render_stop_and_tool_start() {
    let mut state = MessagesRenderState::new();
    let stop = state.render_event(&IrStreamEvent::ContentBlockStop { index: 4 }).unwrap();
    assert_eq!(stop, "event: content_block_stop\ndata: {\"index\":4,\"type\":\"content_block_stop\"}\n\n");
    let tool = state
        .render_event(&IrStreamEvent::ContentBlockStart {
            index: 1,
            block: IrContentBlockStart::ToolUse { id: "tu".to_string(), name: "f".to_string() },
        })
        .unwrap();
    assert!(tool.contains("\"input\":{}"));
    assert!(state.render_event(&IrStreamEvent::MessageStop).is_none());
}

#[test]
fn chat_finalize_sends_done_only_once() {
    let mut state = ChatCompletionsRenderState::new();
    let done = state.render_event(&IrStreamEvent::MessageStop).unwrap();
    assert_eq!(done, "data: [DONE]\n\n");
    assert!(state.finalize(&IrUsage::default()).is_empty());
    let mut fresh = ChatCompletionsRenderState::new();
    assert_eq!(fresh.finalize(&IrUsage::default()), vec!["data: [DONE]\n\n".to_string()]);
    assert!(fresh.finalize(&IrUsage::default()).is_empty());
}

#[test]
fn messages_start_carries_the_event_usage() {
    let mut state = MessagesRenderState::new();
    let usage = IrUsage { input_tokens: 100, output_tokens: 50, ..IrUsage::default() };
    let ev = IrStreamEvent::MessageStart { id: "msg_123".to_string(), model: "qwen3.7-max".to_string(), usage: Some(usage) };
    let out = state.render_event(&ev).unwrap();
    assert!(out.starts_with("event: message_start\n"));
    assert!(out.contains("\"id\":\"msg_123\""));
    assert!(out.contains("\"usage\":{\"input_tokens\":100,\"output_tokens\":50}"));
    let mut bare = MessagesRenderState::new();
    let ev = IrStreamEvent::MessageStart { id: "m".to_string(), model: "x".to_string(), usage: None };
    assert!(bare.render_event(&ev).unwrap().contains("\"usage\":{\"input_tokens\":0,\"output_tokens\":0}"));
}

#[test]
fn chat_role_is_named_only_in_the_first_chunk() {
    let mut state = ChatCompletionsRenderState::new();
    let events = vec![
        IrStreamEvent::MessageStart { id: "c1".to_string(), model: "m".to_string(), usage: None },
        IrStreamEvent::ContentBlockStart { index: 0, block: IrContentBlockStart::Text },
        IrStreamEvent::ContentBlockDelta { index: 0, delta: IrContentDelta::TextDelta("a".to_string()) },
        IrStreamEvent::ContentBlockDelta { index: 0, delta: IrContentDelta::TextDelta("b".to_string()) },
        IrStreamEvent::ContentBlockStop { index: 0 },
        IrStreamEvent::ContentBlockStart { index: 1, block: IrContentBlockStart::ToolUse { id: "t".to_string(), name: "f".to_string() } },
        IrStreamEvent::MessageDelta { stop_reason: None, usage: None },
    ];
    let outs: Vec<Option<String>> = events.iter().map(|e| state.render_event(e)).collect();
    let with_role: Vec<usize> = outs
        .iter()
        .enumerate()
        .filter(|(_, o)| o.as_deref().map_or(false, |s| s.contains("\"role\":\"assistant\"")))
        .map(|(i, _)| i)
        .collect();
    assert_eq!(with_role, vec![2]);
    assert!(outs[0].is_none() && outs[1].is_none() && outs[4].is_none());
    assert!(outs[5].is_some() && outs[6].is_some());
}
