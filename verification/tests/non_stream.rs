use serde_json::Value;
use xrl_router::ir::{
    IrContentBlockStart, IrContentDelta, IrStopReason, IrStreamEvent, IrUsage,
};
use xrl_router::json::{Json, JsonNumber};
use xrl_router::non_stream::{
    build_chat_completions_response, build_messages_response, build_responses_response,
    error_type_for_status, AccBlock, IrAccumulator,
};

fn sv(j: &Json) -> Value {
    match j {
        Json::Null => Value::Null,
        Json::Bool(b) => Value::Bool(*b),
        Json::Number(JsonNumber::PosInt(u)) => Value::from(*u),
        Json::Number(JsonNumber::NegInt(i)) => Value::from(*i),
        Json::Number(JsonNumber::Float(s)) => serde_json::from_str(s).unwrap(),
        Json::Str(s) => Value::String(s.clone()),
        Json::Array(v) => Value::Array(v.iter().map(sv).collect()),
        Json::Object(f) => Value::Object(f.iter().map(|(k, v)| (k.clone(), sv(v))).collect()),
    }
}

fn text_events() -> Vec<IrStreamEvent> {
    vec![
        IrStreamEvent::MessageStart {
            id: "msg_1".to_string(),
            model: "model-x".to_string(),
            usage: Some(IrUsage::default()),
        },
        IrStreamEvent::ContentBlockStart { index: 0, block: IrContentBlockStart::Text },
        IrStreamEvent::ContentBlockDelta {
            index: 0,
            delta: IrContentDelta::TextDelta("Hello".to_string()),
        },
        IrStreamEvent::ContentBlockDelta {
            index: 0,
            delta: IrContentDelta::TextDelta(" world".to_string()),
        },
        IrStreamEvent::ContentBlockStop { index: 0 },
        IrStreamEvent::MessageDelta { stop_reason: Some(IrStopReason::EndTurn), usage: None },
        IrStreamEvent::MessageStop,
    ]
}

fn tool_events() -> Vec<IrStreamEvent> {
    vec![
        IrStreamEvent::MessageStart {
            id: "msg_2".to_string(),
            model: "model-x".to_string(),
            usage: Some(IrUsage::default()),
        },
        IrStreamEvent::ContentBlockStart {
            index: 0,
            block: IrContentBlockStart::Thinking { signature: Some("sig_1".to_string()) },
        },
        IrStreamEvent::ContentBlockDelta {
            index: 0,
            delta: IrContentDelta::ThinkingDelta("planning".to_string()),
        },
        IrStreamEvent::ContentBlockStop { index: 0 },
        IrStreamEvent::ContentBlockStart {
            index: 1,
            block: IrContentBlockStart::ToolUse {
                id: "toolu_1".to_string(),
                name: "get_weather".to_string(),
            },
        },
        IrStreamEvent::ContentBlockDelta {
            index: 1,
            delta: IrContentDelta::InputJsonDelta("{\"city\":".to_string()),
        },
        IrStreamEvent::ContentBlockDelta {
            index: 1,
            delta: IrContentDelta::InputJsonDelta("\"Tokyo\"}".to_string()),
        },
        IrStreamEvent::ContentBlockStop { index: 1 },
        IrStreamEvent::MessageDelta { stop_reason: Some(IrStopReason::ToolUse), usage: None },
        IrStreamEvent::MessageStop,
    ]
}

fn accumulate(events: &[IrStreamEvent]) -> IrAccumulator {
    let mut acc = IrAccumulator::default();
    for ev in events {
        acc.process_event(ev);
    }
    acc
}

#[test]
fn test_accumulator_text() {
    let acc = accumulate(&text_events());
    assert_eq!(acc.msg_id, "msg_1");
    assert_eq!(acc.model, "model-x");
    assert_eq!(acc.stop_reason, Some(IrStopReason::EndTurn));
    assert_eq!(acc.blocks.len(), 1);
    assert_eq!(acc.blocks[0], AccBlock::Text("Hello world".to_string()));
}

#[test]
fn test_accumulator_thinking_and_tool() {
    let acc = accumulate(&tool_events());
    assert_eq!(acc.blocks.len(), 2);
    assert_eq!(
        acc.blocks[0],
        AccBlock::Thinking { thinking: "planning".to_string(), signature: Some("sig_1".to_string()) }
    );
    assert_eq!(
        acc.blocks[1],
        AccBlock::ToolUse {
            id: "toolu_1".to_string(),
            name: "get_weather".to_string(),
            input_json: "{\"city\":\"Tokyo\"}".to_string(),
        }
    );
    assert_eq!(acc.stop_reason, Some(IrStopReason::ToolUse));
}

#[test]
fn accumulator_pads_gaps_and_ignores_stray_deltas() {
    let mut acc = IrAccumulator::default();
    acc.process_event(&IrStreamEvent::ContentBlockStart { index: 2, block: IrContentBlockStart::Text });
    acc.process_event(&IrStreamEvent::ContentBlockDelta {
        index: 5,
        delta: IrContentDelta::TextDelta("lost".to_string()),
    });
    acc.process_event(&IrStreamEvent::ContentBlockDelta {
        index: 2,
        delta: IrContentDelta::ThinkingDelta("wrong kind".to_string()),
    });
    assert_eq!(acc.blocks.len(), 3);
    assert_eq!(acc.blocks[0], AccBlock::Text(String::new()));
    assert_eq!(acc.blocks[2], AccBlock::Text(String::new()));
}

#[test]
fn test_build_messages_response_text() {
    let acc = accumulate(&text_events());
    let usage = IrUsage {
        input_tokens: 100,
        output_tokens: 20,
        cache_read_input_tokens: 50,
        ..Default::default()
    };
    let v = sv(&build_messages_response(&acc, &usage, "alias"));
    assert_eq!(v["id"], "msg_1");
    assert_eq!(v["type"], "message");
    assert_eq!(v["role"], "assistant");
    assert_eq!(v["model"], "model-x");
    assert_eq!(v["content"][0]["type"], "text");
    assert_eq!(v["content"][0]["text"], "Hello world");
    assert_eq!(v["stop_reason"], "end_turn");
    assert_eq!(v["usage"]["input_tokens"], 100);
    assert_eq!(v["usage"]["output_tokens"], 20);
    assert_eq!(v["usage"]["cache_read_input_tokens"], 50);
}

#[test]
fn test_build_messages_response_tool_use() {
    let acc = accumulate(&tool_events());
    let v = sv(&build_messages_response(&acc, &IrUsage::default(), "alias"));
    assert_eq!(v["content"][0]["type"], "thinking");
    assert_eq!(v["content"][0]["signature"], "sig_1");
    assert_eq!(v["content"][1]["type"], "tool_use");
    assert_eq!(v["content"][1]["input"]["city"], "Tokyo");
    assert_eq!(v["stop_reason"], "tool_use");
}

#[test]
fn test_build_chat_response_tool_only_content_null() {
    let acc = accumulate(&tool_events());
    let usage = IrUsage { input_tokens: 10, output_tokens: 5, ..Default::default() };
    let v = sv(&build_chat_completions_response(&acc, &usage, "alias"));
    assert_eq!(v["object"], "chat.completion");
    assert_eq!(v["choices"][0]["message"]["content"], Value::Null);
    assert_eq!(v["choices"][0]["message"]["tool_calls"][0]["function"]["name"], "get_weather");
    assert_eq!(
        v["choices"][0]["message"]["tool_calls"][0]["function"]["arguments"].as_str().unwrap(),
        "{\"city\":\"Tokyo\"}"
    );
    assert_eq!(v["choices"][0]["finish_reason"], "tool_calls");
    assert_eq!(v["choices"][0]["message"]["reasoning_content"], "planning");
    assert_eq!(v["usage"]["prompt_tokens"], 10);
}

#[test]
fn test_build_chat_response_text() {
    let acc = accumulate(&text_events());
    let v = sv(&build_chat_completions_response(&acc, &IrUsage::default(), "alias"));
    assert_eq!(v["choices"][0]["message"]["content"], "Hello world");
    assert_eq!(v["choices"][0]["finish_reason"], "stop");
    assert!(v["choices"][0]["message"].get("reasoning_content").is_none());
}

#[test]
fn test_build_responses_response() {
    let acc = accumulate(&tool_events());
    let usage = IrUsage { input_tokens: 10, output_tokens: 5, ..Default::default() };
    let v = sv(&build_responses_response(&acc, &usage, "alias"));
    assert_eq!(v["object"], "response");
    assert_eq!(v["status"], "completed");
    assert_eq!(v["output"][0]["type"], "reasoning");
    assert_eq!(v["output"][1]["type"], "function_call");
    assert_eq!(v["output"][1]["call_id"], "toolu_1");
    assert_eq!(v["output"][1]["arguments"], "{\"city\":\"Tokyo\"}");
}

#[test]
fn test_build_responses_response_truncated() {
    let mut events = text_events();
    if let Some(IrStreamEvent::MessageDelta { stop_reason, .. }) = events.iter_mut().rev().nth(1) {
        *stop_reason = Some(IrStopReason::MaxTokens);
    }
    let acc = accumulate(&events);
    let v = sv(&build_responses_response(&acc, &IrUsage::default(), "alias"));
    assert_eq!(v["status"], "incomplete");
    assert_eq!(v["incomplete_details"]["reason"], "max_output_tokens");
}

#[test]
fn test_empty_text_block_filtered_in_messages() {
    let events = vec![IrStreamEvent::MessageStart {
        id: "msg_e".to_string(),
        model: "m".to_string(),
        usage: None,
    }];
    let acc = accumulate(&events);
    let v = sv(&build_messages_response(&acc, &IrUsage::default(), "alias"));
    assert_eq!(v["content"].as_array().unwrap().len(), 0);
    assert_eq!(v["model"], "m");
}

#[test]
fn test_fallback_model_and_id() {
    let acc = IrAccumulator::default();
    let v = sv(&build_messages_response(&acc, &IrUsage::default(), "my-alias"));
    assert!(v["id"].as_str().unwrap().starts_with("msg_"));
    assert_eq!(v["id"].as_str().unwrap().len(), 36);
    assert_eq!(v["model"], "my-alias");
}

#[test]
fn output_tokens_fall_back_to_a_quarter_of_the_characters() {
    let acc = accumulate(&text_events());
    let usage = IrUsage { output_chars: 41, ..Default::default() };
    let v = sv(&build_messages_response(&acc, &usage, "a"));
    assert_eq!(v["usage"]["output_tokens"], 10);
}

#[test]
fn test_error_type_for_status() {
    assert_eq!(error_type_for_status(400), "invalid_request_error");
    assert_eq!(error_type_for_status(401), "authentication_error");
    assert_eq!(error_type_for_status(429), "rate_limit_error");
    assert_eq!(error_type_for_status(500), "api_error");
    assert_eq!(error_type_for_status(504), "timeout_error");
}
