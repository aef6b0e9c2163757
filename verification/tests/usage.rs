use xrl_router::ir::{IrContentBlock, IrMessage, IrRequest, IrRole, IrSystemContent};
use xrl_router::json::{parse_json, Json};
use xrl_router::usage::{
    estimate_input_tokens, extract_anthropic_usage, extract_chat_usage, extract_responses_usage,
};

fn j(text: &str) -> Json {
    parse_json(text).expect("test JSON parses")
}

fn request(system: Option<IrSystemContent>, messages: Vec<IrMessage>) -> IrRequest {
    IrRequest {
        model: "test".to_string(),
        system,
        messages,
        tools: vec![],
        tool_choice: None,
        max_tokens: None,
        temperature: None,
        top_p: None,
        thinking: None,
        stream: false,
    }
}

#[test]
fn test_extract_anthropic_usage_message_start() {
    let chunk = j(r#"{"type": "message_start", "message": {"usage": {
        "input_tokens": 200, "cache_creation_input_tokens": 1500,
        "cache_read_input_tokens": 8000, "output_tokens": 0}}}"#);
    let u = extract_anthropic_usage(&chunk);
    assert_eq!(u.input_tokens, 1700);
    assert_eq!(u.cache_read_input_tokens, 8000);
    assert_eq!(u.cache_creation_input_tokens, 1500);
}

#[test]
fn test_extract_anthropic_usage_message_delta() {
    let chunk = j(r#"{"type": "message_delta", "delta": {"stop_reason": "end_turn"},
        "usage": {"output_tokens": 300, "cache_read_input_tokens": 8000}}"#);
    let u = extract_anthropic_usage(&chunk);
    assert_eq!(u.output_tokens, 300);
    assert_eq!(u.cache_read_input_tokens, 8000);
}

#[test]
fn test_extract_anthropic_usage_content_block_delta() {
    let chunk = j(r#"{"type": "content_block_delta", "index": 0, "delta": {"type": "text_delta", "text": "Hello world"}}"#);
    assert_eq!(extract_anthropic_usage(&chunk).output_chars, 11);
}

#[test]
fn test_extract_chat_usage_basic() {
    let chunk = j(r#"{"id": "chatcmpl-1", "choices": [], "usage": {
        "prompt_tokens": 9700, "completion_tokens": 300,
        "prompt_tokens_details": {"cached_tokens": 8000}}}"#);
    let u = extract_chat_usage(&chunk);
    assert_eq!(u.input_tokens, 1700);
    assert_eq!(u.output_tokens, 300);
    assert_eq!(u.cache_read_input_tokens, 8000);
}

#[test]
fn test_extract_chat_usage_deepseek_cache() {
    let chunk = j(r#"{"id": "chatcmpl-1", "choices": [], "usage": {
        "prompt_tokens": 9700, "completion_tokens": 300,
        "prompt_cache_hit_tokens": 8000, "prompt_cache_miss_tokens": 1700}}"#);
    let u = extract_chat_usage(&chunk);
    assert_eq!(u.input_tokens, 1700);
    assert_eq!(u.cache_read_input_tokens, 8000);
}

#[test]
fn test_extract_chat_usage_no_cache() {
    let chunk = j(r#"{"id": "chatcmpl-1", "choices": [], "usage": {"prompt_tokens": 100, "completion_tokens": 50}}"#);
    let u = extract_chat_usage(&chunk);
    assert_eq!(u.input_tokens, 100);
    assert_eq!(u.output_tokens, 50);
    assert_eq!(u.cache_read_input_tokens, 0);
}

#[test]
fn test_extract_chat_usage_char_count() {
    let chunk = j(r#"{"id": "chatcmpl-1", "choices": [{"index": 0, "delta": {"content": "Hello"}}]}"#);
    assert_eq!(extract_chat_usage(&chunk).output_chars, 5);
}

#[test]
fn chat_usage_hits_above_prompt_give_zero_input() {
    let chunk = j(r#"{"usage": {"prompt_tokens": 10, "prompt_cache_hit_tokens": 30}}"#);
    let u = extract_chat_usage(&chunk);
    assert_eq!(u.input_tokens, 0);
    assert_eq!(u.cache_read_input_tokens, 30);
}

#[test]
fn test_extract_responses_usage_completed() {
    let chunk = j(r#"{"type": "response.completed", "response": {"usage": {
        "input_tokens": 500, "output_tokens": 200, "input_tokens_details": {"cached_tokens": 300}}}}"#);
    let u = extract_responses_usage(&chunk);
    assert_eq!(u.input_tokens, 500);
    assert_eq!(u.output_tokens, 200);
    assert_eq!(u.cache_read_input_tokens, 300);
}

#[test]
fn test_extract_responses_usage_delta_chars() {
    let chunk = j(r#"{"type": "response.output_text.delta", "delta": "Hello world"}"#);
    assert_eq!(extract_responses_usage(&chunk).output_chars, 11);
}

#[test]
fn test_estimate_input_tokens_basic() {
    let req = request(
        Some(IrSystemContent::Text("You are helpful.".to_string())),
        vec![IrMessage {
            role: IrRole::User,
            content: vec![IrContentBlock::Text {
                text: "Hello world, this is a test.".to_string(),
                cache_control: None,
            }],
        }],
    );
    assert_eq!(estimate_input_tokens(&req), 11);
}

#[test]
fn test_estimate_input_tokens_minimum_one() {
    let req = request(None, vec![]);
    assert_eq!(estimate_input_tokens(&req), 1);
}

#[test]
fn estimate_counts_characters_not_bytes() {
    // 8 CJK characters: 2 tokens, though they take 24 bytes
    let req = request(Some(IrSystemContent::Text("你好你好你好你好".to_string())), vec![]);
    assert_eq!(estimate_input_tokens(&req), 2);
}

#[test]
fn estimate_grows_with_the_conversation() {
    let mut msgs: Vec<IrMessage> = vec![];
    let mut last = estimate_input_tokens(&request(None, vec![]));
    assert_eq!(last, 1);
    for text in ["ab", "", "a longer message of some length", "x"] {
        msgs.push(IrMessage {
            role: IrRole::User,
            content: vec![IrContentBlock::Text { text: text.to_string(), cache_control: None }],
        });
        let now = estimate_input_tokens(&request(None, msgs.iter().map(|m| IrMessage { role: m.role, content: vec![IrContentBlock::Text { text: match &m.content[0] { IrContentBlock::Text { text, .. } => text.clone(), _ => String::new() }, cache_control: None }] }).collect()));
        assert!(now >= last);
        last = now;
    }
    assert_eq!(last, 8);
}
