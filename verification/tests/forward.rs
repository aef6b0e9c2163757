use xrl_router::forward::{
    classify_error, classify_words, extract_non_sse_error, extract_stream_error, frame_data, stream_error_action,
    SseFrame, SseFramer, StreamErrorAction,
};
use xrl_router::json::{parse_json, Json};

fn j(text: &str) -> Json {
    parse_json(text).expect("test JSON parses")
}

#[test]
fn test_classify_rate_limit() {
    assert_eq!(classify_error("rate_limit_exceeded", ""), 429);
    assert_eq!(classify_error("", "Too many requests, please retry later"), 429);
    assert_eq!(classify_error("requests_ratelimited", ""), 429);
    assert_eq!(classify_error("", "you have reached the limit of requests"), 429);
}

#[test]
fn test_classify_quota_insufficient() {
    assert_eq!(classify_error("insufficient_quota", ""), 402);
    assert_eq!(classify_error("", "You exceeded your current quota"), 402);
    assert_eq!(classify_error("billing_error", ""), 402);
    assert_eq!(classify_error("", "No balance"), 402);
    assert_eq!(classify_error("", "Insufficient credit"), 402);
    assert_eq!(classify_error("", "Payment required"), 402);
    assert_eq!(classify_error("", "free limit reached"), 402);
}

#[test]
fn test_classify_auth() {
    assert_eq!(classify_error("authentication_error", ""), 401);
    assert_eq!(classify_error("invalid_api_key", ""), 401);
    assert_eq!(classify_error("", "Unauthorized"), 401);
    assert_eq!(classify_error("", "Invalid API key provided"), 401);
    assert_eq!(classify_error("apikey_invalid", ""), 401);
}

#[test]
fn test_classify_permission() {
    assert_eq!(classify_error("permission_error", ""), 403);
    assert_eq!(classify_error("", "forbidden"), 403);
    assert_eq!(classify_error("", "access denied"), 403);
}

#[test]
fn test_classify_non_key_errors() {
    assert_eq!(classify_error("overloaded_error", ""), 400);
    assert_eq!(classify_error("", "model does not support this parameter"), 400);
    assert_eq!(classify_error("", ""), 400);
}

#[test]
fn test_classify_case_insensitive() {
    assert_eq!(classify_error("QUOTA_EXCEEDED", "INSUFFICIENT QUOTA"), 402);
    assert_eq!(classify_error("RateLimitError", ""), 429);
}

#[test]
fn test_extract_messages_error() {
    let chunk = j(r#"{"type": "error", "error": {"type": "insufficient_quota", "message": "Your credit balance is too low"}}"#);
    let (status, msg) = extract_stream_error(&chunk, "messages").unwrap();
    assert_eq!(status, 402);
    assert_eq!(msg, "Your credit balance is too low");
}

#[test]
fn test_extract_messages_normal_not_error() {
    let chunk = j(r#"{"type": "message_start", "message": {"id": "msg_1"}}"#);
    assert!(extract_stream_error(&chunk, "messages").is_none());
}

#[test]
fn test_extract_chat_error() {
    let chunk = j(r#"{"error": {"code": "invalid_api_key", "message": "Incorrect API key provided"}}"#);
    let (status, msg) = extract_stream_error(&chunk, "chat").unwrap();
    assert_eq!(status, 401);
    assert_eq!(msg, "Incorrect API key provided");
}

#[test]
fn test_extract_chat_quota_message() {
    let chunk = j(r#"{"error": {"message": "Insufficient quota"}}"#);
    let (status, msg) = extract_stream_error(&chunk, "chat").unwrap();
    assert_eq!(status, 402);
    assert_eq!(msg, "Insufficient quota");
}

#[test]
fn test_extract_chat_normal_not_error() {
    let chunk = j(r#"{"id": "chatcmpl-1", "model": "gpt-4o", "choices": [{"delta": {"content": "hi"}}]}"#);
    assert!(extract_stream_error(&chunk, "chat").is_none());
}

#[test]
fn test_extract_responses_failed() {
    let chunk = j(r#"{"type": "response.failed", "response": {"status": "failed", "error": {"code": "insufficient_quota", "message": "Quota exceeded"}}}"#);
    let (status, msg) = extract_stream_error(&chunk, "responses").unwrap();
    assert_eq!(status, 402);
    assert_eq!(msg, "Quota exceeded");
}

#[test]
fn test_extract_responses_error_event() {
    let chunk = j(r#"{"type": "error", "error": {"code": "rate_limit_exceeded", "message": "Too many requests"}}"#);
    let (status, msg) = extract_stream_error(&chunk, "responses").unwrap();
    assert_eq!(status, 429);
    assert_eq!(msg, "Too many requests");
}

#[test]
fn test_extract_responses_normal_not_error() {
    let chunk = j(r#"{"type": "response.created", "response": {"id": "resp_1"}}"#);
    assert!(extract_stream_error(&chunk, "responses").is_none());
}

#[test]
fn test_extract_error_empty_message_falls_back_to_type() {
    let chunk = j(r#"{"type": "error", "error": {"type": "permission_error"}}"#);
    let (status, msg) = extract_stream_error(&chunk, "messages").unwrap();
    assert_eq!(status, 403);
    assert_eq!(msg, "permission_error");
}

#[test]
fn test_non_sse_json_error_body() {
    let body = r#"{"error": {"code": "insufficient_quota", "message": "Insufficient quota"}}"#;
    let (status, msg) = extract_non_sse_error(body, "chat").unwrap();
    assert_eq!(status, 402);
    assert_eq!(msg, "Insufficient quota");
}

#[test]
fn test_non_sse_content_filter_not_error() {
    let body = r#"{"id":"x","choices":[{"index":0,"delta":{},"finish_reason":"content_filter"}]}"#;
    assert!(extract_non_sse_error(body, "chat").is_none());
}

#[test]
fn test_non_sse_non_json_not_error() {
    assert!(extract_non_sse_error("<html>502 Bad Gateway</html>", "chat").is_none());
    assert!(extract_non_sse_error("", "chat").is_none());
    assert!(extract_non_sse_error("not json at all", "chat").is_none());
}

#[test]
fn test_non_sse_no_error_key_not_error() {
    let body = r#"{"message":"some other error"}"#;
    assert!(extract_non_sse_error(body, "chat").is_none());
}

#[test]
fn key_level_errors_retry_only_before_anything_was_sent() {
    assert_eq!(stream_error_action(429, false), StreamErrorAction::RetryWithNextKey);
    assert_eq!(stream_error_action(401, true), StreamErrorAction::Deliver);
    assert_eq!(stream_error_action(400, false), StreamErrorAction::Deliver);
}

#[test]
fn framer_cuts_frames_at_blank_lines() {
    let mut f = SseFramer::new();
    f.push_text("data: {\"a\":1}\n\nevent: x\ndata: [DO");
    assert_eq!(f.next_frame().as_deref(), Some("data: {\"a\":1}"));
    assert_eq!(f.next_frame(), None);
    f.push_text("NE]\n\n");
    let frame = f.next_frame().unwrap();
    assert_eq!(frame, "event: x\ndata: [DONE]");
    assert_eq!(frame_data(&frame), SseFrame::Done);
    assert!(f.buffer.is_empty());
}

#[test]
fn frame_data_reads_comments_and_data_lines() {
    assert_eq!(frame_data(": keepalive"), SseFrame::Skip);
    assert_eq!(frame_data("data: {}"), SseFrame::Data("{}".to_string()));
    assert_eq!(
        frame_data("event: message_start\r\ndata: {\"x\":1}"),
        SseFrame::Data("{\"x\":1}".to_string())
    );
    assert_eq!(frame_data("event: ping"), SseFrame::Skip);
    assert_eq!(frame_data("data: a\ndata: b"), SseFrame::Data("a\ndata: b".to_string()));
    assert_eq!(frame_data("id: 1\ndata: a\ndata: b"), SseFrame::Data("b".to_string()));
}

#[test]
fn classification_ignores_letter_case() {
    assert_eq!(classify_error("Rate_Limit_Exceeded", ""), classify_error("rate_limit_exceeded", ""));
    assert_eq!(classify_error("QUOTA_EXCEEDED", "INSUFFICIENT QUOTA"), 402);
    assert_eq!(classify_error("", "API KEY invalid"), classify_error("", "api key invalid"));
    let words: Vec<char> = "permission denied".chars().collect();
    assert_eq!(classify_words(&words), 403);
    let upper: Vec<char> = "PERMISSION DENIED".chars().collect();
    assert_eq!(classify_words(&upper), 400);
}

#[test]
fn classification_ignores_ascii_case_beside_other_text() {
    assert_eq!(
        classify_error("Überlastung", "RATE LIMIT erreicht"),
        classify_error("Überlastung", "rate limit erreicht")
    );
    assert_eq!(classify_error("Überlastung", "Rate Limit erreicht"), 429);
    assert_eq!(classify_error("ΣΦΑΛΜΑ", "Forbidden"), 403);
}
