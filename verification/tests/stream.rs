use xrl_router::ir::{IrRequest, IrSystemContent, IrTool, IrToolChoice};
use xrl_router::json::Json;
use xrl_router::stream::{
    error_message_of, extract_error_message, inject_notify_hint, is_fetch_tool_name,
    is_key_quota_error, is_key_quota_json,
    is_notify_tool_name, is_search_tool_name, strip_fetch_tools, strip_notify_tools,
    strip_search_tools, NOTIFY_HINT_HEAD,
};

fn tool(name: &str) -> IrTool {
    IrTool { name: name.to_string(), description: None, input_schema: Json::Null }
}

fn request(tools: Vec<IrTool>, tool_choice: Option<IrToolChoice>) -> IrRequest {
    IrRequest {
        model: "m".to_string(),
        system: None,
        messages: vec![],
        tools,
        tool_choice,
        max_tokens: None,
        temperature: None,
        top_p: None,
        thinking: None,
        stream: true,
    }
}

#[test]
fn test_is_key_quota_error_quota_exceeded_code() {
    assert!(is_key_quota_error(r#"{"error":{"code":"quotaExceeded","message":"Insufficient quota"}}"#));
}

#[test]
fn test_is_key_quota_error_insufficient_quota_type() {
    assert!(is_key_quota_error(r#"{"error":{"type":"insufficient_quota","message":"You exceeded your current quota"}}"#));
}

#[test]
fn test_is_key_quota_error_quota_in_message() {
    assert!(is_key_quota_error(r#"{"error":{"message":"Rate limit reached for requests, quota exceeded"}}"#));
}

#[test]
fn test_is_key_quota_error_insufficient_in_message() {
    assert!(is_key_quota_error(r#"{"error":{"message":"Insufficient funds"}}"#));
}

#[test]
fn test_is_key_quota_error_not_quota_400() {
    assert!(!is_key_quota_error(r#"{"error":{"type":"invalid_request_error","message":"model is required"}}"#));
}

#[test]
fn test_is_key_quota_error_empty_body() {
    assert!(!is_key_quota_error(""));
}

#[test]
fn test_is_key_quota_error_non_json() {
    assert!(!is_key_quota_error("<html>502 Bad Gateway</html>"));
}

#[test]
fn test_is_key_quota_error_no_error_field() {
    assert!(!is_key_quota_error(r#"{"message":"some other error"}"#));
}

#[test]
fn test_is_key_quota_error_case_insensitive() {
    assert!(is_key_quota_error(r#"{"error":{"code":"QUOTA_EXCEEDED","message":"INSUFFICIENT QUOTA"}}"#));
}

#[test]
fn error_message_prefers_error_message_then_message_then_body() {
    assert_eq!(extract_error_message(r#"{"error":{"message":"bad"}}"#), "bad");
    assert_eq!(extract_error_message(r#"{"message":"top"}"#), "top");
    assert_eq!(extract_error_message("plain"), "plain");
    assert_eq!(extract_error_message(""), "upstream error");
}

#[test]
fn tool_families_by_name() {
    assert!(is_search_tool_name("web_search_20250305"));
    assert!(is_search_tool_name("websearch"));
    assert!(!is_search_tool_name("search"));
    assert!(is_fetch_tool_name("WEBFETCH"));
    assert!(is_notify_tool_name("PushNotification"));
    assert!(is_notify_tool_name("notify_user"));
    assert!(is_notify_tool_name("desktop_notification"));
    assert!(!is_notify_tool_name("mcp__xrl-tools__notify"));
}

#[test]
fn strips_keep_other_tools_and_reset_forced_choice() {
    let mut req = request(
        vec![tool("WebSearch"), tool("Read"), tool("web_fetch")],
        Some(IrToolChoice::Tool { name: "WebSearch".to_string() }),
    );
    strip_search_tools(&mut req);
    let names: Vec<&str> = req.tools.iter().map(|t| t.name.as_str()).collect();
    assert_eq!(names, vec!["Read", "web_fetch"]);
    assert!(matches!(req.tool_choice, Some(IrToolChoice::Auto)));
    strip_fetch_tools(&mut req);
    assert_eq!(req.tools.len(), 1);
    let mut req = request(vec![tool("send_notification"), tool("mcp__x__notify")], None);
    strip_notify_tools(&mut req);
    assert_eq!(req.tools.len(), 1);
    assert_eq!(req.tools[0].name, "mcp__x__notify");
}

#[test]
fn notify_hint_names_the_first_mcp_notify_tool() {
    let mut req = request(vec![tool("Read"), tool("mcp__xrl-tools__Notify"), tool("mcp__b__notify")], None);
    inject_notify_hint(&mut req);
    match &req.system {
        Some(IrSystemContent::Text(t)) => {
            assert!(t.starts_with(NOTIFY_HINT_HEAD));
            assert!(t.contains("`mcp__xrl-tools__Notify` MCP tool"));
        }
        _ => panic!("expected a text system prompt"),
    }
    let mut plain = request(vec![tool("notify")], None);
    inject_notify_hint(&mut plain);
    assert!(plain.system.is_none());
}

#[test]
fn streamed_errors_by_protocol() {
    use_error_frames();
}

fn use_error_frames() {
    use_frames_inner(xrl_router::stream::ClientFormat::Messages);
    let s = xrl_router::stream::error_event_frame(xrl_router::stream::ClientFormat::Messages, "api_error", "boom");
    assert_eq!(s, "event: error\ndata: {\"error\":{\"message\":\"boom\",\"type\":\"api_error\"},\"type\":\"error\"}\n\n");
    let s = xrl_router::stream::error_event_frame(xrl_router::stream::ClientFormat::ChatCompletions, "api_error", "boom");
    assert_eq!(s, "data: {\"error\":{\"code\":null,\"message\":\"boom\",\"type\":\"api_error\"}}\n\ndata: [DONE]\n\n");
    let s = xrl_router::stream::error_event_frame(xrl_router::stream::ClientFormat::Responses, "api_error", "boom");
    assert!(s.starts_with("event: response.failed\ndata: {"));
    assert!(s.contains("\"status\":\"failed\""));
    assert!(s.contains("\"output\":[]"));
    assert!(s.ends_with("\n\n"));
}

fn use_frames_inner(f: xrl_router::stream::ClientFormat) {
    let b = xrl_router::stream::error_body(f, "rate_limit_error", "slow");
    assert_eq!(b.str_at("type"), Some("error"));
    let e = b.get("error").unwrap();
    assert_eq!(e.str_at("type"), Some("rate_limit_error"));
    let b = xrl_router::stream::error_body(xrl_router::stream::ClientFormat::Responses, "rate_limit_error", "slow");
    assert_eq!(b.get("error").unwrap().str_at("code"), Some("rate_limit_error"));
    let b = xrl_router::stream::error_body(xrl_router::stream::ClientFormat::ChatCompletions, "x", "y");
    assert!(b.get("error").unwrap().get("code").is_some());
}

#[test]
fn parsed_error_documents_decide_alike() {
    let v = xrl_router::json::parse_json(r#"{"error":{"code":"QUOTA_EXCEEDED","message":"m"}}"#).unwrap();
    assert!(is_key_quota_json(&v));
    assert_eq!(error_message_of(&v), Some("m".to_string()));
    let w = xrl_router::json::parse_json(r#"{"error":null,"message":"top"}"#).unwrap();
    assert!(!is_key_quota_json(&w));
    assert_eq!(error_message_of(&w), Some("top".to_string()));
    let x = xrl_router::json::parse_json(r#"{"detail":"x"}"#).unwrap();
    assert_eq!(error_message_of(&x), None);
}
