use xrl_router::ir::{
    IrContentBlock, IrMessage, IrRequest, IrRole, IrTool, IrToolChoice, IrToolResultContent,
};
use xrl_router::to_chat_completions::ir_req_to_chat_completions;
use xrl_router::json::{parse_json, Json};
use xrl_router::websearch::{
    ensure_websearch_tool, extract_final_text, extract_query_from_tool_input,
    extract_websearch_tool_calls, format_search_text, has_websearch_tool_ir, is_repetitive,
    normalize_query, prepare_forced_final_round, progress_comment, queries_repeat, SearchResult,
    brand_message_frames,
};

fn j(text: &str) -> Json {
    parse_json(text).expect("test JSON parses")
}

fn tool(name: &str) -> IrTool {
    IrTool { name: name.to_string(), description: None, input_schema: j("{}") }
}

fn request(tools: Vec<IrTool>, tool_choice: Option<IrToolChoice>) -> IrRequest {
    IrRequest {
        model: "test".to_string(),
        system: None,
        messages: vec![],
        tools,
        tool_choice,
        max_tokens: None,
        temperature: None,
        top_p: None,
        thinking: None,
        stream: false,
    }
}

#[test]
fn test_has_websearch_tool_ir() {
    assert!(has_websearch_tool_ir(&request(vec![tool("web_search")], None)));
    assert!(has_websearch_tool_ir(&request(vec![tool("WebSearch")], None)));
    assert!(!has_websearch_tool_ir(&request(vec![], None)));
}

#[test]
fn test_ensure_websearch_tool_injects_when_missing() {
    let mut req = request(vec![tool("other_tool")], None);
    assert!(!has_websearch_tool_ir(&req));
    ensure_websearch_tool(&mut req);
    assert!(has_websearch_tool_ir(&req));
    assert_eq!(req.tools.len(), 2);
    assert_eq!(req.tools[1].name, "web_search");
}

#[test]
fn test_ensure_websearch_tool_replaces_client_tools() {
    let mut req = request(vec![tool("WebSearch"), tool("web_search_20250305"), tool("Read")], None);
    ensure_websearch_tool(&mut req);
    let names: Vec<&str> = req.tools.iter().map(|t| t.name.as_str()).collect();
    assert_eq!(names, vec!["Read", "web_search"]);
    let schema = &req.tools[1].input_schema;
    let required = schema.get("required").unwrap();
    assert!(matches!(required, Json::Array(items) if items.len() == 1 && items[0].as_str() == Some("query")));
}

#[test]
fn test_ensure_websearch_tool_rewrites_tool_choice() {
    let mut req = request(
        vec![tool("WebSearch")],
        Some(IrToolChoice::Tool { name: "WebSearch".to_string() }),
    );
    ensure_websearch_tool(&mut req);
    assert!(matches!(req.tool_choice, Some(IrToolChoice::Tool { ref name }) if name == "web_search"));
    let mut req_other = request(vec![tool("Bash")], Some(IrToolChoice::Tool { name: "Bash".to_string() }));
    ensure_websearch_tool(&mut req_other);
    assert!(matches!(req_other.tool_choice, Some(IrToolChoice::Tool { ref name }) if name == "Bash"));
}

#[test]
fn test_ensure_websearch_tool_keeps_other_tools() {
    let mut req = request(vec![tool("Bash")], None);
    let tools_count = req.tools.len();
    ensure_websearch_tool(&mut req);
    assert_eq!(req.tools.len(), tools_count + 1);
    assert_eq!(req.tools[0].name, "Bash");
    assert_eq!(req.tools[1].name, "web_search");
}

#[test]
fn test_extract_query_from_tool_input() {
    assert_eq!(
        extract_query_from_tool_input(&j(r#"{"query": "今天北京天气"}"#)),
        Some("今天北京天气".to_string())
    );
    assert_eq!(
        extract_query_from_tool_input(&j(r#"{"q": "rust programming"}"#)),
        Some("rust programming".to_string())
    );
    assert_eq!(extract_query_from_tool_input(&j(r#"{"query": ""}"#)), None);
    assert_eq!(extract_query_from_tool_input(&j("{}")), None);
    assert_eq!(extract_query_from_tool_input(&j(r#"{"query": "  padded "}"#)), Some("padded".to_string()));
}

#[test]
fn test_extract_websearch_tool_calls() {
    let msg = IrMessage {
        role: IrRole::Assistant,
        content: vec![
            IrContentBlock::Text { text: "Let me search for that.".to_string(), cache_control: None },
            IrContentBlock::ToolUse {
                id: "tool_1".to_string(),
                name: "web_search".to_string(),
                input: j(r#"{"query": "test query"}"#),
            },
        ],
    };
    let calls = extract_websearch_tool_calls(&msg);
    assert_eq!(calls.len(), 1);
    assert_eq!(calls[0].0, "tool_1");
    let msg_other = IrMessage {
        role: IrRole::Assistant,
        content: vec![IrContentBlock::ToolUse {
            id: "tool_2".to_string(),
            name: "file_read".to_string(),
            input: j(r#"{"path": "/tmp/test"}"#),
        }],
    };
    assert!(extract_websearch_tool_calls(&msg_other).is_empty());
    assert_eq!(extract_final_text(&msg), "Let me search for that.");
}

#[test]
fn test_format_search_text() {
    let results = vec![SearchResult {
        title: "Test".to_string(),
        url: "https://example.com".to_string(),
        snippet: "A snippet".to_string(),
    }];
    let text = format_search_text(&results);
    assert!(text.contains("[1] Test"));
    assert!(text.contains("https://example.com"));
    assert!(text.contains("A snippet"));
    assert!(!text.contains("页面内容"));
}

#[test]
fn search_text_numbers_results_and_separates_them() {
    let results = vec![
        SearchResult { title: "A".into(), url: "u1".into(), snippet: "s1".into() },
        SearchResult { title: "B".into(), url: "u2".into(), snippet: "s2".into() },
    ];
    assert_eq!(format_search_text(&results), "[1] A\nu1\n摘要: s1\n\n[2] B\nu2\n摘要: s2");
    assert_eq!(format_search_text(&[]), "");
}

#[test]
fn queries_repeat_by_normalized_edit_distance() {
    assert!(queries_repeat("张雪峰 去世", "张雪峰 去世"));
    assert!(queries_repeat("张雪峰 去世 2026", "张雪峰 去世 2025"));
    assert!(!queries_repeat("今天北京天气", "Apple stock price"));
    assert!(queries_repeat("Zhang Xuefeng died", "zhang xuefeng  died"));
    assert!(!queries_repeat("", "anything"));
    assert!(queries_repeat("", ""));
    assert!(!queries_repeat("张雪峰 去世 辟谣", "张雪峰 高考 志愿"));
    assert_eq!(normalize_query(" A b\tC "), "abc");
}

#[test]
fn repetition_looks_at_the_last_two_queries() {
    let history = vec!["张雪峰 去世 辟谣".to_string()];
    assert!(is_repetitive(&history, &["张雪峰 去世 辟谣".to_string()]));
    assert!(!is_repetitive(&history, &["今天北京天气".to_string()]));
    let history = vec!["张雪峰 去世 2026".to_string(), "张雪峰 去世 辟谣".to_string()];
    assert!(!is_repetitive(&history, &["\"张雪峰\" 最新消息".to_string()]));
    let long = vec!["old".to_string(), "x1".to_string(), "x2".to_string()];
    assert!(!is_repetitive(&long, &["old".to_string()]));
}

#[test]
fn progress_comments_stay_on_one_line() {
    assert_eq!(progress_comment("a\nb\rc"), ": a b c\n\n");
}

// ---- similarity of queries (the float lives in the test; the library
// decides repetition with integers) ----

fn query_similarity(a: &str, b: &str) -> f64 {
    let a = normalize_query(a);
    let b = normalize_query(b);
    if a == b {
        return 1.0;
    }
    if a.is_empty() || b.is_empty() {
        return 0.0;
    }
    let ac: Vec<char> = a.chars().collect();
    let bc: Vec<char> = b.chars().collect();
    let max_len = ac.len().max(bc.len()) as f64;
    let dist = xrl_router::websearch::edit_distance_chars(&ac, &bc) as f64;
    1.0 - dist / max_len
}

#[test]
fn test_query_similarity_exact_match() {
    assert_eq!(query_similarity("张雪峰 去世", "张雪峰 去世"), 1.0);
    assert!(queries_repeat("张雪峰 去世", "张雪峰 去世"));
}

#[test]
fn test_query_similarity_close_match() {
    let s = query_similarity("张雪峰 去世 2026", "张雪峰 去世 2025");
    assert!(s >= 0.8, "close queries repeat: {}", s);
    assert!(queries_repeat("张雪峰 去世 2026", "张雪峰 去世 2025"));
}

#[test]
fn test_query_similarity_different() {
    let s = query_similarity("今天北京天气", "Apple stock price");
    assert!(s < 0.3, "unrelated queries do not repeat: {}", s);
    assert!(!queries_repeat("今天北京天气", "Apple stock price"));
}

#[test]
fn test_query_similarity_ignores_case_whitespace() {
    let s = query_similarity("Zhang Xuefeng died", "zhang xuefeng  died");
    assert_eq!(s, 1.0, "case and spacing do not count: {}", s);
    assert!(queries_repeat("Zhang Xuefeng died", "zhang xuefeng  died"));
}

#[test]
fn test_query_similarity_empty() {
    assert_eq!(query_similarity("", "anything"), 0.0);
    assert_eq!(query_similarity("", ""), 1.0);
    assert!(!queries_repeat("", "anything"));
    assert!(queries_repeat("", ""));
}

#[test]
fn test_query_similarity_partial_overlap() {
    let s = query_similarity("张雪峰 去世 辟谣", "张雪峰 高考 志愿");
    assert!(s > 0.3 && s < 0.8, "partial overlap is middling: {}", s);
}

#[test]
fn test_no_progress_detection_same_query() {
    let history = vec!["张雪峰 去世 辟谣".to_string()];
    let round_queries = vec!["张雪峰 去世 辟谣".to_string()];
    assert!(is_repetitive(&history, &round_queries), "the same query is no progress");
}

#[test]
fn test_no_progress_detection_different_query() {
    let history = vec!["张雪峰 去世 辟谣".to_string()];
    let round_queries = vec!["今天北京天气".to_string()];
    assert!(!is_repetitive(&history, &round_queries), "a different query is progress");
}

#[test]
fn test_no_progress_detection_similar_but_progress() {
    let history = vec!["张雪峰 去世 2026".to_string(), "张雪峰 去世 辟谣".to_string()];
    let round_queries = vec!["\"张雪峰\" 最新消息".to_string()];
    assert!(!is_repetitive(&history, &round_queries), "a new query is progress");
}

#[test]
fn no_progress_looks_at_the_last_two_queries_only() {
    let history = vec!["今天北京天气".to_string(), "a".to_string(), "b".to_string()];
    let round_queries = vec!["今天北京天气".to_string()];
    assert!(!is_repetitive(&history, &round_queries));
    let history = vec!["今天北京天气".to_string(), "a".to_string()];
    assert!(is_repetitive(&history, &round_queries));
}

// ---- progress comments ----

#[test]
fn test_send_progress_comment_format() {
    let s = progress_comment("正在搜索 \"张雪峰 2026\"");
    assert!(s.starts_with(": "), "a comment starts with a colon: {:?}", s);
    assert!(s.ends_with("\n\n"), "a comment ends the frame: {:?}", s);
    assert!(s.contains("正在搜索"));
}

#[test]
fn test_send_progress_comment_escapes_newline() {
    let s = progress_comment("line1\nline2\rline3");
    let body = s.trim_end_matches('\n');
    assert!(!body.contains('\n'), "no newline inside: {:?}", s);
    assert!(!body.contains('\r'), "no carriage return inside: {:?}", s);
    assert!(body.contains("line1 line2 line3"), "breaks become spaces: {:?}", s);
    assert_eq!(s, ": line1 line2 line3\n\n");
}

// ---- the forced final round ----

fn text_msg(role: IrRole, text: &str) -> IrMessage {
    IrMessage { role, content: vec![IrContentBlock::Text { text: text.to_string(), cache_control: None }] }
}

#[test]
fn test_exhausted_loop_cleans_tool_history() {
    let mut req = request(vec![tool("web_search")], Some(IrToolChoice::Auto));
    req.model = "qwen3.7-max".to_string();
    req.stream = true;
    req.messages = vec![
        text_msg(IrRole::User, "张雪峰是否去世了？"),
        IrMessage {
            role: IrRole::Assistant,
            content: vec![IrContentBlock::ToolUse {
                id: "call_1".to_string(),
                name: "web_search".to_string(),
                input: j(r#"{"query": "张雪峰 去世"}"#),
            }],
        },
        IrMessage {
            role: IrRole::User,
            content: vec![IrContentBlock::ToolResult {
                tool_use_id: "call_1".to_string(),
                content: IrToolResultContent::Text("[1] 张雪峰 2026-03-25 去世".to_string()),
                is_error: false,
            }],
        },
        IrMessage {
            role: IrRole::Assistant,
            content: vec![IrContentBlock::ToolUse {
                id: "call_2".to_string(),
                name: "web_search".to_string(),
                input: j(r#"{"query": "张雪峰 辟谣"}"#),
            }],
        },
        IrMessage {
            role: IrRole::User,
            content: vec![IrContentBlock::ToolResult {
                tool_use_id: "call_2".to_string(),
                content: IrToolResultContent::Text("[1] 官方讣告已发布".to_string()),
                is_error: false,
            }],
        },
    ];
    prepare_forced_final_round(&mut req);
    assert_eq!(req.messages.len(), 2, "the question and the search results remain");
    assert!(!req.messages[1].content.iter().any(|b| matches!(b, IrContentBlock::ToolUse { .. })));
    assert!(req.messages[1]
        .content
        .iter()
        .any(|b| matches!(b, IrContentBlock::Text { text, .. } if text.contains("张雪峰 2026-03-25 去世"))));
    assert!(req.messages[1]
        .content
        .iter()
        .any(|b| matches!(b, IrContentBlock::Text { text, .. } if text.contains("官方讣告已发布"))));
    assert!(req.tools.is_empty(), "the search tool is withdrawn");
    assert!(matches!(req.tool_choice, Some(IrToolChoice::NoTools)));
    match &req.messages[1].content[0] {
        IrContentBlock::Text { text, .. } => assert_eq!(
            text,
            "以下是网络搜索获得的相关信息，请基于这些信息回答用户的问题，不要再调用任何工具：\n\n[1] 张雪峰 2026-03-25 去世\n\n[1] 官方讣告已发布"
        ),
        _ => panic!("expected the summary text"),
    }
}

#[test]
fn forced_final_round_keeps_other_tools_and_adds_nothing_without_results() {
    let mut req = request(vec![tool("web_search_20250305"), tool("Read")], Some(IrToolChoice::Any));
    req.messages = vec![text_msg(IrRole::User, "hi")];
    prepare_forced_final_round(&mut req);
    assert_eq!(req.messages.len(), 1);
    assert_eq!(req.tools.len(), 1);
    assert_eq!(req.tools[0].name, "Read");
    assert!(matches!(req.tool_choice, Some(IrToolChoice::NoTools)));
}

#[test]
fn test_exhausted_loop_chat_completions_no_tool_readd() {
    let mut req = request(vec![], Some(IrToolChoice::NoTools));
    req.model = "qwen3.7-max".to_string();
    req.stream = true;
    req.messages = vec![
        text_msg(IrRole::User, "问题"),
        text_msg(
            IrRole::User,
            "以下是网络搜索获得的相关信息，请基于这些信息回答用户的问题，不要再调用任何工具：\n\n[1] 结果",
        ),
    ];
    let v = ir_req_to_chat_completions(&req);
    assert!(v.get("tools").is_none() || v.array_at("tools").unwrap().is_empty());
    assert_eq!(v.str_at("tool_choice"), Some("none"));
    assert_eq!(v.array_at("messages").unwrap().len(), 2);
}

// ---- the brand message ----

#[test]
fn test_emit_preliminary_brand_message_full_stream() {
    let frames = brand_message_frames("msg_brand", "gpt-4o", &vec!["蔡徐坤 2026 近况".to_string()]);
    let s: String = frames.concat();
    assert!(s.contains("event: message_start"));
    assert!(s.contains("\"id\":\"msg_brand\""));
    assert!(s.contains("event: content_block_start"));
    assert!(s.contains("\"type\":\"text\""));
    assert!(s.contains("event: content_block_delta"));
    assert!(s.contains("WebSearch Powered by XRL Router"));
    assert!(s.contains("蔡徐坤 2026 近况"));
    assert!(s.contains("event: content_block_stop"));
    assert!(s.contains("event: message_delta"));
    assert!(s.contains("event: message_stop"));
    assert_eq!(frames.len(), 6);
    assert!(frames[2].contains("🌐 WebSearch Powered by XRL Router | 关键词: 蔡徐坤 2026 近况"));
    assert!(frames[4].contains("\"stop_reason\":\"end_turn\""));
}

#[test]
fn test_emit_preliminary_brand_message_multiple_queries() {
    let frames = brand_message_frames(
        "msg_multi",
        "opus-3",
        &vec!["查询1".to_string(), "查询2".to_string(), "查询3".to_string()],
    );
    let s: String = frames.concat();
    assert!(s.contains("查询1"));
    assert!(s.contains("查询2"));
    assert!(s.contains("查询3"));
    assert_eq!(s.matches("WebSearch Powered by XRL Router").count(), 3);
    assert!(frames[2].contains("关键词: 查询1\\n🌐 WebSearch Powered by XRL Router | 关键词: 查询2"));
}
