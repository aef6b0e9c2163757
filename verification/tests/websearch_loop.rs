use xrl_router::ir::{IrContentBlock, IrMessage, IrRequest, IrRole, IrTool, IrToolChoice, IrUsage};
use xrl_router::json::{parse_json, Json};
use xrl_router::stream::ClientFormat;
use xrl_router::websearch_loop::{LoopAction, LoopEvent, LoopPhase, WebSearchLoop};

fn j(text: &str) -> Json {
    parse_json(text).expect("test JSON parses")
}

fn base_request() -> IrRequest {
    IrRequest {
        model: "m".to_string(),
        system: None,
        messages: vec![IrMessage {
            role: IrRole::User,
            content: vec![IrContentBlock::Text { text: "question".to_string(), cache_control: None }],
        }],
        tools: vec![
            IrTool { name: "web_search".to_string(), description: None, input_schema: j("{}") },
            IrTool { name: "Read".to_string(), description: None, input_schema: j("{}") },
        ],
        tool_choice: Some(IrToolChoice::Auto),
        max_tokens: None,
        temperature: None,
        top_p: None,
        thinking: None,
        stream: true,
    }
}

fn usage(out: u64) -> IrUsage {
    IrUsage { input_tokens: 10, output_tokens: out, cache_read_input_tokens: 0, cache_creation_input_tokens: 0, output_chars: 0 }
}

fn text_answer(text: &str) -> LoopEvent {
    LoopEvent::Answered {
        msg_id: "msg_1".to_string(),
        model: "m".to_string(),
        assistant: IrMessage {
            role: IrRole::Assistant,
            content: vec![IrContentBlock::Text { text: text.to_string(), cache_control: None }],
        },
        usage: usage(5),
        stream_error: None,
    }
}

fn search_answer(id: &str, query: &str) -> LoopEvent {
    LoopEvent::Answered {
        msg_id: "msg_1".to_string(),
        model: "m".to_string(),
        assistant: IrMessage {
            role: IrRole::Assistant,
            content: vec![IrContentBlock::ToolUse {
                id: id.to_string(),
                name: "web_search".to_string(),
                input: j(&format!("{{\"query\": \"{}\"}}", query)),
            }],
        },
        usage: usage(3),
        stream_error: None,
    }
}

fn step(l: &mut WebSearchLoop, ev: LoopEvent) -> LoopAction {
    assert!(l.fits(&ev), "the event fits the phase");
    l.step(ev)
}

#[test]
fn loop_ends_when_the_model_answers_without_searching() {
    let (mut l, a) = WebSearchLoop::new(base_request(), ClientFormat::ChatCompletions);
    assert!(matches!(a, LoopAction::SendRound));
    match step(&mut l, text_answer("the answer")) {
        LoopAction::Final { text } => assert_eq!(text, "the answer"),
        _ => panic!("expected the final answer"),
    }
    assert_eq!(l.phase, LoopPhase::Done);
    assert_eq!(l.total_usage.output_tokens, 5);
}

#[test]
fn a_search_round_hands_results_back() {
    let (mut l, _) = WebSearchLoop::new(base_request(), ClientFormat::Messages);
    match step(&mut l, search_answer("call_1", "rust verus")) {
        LoopAction::Search { frames, calls } => {
            assert_eq!(calls.len(), 1);
            assert_eq!(calls[0].0, "call_1");
            assert_eq!(frames[0], ": websearch: 模型调用 web_search 工具，正在搜索 \"rust verus\"\n\n");
            assert_eq!(frames.len(), 7, "one progress comment and the six frames of the announcement");
            assert!(frames[3].contains("🌐 WebSearch Powered by XRL Router | 关键词: rust verus"));
        },
        _ => panic!("expected searches"),
    }
    assert!(l.brand_sent);
    assert_eq!(l.history, vec!["rust verus".to_string()]);
    assert!(!l.fits(&text_answer("x")), "results are awaited");
    assert!(!l.fits(&LoopEvent::SearchResults(vec![])), "one result per call");
    assert!(matches!(step(&mut l, LoopEvent::SearchResults(vec!["[1] result".to_string()])), LoopAction::SendRound));
    assert_eq!(l.round, 1);
    assert_eq!(l.request.messages.len(), 3);
    assert!(matches!(l.request.tool_choice, Some(IrToolChoice::Auto)));
    match &l.request.messages[2].content[0] {
        IrContentBlock::ToolResult { tool_use_id, is_error, .. } => {
            assert_eq!(tool_use_id, "call_1");
            assert!(!is_error);
        },
        _ => panic!("expected a tool result"),
    }
    // The announcement is not sent twice.
    match step(&mut l, search_answer("call_2", "completely different topic")) {
        LoopAction::Search { frames, .. } => assert_eq!(frames.len(), 1),
        _ => panic!("expected searches"),
    }
}

#[test]
fn repeating_a_query_forces_the_last_round() {
    let (mut l, _) = WebSearchLoop::new(base_request(), ClientFormat::ChatCompletions);
    assert!(matches!(step(&mut l, search_answer("c1", "张雪峰 去世 辟谣")), LoopAction::Search { .. }));
    assert!(matches!(step(&mut l, LoopEvent::SearchResults(vec!["[1] 官方讣告".to_string()])), LoopAction::SendRound));
    match step(&mut l, search_answer("c2", "张雪峰 去世 辟谣")) {
        LoopAction::SendForced { frames } => {
            assert_eq!(frames, vec![": websearch: 搜索完成，正在基于搜索结果生成回答…\n\n".to_string()]);
        },
        _ => panic!("expected the forced round"),
    }
    assert_eq!(l.phase, LoopPhase::ForcedAnswer);
    assert!(matches!(l.request.tool_choice, Some(IrToolChoice::NoTools)));
    assert_eq!(l.request.tools.len(), 1);
    assert_eq!(l.request.tools[0].name, "Read");
    assert_eq!(l.request.messages.len(), 2);
    match step(&mut l, text_answer("done")) {
        LoopAction::Final { text } => assert_eq!(text, "done"),
        _ => panic!("expected the final answer"),
    }
    assert_eq!(l.total_usage.output_tokens, 3 + 3 + 5, "every answered round counts");
}

#[test]
fn running_out_of_rounds_forces_the_last_round() {
    let (mut l, _) = WebSearchLoop::new(base_request(), ClientFormat::ChatCompletions);
    let topics = ["alpha", "bravo zulu", "charlie x", "delta 42", "echo park", "foxtrot uniform", "golf club", "hotel room", "india ink", "juliet balcony"];
    for (i, t) in topics.iter().enumerate() {
        assert!(matches!(step(&mut l, search_answer(&format!("c{}", i), t)), LoopAction::Search { .. }), "round {}", i);
        let a = step(&mut l, LoopEvent::SearchResults(vec![format!("result {}", i)]));
        if i + 1 < topics.len() {
            assert!(matches!(a, LoopAction::SendRound), "round {}", i);
        } else {
            assert!(matches!(a, LoopAction::SendForced { .. }));
        }
    }
    assert_eq!(l.round, 10);
    assert_eq!(l.phase, LoopPhase::ForcedAnswer);
    assert!(l.request.tools.iter().all(|t| !t.name.starts_with("web_search")));
}

#[test]
fn errors_before_and_after_output() {
    let (mut l, _) = WebSearchLoop::new(base_request(), ClientFormat::Messages);
    let ev = LoopEvent::Answered {
        msg_id: String::new(),
        model: String::new(),
        assistant: IrMessage { role: IrRole::Assistant, content: vec![] },
        usage: IrUsage::default(),
        stream_error: Some((429, "slow down".to_string())),
    };
    match step(&mut l, ev) {
        LoopAction::KeyError { status, message } => {
            assert_eq!(status, 429);
            assert_eq!(message, "slow down");
        },
        _ => panic!("expected a key error"),
    }
    let (mut l, _) = WebSearchLoop::new(base_request(), ClientFormat::Messages);
    assert!(matches!(step(&mut l, search_answer("c1", "q")), LoopAction::Search { .. }));
    assert!(matches!(step(&mut l, LoopEvent::SearchResults(vec!["r".to_string()])), LoopAction::SendRound));
    let ev = LoopEvent::Answered {
        msg_id: String::new(),
        model: String::new(),
        assistant: IrMessage { role: IrRole::Assistant, content: vec![] },
        usage: IrUsage::default(),
        stream_error: Some((429, "slow down".to_string())),
    };
    match step(&mut l, ev) {
        LoopAction::DeliverError { frame } => assert!(frame.starts_with("event: error\ndata: ") && frame.contains("slow down")),
        _ => panic!("expected the error to be delivered"),
    }
    let (mut l, _) = WebSearchLoop::new(base_request(), ClientFormat::ChatCompletions);
    match step(&mut l, LoopEvent::SendFailed("Upstream request timed out".to_string())) {
        LoopAction::DeliverError { frame } => assert!(frame.ends_with("data: [DONE]\n\n")),
        _ => panic!("expected the error to be delivered"),
    }
    assert!(!l.fits(&text_answer("late")));
}
