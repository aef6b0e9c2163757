use xrl_router::from_chat_completions::chat_completions_req_to_ir;
use xrl_router::from_messages::messages_req_to_ir;
use xrl_router::to_chat_completions::ir_req_to_chat_completions;
use xrl_router::ir::{
    IrContentBlock, IrImageSource, IrMessage, IrRequest, IrRole, IrSystemBlock, IrSystemContent,
    IrThinkingConfig, IrTool, IrToolChoice, IrToolResultContent,
};
use xrl_router::json::{parse_json, Json, JsonNumber};
use xrl_router::to_messages::ir_req_to_messages;

fn j(text: &str) -> Json {
    parse_json(text).expect("test JSON parses")
}

#[test]
fn anthropic_bodies_read_back_as_written() {
    let req = IrRequest {
        model: "opus-4-8".to_string(),
        system: Some(IrSystemContent::Blocks(vec![
            IrSystemBlock { text: "be brief".to_string(), cache_control: Some(j(r#"{"type":"ephemeral"}"#)) },
            IrSystemBlock { text: "be kind".to_string(), cache_control: None },
        ])),
        messages: vec![
            IrMessage {
                role: IrRole::User,
                content: vec![
                    IrContentBlock::Text { text: "look".to_string(), cache_control: None },
                    IrContentBlock::Image {
                        source: IrImageSource::Base64 { media_type: "image/png".to_string(), data: "AAAA".to_string() },
                    },
                ],
            },
            IrMessage {
                role: IrRole::Assistant,
                content: vec![
                    IrContentBlock::Thinking { thinking: "hmm".to_string(), signature: Some("sig".to_string()) },
                    IrContentBlock::ToolUse { id: "t1".to_string(), name: "search".to_string(), input: j(r#"{"q":"x"}"#) },
                ],
            },
            IrMessage {
                role: IrRole::User,
                content: vec![IrContentBlock::ToolResult {
                    tool_use_id: "t1".to_string(),
                    content: IrToolResultContent::Blocks(vec![IrContentBlock::Text {
                        text: "found".to_string(),
                        cache_control: None,
                    }]),
                    is_error: true,
                }],
            },
            IrMessage { role: IrRole::Assistant, content: vec![] },
        ],
        tools: vec![IrTool {
            name: "search".to_string(),
            description: Some("Search".to_string()),
            input_schema: j(r#"{"type":"object"}"#),
        }],
        tool_choice: Some(IrToolChoice::Tool { name: "search".to_string() }),
        max_tokens: Some(4096),
        temperature: Some(JsonNumber::Float("0.5".to_string())),
        top_p: Some(JsonNumber::PosInt(1)),
        thinking: Some(IrThinkingConfig { enabled: true, budget_tokens: Some(2048) }),
        stream: true,
    };
    let back = messages_req_to_ir(&ir_req_to_messages(&req));
    assert_eq!(format!("{:?}", back), format!("{:?}", req));
}

#[test]
fn empty_user_messages_do_not_come_back() {
    let req = IrRequest {
        model: "m".to_string(),
        system: None,
        messages: vec![IrMessage { role: IrRole::User, content: vec![] }],
        tools: vec![],
        tool_choice: None,
        max_tokens: None,
        temperature: None,
        top_p: None,
        thinking: None,
        stream: false,
    };
    let back = messages_req_to_ir(&ir_req_to_messages(&req));
    assert!(back.messages.is_empty());
}

#[test]
fn chat_bodies_read_back_their_settings() {
    for (budget, tc) in [
        (1024u64, IrToolChoice::Auto),
        (4096, IrToolChoice::Any),
        (16384, IrToolChoice::NoTools),
    ] {
        let req = IrRequest {
            model: "gpt-4o".to_string(),
            system: Some(IrSystemContent::Text("be brief".to_string())),
            messages: vec![IrMessage {
                role: IrRole::User,
                content: vec![IrContentBlock::Text { text: "hi".to_string(), cache_control: None }],
            }],
            tools: vec![
                IrTool { name: "search".to_string(), description: Some("Search".to_string()), input_schema: j(r#"{"type":"object"}"#) },
                IrTool { name: "fetch".to_string(), description: None, input_schema: j(r#"{"type":"object","properties":{}}"#) },
            ],
            tool_choice: Some(tc),
            max_tokens: Some(777),
            temperature: None,
            top_p: None,
            thinking: Some(IrThinkingConfig { enabled: true, budget_tokens: Some(budget) }),
            stream: true,
        };
        let back = chat_completions_req_to_ir(&ir_req_to_chat_completions(&req));
        assert_eq!(back.model, req.model);
        assert_eq!(back.stream, req.stream);
        assert_eq!(back.max_tokens, req.max_tokens);
        assert_eq!(format!("{:?}", back.tools), format!("{:?}", req.tools));
        assert_eq!(format!("{:?}", back.tool_choice), format!("{:?}", req.tool_choice));
        assert_eq!(format!("{:?}", back.thinking), format!("{:?}", req.thinking));
    }
    let named = IrRequest {
        model: "m".to_string(),
        system: None,
        messages: vec![],
        tools: vec![],
        tool_choice: Some(IrToolChoice::Tool { name: "search".to_string() }),
        max_tokens: None,
        temperature: None,
        top_p: None,
        thinking: None,
        stream: false,
    };
    let back = chat_completions_req_to_ir(&ir_req_to_chat_completions(&named));
    assert_eq!(format!("{:?}", back.tool_choice), format!("{:?}", named.tool_choice));
    assert!(back.thinking.is_none() && back.max_tokens.is_none() && back.tools.is_empty());
}
