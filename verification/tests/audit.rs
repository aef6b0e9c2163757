use xrl_router::audit::{
    compute_fingerprint, extract_first_user_message, extract_last_message,
    extract_last_message_raw, sanitize_messages, sanitize_tool_result, strip_system_tags,
    truncate_chars,
};
use xrl_router::ir::{IrContentBlock, IrImageSource, IrMessage, IrRole, IrToolResultContent};
use xrl_router::json::parse_json;

fn user_msg(text: &str) -> IrMessage {
    IrMessage {
        role: IrRole::User,
        content: vec![IrContentBlock::Text { text: text.to_string(), cache_control: None }],
    }
}

fn assistant_msg(text: &str) -> IrMessage {
    IrMessage {
        role: IrRole::Assistant,
        content: vec![IrContentBlock::Text { text: text.to_string(), cache_control: None }],
    }
}

#[test]
fn test_fingerprint_stable() {
    let msgs = vec![user_msg("你好"), assistant_msg("你好！有什么可以帮您？"), user_msg("写个诗")];
    let fp1 = compute_fingerprint("sk-1", &msgs);
    let fp2 = compute_fingerprint("sk-1", &msgs);
    assert_eq!(fp1, fp2, "same input → same fingerprint");
    let fp3 = compute_fingerprint("sk-2", &msgs);
    assert_ne!(fp1, fp3);
}

#[test]
fn test_fingerprint_different_conversations() {
    let msgs_a = vec![user_msg("写首诗")];
    let msgs_b = vec![user_msg("帮我写代码")];
    assert_ne!(compute_fingerprint("sk-1", &msgs_a), compute_fingerprint("sk-1", &msgs_b));
}

#[test]
fn test_fingerprint_uses_first_3_messages() {
    let msgs_short = vec![user_msg("hello"), assistant_msg("hi")];
    let msgs_long = vec![
        user_msg("hello"),
        assistant_msg("hi"),
        user_msg("how are you"),
        assistant_msg("I'm fine"),
    ];
    assert_ne!(compute_fingerprint("sk", &msgs_short), compute_fingerprint("sk", &msgs_long));
}

#[test]
fn fingerprint_ignores_messages_after_the_third() {
    let a = vec![user_msg("a"), assistant_msg("b"), user_msg("c"), assistant_msg("d")];
    let b = vec![user_msg("a"), assistant_msg("b"), user_msg("c"), assistant_msg("something else")];
    assert_eq!(compute_fingerprint("sk", &a), compute_fingerprint("sk", &b));
}

#[test]
fn fingerprint_is_sha256_hex_of_material() {
    // the material is "sk:user:hi"; its SHA-256 is fixed
    let fp = compute_fingerprint("sk", &[user_msg("hi")]);
    assert_eq!(fp.len(), 64);
    assert!(fp.chars().all(|c| c.is_ascii_hexdigit() && !c.is_ascii_uppercase()));
    assert_ne!(fp, compute_fingerprint("sk", &[assistant_msg("hi")]));
}

#[test]
fn test_sanitize_strips_images() {
    let msgs = vec![IrMessage {
        role: IrRole::User,
        content: vec![
            IrContentBlock::Text {
                text: "看看这张图".to_string(),
                cache_control: parse_json(r#"{"type": "ephemeral"}"#),
            },
            IrContentBlock::Image {
                source: IrImageSource::Base64 {
                    media_type: "image/png".to_string(),
                    data: "iVBORw0KGgo...".to_string(),
                },
            },
        ],
    }];
    let sanitized = sanitize_messages(&msgs);
    assert_eq!(sanitized[0].content.len(), 2);
    match &sanitized[0].content[1] {
        IrContentBlock::Text { text, cache_control } => {
            assert_eq!(text, "[image]");
            assert!(cache_control.is_none());
        }
        _ => panic!("expected text block"),
    }
    match &sanitized[0].content[0] {
        IrContentBlock::Text { cache_control, .. } => assert!(cache_control.is_none()),
        _ => panic!("expected text block"),
    }
}

#[test]
fn sanitize_cuts_long_text_and_tool_results() {
    let long = "x".repeat(10_050);
    let msgs = vec![IrMessage {
        role: IrRole::User,
        content: vec![
            IrContentBlock::Text { text: long.clone(), cache_control: None },
            IrContentBlock::ToolResult {
                tool_use_id: "t".to_string(),
                content: IrToolResultContent::Blocks(vec![IrContentBlock::Image {
                    source: IrImageSource::Url { url: "u".to_string() },
                }]),
                is_error: true,
            },
        ],
    }];
    let s = sanitize_messages(&msgs);
    match &s[0].content[0] {
        IrContentBlock::Text { text, .. } => assert_eq!(text.chars().count(), 10_000),
        _ => panic!("expected text"),
    }
    match &s[0].content[1] {
        IrContentBlock::ToolResult { content: IrToolResultContent::Blocks(bs), is_error, .. } => {
            assert!(*is_error);
            assert!(matches!(&bs[0], IrContentBlock::Text { text, .. } if text == "[image]"));
        }
        _ => panic!("expected tool result"),
    }
}

#[test]
fn test_extract_first_user() {
    let msgs = vec![assistant_msg("系统欢迎"), user_msg("你好世界"), user_msg("再见")];
    assert_eq!(extract_first_user_message(&msgs), "你好世界");
}

#[test]
fn test_extract_last_message() {
    let msgs = vec![user_msg("你好"), assistant_msg("你好！"), user_msg("写个诗")];
    assert_eq!(extract_last_message(&msgs), "写个诗");
}

#[test]
fn test_extract_last_message_empty() {
    let msgs: Vec<IrMessage> = vec![];
    assert_eq!(extract_last_message(&msgs), "");
}

#[test]
fn last_message_strips_tags_and_trims() {
    let msgs = vec![user_msg("  <system-reminder>note</system-reminder> 你好 \n")];
    assert_eq!(extract_last_message(&msgs), "note 你好");
    assert_eq!(
        extract_last_message_raw(&msgs),
        "<system-reminder>note</system-reminder> 你好"
    );
    assert_eq!(strip_system_tags("<task-notification>a</task-notification>b"), "ab");
}

#[test]
fn preview_is_cut_to_100_chars() {
    let msgs = vec![user_msg(&"字".repeat(150))];
    assert_eq!(extract_first_user_message(&msgs).chars().count(), 100);
    assert_eq!(truncate_chars("abcdef", 3), "abc");
    assert_eq!(truncate_chars("ab", 3), "ab");
}

#[test]
fn sanitize_strips_images_at_every_depth() {
    let nested = IrToolResultContent::Blocks(vec![IrContentBlock::ToolResult {
        tool_use_id: "t".into(),
        content: IrToolResultContent::Blocks(vec![IrContentBlock::Image {
            source: IrImageSource::Base64 { media_type: "image/png".into(), data: "AAAA".into() },
        }]),
        is_error: false,
    }]);
    let out = sanitize_tool_result(&nested);
    assert_eq!(
        format!("{:?}", out),
        format!(
            "{:?}",
            IrToolResultContent::Blocks(vec![IrContentBlock::ToolResult {
                tool_use_id: "t".into(),
                content: IrToolResultContent::Blocks(vec![IrContentBlock::Text {
                    text: "[image]".into(),
                    cache_control: None
                }]),
                is_error: false,
            }])
        )
    );
}

#[test]
fn sanitizing_twice_changes_nothing() {
    let msgs = vec![IrMessage {
        role: IrRole::User,
        content: vec![
            IrContentBlock::Image { source: IrImageSource::Url { url: "u".into() } },
            IrContentBlock::Text { text: "x".repeat(10_050), cache_control: None },
            IrContentBlock::ToolResult {
                tool_use_id: "a".into(),
                content: IrToolResultContent::Text("y".repeat(20_000)),
                is_error: true,
            },
        ],
    }];
    let once = sanitize_messages(&msgs);
    let twice = sanitize_messages(&once);
    assert_eq!(format!("{:?}", once), format!("{:?}", twice));
    assert!(!format!("{:?}", once).contains("Image"));
}

#[test]
fn untagged_text_previews_as_written() {
    let msgs = vec![user_msg("  plain question, no tags  ")];
    assert_eq!(extract_last_message(&msgs), extract_last_message_raw(&msgs));
    let tagged = vec![user_msg("<system-reminder>x</system-reminder> q")];
    assert_ne!(extract_last_message(&tagged), extract_last_message_raw(&tagged));
}
