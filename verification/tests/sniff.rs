use xrl_router::sniff::{SniffStream, SniffedUsage};

#[test]
fn sniff_anthropic_usage_across_split_chunks() {
    let mut s = SniffStream::new((), "messages");
    s.push_chunk("event: message_start\ndata: {\"type\":\"message_start\",\"message\":{\"usage\":{\"input_tokens\":10,");
    assert_eq!(s.usage, SniffedUsage::default());
    s.push_chunk("\"cache_creation_input_tokens\":5,\"cache_read_input_tokens\":3}}}\n\n");
    assert_eq!(s.usage.input_tokens, 15);
    assert_eq!(s.usage.cache_read_input_tokens, 3);
    s.push_chunk("data: {\"type\":\"content_block_delta\",\"delta\":{\"type\":\"text_delta\",\"text\":\"h\u{e9}llo\"}}\n\n");
    s.push_chunk("data: {\"type\":\"content_block_delta\",\"delta\":{\"type\":\"thinking_delta\",\"thinking\":\"ab\"}}\n\n");
    s.push_chunk("data: {\"type\":\"message_delta\",\"usage\":{\"output_tokens\":7,\"cache_read_input_tokens\":4}}\n\ndata: [DONE]\n\n");
    s.finish();
    let u = s.into_usage();
    assert_eq!(u.output_chars, 7);
    assert_eq!(u.output_tokens, 7);
    assert_eq!(u.cache_read_input_tokens, 4);
    assert_eq!(u.input_tokens, 15);
}

#[test]
fn sniff_openai_usage_and_content_chars() {
    let mut s = SniffStream::new(0u8, "chat_completions");
    s.push_chunk("data: {\"choices\":[{\"delta\":{\"content\":\"abc\"}}]}\n\ndata: not json\n\n");
    s.push_chunk("data: {\"choices\":[],\"usage\":{\"prompt_tokens\":12,\"completion_tokens\":3}}\r\n");
    assert_eq!(s.usage.input_tokens, 0);
    s.push_chunk("\n");
    let u = s.into_usage();
    assert_eq!(u.output_chars, 3);
    assert_eq!(u.input_tokens, 12);
    assert_eq!(u.output_tokens, 3);
}

#[test]
fn sniff_keeps_incomplete_frame_and_multiple_data_lines() {
    let mut s = SniffStream::new((), "chat_completions");
    s.push_chunk("data: {\"choices\":[{\"delta\":{\"content\":\"x\"}}]}\ndata: {\"choices\":[{\"delta\":{\"content\":\"yz\"}}]}\n\ndata: {\"choi");
    assert_eq!(s.usage.output_chars, 3);
    assert_eq!(s.buffer.buffer.iter().collect::<String>(), "data: {\"choi");
}

#[test]
fn sniff_usage_does_not_depend_on_how_text_is_cut() {
    let text = "event: message_start\ndata: {\"type\":\"message_start\",\"message\":{\"usage\":{\"input_tokens\":10,\"cache_read_input_tokens\":3}}}\n\ndata: {\"type\":\"content_block_delta\",\"delta\":{\"type\":\"text_delta\",\"text\":\"h\u{e9}llo\"}}\r\n\r\n\ndata: {\"type\":\"message_delta\",\"usage\":{\"output_tokens\":7}}\n\ndata: {\"type\":\"mess";
    let mut whole = SniffStream::new((), "messages");
    whole.push_chunk(text);
    let cuts: Vec<usize> = text.char_indices().map(|(i, _)| i).skip(1).collect();
    for cut in cuts {
        let mut s = SniffStream::new((), "messages");
        s.push_chunk(&text[..cut]);
        s.push_chunk(&text[cut..]);
        assert_eq!(s.usage, whole.usage, "cut at {}", cut);
        assert_eq!(s.buffer.buffer, whole.buffer.buffer);
    }
    assert_eq!(whole.usage.input_tokens, 10);
    assert_eq!(whole.usage.output_tokens, 7);
}
