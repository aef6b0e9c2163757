use xrl_router::ir::{IrContentDelta, IrStreamEvent};
use xrl_router::upstream::{
    collect_end_error, collect_stream_error, ReaderEnd, ReaderItem, UpstreamReader,
};

fn text_of(items: &[ReaderItem]) -> String {
    let mut s = String::new();
    for it in items {
        if let ReaderItem::Events(evs) = it {
            for ev in evs {
                if let IrStreamEvent::ContentBlockDelta { delta: IrContentDelta::TextDelta(t), .. } = ev {
                    s.push_str(t);
                }
            }
        }
    }
    s
}

#[test]
fn reader_reads_chat_chunks_split_across_pushes() {
    let mut r = UpstreamReader::new("chat_completions", 42);
    let a = r.push_text("data: {\"id\":\"c1\",\"model\":\"m\",\"choices\":[{\"delta\":{\"content\":\"he\"}}]}\n");
    assert!(a.is_empty());
    let b = r.push_text("\ndata: {\"id\":\"c1\",\"model\":\"m\",\"choices\":[{\"delta\":{\"content\":\"llo\"}}]}\n\n");
    assert_eq!(text_of(&b), "hello");
    let c = r.push_text("data: [DONE]\n\n");
    assert!(matches!(c.as_slice(), [ReaderItem::Done]));
    // Nothing is read after the end marker.
    let d = r.push_text("data: {\"choices\":[{\"delta\":{\"content\":\"x\"}}]}\n\n");
    assert!(d.is_empty());
    assert!(matches!(r.end(), ReaderEnd::Completed));
    assert_eq!(r.usage().input_tokens, 42);
    assert!(collect_end_error(&r.end()).is_none());
}

#[test]
fn reader_reads_messages_chunks_and_usage() {
    let mut r = UpstreamReader::new("messages", 7);
    let items = r.push_text(
        "event: message_start\ndata: {\"type\":\"message_start\",\"message\":{\"id\":\"msg_1\",\"model\":\"m\",\"usage\":{\"input_tokens\":11}}}\n\n\
         event: content_block_start\ndata: {\"type\":\"content_block_start\",\"index\":0,\"content_block\":{\"type\":\"text\",\"text\":\"\"}}\n\n\
         event: content_block_delta\ndata: {\"type\":\"content_block_delta\",\"index\":0,\"delta\":{\"type\":\"text_delta\",\"text\":\"hi\"}}\n\n\
         : keepalive\n\n\
         event: message_delta\ndata: {\"type\":\"message_delta\",\"delta\":{\"stop_reason\":\"end_turn\"},\"usage\":{\"output_tokens\":5}}\n\n",
    );
    assert_eq!(items.len(), 4);
    assert_eq!(text_of(&items), "hi");
    let u = r.usage();
    assert_eq!(u.input_tokens, 11);
    assert_eq!(u.output_tokens, 5);
    assert!(matches!(r.end(), ReaderEnd::Completed));
}

#[test]
fn reader_stops_at_a_stream_error() {
    let mut r = UpstreamReader::new("chat_completions", 0);
    let items = r.push_text(
        "data: {\"error\":{\"type\":\"rate_limit_exceeded\",\"message\":\"slow down\"}}\n\ndata: {\"choices\":[{\"delta\":{\"content\":\"x\"}}]}\n\n",
    );
    assert_eq!(items.len(), 1);
    match &items[0] {
        ReaderItem::StreamError(status, msg) => {
            assert_eq!(*status, 429);
            assert_eq!(msg, "slow down");
            let e = collect_stream_error(*status, msg.clone());
            assert_eq!(e.status, 429);
            assert!(e.retryable);
        },
        _ => panic!("expected a stream error"),
    }
}

#[test]
fn reader_reports_a_plain_json_error_body() {
    let mut r = UpstreamReader::new("messages", 0);
    let items = r.push_text("{\"type\":\"error\",\"error\":{\"type\":\"authentication_error\",\"message\":\"bad key\"}}");
    assert!(items.is_empty());
    match r.end() {
        ReaderEnd::NonSseError(status, msg) => {
            assert_eq!(status, 401);
            assert_eq!(msg, "bad key");
        },
        _ => panic!("expected a non-SSE error"),
    }
    let e = collect_end_error(&r.end()).expect("an error");
    assert_eq!(e.status, 401);
    assert!(e.retryable);
}

#[test]
fn reader_empty_stream_is_a_retryable_503() {
    let mut r = UpstreamReader::new("chat_completions", 0);
    r.push_text("hello");
    match r.end() {
        ReaderEnd::EmptyStream(n) => assert_eq!(n, 5),
        _ => panic!("expected an empty stream"),
    }
    let e = collect_end_error(&r.end()).expect("an error");
    assert_eq!(e.status, 503);
    assert!(e.retryable);
    assert_eq!(e.message, "upstream returned empty stream (0 SSE events, body 5B)");
}

#[test]
fn reader_frames_without_chunks_report_zero_bytes() {
    let mut r = UpstreamReader::new("chat_completions", 0);
    r.push_text(": ping\n\ndata: not json\n\n");
    let e = collect_end_error(&r.end()).expect("an error");
    assert_eq!(e.status, 503);
    assert_eq!(e.message, "upstream returned empty stream (0 SSE events, body 0B)");
}

fn read_in_pieces(kind: &str, text: &str, cuts: &[usize]) -> (String, String, String) {
    let mut r = UpstreamReader::new(kind, 3);
    let mut items: Vec<ReaderItem> = Vec::new();
    let mut start = 0;
    for &c in cuts.iter().chain(std::iter::once(&text.len())) {
        items.extend(r.push_text(&text[start..c]));
        start = c;
    }
    (format!("{:?}", items), format!("{:?}", r.end()), format!("{:?}", r.usage()))
}

#[test]
fn reader_items_do_not_depend_on_how_text_is_cut() {
    let text = "data: {\"id\":\"c1\",\"model\":\"m\",\"choices\":[{\"delta\":{\"content\":\"he\"}}]}\n\n: ping\n\ndata: {\"id\":\"c1\",\"model\":\"m\",\"choices\":[{\"delta\":{\"content\":\"llo\"},\"finish_reason\":\"stop\"}],\"usage\":{\"prompt_tokens\":5,\"completion_tokens\":2}}\n\ndata: [DONE]\n\ndata: {\"x\":1}\n\n";
    let whole = read_in_pieces("chat_completions", text, &[]);
    for cut in 1..text.len() {
        assert_eq!(read_in_pieces("chat_completions", text, &[cut]), whole, "cut at {}", cut);
    }
    assert_eq!(read_in_pieces("chat_completions", text, &[10, 11, 80, 81, 82, 200]), whole);
}

#[test]
fn reader_raw_error_body_survives_any_cut() {
    let text = "{\"error\":{\"message\":\"quota exceeded\",\"code\":429}}";
    let whole = read_in_pieces("chat_completions", text, &[]);
    for cut in 1..text.len() {
        assert_eq!(read_in_pieces("chat_completions", text, &[cut]), whole);
    }
}
