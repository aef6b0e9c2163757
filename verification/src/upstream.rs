//! Reading an upstream's streamed answer.
//!
//! The answer's text is cut into SSE frames; each frame's data is read as a
//! JSON chunk of the upstream's protocol. A chunk that reports an error ends
//! the reading (the caller decides whether to change keys or pass the error
//! on); other chunks become neutral stream events. `[DONE]` ends the reading
//! too. Until the first frame, the raw text is kept (up to 64 KiB) so that a
//! plain JSON error body, sent without any framing, can still be recognised
//! once the answer ends.

use vstd::prelude::*;
use vstd::string::StringSliceAdditionalSpecFns;
use crate::forward::{
    extract_non_sse_error, extract_stream_error, first_occurrence, frame_data, frame_spec,
    next_frame_spec, stream_error_spec, SseFrame, SseFrameV, SseFramer,
};
use crate::from_chat_completions::{
    chat_chunk_ok, chat_completions_chunk_to_ir, chat_chunk_spec, chat_state_ok, initial_chat_state,
    tool_slot, ChatCompletionsParseState, ChatParseV,
};
use crate::from_messages::{messages_chunk_fits, messages_chunk_spec, messages_chunk_to_ir, MessagesParseState};
use crate::from_responses::{
    initial_responses_state, responses_chunk_spec, responses_chunk_to_ir, responses_state_ok,
    ResponsesParseState, ResponsesParseV,
};
use crate::ir::{events_view, zero_usage, EventV, IrStreamEvent, IrUsage};
use crate::json::{items_view, json_text_value, parse_json, str_eq, Json, JsonV};
use crate::usage::{chat_usage_spec, count_or_zero, extract_chat_usage, str_or_empty};

verus! {

/// The raw text kept for a plain error body, at most.
pub const RAW_CAPTURE_LIMIT: usize = 65536;

/// The protocol an upstream streams in.
#[derive(Debug, Clone, Copy, PartialEq, Eq, Structural)]
pub enum UpstreamKind {
    Messages,
    Chat,
    Responses,
}

/// `messages` and `responses` name their protocols; anything else is read
/// as Chat Completions.
pub open spec fn kind_of(kind: Seq<char>) -> UpstreamKind {
    if kind == "messages"@ {
        UpstreamKind::Messages
    } else if kind == "responses"@ {
        UpstreamKind::Responses
    } else {
        UpstreamKind::Chat
    }
}

/// The parser states of the three protocols; the upstream's is used.
pub struct UpstreamParser {
    pub kind: UpstreamKind,
    pub messages: MessagesParseState,
    pub chat: ChatCompletionsParseState,
    pub responses: ResponsesParseState,
}

pub struct ParserV {
    pub kind: UpstreamKind,
    pub messages: IrUsage,
    pub chat: ChatParseV,
    pub responses: ResponsesParseV,
}

impl View for UpstreamParser {
    type V = ParserV;

    open spec fn view(&self) -> ParserV {
        ParserV {
            kind: self.kind,
            messages: self.messages.usage,
            chat: self.chat@,
            responses: self.responses@,
        }
    }
}

pub open spec fn parser_ok(p: ParserV) -> bool {
    chat_state_ok(p.chat)
}

/// Whether the upstream's parser can take the chunk without its counters
/// overflowing.
pub open spec fn parser_fits(p: ParserV, v: JsonV) -> bool {
    match p.kind {
        UpstreamKind::Messages => messages_chunk_fits(v, p.messages, false),
        UpstreamKind::Chat => chat_chunk_ok(v, p.chat),
        UpstreamKind::Responses => responses_state_ok(p.responses),
    }
}

/// The events of a chunk and the parser after it; a chunk beyond the
/// parser's counting limits gives nothing and changes nothing.
pub open spec fn parser_step(p: ParserV, v: JsonV) -> (Seq<EventV>, ParserV) {
    if !parser_fits(p, v) {
        (Seq::empty(), p)
    } else {
        match p.kind {
            UpstreamKind::Messages => {
                let (e, u) = messages_chunk_spec(v, p.messages, false);
                (e, ParserV { messages: u, ..p })
            },
            UpstreamKind::Chat => {
                let (e, c) = chat_chunk_spec(v, p.chat);
                (e, ParserV { chat: c, ..p })
            },
            UpstreamKind::Responses => {
                let (e, r) = responses_chunk_spec(v, p.responses);
                (e, ParserV { responses: r, ..p })
            },
        }
    }
}

/// The usage the upstream's parser has read.
pub open spec fn parser_usage(p: ParserV) -> IrUsage {
    match p.kind {
        UpstreamKind::Messages => p.messages,
        UpstreamKind::Chat => p.chat.usage,
        UpstreamKind::Responses => p.responses.usage,
    }
}

/// What reading gives, frame by frame.
#[derive(Debug)]
pub enum ReaderItem {
    /// The events of a chunk.
    Events(Vec<IrStreamEvent>),
    /// A chunk that reports an error: its status and message.
    StreamError(u16, String),
    /// The end-of-stream marker.
    Done,
}

pub enum ItemV {
    Events(Seq<EventV>),
    StreamError(u16, Seq<char>),
    Done,
}

impl View for ReaderItem {
    type V = ItemV;

    open spec fn view(&self) -> ItemV {
        match *self {
            ReaderItem::Events(e) => ItemV::Events(events_view(e@)),
            ReaderItem::StreamError(s, m) => ItemV::StreamError(s, m@),
            ReaderItem::Done => ItemV::Done,
        }
    }
}

pub open spec fn items_of(v: Seq<ReaderItem>) -> Seq<ItemV> {
    v.map_values(|i: ReaderItem| i@)
}

/// How an answer ended.
#[derive(Debug)]
pub enum ReaderEnd {
    /// Chunks were read.
    Completed,
    /// No chunk was read, and the whole body was a JSON error document.
    NonSseError(u16, String),
    /// No chunk was read at all; the body had this many bytes (0 where it
    /// was too long to keep or was framed).
    EmptyStream(usize),
}

pub enum ReaderEndV {
    Completed,
    NonSseError(u16, Seq<char>),
    EmptyStream(int),
}

impl View for ReaderEnd {
    type V = ReaderEndV;

    open spec fn view(&self) -> ReaderEndV {
        match *self {
            ReaderEnd::Completed => ReaderEndV::Completed,
            ReaderEnd::NonSseError(s, m) => ReaderEndV::NonSseError(s, m@),
            ReaderEnd::EmptyStream(n) => ReaderEndV::EmptyStream(n as int),
        }
    }
}

/// A reader of one answer.
pub struct UpstreamReader {
    /// The upstream's protocol, as named by its provider.
    pub kind: String,
    pub framer: SseFramer,
    /// The raw text so far, while no frame has appeared and it is short.
    pub raw: Option<String>,
    pub raw_bytes: usize,
    /// Whether any JSON chunk was read.
    pub any_chunk: bool,
    pub parser: UpstreamParser,
    /// Whether reading has ended (`[DONE]` or an error).
    pub stopped: bool,
}

pub struct ReaderV {
    pub kind: Seq<char>,
    pub buffer: Seq<char>,
    pub raw: Option<Seq<char>>,
    pub raw_bytes: int,
    pub any_chunk: bool,
    pub parser: ParserV,
    pub stopped: bool,
}

impl View for UpstreamReader {
    type V = ReaderV;

    open spec fn view(&self) -> ReaderV {
        ReaderV {
            kind: self.kind@,
            buffer: self.framer.buffer@,
            raw: crate::json::opt_str_view(self.raw),
            raw_bytes: self.raw_bytes as int,
            any_chunk: self.any_chunk,
            parser: self.parser@,
            stopped: self.stopped,
        }
    }
}

pub open spec fn reader_wf(s: ReaderV) -> bool {
    &&& parser_ok(s.parser)
    &&& s.parser.kind == kind_of(s.kind)
    &&& 0 <= s.raw_bytes <= RAW_CAPTURE_LIMIT
}

/// One frame: a comment or a frame without data gives nothing; `[DONE]`
/// ends; data that is not JSON gives nothing; a JSON chunk that reports an
/// error ends with it; any other chunk gives its events.
pub open spec fn reader_frame(s: ReaderV, frame: Seq<char>) -> (ReaderV, Option<ItemV>) {
    match frame_spec(frame) {
        SseFrameV::Skip => (s, None),
        SseFrameV::Done => (ReaderV { stopped: true, ..s }, Some(ItemV::Done)),
        SseFrameV::Data(d) => match json_text_value(d) {
            None => (s, None),
            Some(v) => match stream_error_spec(v, s.kind) {
                Some((st, m)) => (
                    ReaderV { any_chunk: true, stopped: true, ..s },
                    Some(ItemV::StreamError(st, m)),
                ),
                None => {
                    let (evs, p) = parser_step(s.parser, v);
                    (ReaderV { any_chunk: true, parser: p, ..s }, Some(ItemV::Events(evs)))
                },
            },
        },
    }
}

/// The complete frames of `buf`, read in order until reading ends; what is
/// left of the buffer stays.
pub open spec fn reader_frames(s: ReaderV, buf: Seq<char>) -> (ReaderV, Seq<ItemV>)
    decreases buf.len(),
{
    if s.stopped {
        (ReaderV { buffer: buf, ..s }, Seq::empty())
    } else {
        match next_frame_spec(buf) {
            Some((f, rest)) => {
                proof {
                    crate::sniff::lemma_first_occurrence_bound(buf, "\n\n"@);
                    reveal_strlit("\n\n");
                }
                if rest.len() < buf.len() {
                    let (s2, it) = reader_frame(ReaderV { raw: None, ..s }, f);
                    let (s3, items) = reader_frames(s2, rest);
                    (
                        s3,
                        match it {
                            Some(x) => seq![x] + items,
                            None => items,
                        },
                    )
                } else {
                    (ReaderV { buffer: buf, ..s }, Seq::empty())
                }
            },
            None => (ReaderV { buffer: buf, ..s }, Seq::empty()),
        }
    }
}

/// Reading frames does not depend on what the state holds as its buffer.
pub proof fn lemma_frames_buffer_irrelevant(s: ReaderV, b: Seq<char>, buf: Seq<char>)
    ensures
        reader_frames(s, buf) == reader_frames(ReaderV { buffer: b, ..s }, buf),
    decreases buf.len(),
{
    if !s.stopped {
        match next_frame_spec(buf) {
            Some((f, rest)) => {
                crate::sniff::lemma_first_occurrence_bound(buf, "\n\n"@);
                reveal_strlit("\n\n");
                if rest.len() < buf.len() {
                    let s2 = reader_frame(ReaderV { raw: None, ..s }, f).0;
                    let t2 = reader_frame(ReaderV { raw: None, buffer: b, ..s }, f).0;
                    assert(t2 == ReaderV { buffer: b, ..s2 });
                    lemma_frames_buffer_irrelevant(s2, b, rest);
                }
            },
            None => {},
        }
    }
}

/// Whether reading `buf` from `s` takes at least one frame off it.
pub open spec fn frames_read(s: ReaderV, buf: Seq<char>) -> bool {
    !s.stopped && next_frame_spec(buf) is Some
}

/// Reading frames keeps the raw byte count, and drops the raw text exactly
/// when a frame is read; the rest does not depend on either.
pub proof fn lemma_frames_raw(s: ReaderV, buf: Seq<char>, r: Option<Seq<char>>, n: int)
    ensures
        reader_frames(ReaderV { raw: r, raw_bytes: n, ..s }, buf) == (
            ReaderV {
                raw: if frames_read(s, buf) {
                    None
                } else {
                    r
                },
                raw_bytes: n,
                ..reader_frames(s, buf).0
            },
            reader_frames(s, buf).1,
        ),
    decreases buf.len(),
{
    if !s.stopped {
        crate::sniff::lemma_first_occurrence_bound(buf, "\n\n"@);
        reveal_strlit("\n\n");
        match next_frame_spec(buf) {
            Some((f, rest)) => {
                let q = ReaderV { raw: None, ..s };
                let s2 = reader_frame(q, f).0;
                assert(reader_frame(ReaderV { raw_bytes: n, ..q }, f) == (
                    ReaderV { raw_bytes: n, ..s2 },
                    reader_frame(q, f).1,
                ));
                assert(s2.raw is None);
                lemma_frames_raw(s2, rest, None, n);
                assert(ReaderV { raw: None, raw_bytes: n, ..s2 } == ReaderV { raw_bytes: n, ..s2 });
            },
            None => {},
        }
    }
}

/// Reading a buffer, and then the text that arrives after what was left,
/// is reading the buffer and that text at once; once reading has stopped,
/// later text only stays unread.
pub proof fn lemma_reader_frames_extend(s: ReaderV, buf: Seq<char>, b: Seq<char>)
    ensures
        ({
            let (s1, i1) = reader_frames(s, buf);
            if s1.stopped {
                reader_frames(s, buf + b) == (ReaderV { buffer: s1.buffer + b, ..s1 }, i1)
            } else {
                reader_frames(s, buf + b) == (
                    reader_frames(s1, s1.buffer + b).0,
                    i1 + reader_frames(s1, s1.buffer + b).1,
                )
            }
        }),
    decreases buf.len(),
{
    crate::forward::lemma_next_frame_extend(buf, b);
    crate::sniff::lemma_first_occurrence_bound(buf, "\n\n"@);
    crate::sniff::lemma_first_occurrence_bound(buf + b, "\n\n"@);
    reveal_strlit("\n\n");
    if !s.stopped {
        match next_frame_spec(buf) {
            Some((f, rest)) => {
                let (s2, it) = reader_frame(ReaderV { raw: None, ..s }, f);
                lemma_reader_frames_extend(s2, rest, b);
                let (s3, items) = reader_frames(s2, rest);
                let pre: Seq<ItemV> = match it {
                    Some(x) => seq![x],
                    None => Seq::empty(),
                };
                assert(match it {
                    Some(x) => seq![x] + items,
                    None => items,
                } == pre + items) by {
                    if it is None {
                        assert(pre + items =~= items);
                    }
                }
                let tail = reader_frames(s2, rest + b).1;
                assert(match it {
                    Some(x) => seq![x] + tail,
                    None => tail,
                } == pre + tail) by {
                    if it is None {
                        assert(pre + tail =~= tail);
                    }
                }
                if !s3.stopped {
                    let more = reader_frames(s3, s3.buffer + b).1;
                    assert(pre + (items + more) =~= (pre + items) + more);
                }
            },
            None => {
                lemma_frames_buffer_irrelevant(s, buf, buf + b);
                let x = reader_frames(ReaderV { buffer: buf, ..s }, buf + b).1;
                assert(Seq::<ItemV>::empty() + x =~= x);
            },
        }
    }
}

/// Two readers that differ only in what neither will use again: the text
/// left unread after reading stopped, and the byte count of raw text that
/// was dropped.
pub open spec fn reader_agrees(s: ReaderV, t: ReaderV) -> bool {
    &&& s.kind == t.kind
    &&& s.raw == t.raw
    &&& (s.raw is Some ==> s.raw_bytes == t.raw_bytes)
    &&& s.any_chunk == t.any_chunk
    &&& s.parser == t.parser
    &&& s.stopped == t.stopped
    &&& (!s.stopped ==> s.buffer == t.buffer)
}

/// Frames split across chunks are read as if the text had come in one
/// piece: taking chunk `a` and then chunk `b` gives the same items as taking
/// them joined, leaves a reader that agrees with it, and ends the same way.
pub proof fn law_reader_chunking(s: ReaderV, a: Seq<char>, na: int, b: Seq<char>, nb: int)
    requires
        0 <= na,
        0 <= nb,
    ensures
        ({
            let (s1, i1) = reader_push(s, a, na);
            let (s2, i2) = reader_push(s1, b, nb);
            let (t, j) = reader_push(s, a + b, na + nb);
            &&& i1 + i2 == j
            &&& reader_agrees(s2, t)
            &&& reader_end(s2) == reader_end(t)
        }),
{
    let (s1, i1) = reader_push(s, a, na);
    let (s2, i2) = reader_push(s1, b, nb);
    let (t, j) = reader_push(s, a + b, na + nb);
    if s.stopped {
        assert(i1 + i2 =~= j);
    } else {
        let x = s.buffer + a;
        assert(s.buffer + (a + b) =~= x + b);
        let sa = match s.raw {
            Some(r) => if s.raw_bytes + na > RAW_CAPTURE_LIMIT {
                ReaderV { raw: None, ..s }
            } else {
                ReaderV { raw: Some(r + a), raw_bytes: s.raw_bytes + na, ..s }
            },
            None => s,
        };
        let sab = match s.raw {
            Some(r) => if s.raw_bytes + (na + nb) > RAW_CAPTURE_LIMIT {
                ReaderV { raw: None, ..s }
            } else {
                ReaderV { raw: Some(r + (a + b)), raw_bytes: s.raw_bytes + (na + nb), ..s }
            },
            None => s,
        };
        assert(reader_push(s, a, na) == reader_frames(sa, x));
        assert(reader_push(s, a + b, na + nb) == reader_frames(sab, x + b));
        assert(sab == ReaderV { raw: sab.raw, raw_bytes: sab.raw_bytes, ..sa });
        lemma_frames_raw(sa, x + b, sab.raw, sab.raw_bytes);
        lemma_frames_raw(sa, x, sa.raw, sa.raw_bytes);
        assert(sa == ReaderV { raw: sa.raw, raw_bytes: sa.raw_bytes, ..sa });
        lemma_reader_frames_extend(sa, x, b);
        crate::forward::lemma_next_frame_extend(x, b);
        if !s1.stopped {
            let s1b = match s1.raw {
                Some(r) => if s1.raw_bytes + nb > RAW_CAPTURE_LIMIT {
                    ReaderV { raw: None, ..s1 }
                } else {
                    ReaderV { raw: Some(r + b), raw_bytes: s1.raw_bytes + nb, ..s1 }
                },
                None => s1,
            };
            assert(reader_push(s1, b, nb) == reader_frames(s1b, s1.buffer + b));
            assert(s1b == ReaderV { raw: s1b.raw, raw_bytes: s1b.raw_bytes, ..s1 });
            lemma_frames_raw(s1, s1.buffer + b, s1b.raw, s1b.raw_bytes);
            lemma_frames_raw(s1, s1.buffer + b, s1.raw, s1.raw_bytes);
            assert(s1 == ReaderV { raw: s1.raw, raw_bytes: s1.raw_bytes, ..s1 });
            if !frames_read(sa, x) {
                assert(s1 == ReaderV { buffer: x, ..sa });
                let sx = ReaderV { buffer: x, ..sab };
                assert(s1b == ReaderV { raw: s1b.raw, raw_bytes: s1b.raw_bytes, ..sx });
                assert(s1b.raw == sab.raw && (s1b.raw is Some ==> s1b.raw_bytes == sab.raw_bytes))
                    by {
                    if let Some(r) = s.raw {
                        assert(r + a + b =~= r + (a + b));
                    }
                }
                lemma_frames_raw(sx, x + b, s1b.raw, s1b.raw_bytes);
                lemma_frames_raw(sab, x + b, sab.raw, sab.raw_bytes);
                assert(sab == ReaderV { raw: sab.raw, raw_bytes: sab.raw_bytes, ..sab });
                lemma_frames_buffer_irrelevant(sab, x, x + b);
            }
        } else {
            assert(i1 + i2 =~= i1);
        }
    }
}

/// A chunk of the answer's text (of `nbytes` UTF-8 bytes): kept raw while
/// no frame has appeared and the raw text stays within the limit, then read
/// frame by frame.
pub open spec fn reader_push(s: ReaderV, text: Seq<char>, nbytes: int) -> (ReaderV, Seq<ItemV>) {
    if s.stopped {
        (s, Seq::empty())
    } else {
        let s1 = match s.raw {
            Some(r) => if s.raw_bytes + nbytes > RAW_CAPTURE_LIMIT {
                ReaderV { raw: None, ..s }
            } else {
                ReaderV { raw: Some(r + text), raw_bytes: s.raw_bytes + nbytes, ..s }
            },
            None => s,
        };
        reader_frames(s1, s.buffer + text)
    }
}

pub open spec fn non_sse_error_spec(body: Seq<char>, kind: Seq<char>) -> Option<(u16, Seq<char>)> {
    match json_text_value(body) {
        Some(v) => stream_error_spec(v, kind),
        None => None,
    }
}

/// How the answer ended.
pub open spec fn reader_end(s: ReaderV) -> ReaderEndV {
    if s.any_chunk {
        ReaderEndV::Completed
    } else {
        match s.raw {
            Some(body) => match non_sse_error_spec(body, s.kind) {
                Some((st, m)) => ReaderEndV::NonSseError(st, m),
                None => ReaderEndV::EmptyStream(s.raw_bytes),
            },
            None => ReaderEndV::EmptyStream(0),
        }
    }
}

pub open spec fn initial_reader(kind: Seq<char>, est_input: u64) -> ReaderV {
    let u = IrUsage { input_tokens: est_input, ..zero_usage() };
    ReaderV {
        kind,
        buffer: Seq::empty(),
        raw: Some(Seq::empty()),
        raw_bytes: 0,
        any_chunk: false,
        parser: ParserV {
            kind: kind_of(kind),
            messages: u,
            chat: ChatParseV { usage: u, ..initial_chat_state() },
            responses: ResponsesParseV { usage: u, ..initial_responses_state() },
        },
        stopped: false,
    }
}

fn messages_fits_exec(v: &Json, u: &IrUsage) -> (r: bool)
    ensures
        r == messages_chunk_fits(v@, *u, false),
{
    let t: &str = match v.str_at("type") {
        Some(t) => t,
        None => "",
    };
    proof {
        reveal_strlit("");
        reveal_strlit("text_delta");
        reveal_strlit("thinking_delta");
        assert(""@ =~= Seq::<char>::empty());
    }
    if !str_eq(t, "content_block_delta") {
        return true;
    }
    let d = match v.get("delta") {
        Some(d) => d,
        None => {
            return true;
        },
    };
    let dt: &str = match d.str_at("type") {
        Some(x) => x,
        None => "",
    };
    let n: usize = if str_eq(dt, "text_delta") {
        match d.str_at("text") {
            Some(x) => x.unicode_len(),
            None => 0,
        }
    } else if str_eq(dt, "thinking_delta") {
        match d.str_at("thinking") {
            Some(x) => x.unicode_len(),
            None => 0,
        }
    } else {
        return true;
    };
    proof {
        let dd = v@.at("delta"@);
        assert(dd == d@);
        assert(str_or_empty(dd.str_at("type"@)) == dt@);
        assert(str_or_empty(v@.str_at("type"@)) == "content_block_delta"@);
        if dt@ == "text_delta"@ {
            assert(n == str_or_empty(dd.str_at("text"@)).len());
            assert(dt@ != "thinking_delta"@);
        } else {
            assert(dt@ == "thinking_delta"@);
            assert(n == str_or_empty(dd.str_at("thinking"@)).len());
        }
    }
    (n as u64) <= u64::MAX - u.output_chars
}

fn chat_fits_exec(v: &Json, st: &ChatCompletionsParseState) -> (r: bool)
    ensures
        r == chat_chunk_ok(v@, st@),
{
    let u = extract_chat_usage(v);
    if u.output_chars > u64::MAX - st.usage.output_chars {
        return false;
    }
    match v.array_at("choices") {
        Some(cs) => {
            let ghost cv = items_view(cs@);
            proof {
                crate::json::lemma_items_view_len(cs@);
            }
            let mut i: usize = 0;
            while i < cs.len()
                invariant
                    i <= cs@.len(),
                    cv == items_view(cs@),
                    cv.len() == cs@.len(),
                    v@.at("choices"@).as_array() == Some(cv),
                    st@.usage.output_chars + chat_usage_spec(v@).output_chars <= u64::MAX,
                    forall|j: int| 0 <= j < i ==> crate::from_chat_completions::chat_choice_ok(#[trigger] cv[j]),
                decreases cs@.len() - i,
            {
                proof {
                    crate::json::lemma_items_view_index(cs@, i as int);
                }
                let tcs = match cs[i].get("delta") {
                    Some(d) => d.array_at("tool_calls"),
                    None => None,
                };
                proof {
                    assert(cs@[i as int]@ == cv[i as int]);
                    match tcs {
                        Some(t) => assert(cv[i as int].at("delta"@).at("tool_calls"@).as_array() == Some(
                            items_view(t@),
                        )),
                        None => assert(cv[i as int].at("delta"@).at("tool_calls"@).as_array() is None),
                    }
                }
                match tcs {
                    Some(tcs) => {
                        let ghost tv = items_view(tcs@);
                        proof {
                            crate::json::lemma_items_view_len(tcs@);
                        }
                        let mut k: usize = 0;
                        while k < tcs.len()
                            invariant
                                k <= tcs@.len(),
                                i < cv.len(),
                                cv.len() == cs@.len(),
                                v@.at("choices"@).as_array() == Some(cv),
                                cv == items_view(cs@),
                                cv[i as int].at("delta"@).at("tool_calls"@).as_array() == Some(tv),
                                tv == items_view(tcs@),
                                tv.len() == tcs@.len(),
                                forall|j: int| 0 <= j < k ==> tool_slot(#[trigger] tv[j]) < usize::MAX - 1,
                            decreases tcs@.len() - k,
                        {
                            proof {
                                crate::json::lemma_items_view_index(tcs@, k as int);
                            }
                            let slot: usize = match tcs[k].u64_at("index") {
                                Some(n) => n as usize,
                                None => 0,
                            };
                            if slot >= usize::MAX - 1 {
                                proof {
                                    assert(tv[k as int] == tcs@[k as int]@);
                                    assert(tool_slot(tv[k as int]) == slot as int);
                                    assert(!crate::from_chat_completions::chat_tool_calls_ok(tv));
                                    assert(!crate::from_chat_completions::chat_choice_ok(cv[i as int]));
                                }
                                return false;
                            }
                            k = k + 1;
                        }
                    },
                    None => {},
                }
                i = i + 1;
            }
            true
        },
        None => true,
    }
}

impl UpstreamParser {
    fn fits(&self, v: &Json) -> (r: bool)
        ensures
            r == parser_fits(self@, v@),
    {
        match self.kind {
            UpstreamKind::Messages => messages_fits_exec(v, &self.messages.usage),
            UpstreamKind::Chat => chat_fits_exec(v, &self.chat),
            UpstreamKind::Responses => self.responses.next_index < usize::MAX,
        }
    }

    fn step(&mut self, v: &Json) -> (r: Vec<IrStreamEvent>)
        requires
            parser_ok(old(self)@),
        ensures
            parser_ok(final(self)@),
            (events_view(r@), final(self)@) == parser_step(old(self)@, v@),
    {
        if !self.fits(v) {
            let r: Vec<IrStreamEvent> = Vec::new();
            proof {
                assert(events_view(r@) =~= Seq::<EventV>::empty());
            }
            return r;
        }
        match self.kind {
            UpstreamKind::Messages => messages_chunk_to_ir(v, &mut self.messages),
            UpstreamKind::Chat => chat_completions_chunk_to_ir(v, &mut self.chat),
            UpstreamKind::Responses => responses_chunk_to_ir(v, &mut self.responses),
        }
    }

    /// The usage the upstream's parser has read.
    pub fn usage(&self) -> (r: IrUsage)
        ensures
            r == parser_usage(self@),
    {
        match self.kind {
            UpstreamKind::Messages => self.messages.usage,
            UpstreamKind::Chat => self.chat.usage,
            UpstreamKind::Responses => self.responses.usage,
        }
    }
}

impl UpstreamReader {
    /// A reader for an upstream of the given protocol, whose usage starts
    /// from the estimated input.
    pub fn new(kind: &str, est_input: u64) -> (r: Self)
        ensures
            r@ == initial_reader(kind@, est_input),
            reader_wf(r@),
    {
        let k = if str_eq(kind, "messages") {
            UpstreamKind::Messages
        } else if str_eq(kind, "responses") {
            UpstreamKind::Responses
        } else {
            UpstreamKind::Chat
        };
        let mut messages = MessagesParseState::new();
        messages.usage.input_tokens = est_input;
        let mut chat = ChatCompletionsParseState::new();
        chat.usage.input_tokens = est_input;
        let mut responses = ResponsesParseState::new();
        responses.usage.input_tokens = est_input;
        let r = UpstreamReader {
            kind: kind.to_owned(),
            framer: SseFramer::new(),
            raw: Some(String::new()),
            raw_bytes: 0,
            any_chunk: false,
            parser: UpstreamParser { kind: k, messages, chat, responses },
            stopped: false,
        };
        proof {
            assert(r@.parser.responses =~= ResponsesParseV {
                usage: IrUsage { input_tokens: est_input, ..zero_usage() },
                ..initial_responses_state()
            });
        }
        r
    }

    fn read_frame(&mut self, frame: &str) -> (r: Option<ReaderItem>)
        requires
            reader_wf(old(self)@),
        ensures
            reader_wf(final(self)@),
            ({
                let (s2, it) = reader_frame(old(self)@, frame@);
                &&& final(self)@ == s2
                &&& match r {
                    Some(x) => it == Some(x@),
                    None => it is None,
                }
            }),
    {
        match frame_data(frame) {
            SseFrame::Skip => None,
            SseFrame::Done => {
                self.stopped = true;
                Some(ReaderItem::Done)
            },
            SseFrame::Data(d) => match parse_json(d.as_str()) {
                None => None,
                Some(v) => match extract_stream_error(&v, self.kind.as_str()) {
                    Some((st, m)) => {
                        self.any_chunk = true;
                        self.stopped = true;
                        Some(ReaderItem::StreamError(st, m))
                    },
                    None => {
                        let evs = self.parser.step(&v);
                        self.any_chunk = true;
                        Some(ReaderItem::Events(evs))
                    },
                },
            },
        }
    }

    /// Takes a chunk of the answer's text and reads every frame it
    /// completes.
    pub fn push_text(&mut self, text: &str) -> (r: Vec<ReaderItem>)
        requires
            reader_wf(old(self)@),
        ensures
            reader_wf(final(self)@),
            (final(self)@, items_of(r@)) == reader_push(old(self)@, text@, text.len() as int),
    {
        let mut out: Vec<ReaderItem> = Vec::new();
        proof {
            assert(items_of(out@) =~= Seq::<ItemV>::empty());
        }
        if self.stopped {
            return out;
        }
        let nbytes = text.len();
        match &self.raw {
            Some(_) => {
                if nbytes > RAW_CAPTURE_LIMIT - self.raw_bytes {
                    self.raw = None;
                } else {
                    let mut r = match self.raw.take() {
                        Some(r) => r,
                        None => String::new(),
                    };
                    r.append(text);
                    self.raw = Some(r);
                    self.raw_bytes = self.raw_bytes + nbytes;
                }
            },
            None => {},
        }
        let ghost s1 = self@;
        let ghost buf0 = old(self)@.buffer + text@;
        self.framer.push_text(text);
        let ghost target = reader_frames(s1, buf0);
        proof {
            assert(self@ == ReaderV { buffer: buf0, ..s1 });
            lemma_frames_buffer_irrelevant(s1, buf0, buf0);
            assert(reader_frames(self@, self@.buffer) == target);
            assert(target == reader_push(old(self)@, text@, nbytes as int));
        }
        loop
            invariant
                reader_wf(self@),
                target == reader_push(old(self)@, text@, nbytes as int),
                nbytes == text.len(),
                reader_frames(self@, self@.buffer).0 == target.0,
                items_of(out@) + reader_frames(self@, self@.buffer).1 == target.1,
            decreases self@.buffer.len(),
        {
            if self.stopped {
                proof {
                    assert(self@ == ReaderV { buffer: self@.buffer, ..self@ });
                    assert(items_of(out@) + Seq::<ItemV>::empty() =~= items_of(out@));
                }
                return out;
            }
            let ghost b0 = self@.buffer;
            let ghost sv = self@;
            match self.framer.next_frame() {
                Some(frame) => {
                    proof {
                        crate::sniff::lemma_first_occurrence_bound(b0, "\n\n"@);
                        reveal_strlit("\n\n");
                        assert(self@.buffer.len() < b0.len());
                    }
                    self.raw = None;
                    let ghost rest = self@.buffer;
                    let ghost s2 = reader_frame(ReaderV { raw: None, ..sv }, frame@).0;
                    let it = self.read_frame(frame.as_str());
                    proof {
                        assert(self@ == ReaderV { buffer: rest, ..s2 });
                        lemma_frames_buffer_irrelevant(s2, rest, rest);
                    }
                    match it {
                        Some(x) => {
                            let ghost xv = x@;
                            let ghost before = items_of(out@);
                            out.push(x);
                            proof {
                                assert(items_of(out@) =~= before.push(xv));
                                let rest = reader_frames(self@, self@.buffer).1;
                                assert(before + (seq![xv] + rest) =~= before.push(xv) + rest);
                            }
                        },
                        None => {},
                    }
                },
                None => {
                    proof {
                        assert(self@ == ReaderV { buffer: b0, ..sv });
                        assert(items_of(out@) + Seq::<ItemV>::empty() =~= items_of(out@));
                    }
                    return out;
                },
            }
        }
    }

    /// How the answer ended, once its text is all read.
    pub fn end(&self) -> (r: ReaderEnd)
        ensures
            r@ == reader_end(self@),
    {
        if self.any_chunk {
            ReaderEnd::Completed
        } else {
            match &self.raw {
                Some(body) => match extract_non_sse_error(body.as_str(), self.kind.as_str()) {
                    Some((st, m)) => ReaderEnd::NonSseError(st, m),
                    None => ReaderEnd::EmptyStream(self.raw_bytes),
                },
                None => ReaderEnd::EmptyStream(0),
            }
        }
    }

    /// The usage read so far.
    pub fn usage(&self) -> (r: IrUsage)
        ensures
            r == parser_usage(self@.parser),
    {
        self.parser.usage()
    }
}


/// Why collecting an answer failed: its status and message, and whether
/// another key may cure it.
pub struct CollectError {
    pub status: u16,
    pub message: String,
    pub retryable: bool,
}

/// The failure of a chunk that reports an error: retryable where it is
/// key-level.
pub fn collect_stream_error(status: u16, message: String) -> (r: CollectError)
    ensures
        r.status == status,
        r.message@ == message@,
        r.retryable == crate::forward::is_key_level(status),
{
    CollectError { status, message, retryable: crate::forward::is_key_level_status(status) }
}

/// The message of an answer that held no chunk at all.
pub open spec fn empty_stream_message(nbytes: int) -> Seq<char> {
    "upstream returned empty stream (0 SSE events, body "@ + crate::config::decimal(nbytes as nat)
        + "B)"@
}

/// The failure, if any, of how an answer ended: a plain error body is
/// reported as its own error; an answer without a single chunk is a
/// passing failure (503, retryable).
pub fn collect_end_error(end: &ReaderEnd) -> (r: Option<CollectError>)
    ensures
        match end@ {
            ReaderEndV::Completed => r is None,
            ReaderEndV::NonSseError(st, m) => r is Some && r->0.status == st && r->0.message@ == m
                && r->0.retryable == crate::forward::is_key_level(st),
            ReaderEndV::EmptyStream(n) => r is Some && r->0.status == 503 && r->0.message@
                == empty_stream_message(n) && r->0.retryable,
        },
{
    match end {
        ReaderEnd::Completed => None,
        ReaderEnd::NonSseError(st, m) => Some(collect_stream_error(*st, m.clone())),
        ReaderEnd::EmptyStream(n) => {
            let mut msg = String::from_str("upstream returned empty stream (0 SSE events, body ");
            let d = crate::config::decimal_string(*n as u64);
            msg.append(d.as_str());
            msg.append("B)");
            Some(CollectError { status: 503, message: msg, retryable: true })
        },
    }
}

} // verus!
