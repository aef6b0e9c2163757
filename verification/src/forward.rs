//! Decisions of the streaming forwarder: how an upstream SSE byte stream is cut
//! into frames, what each frame carries, and how errors reported inside a
//! stream are classified and answered.

use vstd::prelude::*;
use crate::json::{parse_json, str_eq, Json, JsonV};
use crate::text::{
    all_ascii, ascii_lower, chars_of, contains_chars, contains_seq, first_index_of, lowercase,
    same_but_ascii_case, seq_starts_with, string_from_chars, to_lowercase,
};
use crate::usage::str_or_empty;

verus! {

/// Whether an HTTP status belongs to the key in use (payment, auth,
/// permission, rate limit), so that another key may succeed.
pub open spec fn is_key_level(status: u16) -> bool {
    status == 401 || status == 402 || status == 403 || status == 429
}

pub fn is_key_level_status(status: u16) -> (r: bool)
    ensures
        r == is_key_level(status),
{
    status == 401 || status == 402 || status == 403 || status == 429
}

pub open spec fn has_rate_limit_word(h: Seq<char>) -> bool {
    ||| contains_seq(h, "rate_limit"@)
    ||| contains_seq(h, "ratelimit"@)
    ||| contains_seq(h, "too_many"@)
    ||| contains_seq(h, "limit_reached"@)
    ||| contains_seq(h, "rate limit"@)
    ||| contains_seq(h, "too many"@)
    ||| contains_seq(h, "reached the limit"@)
}

pub open spec fn has_quota_word(h: Seq<char>) -> bool {
    ||| contains_seq(h, "quota"@)
    ||| contains_seq(h, "insufficient"@)
    ||| contains_seq(h, "billing"@)
    ||| contains_seq(h, "balance"@)
    ||| contains_seq(h, "payment"@)
    ||| contains_seq(h, "credit"@)
    ||| contains_seq(h, "free limit"@)
}

pub open spec fn has_auth_word(h: Seq<char>) -> bool {
    ||| contains_seq(h, "authentication"@)
    ||| contains_seq(h, "invalid_api_key"@)
    ||| contains_seq(h, "unauthorized"@)
    ||| contains_seq(h, "api_key"@)
    ||| contains_seq(h, "apikey"@)
    ||| contains_seq(h, "api key"@)
}

pub open spec fn has_permission_word(h: Seq<char>) -> bool {
    ||| contains_seq(h, "permission"@)
    ||| contains_seq(h, "forbidden"@)
    ||| contains_seq(h, "access denied"@)
}

/// The HTTP status an upstream error stands for, by the words of its type and
/// message (lowercased): rate limits 429, exhausted quota or payment 402,
/// authentication 401, permission 403, anything else 400.
pub open spec fn classify_spec(err_type: Seq<char>, message: Seq<char>) -> u16 {
    classify_words_spec(lowercase(err_type + " "@ + message))
}

/// The status that lowercased error text stands for, by its words.
pub open spec fn classify_words_spec(h: Seq<char>) -> u16 {
    if has_rate_limit_word(h) {
        429
    } else if has_quota_word(h) {
        402
    } else if has_auth_word(h) {
        401
    } else if has_permission_word(h) {
        403
    } else {
        400
    }
}

fn has_word(h: &Vec<char>, w: &str) -> (r: bool)
    ensures
        r == contains_seq(h@, w@),
{
    let p = chars_of(w);
    contains_chars(h, &p)
}

/// Classifies an upstream error by its type and message.
pub fn classify_error(err_type: &str, message: &str) -> (r: u16)
    ensures
        r == classify_spec(err_type@, message@),
        all_ascii(err_type@ + " "@ + message@) ==> r == classify_ascii_spec(err_type@, message@),
        forall|t: Seq<char>, m: Seq<char>|
            same_but_ascii_case(err_type@ + " "@ + message@, t + " "@ + m) ==> #[trigger] classify_spec(t, m)
                == r,
        r == 429 || r == 402 || r == 401 || r == 403 || r == 400,
{
    let mut joined = err_type.to_owned();
    joined.append(" ");
    joined.append(message);
    let lower = to_lowercase(joined.as_str());
    proof {
        reveal_strlit(" ");
        if all_ascii(joined@) {
            assert(lower@ =~= joined@.map_values(|c: char| ascii_lower(c)));
        }
        assert forall|t: Seq<char>, m: Seq<char>|
            same_but_ascii_case(err_type@ + " "@ + message@, t + " "@ + m) implies #[trigger] classify_spec(
            t,
            m,
        ) == classify_words_spec(lower@) by {
            assert(lowercase(t + " "@ + m) == lower@);
        }
    }
    classify_words(&chars_of(lower.as_str()))
}

/// Classifies lowercased error text by its words.
pub fn classify_words(h: &Vec<char>) -> (r: u16)
    ensures
        r == classify_words_spec(h@),
        r == 429 || r == 402 || r == 401 || r == 403 || r == 400,
{
    if has_word(h, "rate_limit") || has_word(h, "ratelimit") || has_word(h, "too_many")
        || has_word(h, "limit_reached") || has_word(h, "rate limit") || has_word(h, "too many")
        || has_word(h, "reached the limit") {
        429
    } else if has_word(h, "quota") || has_word(h, "insufficient") || has_word(h, "billing")
        || has_word(h, "balance") || has_word(h, "payment") || has_word(h, "credit")
        || has_word(h, "free limit") {
        402
    } else if has_word(h, "authentication") || has_word(h, "invalid_api_key") || has_word(
        h,
        "unauthorized",
    ) || has_word(h, "api_key") || has_word(h, "apikey") || has_word(h, "api key") {
        401
    } else if has_word(h, "permission") || has_word(h, "forbidden") || has_word(
        h,
        "access denied",
    ) {
        403
    } else {
        400
    }
}

/// The status of an ASCII error text: its words read after ASCII
/// lowercasing.
pub open spec fn classify_ascii_spec(err_type: Seq<char>, message: Seq<char>) -> u16 {
    classify_words_spec((err_type + " "@ + message).map_values(|c: char| ascii_lower(c)))
}

/// Classification ignores letter case: error texts that differ only in the
/// case of their letters are classified alike.
pub proof fn law_classify_ignores_case(t1: Seq<char>, m1: Seq<char>, t2: Seq<char>, m2: Seq<char>)
    requires
        (t1 + " "@ + m1).len() == (t2 + " "@ + m2).len(),
        forall|i: int| 0 <= i < (t1 + " "@ + m1).len() ==> ascii_lower(#[trigger] (t1 + " "@ + m1)[i])
            == ascii_lower((t2 + " "@ + m2)[i]),
    ensures
        classify_ascii_spec(t1, m1) == classify_ascii_spec(t2, m2),
{
    let a = (t1 + " "@ + m1).map_values(|c: char| ascii_lower(c));
    let b = (t2 + " "@ + m2).map_values(|c: char| ascii_lower(c));
    assert(a =~= b);
}

/// The type of an error object, or its code where it has no type.
pub open spec fn type_or_code(err: JsonV) -> Seq<char> {
    match err.str_at("type"@) {
        Some(t) => t,
        None => str_or_empty(err.str_at("code"@)),
    }
}

/// The error object a chunk reports, by the upstream's protocol.
pub open spec fn stream_error_object(chunk: JsonV, provider_kind: Seq<char>) -> Option<JsonV> {
    let err = if provider_kind == "messages"@ {
        if chunk.str_at("type"@) == Some("error"@) {
            Some(chunk.at("error"@))
        } else {
            None
        }
    } else if provider_kind == "responses"@ {
        let ty = str_or_empty(chunk.str_at("type"@));
        if ty == "response.failed"@ {
            Some(chunk.at("response"@).at("error"@))
        } else if ty == "error"@ {
            Some(chunk.at("error"@))
        } else {
            None
        }
    } else {
        Some(chunk.at("error"@))
    };
    match err {
        Some(e) => if e is Object {
            Some(e)
        } else {
            None
        },
        None => None,
    }
}

/// The error a stream chunk reports, with its status and message; the
/// message falls back to the type where it is empty. Anthropic errors have
/// no code to fall back to.
pub open spec fn stream_error_spec(chunk: JsonV, provider_kind: Seq<char>) -> Option<(u16, Seq<char>)> {
    match stream_error_object(chunk, provider_kind) {
        Some(err) => {
            let t = if provider_kind == "messages"@ {
                str_or_empty(err.str_at("type"@))
            } else {
                type_or_code(err)
            };
            let m = str_or_empty(err.str_at("message"@));
            let message = if m.len() == 0 {
                t
            } else {
                m
            };
            Some((classify_spec(t, message), message))
        },
        None => None,
    }
}

fn str_or_empty_exec(o: Option<&str>) -> (r: &str)
    ensures
        r@ == str_or_empty(
            match o {
                Some(s) => Some(s@),
                None => None,
            },
        ),
{
    match o {
        Some(s) => s,
        None => {
            proof {
                reveal_strlit("");
                assert(""@ =~= Seq::<char>::empty());
            }
            ""
        },
    }
}

/// The error that a stream chunk reports, if any.
pub fn extract_stream_error(chunk: &Json, provider_kind: &str) -> (r: Option<(u16, String)>)
    ensures
        match r {
            Some((status, message)) => stream_error_spec(chunk@, provider_kind@) == Some(
                (status, message@),
            ),
            None => stream_error_spec(chunk@, provider_kind@) is None,
        },
{
    let is_messages = str_eq(provider_kind, "messages");
    let err: Option<&Json> = if is_messages {
        let is_error = match chunk.str_at("type") {
            Some(t) => str_eq(t, "error"),
            None => false,
        };
        if is_error {
            chunk.get("error")
        } else {
            return None;
        }
    } else if str_eq(provider_kind, "responses") {
        let ty = str_or_empty_exec(chunk.str_at("type"));
        if str_eq(ty, "response.failed") {
            match chunk.get("response") {
                Some(resp) => resp.get("error"),
                None => None,
            }
        } else if str_eq(ty, "error") {
            chunk.get("error")
        } else {
            return None;
        }
    } else {
        chunk.get("error")
    };
    let err = match err {
        Some(e) => e,
        None => {
            return None;
        },
    };
    if !err.is_object() {
        return None;
    }
    let t: &str = if is_messages {
        str_or_empty_exec(err.str_at("type"))
    } else {
        match err.str_at("type") {
            Some(x) => x,
            None => str_or_empty_exec(err.str_at("code")),
        }
    };
    let m = str_or_empty_exec(err.str_at("message"));
    let message: &str = if m.is_empty() {
        t
    } else {
        m
    };
    let status = classify_error(t, message);
    Some((status, message.to_owned()))
}

/// The error that a whole response body reports, where the body is a JSON
/// error document instead of a stream.
pub fn extract_non_sse_error(body: &str, provider_kind: &str) -> (r: Option<(u16, String)>)
    ensures
        match r {
            Some((status, message)) => exists|v: JsonV|
                crate::json::json_text_value(body@) == Some(v) && stream_error_spec(
                    v,
                    provider_kind@,
                ) == Some((status, message@)),
            None => match crate::json::json_text_value(body@) {
                Some(v) => stream_error_spec(v, provider_kind@) is None,
                None => true,
            },
        },
{
    match parse_json(body) {
        Some(v) => extract_stream_error(&v, provider_kind),
        None => None,
    }
}

/// What the forwarder does with an error reported inside a stream.
#[derive(Debug, Clone, Copy, PartialEq, Eq, Structural)]
pub enum StreamErrorAction {
    /// Nothing reached the client yet and the key is to blame: try another key.
    RetryWithNextKey,
    /// Pass the error on to the client as an error event.
    Deliver,
}

/// A key-level error before anything reached the client can be retried with
/// another key; any other is delivered.
pub fn stream_error_action(status: u16, sent_any: bool) -> (r: StreamErrorAction)
    ensures
        r == (if is_key_level(status) && !sent_any {
            StreamErrorAction::RetryWithNextKey
        } else {
            StreamErrorAction::Deliver
        }),
{
    if is_key_level_status(status) && !sent_any {
        StreamErrorAction::RetryWithNextKey
    } else {
        StreamErrorAction::Deliver
    }
}

// ---- SSE framing ----

/// The position where `p` first occurs in `s`.
pub open spec fn first_occurrence(s: Seq<char>, p: Seq<char>) -> Option<int>
    decreases s.len(),
{
    if s.len() < p.len() {
        None
    } else if s.take(p.len() as int) == p {
        Some(0)
    } else if s.len() == 0 {
        None
    } else {
        match first_occurrence(s.drop_first(), p) {
            Some(i) => Some(i + 1),
            None => None,
        }
    }
}

/// Text received from upstream, cut into SSE frames at blank lines.
pub struct SseFramer {
    pub buffer: Vec<char>,
}

/// The first frame of a buffer and what remains after it, where a frame is
/// complete.
pub open spec fn next_frame_spec(buf: Seq<char>) -> Option<(Seq<char>, Seq<char>)> {
    match first_occurrence(buf, "\n\n"@) {
        Some(k) => Some((buf.take(k), buf.skip(k + 2))),
        None => None,
    }
}

proof fn lemma_first_occurrence(s: Seq<char>, p: Seq<char>, i: int)
    requires
        p.len() > 0,
        0 <= i,
        forall|j: int| 0 <= j < i && j + p.len() <= s.len() ==> #[trigger] s.subrange(j, j + p.len()) != p,
    ensures
        i + p.len() <= s.len() && s.subrange(i, i + p.len()) == p ==> first_occurrence(s, p) == Some(
            i,
        ),
        i + p.len() > s.len() ==> first_occurrence(s, p) is None,
    decreases i,
{
    if s.len() < p.len() {
    } else if i == 0 {
        assert(s.take(p.len() as int) =~= s.subrange(0, p.len() as int));
    } else {
        assert(s.subrange(0int, 0int + p.len()) != p);
        assert(s.take(p.len() as int) =~= s.subrange(0int, 0int + p.len()));
        let t = s.drop_first();
        assert forall|j: int| 0 <= j < i - 1 && j + p.len() <= t.len() implies #[trigger] t.subrange(
            j,
            j + p.len(),
        ) != p by {
            assert(t.subrange(j, j + p.len()) =~= s.subrange(j + 1, j + 1 + p.len()));
        }
        lemma_first_occurrence(t, p, i - 1);
        if i + p.len() <= s.len() {
            assert(t.subrange(i - 1, i - 1 + p.len()) =~= s.subrange(i, i + p.len()));
        }
    }
}

/// Text appended after a buffer does not move where `p` first occurs in it.
pub proof fn lemma_first_occurrence_extend(s: Seq<char>, p: Seq<char>, b: Seq<char>)
    ensures
        first_occurrence(s, p) is Some ==> first_occurrence(s + b, p) == first_occurrence(s, p),
    decreases s.len(),
{
    if s.len() >= p.len() {
        let t = s + b;
        assert(t.take(p.len() as int) =~= s.take(p.len() as int));
        if s.take(p.len() as int) != p && s.len() > 0 {
            assert(t.drop_first() =~= s.drop_first() + b);
            lemma_first_occurrence_extend(s.drop_first(), p, b);
        }
    }
}

/// A complete frame stays the same frame, whatever text arrives after it.
pub proof fn lemma_next_frame_extend(buf: Seq<char>, b: Seq<char>)
    ensures
        match next_frame_spec(buf) {
            Some((f, rest)) => next_frame_spec(buf + b) == Some((f, rest + b)),
            None => true,
        },
{
    lemma_first_occurrence_extend(buf, "\n\n"@, b);
    crate::sniff::lemma_first_occurrence_bound(buf, "\n\n"@);
    reveal_strlit("\n\n");
    match first_occurrence(buf, "\n\n"@) {
        Some(k) => {
            assert((buf + b).take(k) =~= buf.take(k));
            assert((buf + b).skip(k + 2) =~= buf.skip(k + 2) + b);
        },
        None => {},
    }
}

impl SseFramer {
    pub fn new() -> (r: SseFramer)
        ensures
            r.buffer@ == Seq::<char>::empty(),
    {
        SseFramer { buffer: Vec::new() }
    }

    /// Appends received text.
    pub fn push_text(&mut self, text: &str)
        ensures
            final(self).buffer@ == old(self).buffer@ + text@,
    {
        let cs = chars_of(text);
        let mut i: usize = 0;
        while i < cs.len()
            invariant
                i <= cs@.len(),
                self.buffer@ == old(self).buffer@ + cs@.take(i as int),
            decreases cs@.len() - i,
        {
            self.buffer.push(cs[i]);
            proof {
                assert(cs@.take(i as int + 1) =~= cs@.take(i as int).push(cs@[i as int]));
            }
            i = i + 1;
        }
        proof {
            assert(cs@.take(i as int) =~= cs@);
        }
    }

    /// Takes the first complete frame off the buffer: the text before the
    /// first blank line, which is dropped with it.
    pub fn next_frame(&mut self) -> (r: Option<String>)
        ensures
            match r {
                Some(f) => next_frame_spec(old(self).buffer@) == Some((f@, final(self).buffer@)),
                None => next_frame_spec(old(self).buffer@) is None && final(self).buffer@ == old(
                    self,
                ).buffer@,
            },
    {
        let n = self.buffer.len();
        let mut i: usize = 0;
        let ghost p = "\n\n"@;
        proof {
            reveal_strlit("\n\n");
        }
        while n >= 2 && i < n - 1
            invariant
                n == self.buffer@.len(),
                self.buffer@ == old(self).buffer@,
                p == "\n\n"@,
                p.len() == 2,
                p[0] == '\n' && p[1] == '\n',
                forall|j: int| 0 <= j < i && j + 2 <= n ==> #[trigger] self.buffer@.subrange(j, j + 2) != p,
            decreases n - i,
        {
            if self.buffer[i] == '\n' && self.buffer[i + 1] == '\n' {
                proof {
                    assert(self.buffer@.subrange(i as int, i + 2) =~= p);
                    lemma_first_occurrence(self.buffer@, p, i as int);
                }
                let frame = string_from_chars(&self.buffer.as_slice()[0..i]);
                let rest = self.buffer.split_off(i + 2);
                self.buffer = rest;
                proof {
                    assert(frame@ =~= old(self).buffer@.take(i as int));
                    assert(self.buffer@ =~= old(self).buffer@.skip(i + 2));
                }
                return Some(frame);
            }
            proof {
                assert(self.buffer@.subrange(i as int, i + 2)[0] == self.buffer@[i as int]);
                assert(self.buffer@.subrange(i as int, i + 2)[1] == self.buffer@[i + 1]);
            }
            i = i + 1;
        }
        proof {
            if n >= 2 {
                assert forall|j: int| 0 <= j < n - 1 && j + 2 <= n implies #[trigger] self.buffer@.subrange(
                    j,
                    j + 2,
                ) != p by {}
                lemma_first_occurrence(self.buffer@, p, (n - 1) as int);
            } else {
                lemma_first_occurrence(self.buffer@, p, 0);
            }
        }
        None
    }
}

/// What an SSE frame carries.
#[derive(Debug, PartialEq, Eq)]
pub enum SseFrame {
    /// A comment (a keepalive) or a frame without data.
    Skip,
    /// The end of the stream.
    Done,
    /// A data payload.
    Data(String),
}

pub enum SseFrameV {
    Skip,
    Done,
    Data(Seq<char>),
}

impl View for SseFrame {
    type V = SseFrameV;

    open spec fn view(&self) -> SseFrameV {
        match *self {
            SseFrame::Skip => SseFrameV::Skip,
            SseFrame::Done => SseFrameV::Done,
            SseFrame::Data(s) => SseFrameV::Data(s@),
        }
    }
}

/// A line without the carriage return that ends it.
pub open spec fn strip_cr(l: Seq<char>) -> Seq<char> {
    if l.len() > 0 && l.last() == '\r' {
        l.drop_last()
    } else {
        l
    }
}

/// The data of the last `data: ` line, scanning lines as `str::lines` splits
/// them: at `\n`, with a `\r` before it dropped.
pub open spec fn last_data_line(s: Seq<char>) -> Option<Seq<char>>
    decreases s.len(),
{
    if s.len() == 0 {
        None
    } else {
        match first_index_of(s, '\n') {
            Some(k) => {
                proof {
                    crate::text::lemma_first_index_bound(s, '\n');
                }
                let line = strip_cr(s.take(k));
                let later = if k + 1 < s.len() {
                    last_data_line(s.skip(k + 1))
                } else {
                    None
                };
                match later {
                    Some(d) => Some(d),
                    None => if seq_starts_with(line, "data: "@) {
                        Some(line.skip(6))
                    } else {
                        None
                    },
                }
            },
            None => if seq_starts_with(s, "data: "@) {
                Some(s.skip(6))
            } else {
                None
            },
        }
    }
}

/// What a frame carries: nothing for a comment, else the data after a
/// leading `data: `, or that of its last `data: ` line; `[DONE]` ends the
/// stream.
pub open spec fn frame_spec(frame: Seq<char>) -> SseFrameV {
    if seq_starts_with(frame, ":"@) {
        SseFrameV::Skip
    } else {
        let data = if seq_starts_with(frame, "data: "@) {
            Some(frame.skip(6))
        } else {
            last_data_line(frame)
        };
        match data {
            Some(d) => if d == "[DONE]"@ {
                SseFrameV::Done
            } else {
                SseFrameV::Data(d)
            },
            None => SseFrameV::Skip,
        }
    }
}

proof fn lemma_first_index_of_prefix(s: Seq<char>, c: char, k: int)
    requires
        0 <= k < s.len(),
        s[k] == c,
        forall|j: int| 0 <= j < k ==> s[j] != c,
    ensures
        first_index_of(s, c) == Some(k),
    decreases k,
{
    if k > 0 {
        assert forall|j: int| 0 <= j < k - 1 implies s.drop_first()[j] != c by {
            assert(s.drop_first()[j] == s[j + 1]);
        }
        lemma_first_index_of_prefix(s.drop_first(), c, k - 1);
    }
}

proof fn lemma_no_index(s: Seq<char>, c: char)
    requires
        forall|j: int| 0 <= j < s.len() ==> s[j] != c,
    ensures
        first_index_of(s, c) is None,
    decreases s.len(),
{
    if s.len() > 0 {
        assert forall|j: int| 0 <= j < s.len() - 1 implies s.drop_first()[j] != c by {
            assert(s.drop_first()[j] == s[j + 1]);
        }
        lemma_no_index(s.drop_first(), c);
    }
}

fn starts_with_chars(s: &Vec<char>, from: usize, to: usize, p: &str) -> (r: bool)
    requires
        from <= to <= s@.len(),
    ensures
        r == seq_starts_with(s@.subrange(from as int, to as int), p@),
{
    let pc = chars_of(p);
    let m = pc.len();
    if m > to - from {
        return false;
    }
    let mut k: usize = 0;
    while k < m
        invariant
            k <= m,
            m == pc@.len(),
            pc@ == p@,
            from <= to <= s@.len(),
            m <= to - from,
            forall|j: int| 0 <= j < k ==> s@[from + j] == pc@[j],
        decreases m - k,
    {
        if s[from + k] != pc[k] {
            proof {
                assert(s@.subrange(from as int, to as int).take(m as int)[k as int] != p@[k as int]);
            }
            return false;
        }
        k = k + 1;
    }
    proof {
        assert(s@.subrange(from as int, to as int).take(m as int) =~= p@);
    }
    true
}

/// Reads what a frame carries.
pub fn frame_data(frame: &str) -> (r: SseFrame)
    ensures
        r@ == frame_spec(frame@),
{
    proof {
        reveal_strlit(":");
        reveal_strlit("data: ");
        reveal_strlit("[DONE]");
    }
    let cs = chars_of(frame);
    let n = cs.len();
    if starts_with_chars(&cs, 0, n, ":") {
        proof {
            assert(cs@.subrange(0, n as int) =~= frame@);
        }
        return SseFrame::Skip;
    }
    proof {
        assert(cs@.subrange(0, n as int) =~= frame@);
    }
    let data: Option<String> = if starts_with_chars(&cs, 0, n, "data: ") {
        let d = string_from_chars(&cs.as_slice()[6..n]);
        proof {
            assert(d@ =~= frame@.skip(6));
        }
        Some(d)
    } else {
        // scan the lines, keeping the last data line
        let mut found: Option<String> = None;
        let mut start: usize = 0;
        let mut i: usize = 0;
        let ghost s0 = frame@;
        proof {
            assert(frame@.skip(0) =~= frame@);
        }
        while i < n
            invariant
                n == cs@.len(),
                cs@ == frame@,
                start <= i <= n,
                forall|j: int| start <= j < i ==> cs@[j] != '\n',
                start == 0 || (start > 0 && cs@[start - 1] == '\n'),
                ({
                    let rest = frame@.skip(start as int);
                    last_data_line(frame@) == match last_data_line(rest) {
                        Some(d) => Some(d),
                        None => crate::forward::opt_str(found),
                    }
                }),
                start < n || found is None || start == n,
            decreases n - i,
        {
            if cs[i] == '\n' {
                let ghost rest = frame@.skip(start as int);
                proof {
                    assert forall|j: int| 0 <= j < i - start implies rest[j] != '\n' by {
                        assert(rest[j] == cs@[start + j]);
                    }
                    assert(rest[i - start] == '\n');
                    lemma_first_index_of_prefix(rest, '\n', i - start);
                    assert(rest.take(i - start) =~= cs@.subrange(start as int, i as int));
                    assert(rest.skip(i - start + 1) =~= frame@.skip(i + 1));
                }
                let end = if i > start && cs[i - 1] == '\r' {
                    i - 1
                } else {
                    i
                };
                proof {
                    assert(strip_cr(cs@.subrange(start as int, i as int)) =~= cs@.subrange(
                        start as int,
                        end as int,
                    ));
                }
                let is_data = starts_with_chars(&cs, start, end, "data: ");
                let ghost old_found = found;
                if is_data {
                    proof {
                        reveal_strlit("data: ");
                        assert("data: "@.len() == 6);
                    }
                    let d = string_from_chars(&cs.as_slice()[start + 6..end]);
                    proof {
                        assert(d@ =~= cs@.subrange(start as int, end as int).skip(6));
                    }
                    found = Some(d);
                }
                proof {
                    let line = strip_cr(rest.take(i - start));
                    let here = if seq_starts_with(line, "data: "@) {
                        Some(line.skip(6))
                    } else {
                        None
                    };
                    if i + 1 >= n {
                        assert(frame@.skip(i + 1).len() == 0);
                    }
                    assert(crate::forward::opt_str(found) == match here {
                        Some(d) => Some(d),
                        None => crate::forward::opt_str(old_found),
                    });
                }
                start = i + 1;
            }
            i = i + 1;
        }
        let ghost rest = frame@.skip(start as int);
        if start < n {
            proof {
                assert forall|j: int| 0 <= j < rest.len() implies rest[j] != '\n' by {
                    assert(rest[j] == cs@[start + j]);
                }
                lemma_no_index(rest, '\n');
                assert(rest =~= cs@.subrange(start as int, n as int));
            }
            if starts_with_chars(&cs, start, n, "data: ") {
                proof {
                    assert("data: "@.len() == 6);
                }
                let d = string_from_chars(&cs.as_slice()[start + 6..n]);
                proof {
                    assert(d@ =~= rest.skip(6));
                }
                found = Some(d);
            }
        } else {
            proof {
                assert(rest.len() == 0);
            }
        }
        found
    };
    match data {
        Some(d) => {
            if str_eq(d.as_str(), "[DONE]") {
                SseFrame::Done
            } else {
                SseFrame::Data(d)
            }
        },
        None => SseFrame::Skip,
    }
}

pub open spec fn opt_str(o: Option<String>) -> Option<Seq<char>> {
    crate::json::opt_str_view(o)
}

} // verus!
