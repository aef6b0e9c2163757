//! Token usage read off a passthrough SSE stream.
//!
//! The same-protocol proxy paths forward the upstream bytes unchanged; a
//! `SniffStream` is fed the same text, cuts it into frames at blank lines
//! (frames may arrive split across chunks) and reads the usage that the
//! `data:` payloads report. Counters wrap at 2^64.

use vstd::prelude::*;
use crate::forward::{first_occurrence, next_frame_spec, strip_cr, SseFramer};
use crate::json::{parse_json, str_eq, Json, JsonV};
use crate::text::{find_char, first_index_of, seq_starts_with, starts_with, substring};
use crate::usage::{count_or_zero, str_or_empty};

verus! {

/// Token usage accumulated while reading a passthrough stream.
#[derive(Debug, Clone, Copy, PartialEq, Eq, Structural)]
pub struct SniffedUsage {
    /// All new input: input not read from the cache plus input first written
    /// to it.
    pub input_tokens: u64,
    pub output_tokens: u64,
    /// Input read from the prompt cache.
    pub cache_read_input_tokens: u64,
    /// Characters of text and thinking seen, from which output tokens are
    /// estimated where the upstream reports none.
    pub output_chars: u64,
}

pub open spec fn zero_sniffed() -> SniffedUsage {
    SniffedUsage { input_tokens: 0, output_tokens: 0, cache_read_input_tokens: 0, output_chars: 0 }
}

impl Default for SniffedUsage {
    fn default() -> (r: Self)
        ensures
            r == zero_sniffed(),
    {
        SniffedUsage { input_tokens: 0, output_tokens: 0, cache_read_input_tokens: 0, output_chars: 0 }
    }
}

/// `n` as reported, else `old`.
pub open spec fn or_keep(v: Option<u64>, old: u64) -> u64 {
    match v {
        Some(n) => n,
        None => old,
    }
}

/// The characters of a string member, 0 where it is not a string.
pub open spec fn chars_of_member(v: JsonV) -> u64 {
    match v.as_str() {
        Some(s) => s.len() as u64,
        None => 0,
    }
}

/// What one payload tells about usage. Anthropic streams (`messages`) give
/// input at the message start (uncached plus cache writes), output at the
/// final delta, cache reads at either, and text or thinking characters in
/// deltas; other streams give prompt and completion tokens in a top-level
/// `usage`, and content characters in the first choice's delta.
pub open spec fn sniff_json_spec(kind: Seq<char>, json: JsonV, u: SniffedUsage) -> SniffedUsage {
    if kind == "messages"@ {
        let t = str_or_empty(json.str_at("type"@));
        if t == "message_start"@ {
            let us = json.at("message"@).at("usage"@);
            let it = count_or_zero(us.at("input_tokens"@));
            let cw = count_or_zero(us.at("cache_creation_input_tokens"@));
            SniffedUsage {
                input_tokens: it.wrapping_add(cw),
                cache_read_input_tokens: or_keep(
                    us.at("cache_read_input_tokens"@).as_u64(),
                    u.cache_read_input_tokens,
                ),
                ..u
            }
        } else if t == "message_delta"@ {
            let us = json.at("usage"@);
            SniffedUsage {
                output_tokens: or_keep(us.at("output_tokens"@).as_u64(), u.output_tokens),
                cache_read_input_tokens: or_keep(
                    us.at("cache_read_input_tokens"@).as_u64(),
                    u.cache_read_input_tokens,
                ),
                ..u
            }
        } else if t == "content_block_delta"@ {
            let d = json.at("delta"@);
            let dt = d.str_at("type"@);
            if dt == Some("text_delta"@) {
                SniffedUsage {
                    output_chars: u.output_chars.wrapping_add(chars_of_member(d.at("text"@))),
                    ..u
                }
            } else if dt == Some("thinking_delta"@) {
                SniffedUsage {
                    output_chars: u.output_chars.wrapping_add(chars_of_member(d.at("thinking"@))),
                    ..u
                }
            } else {
                u
            }
        } else {
            u
        }
    } else {
        let u1 = match json.get("usage"@) {
            Some(us) => SniffedUsage {
                input_tokens: or_keep(us.at("prompt_tokens"@).as_u64(), u.input_tokens),
                output_tokens: or_keep(us.at("completion_tokens"@).as_u64(), u.output_tokens),
                ..u
            },
            None => u,
        };
        match json.at("choices"@).as_array() {
            Some(cs) => if cs.len() > 0 {
                match cs[0].at("delta"@).at("content"@).as_str() {
                    Some(c) => SniffedUsage {
                        output_chars: u1.output_chars.wrapping_add(c.len() as u64),
                        ..u1
                    },
                    None => u1,
                }
            } else {
                u1
            },
            None => u1,
        }
    }
}

/// One line of a frame: a `data: ` line other than `[DONE]` whose payload is
/// JSON is read for usage; anything else changes nothing.
pub open spec fn sniff_line(kind: Seq<char>, line: Seq<char>, u: SniffedUsage) -> SniffedUsage {
    if seq_starts_with(line, "data: "@) {
        let data = line.skip(6);
        if data == "[DONE]"@ {
            u
        } else {
            match crate::json::json_text_value(data) {
                Some(v) => sniff_json_spec(kind, v, u),
                None => u,
            }
        }
    } else {
        u
    }
}

/// The lines of a frame read in order, split as `str::lines` splits them: at
/// `\n`, with a `\r` just before it dropped.
pub open spec fn sniff_text_lines(kind: Seq<char>, s: Seq<char>, u: SniffedUsage) -> SniffedUsage
    decreases s.len(),
{
    if s.len() == 0 {
        u
    } else {
        match first_index_of(s, '\n') {
            Some(k) => {
                proof {
                    crate::text::lemma_first_index_bound(s, '\n');
                }
                sniff_text_lines(kind, s.skip(k + 1), sniff_line(kind, strip_cr(s.take(k)), u))
            },
            None => sniff_line(kind, s, u),
        }
    }
}

pub proof fn lemma_first_occurrence_bound(s: Seq<char>, p: Seq<char>)
    ensures
        match first_occurrence(s, p) {
            Some(i) => 0 <= i && i + p.len() <= s.len(),
            None => true,
        },
    decreases s.len(),
{
    if s.len() >= p.len() && s.take(p.len() as int) != p && s.len() > 0 {
        lemma_first_occurrence_bound(s.drop_first(), p);
    }
}

/// Every complete frame of the buffer read in order: what remains of the
/// buffer, and the usage after.
pub open spec fn sniff_buffer(kind: Seq<char>, buf: Seq<char>, u: SniffedUsage) -> (
    Seq<char>,
    SniffedUsage,
)
    decreases buf.len(),
{
    match next_frame_spec(buf) {
        Some((frame, rest)) => {
            proof {
                lemma_first_occurrence_bound(buf, "\n\n"@);
                reveal_strlit("\n\n");
            }
            if rest.len() < buf.len() {
                sniff_buffer(kind, rest, sniff_text_lines(kind, frame, u))
            } else {
                (buf, u)
            }
        },
        None => (buf, u),
    }
}

/// Reading what is complete in `buf`, then more text after what was left,
/// is reading `buf` and that text at once.
pub proof fn lemma_sniff_buffer_extend(kind: Seq<char>, buf: Seq<char>, b: Seq<char>, u: SniffedUsage)
    ensures
        sniff_buffer(kind, sniff_buffer(kind, buf, u).0 + b, sniff_buffer(kind, buf, u).1)
            == sniff_buffer(kind, buf + b, u),
    decreases buf.len(),
{
    crate::forward::lemma_next_frame_extend(buf, b);
    lemma_first_occurrence_bound(buf, "\n\n"@);
    reveal_strlit("\n\n");
    match next_frame_spec(buf) {
        Some((frame, rest)) => {
            if rest.len() < buf.len() {
                lemma_sniff_buffer_extend(kind, rest, b, sniff_text_lines(kind, frame, u));
            }
        },
        None => {},
    }
}

/// Frames split across chunks are read as if the text had come in one
/// piece: taking chunk `a` and then chunk `b` leaves the same buffer and the
/// same usage as taking `a` and `b` joined.
pub proof fn law_sniff_chunking(
    kind: Seq<char>,
    buf: Seq<char>,
    a: Seq<char>,
    b: Seq<char>,
    u: SniffedUsage,
)
    ensures
        ({
            let (buf1, u1) = sniff_buffer(kind, buf + a, u);
            sniff_buffer(kind, buf1 + b, u1)
        }) == sniff_buffer(kind, buf + (a + b), u),
{
    lemma_sniff_buffer_extend(kind, buf + a, b, u);
    assert(buf + a + b =~= buf + (a + b));
}

/// A stream being passed through, with the text seen and not yet framed,
/// the usage read so far and the protocol of the upstream (`messages` for
/// Anthropic, anything else for OpenAI-style streams).
pub struct SniffStream<S> {
    pub inner: S,
    pub buffer: SseFramer,
    pub usage: SniffedUsage,
    pub provider_kind: String,
}

fn extract_usage(kind: &str, json: &Json, u: SniffedUsage) -> (r: SniffedUsage)
    ensures
        r == sniff_json_spec(kind@, json@, u),
{
    if str_eq(kind, "messages") {
        let t: &str = match json.str_at("type") {
            Some(t) => t,
            None => "",
        };
        proof {
            reveal_strlit("");
            assert(""@ =~= Seq::<char>::empty());
        }
        if str_eq(t, "message_start") {
            let us = match json.get("message") {
                Some(m) => m.get("usage"),
                None => None,
            };
            let (it, cw, cr) = match us {
                Some(x) => (
                    match x.u64_at("input_tokens") {
                        Some(n) => n,
                        None => 0,
                    },
                    match x.u64_at("cache_creation_input_tokens") {
                        Some(n) => n,
                        None => 0,
                    },
                    x.u64_at("cache_read_input_tokens"),
                ),
                None => (0, 0, None),
            };
            SniffedUsage {
                input_tokens: it.wrapping_add(cw),
                cache_read_input_tokens: match cr {
                    Some(n) => n,
                    None => u.cache_read_input_tokens,
                },
                ..u
            }
        } else if str_eq(t, "message_delta") {
            let (ot, cr) = match json.get("usage") {
                Some(x) => (x.u64_at("output_tokens"), x.u64_at("cache_read_input_tokens")),
                None => (None, None),
            };
            SniffedUsage {
                output_tokens: match ot {
                    Some(n) => n,
                    None => u.output_tokens,
                },
                cache_read_input_tokens: match cr {
                    Some(n) => n,
                    None => u.cache_read_input_tokens,
                },
                ..u
            }
        } else if str_eq(t, "content_block_delta") {
            match json.get("delta") {
                Some(d) => {
                    let dt = d.str_at("type");
                    let key: Option<&str> = match dt {
                        Some(x) => if str_eq(x, "text_delta") {
                            Some("text")
                        } else if str_eq(x, "thinking_delta") {
                            Some("thinking")
                        } else {
                            None
                        },
                        None => None,
                    };
                    match key {
                        Some(k) => {
                            let n: u64 = match d.str_at(k) {
                                Some(s) => s.unicode_len() as u64,
                                None => 0,
                            };
                            SniffedUsage { output_chars: u.output_chars.wrapping_add(n), ..u }
                        },
                        None => u,
                    }
                },
                None => u,
            }
        } else {
            u
        }
    } else {
        let u1 = match json.get("usage") {
            Some(us) => SniffedUsage {
                input_tokens: match us.u64_at("prompt_tokens") {
                    Some(n) => n,
                    None => u.input_tokens,
                },
                output_tokens: match us.u64_at("completion_tokens") {
                    Some(n) => n,
                    None => u.output_tokens,
                },
                ..u
            },
            None => u,
        };
        match json.array_at("choices") {
            Some(cs) => {
                if cs.len() > 0 {
                    proof {
                        crate::json::lemma_items_view_index(cs@, 0);
                    }
                    let c = match cs[0].get("delta") {
                        Some(d) => d.str_at("content"),
                        None => None,
                    };
                    match c {
                        Some(text) => SniffedUsage {
                            output_chars: u1.output_chars.wrapping_add(text.unicode_len() as u64),
                            ..u1
                        },
                        None => u1,
                    }
                } else {
                    proof {
                        crate::json::lemma_items_view_len(cs@);
                    }
                    u1
                }
            },
            None => u1,
        }
    }
}

fn sniff_line_exec(kind: &str, line: &str, u: SniffedUsage) -> (r: SniffedUsage)
    ensures
        r == sniff_line(kind@, line@, u),
{
    if starts_with(line, "data: ") {
        proof {
            reveal_strlit("data: ");
        }
        let n = line.unicode_len();
        let data = substring(line, 6, n);
        proof {
            assert(data@ =~= line@.skip(6));
        }
        if str_eq(data.as_str(), "[DONE]") {
            u
        } else {
            match parse_json(data.as_str()) {
                Some(v) => extract_usage(kind, &v, u),
                None => u,
            }
        }
    } else {
        u
    }
}

fn strip_cr_exec(line: String) -> (r: String)
    ensures
        r@ == strip_cr(line@),
{
    let n = line.unicode_len();
    if n > 0 && line.as_str().get_char(n - 1) == '\r' {
        substring(line.as_str(), 0, n - 1)
    } else {
        line
    }
}

fn sniff_frame(kind: &str, frame: &str, u: SniffedUsage) -> (r: SniffedUsage)
    ensures
        r == sniff_text_lines(kind@, frame@, u),
{
    let mut rest: String = frame.to_owned();
    let mut cur = u;
    loop
        invariant
            sniff_text_lines(kind@, rest@, cur) == sniff_text_lines(kind@, frame@, u),
        decreases rest@.len(),
    {
        let n = rest.unicode_len();
        if n == 0 {
            return cur;
        }
        match find_char(rest.as_str(), '\n') {
            Some(k) => {
                proof {
                    crate::text::lemma_first_index_bound(rest@, '\n');
                }
                let line = strip_cr_exec(substring(rest.as_str(), 0, k));
                let next = substring(rest.as_str(), k + 1, n);
                proof {
                    assert(next@ =~= rest@.skip(k as int + 1));
                    assert(rest@.subrange(0, k as int) =~= rest@.take(k as int));
                }
                cur = sniff_line_exec(kind, line.as_str(), cur);
                rest = next;
            },
            None => {
                return sniff_line_exec(kind, rest.as_str(), cur);
            },
        }
    }
}

impl<S> SniffStream<S> {
    /// A sniffer around `inner` for an upstream of the given protocol.
    pub fn new(inner: S, provider_kind: &str) -> (r: Self)
        ensures
            r.inner == inner,
            r.buffer.buffer@ == Seq::<char>::empty(),
            r.usage == zero_sniffed(),
            r.provider_kind@ == provider_kind@,
    {
        SniffStream {
            inner,
            buffer: SseFramer::new(),
            usage: SniffedUsage::default(),
            provider_kind: provider_kind.to_owned(),
        }
    }

    /// The usage read; to be taken once the stream has ended.
    pub fn into_usage(self) -> (r: SniffedUsage)
        ensures
            r == self.usage,
    {
        self.usage
    }

    /// Reads every complete frame in the buffer, leaving the incomplete rest.
    fn process_buffer(&mut self)
        ensures
            (final(self).buffer.buffer@, final(self).usage) == sniff_buffer(
                old(self).provider_kind@,
                old(self).buffer.buffer@,
                old(self).usage,
            ),
            final(self).provider_kind@ == old(self).provider_kind@,
            final(self).inner == old(self).inner,
    {
        let ghost kind = self.provider_kind@;
        let ghost target = sniff_buffer(kind, self.buffer.buffer@, self.usage);
        loop
            invariant
                kind == self.provider_kind@,
                self.provider_kind@ == old(self).provider_kind@,
                self.inner == old(self).inner,
                sniff_buffer(kind, self.buffer.buffer@, self.usage) == target,
                target == sniff_buffer(kind, old(self).buffer.buffer@, old(self).usage),
            decreases self.buffer.buffer@.len(),
        {
            let ghost b0 = self.buffer.buffer@;
            match self.buffer.next_frame() {
                Some(frame) => {
                    proof {
                        lemma_first_occurrence_bound(b0, "\n\n"@);
                        reveal_strlit("\n\n");
                        assert(self.buffer.buffer@.len() < b0.len());
                    }
                    let u = sniff_frame(self.provider_kind.as_str(), frame.as_str(), self.usage);
                    self.usage = u;
                },
                None => {
                    return;
                },
            }
        }
    }

    /// Takes a chunk of the stream's text (forwarded unchanged elsewhere) and
    /// reads every frame it completes.
    pub fn push_chunk(&mut self, text: &str)
        ensures
            (final(self).buffer.buffer@, final(self).usage) == sniff_buffer(
                old(self).provider_kind@,
                old(self).buffer.buffer@ + text@,
                old(self).usage,
            ),
            final(self).provider_kind@ == old(self).provider_kind@,
            final(self).inner == old(self).inner,
    {
        self.buffer.push_text(text);
        self.process_buffer();
    }

    /// Reads what complete frames remain once the stream has ended.
    pub fn finish(&mut self)
        ensures
            (final(self).buffer.buffer@, final(self).usage) == sniff_buffer(
                old(self).provider_kind@,
                old(self).buffer.buffer@,
                old(self).usage,
            ),
            final(self).provider_kind@ == old(self).provider_kind@,
            final(self).inner == old(self).inner,
    {
        self.process_buffer();
    }
}

} // verus!
