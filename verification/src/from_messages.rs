//! Anthropic Messages into the neutral representation: request bodies and
//! stream chunks.
//!
//! Anthropic's stream events map almost one to one onto neutral events; the
//! parser mostly keeps the usage. Two readings exist: the current one, and
//! the earlier one (`legacy`) that counts cache writes into the input and
//! knows no thinking signatures.

use vstd::prelude::*;
use crate::from_chat_completions::{default_schema, number_at, role_or_user};
use crate::ir::{
    blocks_view, events_view, push_block, push_event, stop_reason_from_anthropic_spec, zero_usage,
    BlockStartV, BlockV, DeltaV, EventV, ImageV, IrContentBlock, IrContentBlockStart,
    IrContentDelta, IrImageSource, IrMessage, IrRequest, IrRole, IrStopReason, IrStreamEvent,
    IrSystemBlock, IrSystemContent, IrThinkingConfig, IrTool, IrToolChoice, IrToolResultContent,
    IrUsage, MessageV, RequestV, SystemV, ToolChoiceV, ToolResultV, ToolV,
};
use crate::json::{
    empty_object, fields_view, items_view, jobj, json_string, lemma_get_decreases,
    lemma_items_view_index, lemma_items_view_len, object_of, opt_json_view, push_field, push_item,
    str_eq, Json, JsonV,
};
use crate::text::{seq_starts_with, starts_with};
use crate::usage::{count_or_zero, str_or_empty};

verus! {

// ---- stream chunks ----

/// The state of a Messages stream parser: the usage seen so far.
pub struct MessagesParseState {
    pub usage: IrUsage,
}

impl MessagesParseState {
    pub fn new() -> (r: Self)
        ensures
            r.usage == zero_usage(),
    {
        MessagesParseState { usage: IrUsage::default() }
    }
}

impl Default for MessagesParseState {
    fn default() -> (r: Self)
        ensures
            r.usage == zero_usage(),
    {
        Self::new()
    }
}

pub open spec fn str_or(o: Option<Seq<char>>, d: Seq<char>) -> Seq<char> {
    match o {
        Some(s) => s,
        None => d,
    }
}

/// The stream index of a chunk: its `index`, 0 where absent.
pub open spec fn chunk_index(chunk: JsonV) -> int {
    (count_or_zero(chunk.at("index"@)) as usize) as int
}

/// The sums a chunk adds to the usage fit in 64 bits.
pub open spec fn messages_chunk_fits(chunk: JsonV, u: IrUsage, legacy: bool) -> bool {
    let t = str_or_empty(chunk.str_at("type"@));
    let msg_usage = chunk.at("message"@).at("usage"@);
    let d = chunk.at("delta"@);
    let dt = str_or_empty(d.str_at("type"@));
    &&& (t == "message_start"@ && legacy) ==> count_or_zero(msg_usage.at("input_tokens"@))
        + count_or_zero(msg_usage.at("cache_creation_input_tokens"@)) <= u64::MAX
    &&& (t == "content_block_delta"@ && dt == "text_delta"@) ==> u.output_chars + str_or_empty(
        d.str_at("text"@),
    ).len() <= u64::MAX
    &&& (t == "content_block_delta"@ && dt == "thinking_delta"@) ==> u.output_chars
        + str_or_empty(d.str_at("thinking"@)).len() <= u64::MAX
}

/// The events of one Anthropic chunk and the usage after it.
pub open spec fn messages_chunk_spec(chunk: JsonV, u: IrUsage, legacy: bool) -> (
    Seq<EventV>,
    IrUsage,
) {
    let t = str_or_empty(chunk.str_at("type"@));
    if t == "message_start"@ {
        let msg = chunk.at("message"@);
        let mu = msg.at("usage"@);
        let it = count_or_zero(mu.at("input_tokens"@));
        let cr = count_or_zero(mu.at("cache_read_input_tokens"@));
        let cc = count_or_zero(mu.at("cache_creation_input_tokens"@));
        let nu = IrUsage {
            input_tokens: if legacy {
                (it + cc) as u64
            } else if it > 0 {
                it
            } else {
                u.input_tokens
            },
            cache_read_input_tokens: cr,
            cache_creation_input_tokens: cc,
            ..u
        };
        (
            seq![
                EventV::MessageStart {
                    id: str_or(msg.str_at("id"@), "msg_unknown"@),
                    model: str_or_empty(msg.str_at("model"@)),
                    usage: if legacy {
                        None
                    } else {
                        Some(nu)
                    },
                },
            ],
            nu,
        )
    } else if t == "content_block_start"@ {
        let b = chunk.at("content_block"@);
        let bt = str_or_empty(b.str_at("type"@));
        let start = if bt == "text"@ {
            Some(BlockStartV::Text)
        } else if bt == "thinking"@ {
            Some(
                BlockStartV::Thinking {
                    signature: if legacy {
                        None
                    } else {
                        b.at("signature"@).as_str()
                    },
                },
            )
        } else if bt == "tool_use"@ {
            Some(
                BlockStartV::ToolUse {
                    id: str_or_empty(b.str_at("id"@)),
                    name: str_or_empty(b.str_at("name"@)),
                },
            )
        } else {
            None
        };
        match start {
            Some(s) => (seq![EventV::BlockStart { index: chunk_index(chunk), block: s }], u),
            None => (Seq::empty(), u),
        }
    } else if t == "content_block_delta"@ {
        let d = chunk.at("delta"@);
        let dt = str_or_empty(d.str_at("type"@));
        let i = chunk_index(chunk);
        if dt == "text_delta"@ {
            let x = str_or_empty(d.str_at("text"@));
            (
                seq![EventV::BlockDelta { index: i, delta: DeltaV::Text(x) }],
                IrUsage { output_chars: (u.output_chars + x.len()) as u64, ..u },
            )
        } else if dt == "thinking_delta"@ {
            let x = str_or_empty(d.str_at("thinking"@));
            (
                seq![EventV::BlockDelta { index: i, delta: DeltaV::Thinking(x) }],
                IrUsage { output_chars: (u.output_chars + x.len()) as u64, ..u },
            )
        } else if dt == "input_json_delta"@ {
            (
                seq![
                    EventV::BlockDelta {
                        index: i,
                        delta: DeltaV::InputJson(str_or_empty(d.str_at("partial_json"@))),
                    },
                ],
                u,
            )
        } else {
            (Seq::empty(), u)
        }
    } else if t == "content_block_stop"@ {
        (seq![EventV::BlockStop { index: chunk_index(chunk) }], u)
    } else if t == "message_delta"@ {
        let mu = chunk.at("usage"@);
        let u1 = match mu.at("output_tokens"@).as_u64() {
            Some(ot) => IrUsage { output_tokens: ot, ..u },
            None => u,
        };
        let u2 = match mu.at("input_tokens"@).as_u64() {
            Some(it) => if !legacy && it > 0 {
                IrUsage { input_tokens: it, ..u1 }
            } else {
                u1
            },
            None => u1,
        };
        let u3 = match mu.at("cache_read_input_tokens"@).as_u64() {
            Some(cr) => IrUsage { cache_read_input_tokens: cr, ..u2 },
            None => u2,
        };
        let sr = match chunk.at("delta"@).at("stop_reason"@).as_str() {
            Some(s) => Some(stop_reason_from_anthropic_spec(s)),
            None => None,
        };
        (seq![EventV::MessageDelta { stop_reason: sr, usage: Some(u3) }], u3)
    } else if t == "message_stop"@ {
        (seq![EventV::MessageStop], u)
    } else {
        (Seq::empty(), u)
    }
}

fn str_or_exec<'a>(o: Option<&'a str>, d: &'a str) -> (r: &'a str)
    ensures
        r@ == str_or(
            match o {
                Some(s) => Some(s@),
                None => None,
            },
            d@,
        ),
{
    match o {
        Some(s) => s,
        None => d,
    }
}

fn empty_str() -> (r: &'static str)
    ensures
        r@ == Seq::<char>::empty(),
{
    proof {
        reveal_strlit("");
        assert(""@ =~= Seq::<char>::empty());
    }
    ""
}

fn index_of_chunk(chunk: &Json) -> (r: usize)
    ensures
        r as int == chunk_index(chunk@),
{
    match chunk.u64_at("index") {
        Some(n) => n as usize,
        None => 0,
    }
}

fn count_at(v: Option<&Json>, key: &str) -> (r: u64)
    ensures
        r == match v {
            Some(j) => count_or_zero(j@.at(key@)),
            None => count_or_zero(JsonV::Null),
        },
{
    match v {
        Some(j) => match j.u64_at(key) {
            Some(n) => n,
            None => 0,
        },
        None => 0,
    }
}

/// Reads one Anthropic stream chunk into neutral events, in the current
/// (`legacy == false`) or the earlier reading.
pub fn anthropic_events(chunk: &Json, usage: &mut IrUsage, legacy: bool) -> (r: Vec<IrStreamEvent>)
    requires
        messages_chunk_fits(chunk@, *old(usage), legacy),
    ensures
        (events_view(r@), *final(usage)) == messages_chunk_spec(chunk@, *old(usage), legacy),
{
    let mut events: Vec<IrStreamEvent> = Vec::new();
    proof {
        assert(events_view(events@) =~= Seq::<EventV>::empty());
    }
    let t = str_or_exec(chunk.str_at("type"), empty_str());
    if str_eq(t, "message_start") {
        let msg = chunk.get("message");
        let mu: Option<&Json> = match msg {
            Some(m) => m.get("usage"),
            None => None,
        };
        let it = count_at(mu, "input_tokens");
        let cr = count_at(mu, "cache_read_input_tokens");
        let cc = count_at(mu, "cache_creation_input_tokens");
        if legacy {
            usage.input_tokens = it + cc;
        } else if it > 0 {
            usage.input_tokens = it;
        }
        usage.cache_read_input_tokens = cr;
        usage.cache_creation_input_tokens = cc;
        let (id, model): (&str, &str) = match msg {
            Some(m) => (str_or_exec(m.str_at("id"), "msg_unknown"), str_or_exec(m.str_at("model"), empty_str())),
            None => ("msg_unknown", empty_str()),
        };
        push_event(
            &mut events,
            IrStreamEvent::MessageStart {
                id: id.to_owned(),
                model: model.to_owned(),
                usage: if legacy {
                    None
                } else {
                    Some(*usage)
                },
            },
        );
    } else if str_eq(t, "content_block_start") {
        let index = index_of_chunk(chunk);
        let b = chunk.get("content_block");
        let bt: &str = match b {
            Some(bb) => str_or_exec(bb.str_at("type"), empty_str()),
            None => empty_str(),
        };
        let start: Option<IrContentBlockStart> = if str_eq(bt, "text") {
            Some(IrContentBlockStart::Text)
        } else if str_eq(bt, "thinking") {
            let sig = if legacy {
                None
            } else {
                match b {
                    Some(bb) => match bb.str_at("signature") {
                        Some(s) => Some(s.to_owned()),
                        None => None,
                    },
                    None => None,
                }
            };
            Some(IrContentBlockStart::Thinking { signature: sig })
        } else if str_eq(bt, "tool_use") {
            let (id, name): (&str, &str) = match b {
                Some(bb) => (str_or_exec(bb.str_at("id"), empty_str()), str_or_exec(bb.str_at("name"), empty_str())),
                None => (empty_str(), empty_str()),
            };
            Some(IrContentBlockStart::ToolUse { id: id.to_owned(), name: name.to_owned() })
        } else {
            None
        };
        match start {
            Some(s) => push_event(&mut events, IrStreamEvent::ContentBlockStart { index, block: s }),
            None => {},
        }
    } else if str_eq(t, "content_block_delta") {
        let index = index_of_chunk(chunk);
        let d = chunk.get("delta");
        let dt: &str = match d {
            Some(dd) => str_or_exec(dd.str_at("type"), empty_str()),
            None => empty_str(),
        };
        if str_eq(dt, "text_delta") {
            let x: &str = match d {
                Some(dd) => str_or_exec(dd.str_at("text"), empty_str()),
                None => empty_str(),
            };
            let n = x.unicode_len();
            usage.output_chars = usage.output_chars + n as u64;
            push_event(
                &mut events,
                IrStreamEvent::ContentBlockDelta { index, delta: IrContentDelta::TextDelta(x.to_owned()) },
            );
        } else if str_eq(dt, "thinking_delta") {
            let x: &str = match d {
                Some(dd) => str_or_exec(dd.str_at("thinking"), empty_str()),
                None => empty_str(),
            };
            let n = x.unicode_len();
            usage.output_chars = usage.output_chars + n as u64;
            push_event(
                &mut events,
                IrStreamEvent::ContentBlockDelta {
                    index,
                    delta: IrContentDelta::ThinkingDelta(x.to_owned()),
                },
            );
        } else if str_eq(dt, "input_json_delta") {
            let x: &str = match d {
                Some(dd) => str_or_exec(dd.str_at("partial_json"), empty_str()),
                None => empty_str(),
            };
            push_event(
                &mut events,
                IrStreamEvent::ContentBlockDelta {
                    index,
                    delta: IrContentDelta::InputJsonDelta(x.to_owned()),
                },
            );
        }
    } else if str_eq(t, "content_block_stop") {
        let index = index_of_chunk(chunk);
        push_event(&mut events, IrStreamEvent::ContentBlockStop { index });
    } else if str_eq(t, "message_delta") {
        let mu = chunk.get("usage");
        match mu {
            Some(m) => {
                match m.u64_at("output_tokens") {
                    Some(ot) => {
                        usage.output_tokens = ot;
                    },
                    None => {},
                }
                match m.u64_at("input_tokens") {
                    Some(it) => {
                        if !legacy && it > 0 {
                            usage.input_tokens = it;
                        }
                    },
                    None => {},
                }
                match m.u64_at("cache_read_input_tokens") {
                    Some(cr) => {
                        usage.cache_read_input_tokens = cr;
                    },
                    None => {},
                }
            },
            None => {},
        }
        let sr: Option<IrStopReason> = match chunk.get("delta") {
            Some(d) => match d.str_at("stop_reason") {
                Some(s) => Some(IrStopReason::from_anthropic(s)),
                None => None,
            },
            None => None,
        };
        push_event(&mut events, IrStreamEvent::MessageDelta { stop_reason: sr, usage: Some(*usage) });
    } else if str_eq(t, "message_stop") {
        push_event(&mut events, IrStreamEvent::MessageStop);
    }
    events
}

/// Reads one Anthropic Messages stream chunk into neutral events.
pub fn messages_chunk_to_ir(chunk: &Json, state: &mut MessagesParseState) -> (r: Vec<IrStreamEvent>)
    requires
        messages_chunk_fits(chunk@, old(state).usage, false),
    ensures
        (events_view(r@), final(state).usage) == messages_chunk_spec(chunk@, old(state).usage, false),
{
    anthropic_events(chunk, &mut state.usage, false)
}

// ---- requests ----

pub open spec fn websearch_schema() -> JsonV {
    jobj(
        seq![
            ("type"@, JsonV::Str("object"@)),
            ("properties"@, jobj(
                seq![
                    ("query"@, jobj(
                        seq![
                            ("type"@, JsonV::Str("string"@)),
                            ("description"@, JsonV::Str("The search query"@)),
                        ],
                    )),
                ],
            )),
            ("required"@, JsonV::Array(seq![JsonV::Str("query"@)])),
        ],
    )
}

/// A content block of an Anthropic message; unknown blocks give nothing.
pub open spec fn anthropic_block(b: JsonV) -> Option<BlockV>
    decreases b,
{
    match b.at("type"@).as_str() {
        None => None,
        Some(t) => if t == "text"@ {
            Some(
                BlockV::Text {
                    text: str_or_empty(b.str_at("text"@)),
                    cache_control: b.get("cache_control"@),
                },
            )
        } else if t == "image"@ {
            let src = b.at("source"@);
            let st = str_or_empty(src.str_at("type"@));
            if st == "base64"@ {
                Some(
                    BlockV::Image {
                        source: ImageV::Base64 {
                            media_type: str_or(src.str_at("media_type"@), "image/png"@),
                            data: str_or_empty(src.str_at("data"@)),
                        },
                    },
                )
            } else if st == "url"@ {
                Some(BlockV::Image { source: ImageV::Url { url: str_or_empty(src.str_at("url"@)) } })
            } else {
                None
            }
        } else if t == "thinking"@ {
            Some(
                BlockV::Thinking {
                    thinking: str_or_empty(b.str_at("thinking"@)),
                    signature: b.at("signature"@).as_str(),
                },
            )
        } else if t == "tool_use"@ {
            Some(
                BlockV::ToolUse {
                    id: str_or_empty(b.str_at("id"@)),
                    name: str_or_empty(b.str_at("name"@)),
                    input: match b.get("input"@) {
                        Some(v) => v,
                        None => JsonV::Object(Seq::empty()),
                    },
                },
            )
        } else if t == "tool_result"@ {
            proof {
                lemma_get_decreases(b, "content"@);
            }
            Some(
                BlockV::ToolResult {
                    tool_use_id: str_or_empty(b.str_at("tool_use_id"@)),
                    content: match b.get("content"@) {
                        Some(JsonV::Str(s)) => ToolResultV::Text(s),
                        Some(JsonV::Array(items)) => ToolResultV::Blocks(anthropic_blocks(items)),
                        _ => ToolResultV::Text(Seq::empty()),
                    },
                    is_error: match b.at("is_error"@).as_bool() {
                        Some(x) => x,
                        None => false,
                    },
                },
            )
        } else {
            None
        },
    }
}

pub open spec fn anthropic_blocks(items: Seq<JsonV>) -> Seq<BlockV>
    decreases items,
{
    if items.len() == 0 {
        Seq::empty()
    } else {
        let rest = anthropic_blocks(items.drop_last());
        match anthropic_block(items.last()) {
            Some(b) => rest.push(b),
            None => rest,
        }
    }
}

/// The blocks of a message's `content`: a non-empty string is one text
/// block, an array is read block by block.
pub open spec fn anthropic_content(c: JsonV) -> Seq<BlockV> {
    match c {
        JsonV::Str(s) => if s.len() == 0 {
            Seq::empty()
        } else {
            seq![BlockV::Text { text: s, cache_control: None }]
        },
        JsonV::Array(items) => anthropic_blocks(items),
        _ => Seq::empty(),
    }
}

/// The messages of a request; a user message left empty is dropped.
pub open spec fn anthropic_messages(ms: Seq<JsonV>) -> Seq<MessageV>
    decreases ms.len(),
{
    if ms.len() == 0 {
        Seq::empty()
    } else {
        let rest = anthropic_messages(ms.drop_last());
        let m = ms.last();
        let role = if role_or_user(m) == "assistant"@ {
            IrRole::Assistant
        } else {
            IrRole::User
        };
        let content = anthropic_content(m.at("content"@));
        if content.len() == 0 && role == IrRole::User {
            rest
        } else {
            rest.push(MessageV { role, content })
        }
    }
}

/// A tool definition: by name, or, in the current reading, an unnamed
/// server-side `web_search*` tool named `web_search` with a query schema.
pub open spec fn anthropic_tool(t: JsonV, legacy: bool) -> Option<ToolV> {
    let named = match t.at("name"@).as_str() {
        Some(n) => Some((n, !legacy && seq_starts_with(n, "web_search"@))),
        None => if !legacy && seq_starts_with(str_or_empty(t.str_at("type"@)), "web_search"@) {
            Some(("web_search"@, true))
        } else {
            None
        },
    };
    match named {
        Some((name, ws)) => Some(
            ToolV {
                name,
                description: t.at("description"@).as_str(),
                input_schema: match t.get("input_schema"@) {
                    Some(s) => s,
                    None => if ws {
                        websearch_schema()
                    } else {
                        default_schema()
                    },
                },
            },
        ),
        None => None,
    }
}

pub open spec fn anthropic_tools(ts: Seq<JsonV>, legacy: bool) -> Seq<ToolV>
    decreases ts.len(),
{
    if ts.len() == 0 {
        Seq::empty()
    } else {
        let rest = anthropic_tools(ts.drop_last(), legacy);
        match anthropic_tool(ts.last(), legacy) {
            Some(t) => rest.push(t),
            None => rest,
        }
    }
}

pub open spec fn anthropic_tool_choice(tc: JsonV) -> ToolChoiceV {
    match tc {
        JsonV::Str(s) => if s == "any"@ {
            ToolChoiceV::Any
        } else if s == "none"@ {
            ToolChoiceV::NoTools
        } else {
            ToolChoiceV::Auto
        },
        JsonV::Object(_) => {
            let t = tc.at("type"@).as_str();
            if t == Some("any"@) {
                ToolChoiceV::Any
            } else if t == Some("none"@) {
                ToolChoiceV::NoTools
            } else if t == Some("tool"@) {
                ToolChoiceV::Tool { name: str_or_empty(tc.str_at("name"@)) }
            } else {
                ToolChoiceV::Auto
            }
        },
        _ => ToolChoiceV::Auto,
    }
}

pub open spec fn anthropic_system(s: JsonV) -> SystemV {
    match s {
        JsonV::Str(t) => SystemV::Text(t),
        JsonV::Array(bs) => SystemV::Blocks(
            bs.map_values(|b: JsonV| (str_or_empty(b.str_at("text"@)), b.get("cache_control"@))),
        ),
        _ => SystemV::Text(Seq::empty()),
    }
}

pub open spec fn anthropic_req_spec(req: JsonV, legacy: bool) -> RequestV {
    RequestV {
        model: str_or_empty(req.str_at("model"@)),
        system: match req.get("system"@) {
            Some(s) => Some(anthropic_system(s)),
            None => None,
        },
        messages: match req.at("messages"@).as_array() {
            Some(ms) => anthropic_messages(ms),
            None => Seq::empty(),
        },
        tools: match req.at("tools"@).as_array() {
            Some(ts) => anthropic_tools(ts, legacy),
            None => Seq::empty(),
        },
        tool_choice: match req.get("tool_choice"@) {
            Some(tc) => Some(anthropic_tool_choice(tc)),
            None => None,
        },
        max_tokens: req.at("max_tokens"@).as_u64(),
        temperature: number_at(req.at("temperature"@)),
        top_p: number_at(req.at("top_p"@)),
        thinking: match req.get("thinking"@) {
            Some(t) => if t.at("type"@).as_str() == Some("enabled"@) {
                Some(IrThinkingConfig { enabled: true, budget_tokens: t.at("budget_tokens"@).as_u64() })
            } else {
                None
            },
            None => None,
        },
        stream: match req.at("stream"@).as_bool() {
            Some(b) => b,
            None => false,
        },
    }
}

fn copy_opt(o: Option<&Json>) -> (r: Option<Json>)
    ensures
        opt_json_view(r) == match o {
            Some(j) => Some(j@),
            None => None,
        },
{
    match o {
        Some(j) => Some(j.copy()),
        None => None,
    }
}

fn parse_anthropic_block(b: &Json) -> (r: Option<IrContentBlock>)
    ensures
        match r {
            Some(x) => anthropic_block(b@) == Some(x@),
            None => anthropic_block(b@) is None,
        },
    decreases b@,
{
    let t = match b.str_at("type") {
        Some(t) => t,
        None => {
            return None;
        },
    };
    if str_eq(t, "text") {
        let text = str_or_exec(b.str_at("text"), empty_str());
        Some(IrContentBlock::Text { text: text.to_owned(), cache_control: copy_opt(b.get("cache_control")) })
    } else if str_eq(t, "image") {
        let src = b.get("source");
        let st: &str = match src {
            Some(s) => str_or_exec(s.str_at("type"), empty_str()),
            None => empty_str(),
        };
        if str_eq(st, "base64") {
            let (mt, data): (&str, &str) = match src {
                Some(s) => (str_or_exec(s.str_at("media_type"), "image/png"), str_or_exec(s.str_at("data"), empty_str())),
                None => ("image/png", empty_str()),
            };
            Some(IrContentBlock::Image { source: IrImageSource::Base64 { media_type: mt.to_owned(), data: data.to_owned() } })
        } else if str_eq(st, "url") {
            let url: &str = match src {
                Some(s) => str_or_exec(s.str_at("url"), empty_str()),
                None => empty_str(),
            };
            Some(IrContentBlock::Image { source: IrImageSource::Url { url: url.to_owned() } })
        } else {
            None
        }
    } else if str_eq(t, "thinking") {
        let th = str_or_exec(b.str_at("thinking"), empty_str());
        let sig = match b.str_at("signature") {
            Some(s) => Some(s.to_owned()),
            None => None,
        };
        Some(IrContentBlock::Thinking { thinking: th.to_owned(), signature: sig })
    } else if str_eq(t, "tool_use") {
        let id = str_or_exec(b.str_at("id"), empty_str());
        let name = str_or_exec(b.str_at("name"), empty_str());
        let input = match b.get("input") {
            Some(v) => v.copy(),
            None => empty_object(),
        };
        Some(IrContentBlock::ToolUse { id: id.to_owned(), name: name.to_owned(), input })
    } else if str_eq(t, "tool_result") {
        let id = str_or_exec(b.str_at("tool_use_id"), empty_str());
        let is_error = match b.bool_at("is_error") {
            Some(x) => x,
            None => false,
        };
        proof {
            lemma_get_decreases(b@, "content"@);
        }
        let content = match b.get("content") {
            Some(Json::Str(s)) => IrToolResultContent::Text(s.clone()),
            Some(c) => {
                match c {
                    Json::Array(items) => {
                        let ghost iv = items_view(items@);
                        proof {
                            lemma_items_view_len(items@);
                            assert(decreases_to!(b@ => c@));
                        }
                        let mut out: Vec<IrContentBlock> = Vec::new();
                        let mut i: usize = 0;
                        while i < items.len()
                            invariant
                                i <= items@.len(),
                                iv == items_view(items@),
                                iv.len() == items@.len(),
                                c@ == JsonV::Array(iv),
                                decreases_to!(b@ => c@),
                                blocks_view(out@) == anthropic_blocks(iv.take(i as int)),
                            decreases items@.len() - i,
                        {
                            proof {
                                lemma_items_view_index(items@, i as int);
                                assert(iv.take(i as int + 1).drop_last() =~= iv.take(i as int));
                                assert(decreases_to!(c@ => (c@)->Array_0));
                                assert(decreases_to!((c@)->Array_0 => (c@)->Array_0[i as int]));
                                assert((c@)->Array_0[i as int] == items@[i as int]@);
                            }
                            match parse_anthropic_block(&items[i]) {
                                Some(x) => push_block(&mut out, x),
                                None => {},
                            }
                            i = i + 1;
                        }
                        proof {
                            assert(iv.take(i as int) =~= iv);
                        }
                        IrToolResultContent::Blocks(out)
                    },
                    _ => IrToolResultContent::Text(String::new()),
                }
            },
            None => IrToolResultContent::Text(String::new()),
        };
        Some(IrContentBlock::ToolResult { tool_use_id: id.to_owned(), content, is_error })
    } else {
        None
    }
}

fn parse_anthropic_content(c: Option<&Json>) -> (r: Vec<IrContentBlock>)
    ensures
        blocks_view(r@) == anthropic_content(
            match c {
                Some(j) => j@,
                None => JsonV::Null,
            },
        ),
{
    let mut out: Vec<IrContentBlock> = Vec::new();
    proof {
        assert(blocks_view(out@) =~= Seq::<BlockV>::empty());
    }
    match c {
        Some(Json::Str(s)) => {
            if !s.as_str().is_empty() {
                push_block(&mut out, IrContentBlock::Text { text: s.clone(), cache_control: None });
                proof {
                    assert(blocks_view(out@) =~= seq![BlockV::Text { text: s@, cache_control: None }]);
                }
            }
        },
        Some(Json::Array(items)) => {
            let ghost iv = items_view(items@);
            proof {
                lemma_items_view_len(items@);
            }
            let mut i: usize = 0;
            while i < items.len()
                invariant
                    i <= items@.len(),
                    iv == items_view(items@),
                    iv.len() == items@.len(),
                    blocks_view(out@) == anthropic_blocks(iv.take(i as int)),
                decreases items@.len() - i,
            {
                proof {
                    lemma_items_view_index(items@, i as int);
                    assert(iv.take(i as int + 1).drop_last() =~= iv.take(i as int));
                }
                match parse_anthropic_block(&items[i]) {
                    Some(x) => push_block(&mut out, x),
                    None => {},
                }
                i = i + 1;
            }
            proof {
                assert(iv.take(i as int) =~= iv);
            }
        },
        _ => {},
    }
    out
}

fn anthropic_tool_exec(t: &Json, legacy: bool) -> (r: Option<IrTool>)
    ensures
        match r {
            Some(x) => anthropic_tool(t@, legacy) == Some(x@),
            None => anthropic_tool(t@, legacy) is None,
        },
{
    let (name, ws): (String, bool) = match t.str_at("name") {
        Some(n) => (n.to_owned(), !legacy && starts_with(n, "web_search")),
        None => {
            let ty = str_or_exec(t.str_at("type"), empty_str());
            if !legacy && starts_with(ty, "web_search") {
                ("web_search".to_owned(), true)
            } else {
                return None;
            }
        },
    };
    let description = match t.str_at("description") {
        Some(d) => Some(d.to_owned()),
        None => None,
    };
    let input_schema = match t.get("input_schema") {
        Some(s) => s.copy(),
        None => {
            if ws {
                websearch_schema_json()
            } else {
                let mut f: Vec<(String, Json)> = Vec::new();
                push_field(&mut f, "type", json_string("object"));
                push_field(&mut f, "properties", empty_object());
                proof {
                    assert(fields_view(f@) =~= default_schema()->Object_0);
                }
                object_of(f)
            }
        },
    };
    Some(IrTool { name, description, input_schema })
}

/// The query schema of a search tool.
pub fn websearch_schema_json() -> (r: Json)
    ensures
        r@ == websearch_schema(),
{
    let mut q: Vec<(String, Json)> = Vec::new();
    push_field(&mut q, "type", json_string("string"));
    push_field(&mut q, "description", json_string("The search query"));
    let mut props: Vec<(String, Json)> = Vec::new();
    push_field(&mut props, "query", object_of(q));
    let mut req: Vec<Json> = Vec::new();
    push_item(&mut req, json_string("query"));
    let mut f: Vec<(String, Json)> = Vec::new();
    push_field(&mut f, "type", json_string("object"));
    push_field(&mut f, "properties", object_of(props));
    push_field(&mut f, "required", crate::json::array_of(req));
    proof {
        assert(fields_view(q@) =~= websearch_schema()->Object_0[1].1->Object_0[0].1->Object_0);
        assert(fields_view(props@) =~= websearch_schema()->Object_0[1].1->Object_0);
        assert(items_view(req@) =~= websearch_schema()->Object_0[2].1->Array_0);
        assert(fields_view(f@) =~= websearch_schema()->Object_0);
    }
    object_of(f)
}

fn parse_anthropic_tool_choice(tc: &Json) -> (r: IrToolChoice)
    ensures
        r@ == anthropic_tool_choice(tc@),
{
    match tc {
        Json::Str(s) => {
            if str_eq(s.as_str(), "any") {
                IrToolChoice::Any
            } else if str_eq(s.as_str(), "none") {
                IrToolChoice::NoTools
            } else {
                IrToolChoice::Auto
            }
        },
        Json::Object(_) => {
            match tc.str_at("type") {
                Some(t) => {
                    if str_eq(t, "any") {
                        IrToolChoice::Any
                    } else if str_eq(t, "none") {
                        IrToolChoice::NoTools
                    } else if str_eq(t, "tool") {
                        let name = str_or_exec(tc.str_at("name"), empty_str());
                        IrToolChoice::Tool { name: name.to_owned() }
                    } else {
                        IrToolChoice::Auto
                    }
                },
                None => IrToolChoice::Auto,
            }
        },
        _ => IrToolChoice::Auto,
    }
}

fn anthropic_system_exec(s: &Json) -> (r: IrSystemContent)
    ensures
        crate::ir::system_view(r) == anthropic_system(s@),
{
    match s {
        Json::Str(t) => IrSystemContent::Text(t.clone()),
        Json::Array(bs) => {
            let ghost bv = items_view(bs@);
            proof {
                lemma_items_view_len(bs@);
            }
            let mut out: Vec<IrSystemBlock> = Vec::new();
            let mut i: usize = 0;
            while i < bs.len()
                invariant
                    i <= bs@.len(),
                    bv == items_view(bs@),
                    bv.len() == bs@.len(),
                    out@.map_values(|b: IrSystemBlock| (b.text@, opt_json_view(b.cache_control)))
                        == bv.take(i as int).map_values(
                        |b: JsonV| (str_or_empty(b.str_at("text"@)), b.get("cache_control"@)),
                    ),
                decreases bs@.len() - i,
            {
                proof {
                    lemma_items_view_index(bs@, i as int);
                }
                let text = str_or_exec(bs[i].str_at("text"), empty_str());
                let cc = copy_opt(bs[i].get("cache_control"));
                let ghost before = out@.map_values(|b: IrSystemBlock| (b.text@, opt_json_view(b.cache_control)));
                let blk = IrSystemBlock { text: text.to_owned(), cache_control: cc };
                let ghost pair = (blk.text@, opt_json_view(blk.cache_control));
                out.push(blk);
                proof {
                    assert(out@.map_values(|b: IrSystemBlock| (b.text@, opt_json_view(b.cache_control)))
                        =~= before.push(pair));
                    assert(bv.take(i as int + 1).map_values(
                        |b: JsonV| (str_or_empty(b.str_at("text"@)), b.get("cache_control"@)),
                    ) =~= bv.take(i as int).map_values(
                        |b: JsonV| (str_or_empty(b.str_at("text"@)), b.get("cache_control"@)),
                    ).push(pair));
                }
                i = i + 1;
            }
            proof {
                assert(bv.take(i as int) =~= bv);
            }
            IrSystemContent::Blocks(out)
        },
        _ => IrSystemContent::Text(String::new()),
    }
}

/// The messages of an Anthropic request, in order; a user message with no
/// content is dropped.
fn parse_anthropic_messages(ms: &Vec<Json>) -> (r: Vec<IrMessage>)
    ensures
        r@.map_values(|m: IrMessage| m@) == anthropic_messages(items_view(ms@)),
{
    let mut messages: Vec<IrMessage> = Vec::new();
    proof {
        assert(messages@.map_values(|m: IrMessage| m@) =~= Seq::<MessageV>::empty());
    }
    let ghost mv = items_view(ms@);
    proof {
        lemma_items_view_len(ms@);
    }
    let mut i: usize = 0;
    while i < ms.len()
        invariant
            i <= ms@.len(),
            mv == items_view(ms@),
            mv.len() == ms@.len(),
            messages@.map_values(|m: IrMessage| m@) == anthropic_messages(mv.take(i as int)),
        decreases ms@.len() - i,
    {
        proof {
            lemma_items_view_index(ms@, i as int);
            assert(mv.take(i as int + 1).drop_last() =~= mv.take(i as int));
        }
        let msg = &ms[i];
        let role_s = str_or_exec(msg.str_at("role"), "user");
        let role = if str_eq(role_s, "assistant") {
            IrRole::Assistant
        } else {
            IrRole::User
        };
        let content = parse_anthropic_content(msg.get("content"));
        let keep = !(content.len() == 0 && role == IrRole::User);
        proof {
            crate::ir::lemma_blocks_view_len(content@);
        }
        if keep {
            let ghost before = messages@.map_values(|m: IrMessage| m@);
            let m = IrMessage { role, content };
            let ghost mvv = m@;
            messages.push(m);
            proof {
                assert(messages@.map_values(|m: IrMessage| m@) =~= before.push(mvv));
            }
        }
        i = i + 1;
    }
    proof {
        assert(mv.take(i as int) =~= mv);
    }
    messages
}

/// Reads an Anthropic request body, in the current or the earlier reading.
pub fn anthropic_request(req: &Json, legacy: bool) -> (r: IrRequest)
    ensures
        r@ == anthropic_req_spec(req@, legacy),
{
    let model = str_or_exec(req.str_at("model"), empty_str());
    let stream = match req.bool_at("stream") {
        Some(b) => b,
        None => false,
    };
    let system = match req.get("system") {
        Some(s) => Some(anthropic_system_exec(s)),
        None => None,
    };
    let messages = match req.array_at("messages") {
        Some(ms) => parse_anthropic_messages(ms),
        None => {
            let v: Vec<IrMessage> = Vec::new();
            proof {
                assert(v@.map_values(|m: IrMessage| m@) =~= Seq::<MessageV>::empty());
            }
            v
        },
    };
    let mut tools: Vec<IrTool> = Vec::new();
    proof {
        assert(tools@.map_values(|t: IrTool| t@) =~= Seq::<ToolV>::empty());
    }
    match req.array_at("tools") {
        Some(ts) => {
            let ghost tv = items_view(ts@);
            proof {
                lemma_items_view_len(ts@);
            }
            let mut i: usize = 0;
            while i < ts.len()
                invariant
                    i <= ts@.len(),
                    tv == items_view(ts@),
                    tv.len() == ts@.len(),
                    tools@.map_values(|t: IrTool| t@) == anthropic_tools(tv.take(i as int), legacy),
                decreases ts@.len() - i,
            {
                proof {
                    lemma_items_view_index(ts@, i as int);
                    assert(tv.take(i as int + 1).drop_last() =~= tv.take(i as int));
                }
                match anthropic_tool_exec(&ts[i], legacy) {
                    Some(t) => {
                        let ghost before = tools@.map_values(|t: IrTool| t@);
                        let ghost tvv = t@;
                        tools.push(t);
                        proof {
                            assert(tools@.map_values(|t: IrTool| t@) =~= before.push(tvv));
                        }
                    },
                    None => {},
                }
                i = i + 1;
            }
            proof {
                assert(tv.take(i as int) =~= tv);
            }
        },
        None => {},
    }
    let tool_choice = match req.get("tool_choice") {
        Some(tc) => Some(parse_anthropic_tool_choice(tc)),
        None => None,
    };
    let thinking = match req.get("thinking") {
        Some(t) => {
            let enabled = match t.str_at("type") {
                Some(x) => str_eq(x, "enabled"),
                None => false,
            };
            if enabled {
                Some(IrThinkingConfig { enabled: true, budget_tokens: t.u64_at("budget_tokens") })
            } else {
                None
            }
        },
        None => None,
    };
    let temperature = match req.get("temperature") {
        Some(Json::Number(n)) => Some(n.copy()),
        _ => None,
    };
    let top_p = match req.get("top_p") {
        Some(Json::Number(n)) => Some(n.copy()),
        _ => None,
    };
    IrRequest {
        model: model.to_owned(),
        system,
        messages,
        tools,
        tool_choice,
        max_tokens: req.u64_at("max_tokens"),
        temperature,
        top_p,
        thinking,
        stream,
    }
}

/// Reads an Anthropic Messages request body.
pub fn messages_req_to_ir(req: &Json) -> (r: IrRequest)
    ensures
        r@ == anthropic_req_spec(req@, false),
{
    anthropic_request(req, false)
}

} // verus!
