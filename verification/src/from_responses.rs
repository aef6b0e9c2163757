//! OpenAI Responses into the neutral representation: request bodies and
//! stream chunks.
//!
//! The stream parser follows the life of each output item: every item gets
//! the next free block index (the thinking block too), text and argument
//! deltas are routed by their item, and each block is closed once.

use vstd::prelude::*;
use crate::from_chat_completions::{
    default_schema, effort_budget, image_from_url, image_url_block, messages_view, number_at,
    number_exec, part_texts, push_texts_of, role_or_user, system_from_texts, system_of_texts,
    system_texts, texts_of,
};
use crate::ir::{
    blocks_view, events_view, lemma_blocks_view_len, push_block, push_event, zero_usage,
    BlockStartV, BlockV, DeltaV, EventV, IrContentBlock, IrContentBlockStart, IrContentDelta,
    IrMessage, IrRequest, IrRole, IrStopReason, IrStreamEvent, IrSystemBlock, IrSystemContent,
    IrThinkingConfig, IrTool, IrToolChoice, IrToolResultContent, IrUsage, MessageV, RequestV,
    SystemV, ToolChoiceV, ToolResultV, ToolV,
};
use crate::json::{
    array_of, empty_object, fields_view, items_view, jobj, json_string, json_text_value, json_u64,
    lemma_items_view_index, lemma_items_view_len, object_of, parse_json, push_field, push_item,
    str_eq, Json, JsonV,
};
use crate::text::{join_spec, join_strings, seq_starts_with, starts_with};
use crate::usage::{count_or_zero, extract_responses_usage, responses_usage_spec, str_or_empty};

verus! {

// ---- stream chunks ----

/// The state of a Responses stream parser.
pub struct ResponsesParseState {
    /// The usage seen so far.
    pub usage: IrUsage,
    /// The next free block index.
    pub next_index: usize,
    /// Whether the thinking block was ever opened.
    pub thinking_ever_started: bool,
    /// The block index of the thinking block, once it was opened.
    pub thinking_index: usize,
    /// Whether the thinking block is open.
    pub thinking_open: bool,
    /// The open text block: its index and the output item it belongs to.
    pub text_open: Option<(usize, usize)>,
    /// The block index of each tool call, by output item, in the order the
    /// calls arrived; where an output item comes again, its latest call
    /// counts.
    pub tool_map: Vec<(usize, usize)>,
    pub msg_id: String,
    pub model: String,
}

pub struct ResponsesParseV {
    pub usage: IrUsage,
    pub next_index: int,
    pub thinking_ever_started: bool,
    pub thinking_index: int,
    pub thinking_open: bool,
    pub text_open: Option<(int, int)>,
    pub tool_map: Seq<(int, int)>,
    pub msg_id: Seq<char>,
    pub model: Seq<char>,
}

pub open spec fn pair_view(p: (usize, usize)) -> (int, int) {
    (p.0 as int, p.1 as int)
}

impl View for ResponsesParseState {
    type V = ResponsesParseV;

    open spec fn view(&self) -> ResponsesParseV {
        ResponsesParseV {
            usage: self.usage,
            next_index: self.next_index as int,
            thinking_ever_started: self.thinking_ever_started,
            thinking_index: self.thinking_index as int,
            thinking_open: self.thinking_open,
            text_open: match self.text_open {
                Some(p) => Some(pair_view(p)),
                None => None,
            },
            tool_map: self.tool_map@.map_values(|p: (usize, usize)| pair_view(p)),
            msg_id: self.msg_id@,
            model: self.model@,
        }
    }
}

pub open spec fn initial_responses_state() -> ResponsesParseV {
    ResponsesParseV {
        usage: zero_usage(),
        next_index: 0,
        thinking_ever_started: false,
        thinking_index: 0,
        thinking_open: false,
        text_open: None,
        tool_map: Seq::empty(),
        msg_id: Seq::empty(),
        model: Seq::empty(),
    }
}

impl ResponsesParseState {
    pub fn new() -> (r: Self)
        ensures
            r@ == initial_responses_state(),
    {
        let r = ResponsesParseState {
            usage: IrUsage::default(),
            next_index: 0,
            thinking_ever_started: false,
            thinking_index: 0,
            thinking_open: false,
            text_open: None,
            tool_map: Vec::new(),
            msg_id: String::new(),
            model: String::new(),
        };
        proof {
            assert(r@.tool_map =~= Seq::<(int, int)>::empty());
        }
        r
    }

    /// Takes the next free block index.
    pub fn alloc_index(&mut self) -> (r: usize)
        requires
            old(self).next_index < usize::MAX,
        ensures
            r == old(self).next_index,
            final(self)@ == (ResponsesParseV { next_index: old(self)@.next_index + 1, ..old(self)@ }),
    {
        let i = self.next_index;
        self.next_index = self.next_index + 1;
        i
    }
}

impl Default for ResponsesParseState {
    fn default() -> (r: Self)
        ensures
            r@ == initial_responses_state(),
    {
        Self::new()
    }
}

/// The block of the latest tool call of an output item, where it has one.
pub open spec fn tool_lookup(m: Seq<(int, int)>, key: int) -> Option<int>
    decreases m.len(),
{
    if m.len() == 0 {
        None
    } else if m.last().0 == key {
        Some(m.last().1)
    } else {
        tool_lookup(m.drop_last(), key)
    }
}

/// The output item a chunk speaks of: its `output_index`, 0 where absent.
pub open spec fn output_index(chunk: JsonV) -> int {
    (count_or_zero(chunk.at("output_index"@)) as usize) as int
}

/// The id of a function call item: its `call_id`, else its `id`, where that
/// is a string.
pub open spec fn call_id_of(item: JsonV) -> Seq<char> {
    let v = match item.get("call_id"@) {
        Some(v) => v,
        None => item.at("id"@),
    };
    str_or_empty(v.as_str())
}

/// The thinking block opens once, at the next free index.
pub open spec fn thinking_start(evs: Seq<EventV>, s: ResponsesParseV) -> (Seq<EventV>, ResponsesParseV) {
    if !s.thinking_ever_started {
        (
            evs.push(
                EventV::BlockStart { index: s.next_index, block: BlockStartV::Thinking { signature: None } },
            ),
            ResponsesParseV {
                next_index: s.next_index + 1,
                thinking_index: s.next_index,
                thinking_ever_started: true,
                thinking_open: true,
                ..s
            },
        )
    } else {
        (evs, s)
    }
}

pub open spec fn close_text(evs: Seq<EventV>, s: ResponsesParseV) -> (Seq<EventV>, ResponsesParseV) {
    match s.text_open {
        Some((t, _)) => (evs.push(EventV::BlockStop { index: t }), ResponsesParseV { text_open: None, ..s }),
        None => (evs, s),
    }
}

pub open spec fn item_added_spec(chunk: JsonV, s: ResponsesParseV) -> (Seq<EventV>, ResponsesParseV) {
    match chunk.get("item"@) {
        None => (Seq::empty(), s),
        Some(item) => {
            let it = str_or_empty(item.str_at("type"@));
            let oi = output_index(chunk);
            if it == "function_call"@ {
                let (e1, s1) = close_text(Seq::empty(), s);
                let (e2, s2) = if s1.thinking_open {
                    (
                        e1.push(EventV::BlockStop { index: s1.thinking_index }),
                        ResponsesParseV { thinking_open: false, ..s1 },
                    )
                } else {
                    (e1, s1)
                };
                let bi = s2.next_index;
                (
                    e2.push(
                        EventV::BlockStart {
                            index: bi,
                            block: BlockStartV::ToolUse {
                                id: call_id_of(item),
                                name: str_or_empty(item.str_at("name"@)),
                            },
                        },
                    ),
                    ResponsesParseV {
                        next_index: bi + 1,
                        tool_map: s2.tool_map.push((oi, bi)),
                        ..s2
                    },
                )
            } else if it == "reasoning"@ {
                thinking_start(Seq::empty(), s)
            } else if it == "message"@ {
                close_text(Seq::empty(), s)
            } else {
                (Seq::empty(), s)
            }
        },
    }
}

pub open spec fn text_delta_spec(chunk: JsonV, s: ResponsesParseV) -> (Seq<EventV>, ResponsesParseV) {
    match chunk.at("delta"@).as_str() {
        None => (Seq::empty(), s),
        Some(d) => {
            let oi = output_index(chunk);
            let (e1, s1) = match s.text_open {
                Some((t, to)) => if to != oi {
                    (seq![EventV::BlockStop { index: t }], ResponsesParseV { text_open: None, ..s })
                } else {
                    (Seq::empty(), s)
                },
                None => (Seq::empty(), s),
            };
            let (e2, s2) = if s1.thinking_open && s1.text_open is None {
                (
                    e1.push(EventV::BlockStop { index: s1.thinking_index }),
                    ResponsesParseV { thinking_open: false, ..s1 },
                )
            } else {
                (e1, s1)
            };
            let (e3, s3) = if s2.text_open is None {
                let bi = s2.next_index;
                (
                    e2.push(EventV::BlockStart { index: bi, block: BlockStartV::Text }),
                    ResponsesParseV { next_index: bi + 1, text_open: Some((bi, oi)), ..s2 },
                )
            } else {
                (e2, s2)
            };
            (e3.push(EventV::BlockDelta { index: text_block_of(s3), delta: DeltaV::Text(d) }), s3)
        },
    }
}

/// The block of the open text, 0 where none is open.
pub open spec fn text_block_of(s: ResponsesParseV) -> int {
    match s.text_open {
        Some((t, _)) => t,
        None => 0,
    }
}

pub open spec fn reasoning_delta_spec(chunk: JsonV, s: ResponsesParseV) -> (Seq<EventV>, ResponsesParseV) {
    match chunk.at("delta"@).as_str() {
        None => (Seq::empty(), s),
        Some(d) => {
            let (e1, s1) = thinking_start(Seq::empty(), s);
            (e1.push(EventV::BlockDelta { index: s1.thinking_index, delta: DeltaV::Thinking(d) }), s1)
        },
    }
}

pub open spec fn arguments_delta_spec(chunk: JsonV, s: ResponsesParseV) -> (Seq<EventV>, ResponsesParseV) {
    match chunk.at("delta"@).as_str() {
        None => (Seq::empty(), s),
        Some(d) => {
            let bi = match tool_lookup(s.tool_map, output_index(chunk)) {
                Some(b) => b,
                None => if s.next_index > 0 {
                    s.next_index - 1
                } else {
                    0
                },
            };
            (seq![EventV::BlockDelta { index: bi, delta: DeltaV::InputJson(d) }], s)
        },
    }
}

/// The stops of the tool blocks, in the order the calls arrived.
pub open spec fn tool_stops(m: Seq<(int, int)>) -> Seq<EventV> {
    m.map_values(|p: (int, int)| EventV::BlockStop { index: p.1 })
}

/// `a - b`, or 0 where `b` is larger.
pub open spec fn minus_or_zero(a: u64, b: u64) -> u64 {
    if a >= b {
        (a - b) as u64
    } else {
        0
    }
}

/// The usage after `response.completed`: reported counts replace the
/// estimates, where the chunk reports any input or output; the input counted
/// is the input that was not read from the cache.
pub open spec fn completed_usage(u: IrUsage, c: IrUsage) -> IrUsage {
    if c.input_tokens > 0 || c.output_tokens > 0 {
        IrUsage {
            input_tokens: if c.input_tokens > 0 {
                minus_or_zero(c.input_tokens, c.cache_read_input_tokens)
            } else {
                u.input_tokens
            },
            output_tokens: if c.output_tokens > 0 {
                c.output_tokens
            } else {
                u.output_tokens
            },
            cache_read_input_tokens: if c.cache_read_input_tokens > 0 {
                c.cache_read_input_tokens
            } else {
                u.cache_read_input_tokens
            },
            ..u
        }
    } else {
        u
    }
}

pub open spec fn completed_spec(chunk: JsonV, s: ResponsesParseV) -> (Seq<EventV>, ResponsesParseV) {
    let (e1, s1) = if s.thinking_open {
        (seq![EventV::BlockStop { index: s.thinking_index }], ResponsesParseV { thinking_open: false, ..s })
    } else {
        (Seq::empty(), s)
    };
    let (e2, s2) = close_text(e1, s1);
    let e3 = e2 + tool_stops(s2.tool_map);
    let s3 = ResponsesParseV { usage: completed_usage(s2.usage, responses_usage_spec(chunk)), ..s2 };
    let sr = if chunk.at("response"@).at("status"@).as_str() == Some("incomplete"@) {
        IrStopReason::MaxTokens
    } else {
        IrStopReason::EndTurn
    };
    (
        e3.push(EventV::MessageDelta { stop_reason: Some(sr), usage: Some(s3.usage) }).push(
            EventV::MessageStop,
        ),
        s3,
    )
}

pub open spec fn created_spec(chunk: JsonV, s: ResponsesParseV) -> (Seq<EventV>, ResponsesParseV) {
    let s1 = match chunk.get("response"@) {
        Some(r) => {
            let a = match r.at("id"@).as_str() {
                Some(id) => ResponsesParseV { msg_id: id, ..s },
                None => s,
            };
            match r.at("model"@).as_str() {
                Some(m) => ResponsesParseV { model: m, ..a },
                None => a,
            }
        },
        None => s,
    };
    (seq![EventV::MessageStart { id: s1.msg_id, model: s1.model, usage: Some(s1.usage) }], s1)
}

/// What a Responses chunk does, by its `type`.
pub open spec fn responses_chunk_spec(chunk: JsonV, s: ResponsesParseV) -> (Seq<EventV>, ResponsesParseV) {
    match chunk.at("type"@).as_str() {
        None => (Seq::empty(), s),
        Some(t) => if t == "response.created"@ {
            created_spec(chunk, s)
        } else if t == "response.output_item.added"@ {
            item_added_spec(chunk, s)
        } else if t == "response.output_text.delta"@ {
            text_delta_spec(chunk, s)
        } else if t == "response.reasoning.delta"@ {
            reasoning_delta_spec(chunk, s)
        } else if t == "response.function_call_arguments.delta"@ {
            arguments_delta_spec(chunk, s)
        } else if t == "response.completed"@ {
            completed_spec(chunk, s)
        } else {
            (Seq::empty(), s)
        },
    }
}

/// The parser can take another block index: the next one is not the last
/// that fits.
pub open spec fn responses_state_ok(s: ResponsesParseV) -> bool {
    s.next_index < usize::MAX
}

/// Where the latest entry of `key` stands.
fn tool_find(m: &Vec<(usize, usize)>, key: usize) -> (r: Option<usize>)
    ensures
        match r {
            Some(i) => i < m@.len() && m@[i as int].0 == key && forall|j: int|
                i < j < m@.len() ==> m@[j].0 != key,
            None => forall|j: int| 0 <= j < m@.len() ==> m@[j].0 != key,
        },
{
    let mut i: usize = m.len();
    while i > 0
        invariant
            i <= m@.len(),
            forall|j: int| i <= j < m@.len() ==> m@[j].0 != key,
        decreases i,
    {
        if m[i - 1].0 == key {
            return Some(i - 1);
        }
        i = i - 1;
    }
    None
}

proof fn lemma_tool_lookup(m: Seq<(int, int)>, key: int, i: int)
    requires
        -1 <= i < m.len(),
        forall|j: int| i < j < m.len() ==> m[j].0 != key,
        i >= 0 ==> m[i].0 == key,
    ensures
        i >= 0 ==> tool_lookup(m, key) == Some(m[i].1),
        i == -1 ==> tool_lookup(m, key) is None,
    decreases m.len(),
{
    if m.len() > 0 && i < m.len() - 1 {
        assert(m.last() == m[m.len() - 1]);
        assert forall|j: int| i < j < m.drop_last().len() implies m.drop_last()[j].0 != key by {
            assert(m.drop_last()[j] == m[j]);
        }
        lemma_tool_lookup(m.drop_last(), key, i);
        if i >= 0 {
            assert(m.drop_last()[i] == m[i]);
        }
    }
}

fn tool_map_view(m: &Vec<(usize, usize)>) -> (r: Ghost<Seq<(int, int)>>)
    ensures
        r@ == m@.map_values(|p: (usize, usize)| pair_view(p)),
{
    Ghost(m@.map_values(|p: (usize, usize)| pair_view(p)))
}

fn item_added(chunk: &Json, events: &mut Vec<IrStreamEvent>, st: &mut ResponsesParseState)
    requires
        responses_state_ok(old(st)@),
        events_view(old(events)@) == Seq::<EventV>::empty(),
    ensures
        (events_view(final(events)@), final(st)@) == item_added_spec(chunk@, old(st)@),
{
    let item = match chunk.get("item") {
        Some(i) => i,
        None => {
            return;
        },
    };
    let it: &str = match item.str_at("type") {
        Some(t) => t,
        None => "",
    };
    proof {
        reveal_strlit("");
        assert(""@ =~= Seq::<char>::empty());
    }
    let oi: usize = match chunk.u64_at("output_index") {
        Some(n) => n as usize,
        None => 0,
    };
    if str_eq(it, "function_call") {
        let idv = match item.get("call_id") {
            Some(v) => Some(v),
            None => item.get("id"),
        };
        let id: &str = match idv {
            Some(v) => match v.as_str() {
                Some(x) => x,
                None => "",
            },
            None => "",
        };
        let name: &str = match item.str_at("name") {
            Some(n) => n,
            None => "",
        };
        match st.text_open {
            Some((t, _)) => {
                push_event(events, IrStreamEvent::ContentBlockStop { index: t });
                st.text_open = None;
            },
            None => {},
        }
        if st.thinking_open {
            push_event(events, IrStreamEvent::ContentBlockStop { index: st.thinking_index });
            st.thinking_open = false;
        }
        let bi = st.alloc_index();
        let ghost m0 = st@.tool_map;
        st.tool_map.push((oi, bi));
        proof {
            assert(st@.tool_map =~= m0.push((oi as int, bi as int)));
        }
        push_event(
            events,
            IrStreamEvent::ContentBlockStart {
                index: bi,
                block: IrContentBlockStart::ToolUse { id: id.to_owned(), name: name.to_owned() },
            },
        );
    } else if str_eq(it, "reasoning") {
        if !st.thinking_ever_started {
            let ti = st.alloc_index();
            st.thinking_index = ti;
            push_event(
                events,
                IrStreamEvent::ContentBlockStart {
                    index: ti,
                    block: IrContentBlockStart::Thinking { signature: None },
                },
            );
            st.thinking_ever_started = true;
            st.thinking_open = true;
        }
    } else if str_eq(it, "message") {
        match st.text_open {
            Some((t, _)) => {
                push_event(events, IrStreamEvent::ContentBlockStop { index: t });
                st.text_open = None;
            },
            None => {},
        }
    }
}

fn text_delta(chunk: &Json, events: &mut Vec<IrStreamEvent>, st: &mut ResponsesParseState)
    requires
        responses_state_ok(old(st)@),
        events_view(old(events)@) == Seq::<EventV>::empty(),
    ensures
        (events_view(final(events)@), final(st)@) == text_delta_spec(chunk@, old(st)@),
{
    let d = match chunk.str_at("delta") {
        Some(d) => d,
        None => {
            return;
        },
    };
    let oi: usize = match chunk.u64_at("output_index") {
        Some(n) => n as usize,
        None => 0,
    };
    match st.text_open {
        Some((t, to)) => {
            if to != oi {
                push_event(events, IrStreamEvent::ContentBlockStop { index: t });
                st.text_open = None;
            }
        },
        None => {},
    }
    if st.thinking_open && st.text_open.is_none() {
        push_event(events, IrStreamEvent::ContentBlockStop { index: st.thinking_index });
        st.thinking_open = false;
    }
    if st.text_open.is_none() {
        let bi = st.alloc_index();
        st.text_open = Some((bi, oi));
        push_event(events, IrStreamEvent::ContentBlockStart { index: bi, block: IrContentBlockStart::Text });
    }
    let t_idx = match st.text_open {
        Some((t, _)) => t,
        None => 0,
    };
    push_event(
        events,
        IrStreamEvent::ContentBlockDelta { index: t_idx, delta: IrContentDelta::TextDelta(d.to_owned()) },
    );
}

fn completed(chunk: &Json, events: &mut Vec<IrStreamEvent>, st: &mut ResponsesParseState)
    requires
        events_view(old(events)@) == Seq::<EventV>::empty(),
    ensures
        (events_view(final(events)@), final(st)@) == completed_spec(chunk@, old(st)@),
{
    if st.thinking_open {
        push_event(events, IrStreamEvent::ContentBlockStop { index: st.thinking_index });
        st.thinking_open = false;
    }
    match st.text_open {
        Some((t, _)) => {
            push_event(events, IrStreamEvent::ContentBlockStop { index: t });
            st.text_open = None;
        },
        None => {},
    }
    let ghost e2 = events_view(events@);
    let ghost m = st@.tool_map;
    let mut i: usize = 0;
    while i < st.tool_map.len()
        invariant
            i <= st.tool_map@.len(),
            m == st@.tool_map,
            events_view(events@) == e2 + tool_stops(m.take(i as int)),
        decreases st.tool_map@.len() - i,
    {
        let b = st.tool_map[i].1;
        push_event(events, IrStreamEvent::ContentBlockStop { index: b });
        proof {
            assert(tool_stops(m.take(i as int + 1)) =~= tool_stops(m.take(i as int)).push(
                EventV::BlockStop { index: b as int },
            ));
        }
        i = i + 1;
    }
    proof {
        assert(m.take(i as int) =~= m);
    }
    let u = extract_responses_usage(chunk);
    if u.input_tokens > 0 || u.output_tokens > 0 {
        if u.input_tokens > 0 {
            st.usage.input_tokens = if u.input_tokens >= u.cache_read_input_tokens {
                u.input_tokens - u.cache_read_input_tokens
            } else {
                0
            };
        }
        if u.output_tokens > 0 {
            st.usage.output_tokens = u.output_tokens;
        }
        if u.cache_read_input_tokens > 0 {
            st.usage.cache_read_input_tokens = u.cache_read_input_tokens;
        }
    }
    let incomplete = match chunk.get("response") {
        Some(r) => match r.str_at("status") {
            Some(s) => str_eq(s, "incomplete"),
            None => false,
        },
        None => false,
    };
    let sr = if incomplete {
        IrStopReason::MaxTokens
    } else {
        IrStopReason::EndTurn
    };
    push_event(events, IrStreamEvent::MessageDelta { stop_reason: Some(sr), usage: Some(st.usage) });
    push_event(events, IrStreamEvent::MessageStop);
}

/// Reads one OpenAI Responses stream chunk into neutral events.
pub fn responses_chunk_to_ir(chunk: &Json, state: &mut ResponsesParseState) -> (r: Vec<IrStreamEvent>)
    requires
        responses_state_ok(old(state)@),
    ensures
        (events_view(r@), final(state)@) == responses_chunk_spec(chunk@, old(state)@),
{
    let mut events: Vec<IrStreamEvent> = Vec::new();
    proof {
        assert(events_view(events@) =~= Seq::<EventV>::empty());
    }
    let t = match chunk.str_at("type") {
        Some(t) => t,
        None => {
            return events;
        },
    };
    if str_eq(t, "response.created") {
        match chunk.get("response") {
            Some(r) => {
                match r.str_at("id") {
                    Some(id) => {
                        state.msg_id = id.to_owned();
                    },
                    None => {},
                }
                match r.str_at("model") {
                    Some(m) => {
                        state.model = m.to_owned();
                    },
                    None => {},
                }
            },
            None => {},
        }
        push_event(
            &mut events,
            IrStreamEvent::MessageStart {
                id: state.msg_id.clone(),
                model: state.model.clone(),
                usage: Some(state.usage),
            },
        );
        proof {
            assert(events_view(events@) =~= seq![
                EventV::MessageStart { id: state@.msg_id, model: state@.model, usage: Some(state@.usage) },
            ]);
        }
    } else if str_eq(t, "response.output_item.added") {
        item_added(chunk, &mut events, state);
    } else if str_eq(t, "response.output_text.delta") {
        text_delta(chunk, &mut events, state);
    } else if str_eq(t, "response.reasoning.delta") {
        match chunk.str_at("delta") {
            Some(d) => {
                if !state.thinking_ever_started {
                    let ti = state.alloc_index();
                    state.thinking_index = ti;
                    push_event(
                        &mut events,
                        IrStreamEvent::ContentBlockStart {
                            index: ti,
                            block: IrContentBlockStart::Thinking { signature: None },
                        },
                    );
                    state.thinking_ever_started = true;
                    state.thinking_open = true;
                }
                push_event(
                    &mut events,
                    IrStreamEvent::ContentBlockDelta {
                        index: state.thinking_index,
                        delta: IrContentDelta::ThinkingDelta(d.to_owned()),
                    },
                );
            },
            None => {},
        }
    } else if str_eq(t, "response.function_call_arguments.delta") {
        match chunk.str_at("delta") {
            Some(d) => {
                let oi: usize = match chunk.u64_at("output_index") {
                    Some(n) => n as usize,
                    None => 0,
                };
                let ghost m = state@.tool_map;
                let bi = match tool_find(&state.tool_map, oi) {
                    Some(i) => {
                        proof {
                            lemma_tool_lookup(m, oi as int, i as int);
                        }
                        state.tool_map[i].1
                    },
                    None => {
                        proof {
                            lemma_tool_lookup(m, oi as int, -1);
                        }
                        if state.next_index > 0 {
                            state.next_index - 1
                        } else {
                            0
                        }
                    },
                };
                push_event(
                    &mut events,
                    IrStreamEvent::ContentBlockDelta {
                        index: bi,
                        delta: IrContentDelta::InputJsonDelta(d.to_owned()),
                    },
                );
                proof {
                    assert(events_view(events@) =~= seq![
                        EventV::BlockDelta { index: bi as int, delta: DeltaV::InputJson(d@) },
                    ]);
                }
            },
            None => {},
        }
    } else if str_eq(t, "response.completed") {
        completed(chunk, &mut events, state);
    }
    events
}


// ---- requests ----

/// A block for one content part of a message item: text (input, output or
/// plain), an image by URL or as a `data:` URL, or reasoning text.
pub open spec fn responses_part_block(part: JsonV) -> Option<BlockV> {
    let t = str_or_empty(part.str_at("type"@));
    if t == "input_text"@ || t == "output_text"@ || t == "text"@ {
        match part.str_at("text"@) {
            Some(x) => Some(BlockV::Text { text: x, cache_control: None }),
            None => None,
        }
    } else if t == "input_image"@ {
        match part.str_at("image_url"@) {
            Some(url) => image_url_block(url),
            None => None,
        }
    } else if t == "reasoning"@ {
        match part.str_at("text"@) {
            Some(x) => Some(BlockV::Thinking { thinking: x, signature: None }),
            None => None,
        }
    } else {
        None
    }
}

pub open spec fn responses_parts_blocks(parts: Seq<JsonV>) -> Seq<BlockV>
    decreases parts.len(),
{
    if parts.len() == 0 {
        Seq::empty()
    } else {
        let rest = responses_parts_blocks(parts.drop_last());
        match responses_part_block(parts.last()) {
            Some(b) => rest.push(b),
            None => rest,
        }
    }
}

/// The blocks of a message item: those of its content parts, where its
/// content is an array.
pub open spec fn responses_content_blocks(item: JsonV) -> Seq<BlockV> {
    match item.array_at("content"@) {
        Some(parts) => responses_parts_blocks(parts),
        None => Seq::empty(),
    }
}

/// A function call item as a tool use; arguments that are not JSON give null.
pub open spec fn responses_tool_use(item: JsonV) -> BlockV {
    let args = match item.str_at("arguments"@) {
        Some(a) => a,
        None => "{}"@,
    };
    BlockV::ToolUse {
        id: call_id_of(item),
        name: str_or_empty(item.str_at("name"@)),
        input: match json_text_value(args) {
            Some(v) => v,
            None => JsonV::Null,
        },
    }
}

/// The text of a function call's output: the output itself where it is a
/// string, the texts of its parts joined by newlines where it is an array.
pub open spec fn call_output_text(item: JsonV) -> Seq<char> {
    match item.get("output"@) {
        Some(JsonV::Str(x)) => x,
        Some(JsonV::Array(parts)) => join_spec(part_texts(parts), "\n"@),
        _ => Seq::empty(),
    }
}

/// One input item: system messages add system text, other messages with
/// content become messages, a function call joins the last message where
/// that is the assistant's (else it opens one), and a function call output
/// becomes a tool result from the user.
pub open spec fn responses_item_step(item: JsonV, acc: (Seq<Seq<char>>, Seq<MessageV>)) -> (
    Seq<Seq<char>>,
    Seq<MessageV>,
) {
    let ty = str_or_empty(item.str_at("type"@));
    let role = role_or_user(item);
    let ms = acc.1;
    if ty == "message"@ {
        if role == "system"@ {
            (acc.0 + system_texts(item), ms)
        } else {
            let c = responses_content_blocks(item);
            if c.len() > 0 {
                (
                    acc.0,
                    ms.push(
                        MessageV {
                            role: if role == "assistant"@ {
                                IrRole::Assistant
                            } else {
                                IrRole::User
                            },
                            content: c,
                        },
                    ),
                )
            } else {
                acc
            }
        }
    } else if ty == "function_call"@ {
        let b = responses_tool_use(item);
        if ms.len() > 0 && ms.last().role == IrRole::Assistant {
            (
                acc.0,
                ms.update(
                    ms.len() - 1,
                    MessageV { role: IrRole::Assistant, content: ms.last().content.push(b) },
                ),
            )
        } else {
            (acc.0, ms.push(MessageV { role: IrRole::Assistant, content: seq![b] }))
        }
    } else if ty == "function_call_output"@ {
        (
            acc.0,
            ms.push(
                MessageV {
                    role: IrRole::User,
                    content: seq![
                        BlockV::ToolResult {
                            tool_use_id: str_or_empty(item.str_at("call_id"@)),
                            content: ToolResultV::Text(call_output_text(item)),
                            is_error: match item.at("is_error"@).as_bool() {
                                Some(b) => b,
                                None => false,
                            },
                        },
                    ],
                },
            ),
        )
    } else {
        acc
    }
}

/// The input items read in order, starting from the given system texts.
pub open spec fn responses_items_fold(items: Seq<JsonV>, init: Seq<Seq<char>>) -> (
    Seq<Seq<char>>,
    Seq<MessageV>,
)
    decreases items.len(),
{
    if items.len() == 0 {
        (init, Seq::empty())
    } else {
        responses_item_step(items.last(), responses_items_fold(items.drop_last(), init))
    }
}

/// The system content and the messages of a request: the `instructions`
/// come first among the system texts; a string input is one user message;
/// with no input array the instructions are joined by spaces.
pub open spec fn responses_input_spec(req: JsonV) -> (Option<SystemV>, Seq<MessageV>) {
    let inst = texts_of(req.get("instructions"@));
    match req.get("input"@) {
        Some(JsonV::Str(x)) => (
            system_of_texts(inst),
            seq![
                MessageV {
                    role: IrRole::User,
                    content: seq![BlockV::Text { text: x, cache_control: None }],
                },
            ],
        ),
        Some(JsonV::Array(items)) => {
            let (parts, msgs) = responses_items_fold(items, inst);
            (system_of_texts(parts), msgs)
        },
        _ => (
            if inst.len() == 0 {
                None
            } else {
                Some(SystemV::Text(join_spec(inst, " "@)))
            },
            Seq::empty(),
        ),
    }
}

/// The schema given to a built-in web search tool.
pub open spec fn web_search_preview_schema() -> JsonV {
    jobj(
        seq![
            ("type"@, JsonV::Str("object"@)),
            ("properties"@, jobj(
                seq![
                    ("query"@, jobj(
                        seq![
                            ("type"@, JsonV::Str("string"@)),
                            ("description"@, JsonV::Str("The search query"@)),
                        ],
                    )),
                    ("max_results"@, jobj(
                        seq![
                            ("type"@, JsonV::Str("integer"@)),
                            ("description"@, JsonV::Str("Maximum number of results to return"@)),
                            ("default"@, JsonV::Int(5)),
                        ],
                    )),
                ],
            )),
            ("required"@, JsonV::Array(seq![JsonV::Str("query"@)])),
        ],
    )
}

/// A tool definition: a function by its name, or a built-in tool whose type
/// begins with `web_search`, which becomes the `web_search` tool; other
/// built-in tools give none.
pub open spec fn responses_tool_def(t: JsonV) -> Option<ToolV> {
    if t.str_at("type"@) != Some("function"@) {
        if seq_starts_with(str_or_empty(t.str_at("type"@)), "web_search"@) {
            Some(
                ToolV {
                    name: "web_search"@,
                    description: Some("Search the web for information"@),
                    input_schema: web_search_preview_schema(),
                },
            )
        } else {
            None
        }
    } else {
        match t.str_at("name"@) {
            Some(name) => Some(
                ToolV {
                    name,
                    description: t.str_at("description"@),
                    input_schema: match t.get("parameters"@) {
                        Some(p) => p,
                        None => default_schema(),
                    },
                },
            ),
            None => None,
        }
    }
}

pub open spec fn responses_tool_defs(ts: Seq<JsonV>) -> Seq<ToolV>
    decreases ts.len(),
{
    if ts.len() == 0 {
        Seq::empty()
    } else {
        let rest = responses_tool_defs(ts.drop_last());
        match responses_tool_def(ts.last()) {
            Some(t) => rest.push(t),
            None => rest,
        }
    }
}

pub open spec fn responses_tool_choice(tc: JsonV) -> ToolChoiceV {
    match tc {
        JsonV::Str(x) => if x == "none"@ {
            ToolChoiceV::NoTools
        } else if x == "required"@ {
            ToolChoiceV::Any
        } else {
            ToolChoiceV::Auto
        },
        JsonV::Object(_) => match tc.str_at("name"@) {
            Some(n) => ToolChoiceV::Tool { name: n },
            None => ToolChoiceV::Auto,
        },
        _ => ToolChoiceV::Auto,
    }
}

/// What a Responses request body reads as.
pub open spec fn responses_req_spec(req: JsonV) -> RequestV {
    let (system, messages) = responses_input_spec(req);
    RequestV {
        model: str_or_empty(req.str_at("model"@)),
        system,
        messages,
        tools: match req.array_at("tools"@) {
            Some(ts) => responses_tool_defs(ts),
            None => Seq::empty(),
        },
        tool_choice: match req.get("tool_choice"@) {
            Some(tc) => Some(responses_tool_choice(tc)),
            None => None,
        },
        max_tokens: match req.get("max_output_tokens"@) {
            Some(v) => v.as_u64(),
            None => req.at("max_tokens"@).as_u64(),
        },
        temperature: number_at(req.at("temperature"@)),
        top_p: number_at(req.at("top_p"@)),
        thinking: match req.get("reasoning"@) {
            Some(r) => Some(
                IrThinkingConfig {
                    enabled: true,
                    budget_tokens: effort_budget(
                        match r.str_at("effort"@) {
                            Some(e) => e,
                            None => "medium"@,
                        },
                    ),
                },
            ),
            None => None,
        },
        stream: match req.at("stream"@).as_bool() {
            Some(b) => b,
            None => false,
        },
    }
}

fn responses_part_exec(part: &Json) -> (r: Option<IrContentBlock>)
    ensures
        match r {
            Some(b) => responses_part_block(part@) == Some(b@),
            None => responses_part_block(part@) is None,
        },
{
    let t: &str = match part.str_at("type") {
        Some(x) => x,
        None => "",
    };
    proof {
        reveal_strlit("");
        assert(""@ =~= Seq::<char>::empty());
    }
    if str_eq(t, "input_text") || str_eq(t, "output_text") || str_eq(t, "text") {
        match part.str_at("text") {
            Some(x) => Some(IrContentBlock::Text { text: x.to_owned(), cache_control: None }),
            None => None,
        }
    } else if str_eq(t, "input_image") {
        match part.str_at("image_url") {
            Some(url) => image_from_url(url),
            None => None,
        }
    } else if str_eq(t, "reasoning") {
        match part.str_at("text") {
            Some(x) => Some(IrContentBlock::Thinking { thinking: x.to_owned(), signature: None }),
            None => None,
        }
    } else {
        None
    }
}

/// Reads the content parts of a message item.
fn parse_responses_content(item: &Json) -> (r: Vec<IrContentBlock>)
    ensures
        blocks_view(r@) == responses_content_blocks(item@),
{
    let mut blocks: Vec<IrContentBlock> = Vec::new();
    proof {
        assert(blocks_view(blocks@) =~= Seq::<BlockV>::empty());
    }
    match item.array_at("content") {
        Some(parts) => {
            let ghost pv = items_view(parts@);
            proof {
                lemma_items_view_len(parts@);
            }
            let mut i: usize = 0;
            while i < parts.len()
                invariant
                    i <= parts@.len(),
                    pv == items_view(parts@),
                    pv.len() == parts@.len(),
                    blocks_view(blocks@) == responses_parts_blocks(pv.take(i as int)),
                decreases parts@.len() - i,
            {
                proof {
                    lemma_items_view_index(parts@, i as int);
                    assert(pv.take(i as int + 1).drop_last() =~= pv.take(i as int));
                }
                match responses_part_exec(&parts[i]) {
                    Some(b) => {
                        push_block(&mut blocks, b);
                    },
                    None => {},
                }
                i = i + 1;
            }
            proof {
                assert(pv.take(i as int) =~= pv);
            }
        },
        None => {},
    }
    blocks
}

fn responses_tool_use_exec(item: &Json) -> (r: IrContentBlock)
    ensures
        r@ == responses_tool_use(item@),
{
    let idv = match item.get("call_id") {
        Some(v) => Some(v),
        None => item.get("id"),
    };
    let id: &str = match idv {
        Some(v) => match v.as_str() {
            Some(x) => x,
            None => "",
        },
        None => "",
    };
    let name: &str = match item.str_at("name") {
        Some(n) => n,
        None => "",
    };
    let args: &str = match item.str_at("arguments") {
        Some(a) => a,
        None => "{}",
    };
    let input = match parse_json(args) {
        Some(v) => v,
        None => Json::Null,
    };
    proof {
        reveal_strlit("");
        assert(""@ =~= Seq::<char>::empty());
    }
    IrContentBlock::ToolUse { id: id.to_owned(), name: name.to_owned(), input }
}

fn call_output_exec(item: &Json) -> (r: String)
    ensures
        r@ == call_output_text(item@),
{
    match item.get("output") {
        Some(Json::Str(x)) => x.clone(),
        Some(o) => {
            let mut texts: Vec<String> = Vec::new();
            proof {
                assert(texts@.map_values(|t: String| t@) =~= Seq::<Seq<char>>::empty());
            }
            push_texts_of(Some(o), &mut texts);
            proof {
                assert(texts@.map_values(|t: String| t@) =~= texts_of(Some(o@)));
            }
            join_strings(&texts, "\n")
        },
        None => String::new(),
    }
}

/// Reads the `instructions` and `input` of a request.
fn parse_responses_input(req: &Json) -> (r: (Option<IrSystemContent>, Vec<IrMessage>))
    ensures
        (
            match r.0 {
                Some(x) => Some(crate::ir::system_view(x)),
                None => None,
            },
            messages_view(r.1@),
        ) == responses_input_spec(req@),
{
    let mut parts: Vec<String> = Vec::new();
    proof {
        assert(parts@.map_values(|t: String| t@) =~= Seq::<Seq<char>>::empty());
    }
    push_texts_of(req.get("instructions"), &mut parts);
    let ghost inst = parts@.map_values(|t: String| t@);
    proof {
        assert(inst =~= texts_of(req@.get("instructions"@)));
    }
    let mut out: Vec<IrMessage> = Vec::new();
    proof {
        assert(messages_view(out@) =~= Seq::<MessageV>::empty());
    }
    let items = match req.get("input") {
        Some(Json::Str(x)) => {
            let system = system_from_texts(parts);
            let mut content: Vec<IrContentBlock> = Vec::new();
            push_block(&mut content, IrContentBlock::Text { text: x.clone(), cache_control: None });
            let m = IrMessage { role: IrRole::User, content };
            let ghost mvv = m@;
            out.push(m);
            proof {
                assert(blocks_view(Seq::<IrContentBlock>::empty()) =~= Seq::<BlockV>::empty());
                assert(messages_view(out@) =~= seq![mvv]);
            }
            return (system, out);
        },
        Some(Json::Array(items)) => items,
        _ => {
            if parts.len() == 0 {
                return (None, out);
            } else {
                let joined = join_strings(&parts, " ");
                return (Some(IrSystemContent::Text(joined)), out);
            }
        },
    };
    let ghost iv = items_view(items@);
    proof {
        lemma_items_view_len(items@);
    }
    let mut i: usize = 0;
    while i < items.len()
        invariant
            i <= items@.len(),
            iv == items_view(items@),
            iv.len() == items@.len(),
            (parts@.map_values(|t: String| t@), messages_view(out@)) == responses_items_fold(
                iv.take(i as int),
                inst,
            ),
        decreases items@.len() - i,
    {
        proof {
            lemma_items_view_index(items@, i as int);
            assert(iv.take(i as int + 1).drop_last() =~= iv.take(i as int));
        }
        let item = &items[i];
        let ty: &str = match item.str_at("type") {
            Some(t) => t,
            None => "",
        };
        let role: &str = match item.str_at("role") {
            Some(r) => r,
            None => "user",
        };
        proof {
            reveal_strlit("");
            assert(""@ =~= Seq::<char>::empty());
            assert(role@ == role_or_user(item@));
        }
        if str_eq(ty, "message") {
            if str_eq(role, "system") {
                push_texts_of(item.get("content"), &mut parts);
            } else {
                let content = parse_responses_content(item);
                if content.len() > 0 {
                    let ir_role = if str_eq(role, "assistant") {
                        IrRole::Assistant
                    } else {
                        IrRole::User
                    };
                    let ghost before = messages_view(out@);
                    let m = IrMessage { role: ir_role, content };
                    let ghost mvv = m@;
                    out.push(m);
                    proof {
                        assert(messages_view(out@) =~= before.push(mvv));
                    }
                } else {
                    proof {
                        crate::ir::lemma_blocks_view_len(content@);
                    }
                }
            }
        } else if str_eq(ty, "function_call") {
            let b = responses_tool_use_exec(item);
            let n = out.len();
            let ghost before = messages_view(out@);
            if n > 0 && out[n - 1].role == IrRole::Assistant {
                let mut m = out.pop().unwrap();
                let ghost mv0 = m@;
                proof {
                    assert(mv0 == before.last());
                }
                push_block(&mut m.content, b);
                let ghost mvv = m@;
                out.push(m);
                proof {
                    assert(messages_view(out@) =~= before.update(n - 1, mvv));
                }
            } else {
                let mut content: Vec<IrContentBlock> = Vec::new();
                proof {
                    assert(blocks_view(content@) =~= Seq::<BlockV>::empty());
                }
                push_block(&mut content, b);
                let m = IrMessage { role: IrRole::Assistant, content };
                let ghost mvv = m@;
                out.push(m);
                proof {
                    assert(messages_view(out@) =~= before.push(mvv));
                }
            }
        } else if str_eq(ty, "function_call_output") {
            let call_id: &str = match item.str_at("call_id") {
                Some(x) => x,
                None => "",
            };
            let is_error = match item.bool_at("is_error") {
                Some(b) => b,
                None => false,
            };
            let output = call_output_exec(item);
            let mut content: Vec<IrContentBlock> = Vec::new();
            proof {
                assert(blocks_view(content@) =~= Seq::<BlockV>::empty());
            }
            push_block(
                &mut content,
                IrContentBlock::ToolResult {
                    tool_use_id: call_id.to_owned(),
                    content: IrToolResultContent::Text(output),
                    is_error,
                },
            );
            let ghost before = messages_view(out@);
            let m = IrMessage { role: IrRole::User, content };
            let ghost mvv = m@;
            out.push(m);
            proof {
                assert(messages_view(out@) =~= before.push(mvv));
            }
        }
        i = i + 1;
    }
    proof {
        assert(iv.take(i as int) =~= iv);
    }
    let system = system_from_texts(parts);
    (system, out)
}

fn web_search_preview_schema_json() -> (r: Json)
    ensures
        r@ == web_search_preview_schema(),
{
    let mut q: Vec<(String, Json)> = Vec::new();
    push_field(&mut q, "type", json_string("string"));
    push_field(&mut q, "description", json_string("The search query"));
    let mut mr: Vec<(String, Json)> = Vec::new();
    push_field(&mut mr, "type", json_string("integer"));
    push_field(&mut mr, "description", json_string("Maximum number of results to return"));
    push_field(&mut mr, "default", json_u64(5));
    let mut props: Vec<(String, Json)> = Vec::new();
    push_field(&mut props, "query", object_of(q));
    push_field(&mut props, "max_results", object_of(mr));
    let mut req: Vec<Json> = Vec::new();
    push_item(&mut req, json_string("query"));
    let mut f: Vec<(String, Json)> = Vec::new();
    push_field(&mut f, "type", json_string("object"));
    push_field(&mut f, "properties", object_of(props));
    push_field(&mut f, "required", array_of(req));
    proof {
        let w = web_search_preview_schema()->Object_0;
        assert(fields_view(q@) =~= w[1].1->Object_0[0].1->Object_0);
        assert(fields_view(mr@) =~= w[1].1->Object_0[1].1->Object_0);
        assert(fields_view(props@) =~= w[1].1->Object_0);
        assert(items_view(req@) =~= w[2].1->Array_0);
        assert(fields_view(f@) =~= w);
    }
    object_of(f)
}

fn responses_tool_def_exec(t: &Json) -> (r: Option<IrTool>)
    ensures
        match r {
            Some(x) => responses_tool_def(t@) == Some(x@),
            None => responses_tool_def(t@) is None,
        },
{
    let ty = t.str_at("type");
    let is_function = match ty {
        Some(x) => str_eq(x, "function"),
        None => false,
    };
    if !is_function {
        let tys: &str = match ty {
            Some(x) => x,
            None => "",
        };
        proof {
            reveal_strlit("");
            assert(""@ =~= Seq::<char>::empty());
        }
        if starts_with(tys, "web_search") {
            Some(
                IrTool {
                    name: "web_search".to_owned(),
                    description: Some("Search the web for information".to_owned()),
                    input_schema: web_search_preview_schema_json(),
                },
            )
        } else {
            None
        }
    } else {
        let name = match t.str_at("name") {
            Some(n) => n,
            None => {
                return None;
            },
        };
        let description = match t.str_at("description") {
            Some(d) => Some(d.to_owned()),
            None => None,
        };
        let input_schema = match t.get("parameters") {
            Some(p) => p.copy(),
            None => {
                let mut f: Vec<(String, Json)> = Vec::new();
                push_field(&mut f, "type", json_string("object"));
                push_field(&mut f, "properties", empty_object());
                proof {
                    assert(fields_view(f@) =~= default_schema()->Object_0);
                }
                object_of(f)
            },
        };
        Some(IrTool { name: name.to_owned(), description, input_schema })
    }
}

/// Reads a `tool_choice` member.
fn parse_responses_tool_choice(tc: &Json) -> (r: IrToolChoice)
    ensures
        r@ == responses_tool_choice(tc@),
{
    match tc {
        Json::Str(x) => {
            if str_eq(x.as_str(), "none") {
                IrToolChoice::NoTools
            } else if str_eq(x.as_str(), "required") {
                IrToolChoice::Any
            } else {
                IrToolChoice::Auto
            }
        },
        Json::Object(_) => match tc.str_at("name") {
            Some(n) => IrToolChoice::Tool { name: n.to_owned() },
            None => IrToolChoice::Auto,
        },
        _ => IrToolChoice::Auto,
    }
}

/// Reads an OpenAI Responses request body.
pub fn responses_req_to_ir(req: &Json) -> (r: IrRequest)
    ensures
        r@ == responses_req_spec(req@),
{
    let model: &str = match req.str_at("model") {
        Some(m) => m,
        None => "",
    };
    let stream = match req.bool_at("stream") {
        Some(b) => b,
        None => false,
    };
    let (system, messages) = parse_responses_input(req);
    let mut tools: Vec<IrTool> = Vec::new();
    proof {
        assert(tools@.map_values(|t: IrTool| t@) =~= Seq::<ToolV>::empty());
    }
    match req.array_at("tools") {
        Some(ts) => {
            let ghost tv = items_view(ts@);
            proof {
                lemma_items_view_len(ts@);
            }
            let mut i: usize = 0;
            while i < ts.len()
                invariant
                    i <= ts@.len(),
                    tv == items_view(ts@),
                    tv.len() == ts@.len(),
                    tools@.map_values(|t: IrTool| t@) == responses_tool_defs(tv.take(i as int)),
                decreases ts@.len() - i,
            {
                proof {
                    lemma_items_view_index(ts@, i as int);
                    assert(tv.take(i as int + 1).drop_last() =~= tv.take(i as int));
                }
                match responses_tool_def_exec(&ts[i]) {
                    Some(t) => {
                        let ghost before = tools@.map_values(|t: IrTool| t@);
                        let ghost tvv = t@;
                        tools.push(t);
                        proof {
                            assert(tools@.map_values(|t: IrTool| t@) =~= before.push(tvv));
                        }
                    },
                    None => {},
                }
                i = i + 1;
            }
            proof {
                assert(tv.take(i as int) =~= tv);
            }
        },
        None => {},
    }
    let tool_choice = match req.get("tool_choice") {
        Some(tc) => Some(parse_responses_tool_choice(tc)),
        None => None,
    };
    let thinking = match req.get("reasoning") {
        Some(r) => {
            let e: &str = match r.str_at("effort") {
                Some(e) => e,
                None => "medium",
            };
            let budget: Option<u64> = if str_eq(e, "low") {
                Some(1024)
            } else if str_eq(e, "medium") {
                Some(4096)
            } else if str_eq(e, "high") {
                Some(16384)
            } else {
                None
            };
            Some(IrThinkingConfig { enabled: true, budget_tokens: budget })
        },
        None => None,
    };
    let max_tokens = match req.get("max_output_tokens") {
        Some(v) => v.as_u64(),
        None => req.u64_at("max_tokens"),
    };
    let temperature = number_exec(req.get("temperature"));
    let top_p = number_exec(req.get("top_p"));
    proof {
        reveal_strlit("");
        assert(""@ =~= Seq::<char>::empty());
    }
    IrRequest {
        model: model.to_owned(),
        system,
        messages,
        tools,
        tool_choice,
        max_tokens,
        temperature,
        top_p,
        thinking,
        stream,
    }
}

} // verus!
