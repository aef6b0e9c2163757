//! OpenAI Chat Completions into the neutral representation: request bodies and
//! stream chunks.
//!
//! A Chat Completions stream interleaves `reasoning_content`, `content` and
//! `tool_calls` deltas; the parser turns them into neutral blocks in the order
//! thinking, text, tools, opening and closing each block once.

use vstd::prelude::*;
use crate::ir::{
    blocks_view, events_view, push_block, push_event, zero_usage, BlockStartV, BlockV, DeltaV,
    EventV, ImageV, IrContentBlock, IrContentBlockStart, IrContentDelta, IrImageSource, IrMessage,
    IrRequest, IrRole, IrStopReason, IrStreamEvent, IrSystemBlock, IrSystemContent,
    IrThinkingConfig, IrTool, IrToolChoice, IrToolResultContent, IrUsage, MessageV, RequestV,
    SystemV, ToolChoiceV, ToolResultV, ToolV,
};
use crate::json::{
    empty_object, fields_view, items_view, jobj, json_string, json_text_value, lemma_items_view_index,
    lemma_items_view_len, object_of, parse_json, push_field, str_eq, Json, JsonNumber, JsonV,
};
use crate::text::{before_first, find_char, first_index_of, seq_starts_with, starts_with, substring};
use crate::usage::{chat_usage_spec, count_or_zero, extract_chat_usage, str_or_empty};

verus! {

/// The state of a Chat Completions stream parser.
pub struct ChatCompletionsParseState {
    /// The usage seen so far.
    pub usage: IrUsage,
    /// Whether the thinking block (index 0) has been opened.
    pub thinking_started: bool,
    /// Whether the text block has been opened.
    pub text_started: bool,
    /// The stream index of the text block.
    pub text_index: usize,
    /// How many tool slots have been opened.
    pub tool_count: usize,
    /// The message id, from the first chunk that has one.
    pub msg_id: String,
    /// The model, from the first chunk that has one.
    pub model: String,
}

/// The value of a parser state.
pub struct ChatParseV {
    pub usage: IrUsage,
    pub thinking_started: bool,
    pub text_started: bool,
    pub text_index: int,
    pub tool_count: int,
    pub msg_id: Seq<char>,
    pub model: Seq<char>,
}

impl View for ChatCompletionsParseState {
    type V = ChatParseV;

    open spec fn view(&self) -> ChatParseV {
        ChatParseV {
            usage: self.usage,
            thinking_started: self.thinking_started,
            text_started: self.text_started,
            text_index: self.text_index as int,
            tool_count: self.tool_count as int,
            msg_id: self.msg_id@,
            model: self.model@,
        }
    }
}

/// What every reachable parser state satisfies: text sits at index 0 or 1,
/// and the tool count leaves room for the indexes after it.
pub open spec fn chat_state_ok(s: ChatParseV) -> bool {
    0 <= s.text_index <= 1 && 0 <= s.tool_count <= usize::MAX - 1
}

pub open spec fn initial_chat_state() -> ChatParseV {
    ChatParseV {
        usage: zero_usage(),
        thinking_started: false,
        text_started: false,
        text_index: 0,
        tool_count: 0,
        msg_id: Seq::empty(),
        model: Seq::empty(),
    }
}

impl ChatCompletionsParseState {
    pub fn new() -> (r: Self)
        ensures
            r@ == initial_chat_state(),
            chat_state_ok(r@),
    {
        ChatCompletionsParseState {
            usage: IrUsage::default(),
            thinking_started: false,
            text_started: false,
            text_index: 0,
            tool_count: 0,
            msg_id: String::new(),
            model: String::new(),
        }
    }
}

impl Default for ChatCompletionsParseState {
    fn default() -> (r: Self)
        ensures
            r@ == initial_chat_state(),
    {
        Self::new()
    }
}

pub open spec fn max_u64(a: u64, b: u64) -> u64 {
    if a >= b {
        a
    } else {
        b
    }
}

/// The usage after a chunk: token counts keep their maxima when the chunk
/// reports any, and output characters add up.
pub open spec fn chat_merge_usage(s: IrUsage, u: IrUsage) -> IrUsage {
    let m = if u.input_tokens > 0 || u.output_tokens > 0 || u.cache_read_input_tokens > 0 {
        IrUsage {
            input_tokens: max_u64(s.input_tokens, u.input_tokens),
            output_tokens: max_u64(s.output_tokens, u.output_tokens),
            cache_read_input_tokens: max_u64(s.cache_read_input_tokens, u.cache_read_input_tokens),
            ..s
        }
    } else {
        s
    };
    IrUsage { output_chars: (s.output_chars + u.output_chars) as u64, ..m }
}

/// The slot of a tool call: its `index`, 0 where absent.
pub open spec fn tool_slot(tc: JsonV) -> int {
    (count_or_zero(tc.at("index"@)) as usize) as int
}

/// The stream index of tool slot `slot`: tools follow thinking and text.
pub open spec fn chat_block_index(s: ChatParseV, slot: int) -> int {
    if s.thinking_started || s.text_started {
        s.text_index + 1 + slot
    } else {
        slot
    }
}

pub open spec fn chat_reasoning_step(delta: JsonV, evs: Seq<EventV>, s: ChatParseV) -> (
    Seq<EventV>,
    ChatParseV,
) {
    let r = delta.at("reasoning_content"@).as_str();
    if r is Some && r->0.len() > 0 {
        let e0 = if !s.thinking_started {
            evs.push(
                EventV::BlockStart { index: 0, block: BlockStartV::Thinking { signature: None } },
            )
        } else {
            evs
        };
        (
            e0.push(EventV::BlockDelta { index: 0, delta: DeltaV::Thinking(r->0) }),
            ChatParseV { thinking_started: true, ..s },
        )
    } else {
        (evs, s)
    }
}

pub open spec fn chat_content_step(delta: JsonV, evs: Seq<EventV>, s: ChatParseV) -> (
    Seq<EventV>,
    ChatParseV,
) {
    let c = delta.at("content"@).as_str();
    if c is Some && c->0.len() > 0 {
        let (ea, sa) = if s.thinking_started && !s.text_started {
            (evs.push(EventV::BlockStop { index: 0 }), ChatParseV { text_index: 1, ..s })
        } else {
            (evs, s)
        };
        let (eb, sb) = if !sa.text_started {
            let index = if sa.thinking_started {
                sa.text_index
            } else {
                0
            };
            (
                ea.push(EventV::BlockStart { index, block: BlockStartV::Text }),
                ChatParseV { text_started: true, text_index: index, ..sa },
            )
        } else {
            (ea, sa)
        };
        (eb.push(EventV::BlockDelta { index: sb.text_index, delta: DeltaV::Text(c->0) }), sb)
    } else {
        (evs, s)
    }
}

pub open spec fn chat_tool_call_step(tc: JsonV, evs: Seq<EventV>, s: ChatParseV) -> (
    Seq<EventV>,
    ChatParseV,
) {
    let slot = tool_slot(tc);
    let bi = chat_block_index(s, slot);
    match tc.get("function"@) {
        None => (evs, s),
        Some(func) => {
            let (e1, s1) = match func.at("name"@).as_str() {
                Some(name) => (
                    evs.push(
                        EventV::BlockStart {
                            index: bi,
                            block: BlockStartV::ToolUse { id: str_or_empty(tc.str_at("id"@)), name },
                        },
                    ),
                    ChatParseV {
                        tool_count: if s.tool_count >= slot + 1 {
                            s.tool_count
                        } else {
                            slot + 1
                        },
                        ..s
                    },
                ),
                None => (evs, s),
            };
            match func.at("arguments"@).as_str() {
                Some(args) => (
                    e1.push(EventV::BlockDelta { index: bi, delta: DeltaV::InputJson(args) }),
                    s1,
                ),
                None => (e1, s1),
            }
        },
    }
}

pub open spec fn chat_tool_calls_fold(tcs: Seq<JsonV>, evs: Seq<EventV>, s: ChatParseV) -> (
    Seq<EventV>,
    ChatParseV,
)
    decreases tcs.len(),
{
    if tcs.len() == 0 {
        (evs, s)
    } else {
        let (e1, s1) = chat_tool_calls_fold(tcs.drop_last(), evs, s);
        chat_tool_call_step(tcs.last(), e1, s1)
    }
}

pub open spec fn chat_tools_step(delta: JsonV, evs: Seq<EventV>, s: ChatParseV) -> (
    Seq<EventV>,
    ChatParseV,
) {
    match delta.at("tool_calls"@).as_array() {
        Some(tcs) => {
            let e = if s.text_started && s.tool_count == 0 {
                evs.push(EventV::BlockStop { index: s.text_index })
            } else {
                evs
            };
            chat_tool_calls_fold(tcs, e, s)
        },
        None => (evs, s),
    }
}

/// The stops of the first `n` tool blocks.
pub open spec fn chat_tool_stops(s: ChatParseV, n: nat) -> Seq<EventV>
    decreases n,
{
    if n == 0 {
        Seq::empty()
    } else {
        chat_tool_stops(s, (n - 1) as nat).push(
            EventV::BlockStop { index: chat_block_index(s, n - 1) },
        )
    }
}

pub open spec fn chat_stop_reason(f: Seq<char>) -> Option<IrStopReason> {
    if f == "stop"@ {
        Some(IrStopReason::EndTurn)
    } else if f == "tool_calls"@ {
        Some(IrStopReason::ToolUse)
    } else if f == "length"@ {
        Some(IrStopReason::MaxTokens)
    } else {
        None
    }
}

/// A `finish_reason` closes every open block and ends the message.
pub open spec fn chat_finish_step(choice: JsonV, evs: Seq<EventV>, s: ChatParseV) -> Seq<EventV> {
    match choice.at("finish_reason"@).as_str() {
        Some(f) => {
            let ea = if s.thinking_started && !s.text_started {
                evs.push(EventV::BlockStop { index: 0 })
            } else {
                evs
            };
            let eb = if s.text_started && s.tool_count == 0 {
                ea.push(EventV::BlockStop { index: s.text_index })
            } else {
                ea
            };
            (eb + chat_tool_stops(s, s.tool_count as nat)).push(
                EventV::MessageDelta { stop_reason: chat_stop_reason(f), usage: Some(s.usage) },
            ).push(EventV::MessageStop)
        },
        None => evs,
    }
}

pub open spec fn chat_choice_step(choice: JsonV, evs: Seq<EventV>, s: ChatParseV) -> (
    Seq<EventV>,
    ChatParseV,
) {
    match choice.get("delta"@) {
        None => (evs, s),
        Some(delta) => {
            let (e1, s1) = chat_reasoning_step(delta, evs, s);
            let (e2, s2) = chat_content_step(delta, e1, s1);
            let (e3, s3) = chat_tools_step(delta, e2, s2);
            (chat_finish_step(choice, e3, s3), s3)
        },
    }
}

pub open spec fn chat_choices_fold(cs: Seq<JsonV>, evs: Seq<EventV>, s: ChatParseV) -> (
    Seq<EventV>,
    ChatParseV,
)
    decreases cs.len(),
{
    if cs.len() == 0 {
        (evs, s)
    } else {
        let (e1, s1) = chat_choices_fold(cs.drop_last(), evs, s);
        chat_choice_step(cs.last(), e1, s1)
    }
}

/// What a chunk does: usage is merged, the message id and model are kept from
/// the first chunk that has them, the choices are read in order, and a chunk
/// that yields nothing else announces the message once id and model are known.
pub open spec fn chat_chunk_spec(chunk: JsonV, s: ChatParseV) -> (Seq<EventV>, ChatParseV) {
    let s0 = ChatParseV { usage: chat_merge_usage(s.usage, chat_usage_spec(chunk)), ..s };
    let s1 = if s0.msg_id.len() == 0 && chunk.str_at("id"@) is Some {
        ChatParseV { msg_id: chunk.str_at("id"@)->0, ..s0 }
    } else {
        s0
    };
    let s2 = if s1.model.len() == 0 && chunk.str_at("model"@) is Some {
        ChatParseV { model: chunk.str_at("model"@)->0, ..s1 }
    } else {
        s1
    };
    match chunk.at("choices"@).as_array() {
        None => (Seq::empty(), s2),
        Some(cs) => {
            let (evs, s3) = chat_choices_fold(cs, Seq::empty(), s2);
            if s3.msg_id.len() > 0 && s3.model.len() > 0 && evs.len() == 0 {
                (seq![EventV::MessageStart { id: s3.msg_id, model: s3.model, usage: None }], s3)
            } else {
                (evs, s3)
            }
        },
    }
}

pub open spec fn chat_tool_calls_ok(tcs: Seq<JsonV>) -> bool {
    forall|j: int| 0 <= j < tcs.len() ==> tool_slot(#[trigger] tcs[j]) < usize::MAX - 1
}

pub open spec fn chat_choice_ok(choice: JsonV) -> bool {
    match choice.at("delta"@).at("tool_calls"@).as_array() {
        Some(tcs) => chat_tool_calls_ok(tcs),
        None => true,
    }
}

/// The tool slots of a chunk leave room for their stream indexes, and the
/// output characters still add up in 64 bits.
pub open spec fn chat_chunk_ok(chunk: JsonV, s: ChatParseV) -> bool {
    &&& s.usage.output_chars + chat_usage_spec(chunk).output_chars <= u64::MAX
    &&& match chunk.at("choices"@).as_array() {
        Some(cs) => forall|i: int| 0 <= i < cs.len() ==> chat_choice_ok(#[trigger] cs[i]),
        None => true,
    }
}

fn reasoning_phase(delta: &Json, events: &mut Vec<IrStreamEvent>, st: &mut ChatCompletionsParseState)
    requires
        chat_state_ok(old(st)@),
    ensures
        (events_view(final(events)@), final(st)@) == chat_reasoning_step(
            delta@,
            events_view(old(events)@),
            old(st)@,
        ),
        chat_state_ok(final(st)@),
{
    match delta.str_at("reasoning_content") {
        Some(r) => {
            if !r.is_empty() {
                if !st.thinking_started {
                    push_event(
                        events,
                        IrStreamEvent::ContentBlockStart {
                            index: 0,
                            block: IrContentBlockStart::Thinking { signature: None },
                        },
                    );
                    st.thinking_started = true;
                }
                st.thinking_started = true;
                push_event(
                    events,
                    IrStreamEvent::ContentBlockDelta {
                        index: 0,
                        delta: IrContentDelta::ThinkingDelta(r.to_owned()),
                    },
                );
            }
        },
        None => {},
    }
}

fn content_phase(delta: &Json, events: &mut Vec<IrStreamEvent>, st: &mut ChatCompletionsParseState)
    requires
        chat_state_ok(old(st)@),
    ensures
        (events_view(final(events)@), final(st)@) == chat_content_step(
            delta@,
            events_view(old(events)@),
            old(st)@,
        ),
        chat_state_ok(final(st)@),
{
    match delta.str_at("content") {
        Some(c) => {
            if !c.is_empty() {
                if st.thinking_started && !st.text_started {
                    push_event(events, IrStreamEvent::ContentBlockStop { index: 0 });
                    st.text_index = 1;
                }
                if !st.text_started {
                    let index = if st.thinking_started {
                        st.text_index
                    } else {
                        0
                    };
                    push_event(
                        events,
                        IrStreamEvent::ContentBlockStart { index, block: IrContentBlockStart::Text },
                    );
                    st.text_started = true;
                    st.text_index = index;
                }
                push_event(
                    events,
                    IrStreamEvent::ContentBlockDelta {
                        index: st.text_index,
                        delta: IrContentDelta::TextDelta(c.to_owned()),
                    },
                );
            }
        },
        None => {},
    }
}

fn tool_call_phase(tc: &Json, events: &mut Vec<IrStreamEvent>, st: &mut ChatCompletionsParseState)
    requires
        chat_state_ok(old(st)@),
        tool_slot(tc@) < usize::MAX - 1,
    ensures
        (events_view(final(events)@), final(st)@) == chat_tool_call_step(
            tc@,
            events_view(old(events)@),
            old(st)@,
        ),
        chat_state_ok(final(st)@),
{
    let slot: usize = match tc.get("index") {
        Some(v) => match v.as_u64() {
            Some(n) => n as usize,
            None => 0,
        },
        None => 0,
    };
    let block_index: usize = if st.thinking_started || st.text_started {
        st.text_index + 1 + slot
    } else {
        slot
    };
    match tc.get("function") {
        Some(func) => {
            match func.str_at("name") {
                Some(name) => {
                    let id: &str = match tc.str_at("id") {
                        Some(i) => i,
                        None => "",
                    };
                    proof {
                        assert(str_or_empty(tc@.str_at("id"@)) == id@) by {
                            if tc@.str_at("id"@) is None {
                                reveal_strlit("");
                                assert(""@ =~= Seq::<char>::empty());
                            }
                        }
                    }
                    push_event(
                        events,
                        IrStreamEvent::ContentBlockStart {
                            index: block_index,
                            block: IrContentBlockStart::ToolUse {
                                id: id.to_owned(),
                                name: name.to_owned(),
                            },
                        },
                    );
                    if st.tool_count < slot + 1 {
                        st.tool_count = slot + 1;
                    }
                },
                None => {},
            }
            match func.str_at("arguments") {
                Some(args) => {
                    push_event(
                        events,
                        IrStreamEvent::ContentBlockDelta {
                            index: block_index,
                            delta: IrContentDelta::InputJsonDelta(args.to_owned()),
                        },
                    );
                },
                None => {},
            }
        },
        None => {},
    }
}

fn tools_phase(delta: &Json, events: &mut Vec<IrStreamEvent>, st: &mut ChatCompletionsParseState)
    requires
        chat_state_ok(old(st)@),
        match delta@.at("tool_calls"@).as_array() {
            Some(tcs) => chat_tool_calls_ok(tcs),
            None => true,
        },
    ensures
        (events_view(final(events)@), final(st)@) == chat_tools_step(
            delta@,
            events_view(old(events)@),
            old(st)@,
        ),
        chat_state_ok(final(st)@),
{
    match delta.array_at("tool_calls") {
        Some(tcs) => {
            if st.text_started && st.tool_count == 0 {
                push_event(events, IrStreamEvent::ContentBlockStop { index: st.text_index });
            }
            let ghost e0 = events_view(events@);
            let ghost s0 = st@;
            let ghost tv = items_view(tcs@);
            proof {
                lemma_items_view_len(tcs@);
            }
            let mut j: usize = 0;
            while j < tcs.len()
                invariant
                    j <= tcs@.len(),
                    tv == items_view(tcs@),
                    tv.len() == tcs@.len(),
                    chat_tool_calls_ok(tv),
                    chat_state_ok(st@),
                    (events_view(events@), st@) == chat_tool_calls_fold(tv.take(j as int), e0, s0),
                decreases tcs@.len() - j,
            {
                proof {
                    lemma_items_view_index(tcs@, j as int);
                    assert(tv.take(j as int + 1).drop_last() =~= tv.take(j as int));
                    assert(tool_slot(tv[j as int]) < usize::MAX - 1);
                }
                tool_call_phase(&tcs[j], events, st);
                j = j + 1;
            }
            proof {
                assert(tv.take(j as int) =~= tv);
            }
        },
        None => {},
    }
}

fn finish_phase(choice: &Json, events: &mut Vec<IrStreamEvent>, st: &ChatCompletionsParseState)
    requires
        chat_state_ok(st@),
    ensures
        events_view(final(events)@) == chat_finish_step(choice@, events_view(old(events)@), st@),
{
    match choice.str_at("finish_reason") {
        Some(f) => {
            if st.thinking_started && !st.text_started {
                push_event(events, IrStreamEvent::ContentBlockStop { index: 0 });
            }
            if st.text_started && st.tool_count == 0 {
                push_event(events, IrStreamEvent::ContentBlockStop { index: st.text_index });
            }
            let ghost eb = events_view(events@);
            let mut i: usize = 0;
            while i < st.tool_count
                invariant
                    i <= st@.tool_count,
                    chat_state_ok(st@),
                    events_view(events@) == eb + chat_tool_stops(st@, i as nat),
                decreases st@.tool_count - i,
            {
                let block_index: usize = if st.thinking_started || st.text_started {
                    st.text_index + 1 + i
                } else {
                    i
                };
                push_event(events, IrStreamEvent::ContentBlockStop { index: block_index });
                proof {
                    assert(eb + chat_tool_stops(st@, (i + 1) as nat) =~= (eb + chat_tool_stops(
                        st@,
                        i as nat,
                    )).push(EventV::BlockStop { index: chat_block_index(st@, i as int) }));
                }
                i = i + 1;
            }
            let stop_reason = if str_eq(f, "stop") {
                Some(IrStopReason::EndTurn)
            } else if str_eq(f, "tool_calls") {
                Some(IrStopReason::ToolUse)
            } else if str_eq(f, "length") {
                Some(IrStopReason::MaxTokens)
            } else {
                None
            };
            push_event(events, IrStreamEvent::MessageDelta { stop_reason, usage: Some(st.usage) });
            push_event(events, IrStreamEvent::MessageStop);
        },
        None => {},
    }
}

/// Reads one Chat Completions stream chunk into neutral events.
///
/// `choices[i].delta.reasoning_content` becomes thinking at index 0,
/// `delta.content` text after it, `delta.tool_calls` tool blocks after those,
/// and `finish_reason` closes the open blocks and ends the message.
pub fn chat_completions_chunk_to_ir(chunk: &Json, state: &mut ChatCompletionsParseState) -> (r: Vec<
    IrStreamEvent,
>)
    requires
        chat_state_ok(old(state)@),
        chat_chunk_ok(chunk@, old(state)@),
    ensures
        (events_view(r@), final(state)@) == chat_chunk_spec(chunk@, old(state)@),
        chat_state_ok(final(state)@),
{
    let mut events: Vec<IrStreamEvent> = Vec::new();
    let u = extract_chat_usage(chunk);
    if u.input_tokens > 0 || u.output_tokens > 0 || u.cache_read_input_tokens > 0 {
        if u.input_tokens > state.usage.input_tokens {
            state.usage.input_tokens = u.input_tokens;
        }
        if u.output_tokens > state.usage.output_tokens {
            state.usage.output_tokens = u.output_tokens;
        }
        if u.cache_read_input_tokens > state.usage.cache_read_input_tokens {
            state.usage.cache_read_input_tokens = u.cache_read_input_tokens;
        }
    }
    state.usage.output_chars = state.usage.output_chars + u.output_chars;
    if state.msg_id.as_str().is_empty() {
        match chunk.str_at("id") {
            Some(id) => {
                state.msg_id = id.to_owned();
            },
            None => {},
        }
    }
    if state.model.as_str().is_empty() {
        match chunk.str_at("model") {
            Some(m) => {
                state.model = m.to_owned();
            },
            None => {},
        }
    }
    let choices = match chunk.array_at("choices") {
        Some(c) => c,
        None => {
            proof {
                assert(events_view(events@) =~= Seq::<EventV>::empty());
            }
            return events;
        },
    };
    let ghost s2 = state@;
    let ghost cv = items_view(choices@);
    proof {
        lemma_items_view_len(choices@);
        assert(events_view(events@) =~= Seq::<EventV>::empty());
    }
    let mut i: usize = 0;
    while i < choices.len()
        invariant
            i <= choices@.len(),
            cv == items_view(choices@),
            cv.len() == choices@.len(),
            forall|k: int| 0 <= k < cv.len() ==> chat_choice_ok(#[trigger] cv[k]),
            chat_state_ok(state@),
            (events_view(events@), state@) == chat_choices_fold(
                cv.take(i as int),
                Seq::empty(),
                s2,
            ),
        decreases choices@.len() - i,
    {
        proof {
            lemma_items_view_index(choices@, i as int);
            assert(cv.take(i as int + 1).drop_last() =~= cv.take(i as int));
            assert(chat_choice_ok(cv[i as int]));
        }
        let choice = &choices[i];
        match choice.get("delta") {
            Some(delta) => {
                reasoning_phase(delta, &mut events, state);
                content_phase(delta, &mut events, state);
                tools_phase(delta, &mut events, state);
                finish_phase(choice, &mut events, state);
            },
            None => {},
        }
        i = i + 1;
    }
    proof {
        assert(cv.take(i as int) =~= cv);
    }
    if !state.msg_id.as_str().is_empty() && !state.model.as_str().is_empty() && events.len() == 0 {
        let mut out: Vec<IrStreamEvent> = Vec::new();
        proof {
            assert(events_view(out@) =~= Seq::<EventV>::empty());
        }
        push_event(
            &mut out,
            IrStreamEvent::MessageStart {
                id: state.msg_id.clone(),
                model: state.model.clone(),
                usage: None,
            },
        );
        proof {
            assert(events_view(events@).len() == 0);
        }
        return out;
    }
    events
}

// ---- requests ----

/// The image block an image URL gives: a `data:` URL is split at its first
/// comma into the media type (what follows `data:` up to the first `;`) and
/// the data, and gives nothing without a comma; any other URL is kept.
pub open spec fn image_url_block(url: Seq<char>) -> Option<BlockV> {
    if seq_starts_with(url, "data:"@) {
        match first_index_of(url, ',') {
            Some(k) => Some(
                BlockV::Image {
                    source: ImageV::Base64 {
                        media_type: before_first(url.take(k).skip(5), ';'),
                        data: url.skip(k + 1),
                    },
                },
            ),
            None => None,
        }
    } else {
        Some(BlockV::Image { source: ImageV::Url { url } })
    }
}

/// A block for one Chat content part: text, or an image by URL or as a
/// `data:` URL.
pub open spec fn chat_part_block(part: JsonV) -> Option<BlockV> {
    let t = part.at("type"@).as_str();
    if t == Some("text"@) {
        match part.at("text"@).as_str() {
            Some(x) => Some(BlockV::Text { text: x, cache_control: None }),
            None => None,
        }
    } else if t == Some("image_url"@) {
        match part.at("image_url"@).at("url"@).as_str() {
            None => None,
            Some(url) => image_url_block(url),
        }
    } else {
        None
    }
}

pub open spec fn chat_parts_blocks(parts: Seq<JsonV>) -> Seq<BlockV>
    decreases parts.len(),
{
    if parts.len() == 0 {
        Seq::empty()
    } else {
        let rest = chat_parts_blocks(parts.drop_last());
        match chat_part_block(parts.last()) {
            Some(b) => rest.push(b),
            None => rest,
        }
    }
}

/// A tool call of an assistant message; arguments that are not JSON give null.
pub open spec fn chat_tool_use(tc: JsonV) -> BlockV {
    let func = tc.at("function"@);
    let args = match func.str_at("arguments"@) {
        Some(a) => a,
        None => "{}"@,
    };
    BlockV::ToolUse {
        id: str_or_empty(tc.str_at("id"@)),
        name: str_or_empty(func.str_at("name"@)),
        input: match json_text_value(args) {
            Some(v) => v,
            None => JsonV::Null,
        },
    }
}

pub open spec fn chat_tool_uses(tcs: Seq<JsonV>) -> Seq<BlockV>
    decreases tcs.len(),
{
    if tcs.len() == 0 {
        Seq::empty()
    } else {
        chat_tool_uses(tcs.drop_last()).push(chat_tool_use(tcs.last()))
    }
}

/// The blocks of a user or assistant message: its reasoning, its content,
/// then its tool calls.
pub open spec fn chat_content_blocks(msg: JsonV) -> Seq<BlockV> {
    let r = msg.at("reasoning_content"@).as_str();
    let b1 = if r is Some && r->0.len() > 0 {
        seq![BlockV::Thinking { thinking: r->0, signature: None }]
    } else {
        Seq::empty()
    };
    let b2 = match msg.get("content"@) {
        Some(JsonV::Str(s)) => if s.len() > 0 {
            seq![BlockV::Text { text: s, cache_control: None }]
        } else {
            Seq::empty()
        },
        Some(JsonV::Array(parts)) => chat_parts_blocks(parts),
        _ => Seq::empty(),
    };
    let b3 = match msg.at("tool_calls"@).as_array() {
        Some(tcs) => chat_tool_uses(tcs),
        None => Seq::empty(),
    };
    b1 + b2 + b3
}

pub open spec fn part_texts(parts: Seq<JsonV>) -> Seq<Seq<char>>
    decreases parts.len(),
{
    if parts.len() == 0 {
        Seq::empty()
    } else {
        let rest = part_texts(parts.drop_last());
        match parts.last().at("text"@).as_str() {
            Some(t) => rest.push(t),
            None => rest,
        }
    }
}

/// The texts a member holds: itself where it is a string, the `text` of its
/// parts where it is an array.
pub open spec fn texts_of(v: Option<JsonV>) -> Seq<Seq<char>> {
    match v {
        Some(JsonV::Str(s)) => seq![s],
        Some(JsonV::Array(parts)) => part_texts(parts),
        _ => Seq::empty(),
    }
}

/// The system texts a system message contributes.
pub open spec fn system_texts(msg: JsonV) -> Seq<Seq<char>> {
    texts_of(msg.get("content"@))
}

pub open spec fn role_or_user(msg: JsonV) -> Seq<char> {
    match msg.at("role"@).as_str() {
        Some(r) => r,
        None => "user"@,
    }
}

/// One message of a Chat request: system messages add system text, user and
/// assistant messages with content become messages, and tool messages become
/// tool results from the user.
pub open spec fn chat_message_step(msg: JsonV, acc: (Seq<Seq<char>>, Seq<MessageV>)) -> (
    Seq<Seq<char>>,
    Seq<MessageV>,
) {
    let role = role_or_user(msg);
    if role == "system"@ {
        (acc.0 + system_texts(msg), acc.1)
    } else if role == "user"@ || role == "assistant"@ {
        let c = chat_content_blocks(msg);
        if c.len() > 0 {
            (
                acc.0,
                acc.1.push(
                    MessageV {
                        role: if role == "assistant"@ {
                            IrRole::Assistant
                        } else {
                            IrRole::User
                        },
                        content: c,
                    },
                ),
            )
        } else {
            acc
        }
    } else if role == "tool"@ {
        (
            acc.0,
            acc.1.push(
                MessageV {
                    role: IrRole::User,
                    content: seq![
                        BlockV::ToolResult {
                            tool_use_id: str_or_empty(msg.str_at("tool_call_id"@)),
                            content: ToolResultV::Text(str_or_empty(msg.str_at("content"@))),
                            is_error: false,
                        },
                    ],
                },
            ),
        )
    } else {
        acc
    }
}

pub open spec fn chat_messages_fold(ms: Seq<JsonV>) -> (Seq<Seq<char>>, Seq<MessageV>)
    decreases ms.len(),
{
    if ms.len() == 0 {
        (Seq::empty(), Seq::empty())
    } else {
        chat_message_step(ms.last(), chat_messages_fold(ms.drop_last()))
    }
}

/// Several system texts become system blocks, one becomes plain text.
pub open spec fn system_of_texts(parts: Seq<Seq<char>>) -> Option<SystemV> {
    if parts.len() == 0 {
        None
    } else if parts.len() == 1 {
        Some(SystemV::Text(parts[0]))
    } else {
        Some(SystemV::Blocks(parts.map_values(|t: Seq<char>| (t, None::<JsonV>))))
    }
}

pub open spec fn default_schema() -> JsonV {
    jobj(seq![("type"@, JsonV::Str("object"@)), ("properties"@, jobj(Seq::empty()))])
}

/// A Chat tool definition, where it names a function.
pub open spec fn chat_tool_def(t: JsonV) -> Option<ToolV> {
    let func = t.at("function"@);
    match func.at("name"@).as_str() {
        Some(name) => Some(
            ToolV {
                name,
                description: func.at("description"@).as_str(),
                input_schema: match func.get("parameters"@) {
                    Some(p) => p,
                    None => default_schema(),
                },
            },
        ),
        None => None,
    }
}

pub open spec fn chat_tool_defs(ts: Seq<JsonV>) -> Seq<ToolV>
    decreases ts.len(),
{
    if ts.len() == 0 {
        Seq::empty()
    } else {
        let rest = chat_tool_defs(ts.drop_last());
        match chat_tool_def(ts.last()) {
            Some(t) => rest.push(t),
            None => rest,
        }
    }
}

pub open spec fn chat_tool_choice_spec(tc: JsonV) -> ToolChoiceV {
    match tc {
        JsonV::Str(s) => if s == "none"@ {
            ToolChoiceV::NoTools
        } else if s == "required"@ {
            ToolChoiceV::Any
        } else {
            ToolChoiceV::Auto
        },
        JsonV::Object(_) => match tc.at("function"@).at("name"@).as_str() {
            Some(n) => ToolChoiceV::Tool { name: n },
            None => ToolChoiceV::Auto,
        },
        _ => ToolChoiceV::Auto,
    }
}

pub open spec fn effort_budget(e: Seq<char>) -> Option<u64> {
    if e == "low"@ {
        Some(1024)
    } else if e == "medium"@ {
        Some(4096)
    } else if e == "high"@ {
        Some(16384)
    } else {
        None
    }
}

/// A number member, whatever kind of number it is.
pub open spec fn number_at(v: JsonV) -> Option<JsonV> {
    match v {
        JsonV::Int(_) => Some(v),
        JsonV::Float(_) => Some(v),
        _ => None,
    }
}

pub open spec fn chat_req_spec(req: JsonV) -> RequestV {
    let (parts, messages) = match req.at("messages"@).as_array() {
        Some(ms) => chat_messages_fold(ms),
        None => (Seq::empty(), Seq::empty()),
    };
    RequestV {
        model: str_or_empty(req.str_at("model"@)),
        system: system_of_texts(parts),
        messages,
        tools: match req.at("tools"@).as_array() {
            Some(ts) => chat_tool_defs(ts),
            None => Seq::empty(),
        },
        tool_choice: match req.get("tool_choice"@) {
            Some(tc) => Some(chat_tool_choice_spec(tc)),
            None => None,
        },
        max_tokens: match req.get("max_tokens"@) {
            Some(v) => v.as_u64(),
            None => req.at("max_completion_tokens"@).as_u64(),
        },
        temperature: number_at(req.at("temperature"@)),
        top_p: number_at(req.at("top_p"@)),
        thinking: match req.at("reasoning_effort"@).as_str() {
            Some(e) => Some(IrThinkingConfig { enabled: true, budget_tokens: effort_budget(e) }),
            None => None,
        },
        stream: match req.at("stream"@).as_bool() {
            Some(b) => b,
            None => false,
        },
    }
}

/// Reads an image URL into an image block, as `image_url_block` says.
pub(crate) fn image_from_url(url: &str) -> (r: Option<IrContentBlock>)
    ensures
        match r {
            Some(b) => image_url_block(url@) == Some(b@),
            None => image_url_block(url@) is None,
        },
{
    if starts_with(url, "data:") {
        proof {
            reveal_strlit("data:");
        }
        match find_char(url, ',') {
            Some(k) => {
                proof {
                    crate::text::lemma_first_index_bound(url@, ',');
                    assert(url@[k as int] == ',');
                    if k < 5 {
                        assert(url@.take(5)[k as int] == url@[k as int]);
                        assert("data:"@[k as int] != ',');
                    }
                }
                let n = url.unicode_len();
                let meta = substring(url, 5, k);
                let data = substring(url, k + 1, n);
                let media_type = crate::text::before_first_char(meta.as_str(), ';');
                proof {
                    assert(meta@ =~= url@.take(k as int).skip(5));
                    assert(data@ =~= url@.skip(k as int + 1));
                }
                Some(IrContentBlock::Image { source: IrImageSource::Base64 { media_type, data } })
            },
            None => None,
        }
    } else {
        Some(IrContentBlock::Image { source: IrImageSource::Url { url: url.to_owned() } })
    }
}

fn parse_chat_content_part(part: &Json) -> (r: Option<IrContentBlock>)
    ensures
        match r {
            Some(b) => chat_part_block(part@) == Some(b@),
            None => chat_part_block(part@) is None,
        },
{
    let t = part.str_at("type");
    let is_text = match t {
        Some(x) => str_eq(x, "text"),
        None => false,
    };
    let is_image = match t {
        Some(x) => str_eq(x, "image_url"),
        None => false,
    };
    if is_text {
        match part.str_at("text") {
            Some(x) => Some(IrContentBlock::Text { text: x.to_owned(), cache_control: None }),
            None => None,
        }
    } else if is_image {
        let url: &str = match part.get("image_url") {
            Some(iu) => match iu.str_at("url") {
                Some(u) => u,
                None => {
                    return None;
                },
            },
            None => {
                return None;
            },
        };
        image_from_url(url)
    } else {
        None
    }
}

fn chat_tool_use_exec(tc: &Json) -> (r: IrContentBlock)
    ensures
        r@ == chat_tool_use(tc@),
{
    let id: &str = match tc.str_at("id") {
        Some(i) => i,
        None => "",
    };
    let (name, args): (&str, &str) = match tc.get("function") {
        Some(f) => (
            match f.str_at("name") {
                Some(n) => n,
                None => "",
            },
            match f.str_at("arguments") {
                Some(a) => a,
                None => "{}",
            },
        ),
        None => ("", "{}"),
    };
    let input = match parse_json(args) {
        Some(v) => v,
        None => Json::Null,
    };
    proof {
        reveal_strlit("");
        assert(""@ =~= Seq::<char>::empty());
    }
    IrContentBlock::ToolUse { id: id.to_owned(), name: name.to_owned(), input }
}

fn parse_chat_content(msg: &Json) -> (r: Vec<IrContentBlock>)
    ensures
        blocks_view(r@) == chat_content_blocks(msg@),
{
    let mut blocks: Vec<IrContentBlock> = Vec::new();
    match msg.str_at("reasoning_content") {
        Some(x) => {
            if !x.is_empty() {
                push_block(
                    &mut blocks,
                    IrContentBlock::Thinking { thinking: x.to_owned(), signature: None },
                );
            }
        },
        None => {},
    }
    let ghost b1 = blocks_view(blocks@);
    match msg.get("content") {
        Some(Json::Str(s)) => {
            if !s.as_str().is_empty() {
                push_block(
                    &mut blocks,
                    IrContentBlock::Text { text: s.clone(), cache_control: None },
                );
            }
        },
        Some(Json::Array(parts)) => {
            let ghost pv = items_view(parts@);
            proof {
                lemma_items_view_len(parts@);
            }
            let mut i: usize = 0;
            while i < parts.len()
                invariant
                    i <= parts@.len(),
                    pv == items_view(parts@),
                    pv.len() == parts@.len(),
                    blocks_view(blocks@) == b1 + chat_parts_blocks(pv.take(i as int)),
                decreases parts@.len() - i,
            {
                proof {
                    lemma_items_view_index(parts@, i as int);
                    assert(pv.take(i as int + 1).drop_last() =~= pv.take(i as int));
                }
                match parse_chat_content_part(&parts[i]) {
                    Some(b) => {
                        push_block(&mut blocks, b);
                    },
                    None => {},
                }
                proof {
                    assert(blocks_view(blocks@) =~= b1 + chat_parts_blocks(pv.take(i as int + 1)));
                }
                i = i + 1;
            }
            proof {
                assert(pv.take(i as int) =~= pv);
            }
        },
        _ => {},
    }
    let ghost b2 = blocks_view(blocks@);
    proof {
        assert(b2 =~= b1 + match msg@.get("content"@) {
            Some(JsonV::Str(s)) => if s.len() > 0 {
                seq![BlockV::Text { text: s, cache_control: None }]
            } else {
                Seq::empty()
            },
            Some(JsonV::Array(parts)) => chat_parts_blocks(parts),
            _ => Seq::empty(),
        });
    }
    match msg.array_at("tool_calls") {
        Some(tcs) => {
            let ghost tv = items_view(tcs@);
            proof {
                lemma_items_view_len(tcs@);
            }
            let mut j: usize = 0;
            while j < tcs.len()
                invariant
                    j <= tcs@.len(),
                    tv == items_view(tcs@),
                    tv.len() == tcs@.len(),
                    blocks_view(blocks@) == b2 + chat_tool_uses(tv.take(j as int)),
                decreases tcs@.len() - j,
            {
                proof {
                    lemma_items_view_index(tcs@, j as int);
                    assert(tv.take(j as int + 1).drop_last() =~= tv.take(j as int));
                }
                let b = chat_tool_use_exec(&tcs[j]);
                push_block(&mut blocks, b);
                proof {
                    assert(blocks_view(blocks@) =~= b2 + chat_tool_uses(tv.take(j as int + 1)));
                }
                j = j + 1;
            }
            proof {
                assert(tv.take(j as int) =~= tv);
            }
        },
        None => {
            proof {
                assert(blocks_view(blocks@) =~= b2 + Seq::empty());
            }
        },
    }
    blocks
}

pub open spec fn messages_view(ms: Seq<IrMessage>) -> Seq<MessageV> {
    ms.map_values(|m: IrMessage| m@)
}

/// Appends the texts a member holds.
pub(crate) fn push_texts_of(v: Option<&Json>, parts: &mut Vec<String>)
    ensures
        final(parts)@.map_values(|t: String| t@) == old(parts)@.map_values(|t: String| t@)
            + texts_of(
            match v {
                Some(j) => Some(j@),
                None => None,
            },
        ),
{
    let ghost p0 = parts@.map_values(|t: String| t@);
    match v {
        Some(Json::Str(s)) => {
            parts.push(s.clone());
            proof {
                assert(parts@.map_values(|t: String| t@) =~= p0 + seq![s@]);
            }
        },
        Some(Json::Array(items)) => {
            let ghost pv = items_view(items@);
            proof {
                lemma_items_view_len(items@);
            }
            let mut i: usize = 0;
            while i < items.len()
                invariant
                    i <= items@.len(),
                    pv == items_view(items@),
                    pv.len() == items@.len(),
                    parts@.map_values(|t: String| t@) == p0 + part_texts(pv.take(i as int)),
                decreases items@.len() - i,
            {
                proof {
                    lemma_items_view_index(items@, i as int);
                    assert(pv.take(i as int + 1).drop_last() =~= pv.take(i as int));
                }
                let ghost before = parts@.map_values(|t: String| t@);
                match items[i].str_at("text") {
                    Some(t) => {
                        let owned = t.to_owned();
                        let ghost ov = owned@;
                        parts.push(owned);
                        proof {
                            assert(parts@.map_values(|t: String| t@) =~= before.push(ov));
                        }
                    },
                    None => {},
                }
                proof {
                    assert(parts@.map_values(|t: String| t@) =~= p0 + part_texts(
                        pv.take(i as int + 1),
                    ));
                }
                i = i + 1;
            }
            proof {
                assert(pv.take(i as int) =~= pv);
            }
        },
        _ => {
            proof {
                assert(parts@.map_values(|t: String| t@) =~= p0 + Seq::empty());
            }
        },
    }
}

/// The system content of the collected system texts, as `system_of_texts`
/// says.
pub(crate) fn system_from_texts(parts: Vec<String>) -> (r: Option<IrSystemContent>)
    ensures
        match r {
            Some(x) => Some(crate::ir::system_view(x)),
            None => None,
        } == system_of_texts(parts@.map_values(|t: String| t@)),
{
    let mut parts = parts;
    let ghost pv = parts@.map_values(|t: String| t@);
    if parts.len() == 0 {
        None
    } else if parts.len() == 1 {
        let t = parts.pop().unwrap();
        proof {
            assert(t@ == pv[0]);
        }
        Some(IrSystemContent::Text(t))
    } else {
        let mut blocks: Vec<IrSystemBlock> = Vec::new();
        let mut k: usize = 0;
        while k < parts.len()
            invariant
                k <= parts@.len(),
                pv == parts@.map_values(|t: String| t@),
                blocks@.map_values(|b: IrSystemBlock| (b.text@, crate::json::opt_json_view(b.cache_control)))
                    == pv.take(k as int).map_values(|t: Seq<char>| (t, None::<JsonV>)),
            decreases parts@.len() - k,
        {
            let ghost before = blocks@.map_values(|b: IrSystemBlock| (b.text@, crate::json::opt_json_view(b.cache_control)));
            blocks.push(IrSystemBlock { text: parts[k].clone(), cache_control: None });
            proof {
                assert(pv.take(k as int + 1).map_values(|t: Seq<char>| (t, None::<JsonV>))
                    =~= pv.take(k as int).map_values(|t: Seq<char>| (t, None::<JsonV>)).push((pv[k as int], None)));
                assert(blocks@.map_values(|b: IrSystemBlock| (b.text@, crate::json::opt_json_view(b.cache_control)))
                    =~= before.push((pv[k as int], None)));
            }
            k = k + 1;
        }
        proof {
            assert(pv.take(k as int) =~= pv);
        }
        Some(IrSystemContent::Blocks(blocks))
    }
}

fn parse_chat_messages(req: &Json) -> (r: (Option<IrSystemContent>, Vec<IrMessage>))
    ensures
        (
            match r.0 {
                Some(s) => Some(crate::ir::system_view(s)),
                None => None,
            },
            messages_view(r.1@),
        ) == match req@.at("messages"@).as_array() {
            Some(ms) => {
                let (parts, msgs) = chat_messages_fold(ms);
                (system_of_texts(parts), msgs)
            },
            None => (None, Seq::empty()),
        },
{
    let mut parts: Vec<String> = Vec::new();
    let mut out: Vec<IrMessage> = Vec::new();
    let ms = match req.array_at("messages") {
        Some(m) => m,
        None => {
            proof {
                assert(messages_view(out@) =~= Seq::<MessageV>::empty());
            }
            return (None, out);
        },
    };
    let ghost mv = items_view(ms@);
    proof {
        lemma_items_view_len(ms@);
        assert(parts@.map_values(|t: String| t@) =~= Seq::<Seq<char>>::empty());
        assert(messages_view(out@) =~= Seq::<MessageV>::empty());
    }
    let mut i: usize = 0;
    while i < ms.len()
        invariant
            i <= ms@.len(),
            mv == items_view(ms@),
            mv.len() == ms@.len(),
            (parts@.map_values(|t: String| t@), messages_view(out@)) == chat_messages_fold(
                mv.take(i as int),
            ),
        decreases ms@.len() - i,
    {
        proof {
            lemma_items_view_index(ms@, i as int);
            assert(mv.take(i as int + 1).drop_last() =~= mv.take(i as int));
        }
        let msg = &ms[i];
        let role: &str = match msg.str_at("role") {
            Some(r) => r,
            None => "user",
        };
        proof {
            assert(role@ == role_or_user(msg@));
        }
        if str_eq(role, "system") {
            push_texts_of(msg.get("content"), &mut parts);
        } else if str_eq(role, "user") || str_eq(role, "assistant") {
            let content = parse_chat_content(msg);
            if content.len() > 0 {
                let ir_role = if str_eq(role, "assistant") {
                    IrRole::Assistant
                } else {
                    IrRole::User
                };
                let ghost before = messages_view(out@);
                let m = IrMessage { role: ir_role, content };
                let ghost mvv = m@;
                out.push(m);
                proof {
                    assert(messages_view(out@) =~= before.push(mvv));
                }
            } else {
                proof {
                    assert(chat_content_blocks(msg@).len() == 0);
                }
            }
        } else if str_eq(role, "tool") {
            let id: &str = match msg.str_at("tool_call_id") {
                Some(x) => x,
                None => "",
            };
            let text: &str = match msg.str_at("content") {
                Some(x) => x,
                None => "",
            };
            proof {
                reveal_strlit("");
                assert(""@ =~= Seq::<char>::empty());
            }
            let mut content: Vec<IrContentBlock> = Vec::new();
            push_block(
                &mut content,
                IrContentBlock::ToolResult {
                    tool_use_id: id.to_owned(),
                    content: IrToolResultContent::Text(text.to_owned()),
                    is_error: false,
                },
            );
            let ghost before = messages_view(out@);
            let m = IrMessage { role: IrRole::User, content };
            let ghost mvv = m@;
            out.push(m);
            proof {
                assert(blocks_view(Seq::<IrContentBlock>::empty()) =~= Seq::<BlockV>::empty());
                assert(messages_view(out@) =~= before.push(mvv));
            }
        }
        i = i + 1;
    }
    proof {
        assert(mv.take(i as int) =~= mv);
    }
    let system = system_from_texts(parts);
    (system, out)
}

fn chat_tool_def_exec(t: &Json) -> (r: Option<IrTool>)
    ensures
        match r {
            Some(x) => chat_tool_def(t@) == Some(x@),
            None => chat_tool_def(t@) is None,
        },
{
    let func = match t.get("function") {
        Some(f) => f,
        None => {
            return None;
        },
    };
    let name = match func.str_at("name") {
        Some(n) => n,
        None => {
            return None;
        },
    };
    let description = match func.str_at("description") {
        Some(d) => Some(d.to_owned()),
        None => None,
    };
    let input_schema = match func.get("parameters") {
        Some(p) => p.copy(),
        None => {
            let mut f: Vec<(String, Json)> = Vec::new();
            push_field(&mut f, "type", json_string("object"));
            push_field(&mut f, "properties", empty_object());
            proof {
                assert(fields_view(f@) =~= default_schema()->Object_0);
            }
            object_of(f)
        },
    };
    Some(IrTool { name: name.to_owned(), description, input_schema })
}

fn parse_chat_tool_choice(tc: &Json) -> (r: IrToolChoice)
    ensures
        r@ == chat_tool_choice_spec(tc@),
{
    match tc {
        Json::Str(s) => {
            if str_eq(s.as_str(), "none") {
                IrToolChoice::NoTools
            } else if str_eq(s.as_str(), "required") {
                IrToolChoice::Any
            } else {
                IrToolChoice::Auto
            }
        },
        Json::Object(_) => {
            let name = match tc.get("function") {
                Some(f) => f.str_at("name"),
                None => None,
            };
            match name {
                Some(n) => IrToolChoice::Tool { name: n.to_owned() },
                None => IrToolChoice::Auto,
            }
        },
        _ => IrToolChoice::Auto,
    }
}

pub(crate) fn number_exec(v: Option<&Json>) -> (r: Option<JsonNumber>)
    ensures
        crate::ir::number_opt_view(r) == match v {
            Some(j) => number_at(j@),
            None => None,
        },
{
    match v {
        Some(Json::Number(n)) => Some(n.copy()),
        _ => None,
    }
}

/// Reads an OpenAI Chat Completions request body.
pub fn chat_completions_req_to_ir(req: &Json) -> (r: IrRequest)
    ensures
        r@ == chat_req_spec(req@),
{
    let model: &str = match req.str_at("model") {
        Some(m) => m,
        None => "",
    };
    let stream = match req.bool_at("stream") {
        Some(b) => b,
        None => false,
    };
    let (system, messages) = parse_chat_messages(req);
    let mut tools: Vec<IrTool> = Vec::new();
    proof {
        assert(tools@.map_values(|t: IrTool| t@) =~= Seq::<ToolV>::empty());
    }
    match req.array_at("tools") {
        Some(ts) => {
            let ghost tv = items_view(ts@);
            proof {
                lemma_items_view_len(ts@);
            }
            let mut i: usize = 0;
            while i < ts.len()
                invariant
                    i <= ts@.len(),
                    tv == items_view(ts@),
                    tv.len() == ts@.len(),
                    tools@.map_values(|t: IrTool| t@) == chat_tool_defs(tv.take(i as int)),
                decreases ts@.len() - i,
            {
                proof {
                    lemma_items_view_index(ts@, i as int);
                    assert(tv.take(i as int + 1).drop_last() =~= tv.take(i as int));
                }
                match chat_tool_def_exec(&ts[i]) {
                    Some(t) => {
                        let ghost before = tools@.map_values(|t: IrTool| t@);
                        let ghost tvv = t@;
                        tools.push(t);
                        proof {
                            assert(tools@.map_values(|t: IrTool| t@) =~= before.push(tvv));
                        }
                    },
                    None => {},
                }
                i = i + 1;
            }
            proof {
                assert(tv.take(i as int) =~= tv);
            }
        },
        None => {},
    }
    let tool_choice = match req.get("tool_choice") {
        Some(tc) => Some(parse_chat_tool_choice(tc)),
        None => None,
    };
    let thinking = match req.str_at("reasoning_effort") {
        Some(e) => {
            let budget: Option<u64> = if str_eq(e, "low") {
                Some(1024)
            } else if str_eq(e, "medium") {
                Some(4096)
            } else if str_eq(e, "high") {
                Some(16384)
            } else {
                None
            };
            Some(IrThinkingConfig { enabled: true, budget_tokens: budget })
        },
        None => None,
    };
    let max_tokens = match req.get("max_tokens") {
        Some(v) => v.as_u64(),
        None => req.u64_at("max_completion_tokens"),
    };
    let temperature = number_exec(req.get("temperature"));
    let top_p = number_exec(req.get("top_p"));
    proof {
        reveal_strlit("");
        assert(""@ =~= Seq::<char>::empty());
    }
    IrRequest {
        model: model.to_owned(),
        system,
        messages,
        tools,
        tool_choice,
        max_tokens,
        temperature,
        top_p,
        thinking,
        stream,
    }
}

/// A finish reason ends the message with its stop reason: in a chunk whose
/// one choice carries a delta and the finish reason `length` (an answer cut
/// off by the token limit), the last two events are a final delta whose stop
/// reason is `MaxTokens`, then the message stop; `stop` gives `EndTurn` and
/// `tool_calls` gives `ToolUse`.
pub proof fn law_chat_finish_reason(chunk: JsonV, s: ChatParseV, choice: JsonV, f: Seq<char>)
    requires
        chunk.at("choices"@) == JsonV::Array(seq![choice]),
        choice.get("delta"@) is Some,
        choice.at("finish_reason"@) == JsonV::Str(f),
    ensures
        ({
            let evs = chat_chunk_spec(chunk, s).0;
            &&& evs.len() >= 2
            &&& evs.last() == EventV::MessageStop
            &&& evs[evs.len() - 2] is MessageDelta
            &&& f == "length"@ ==> evs[evs.len() - 2]->MessageDelta_stop_reason == Some(
                IrStopReason::MaxTokens,
            )
            &&& f == "stop"@ ==> evs[evs.len() - 2]->MessageDelta_stop_reason == Some(IrStopReason::EndTurn)
            &&& f == "tool_calls"@ ==> evs[evs.len() - 2]->MessageDelta_stop_reason == Some(
                IrStopReason::ToolUse,
            )
        }),
{
    reveal_strlit("length");
    reveal_strlit("stop");
    reveal_strlit("tool_calls");
    let cs = seq![choice];
    assert(cs.drop_last() =~= Seq::<JsonV>::empty());
    assert(cs.last() == choice);
    let s0 = ChatParseV { usage: chat_merge_usage(s.usage, chat_usage_spec(chunk)), ..s };
    let s1 = if s0.msg_id.len() == 0 && chunk.str_at("id"@) is Some {
        ChatParseV { msg_id: chunk.str_at("id"@)->0, ..s0 }
    } else {
        s0
    };
    let s2 = if s1.model.len() == 0 && chunk.str_at("model"@) is Some {
        ChatParseV { model: chunk.str_at("model"@)->0, ..s1 }
    } else {
        s1
    };
    let delta = choice.get("delta"@)->0;
    let (e1, t1) = chat_reasoning_step(delta, Seq::empty(), s2);
    let (e2, t2) = chat_content_step(delta, e1, t1);
    let (e3, t3) = chat_tools_step(delta, e2, t2);
    assert(chat_choices_fold(cs.drop_last(), Seq::empty(), s2) == (Seq::<EventV>::empty(), s2));
    assert(chat_choices_fold(cs, Seq::empty(), s2) == chat_choice_step(choice, Seq::empty(), s2));
    assert(chat_choice_step(choice, Seq::empty(), s2) == (chat_finish_step(choice, e3, t3), t3));
    let fin = chat_finish_step(choice, e3, t3);
    let ea = if t3.thinking_started && !t3.text_started {
        e3.push(EventV::BlockStop { index: 0 })
    } else {
        e3
    };
    let eb = if t3.text_started && t3.tool_count == 0 {
        ea.push(EventV::BlockStop { index: t3.text_index })
    } else {
        ea
    };
    let md = EventV::MessageDelta { stop_reason: chat_stop_reason(f), usage: Some(t3.usage) };
    let pre = eb + chat_tool_stops(t3, t3.tool_count as nat);
    assert(fin == pre.push(md).push(EventV::MessageStop));
    assert(fin[fin.len() - 2] == md);
    assert("length"@.len() == 6 && "stop"@.len() == 4 && "tool_calls"@.len() == 10);
    assert(f == "length"@ ==> chat_stop_reason(f) == Some(IrStopReason::MaxTokens));
    assert(fin.len() >= 2);
    assert(chat_chunk_spec(chunk, s).0 == fin);
}

/// The sampling settings are read from their own keys: the temperature is
/// the number under `temperature` and top_p the number under `top_p` (a
/// member that is missing or not a number gives none).
pub proof fn law_chat_sampling_keys(req: JsonV)
    ensures
        chat_req_spec(req).temperature == match req.get("temperature"@) {
            Some(JsonV::Int(n)) => Some(JsonV::Int(n)),
            Some(JsonV::Float(x)) => Some(JsonV::Float(x)),
            _ => None,
        },
        chat_req_spec(req).top_p == match req.get("top_p"@) {
            Some(JsonV::Int(n)) => Some(JsonV::Int(n)),
            Some(JsonV::Float(x)) => Some(JsonV::Float(x)),
            _ => None,
        },
{
}

} // verus!
