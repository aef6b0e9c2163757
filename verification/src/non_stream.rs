//! Answers to clients that asked for `stream: false`: the upstream stream is
//! read to its end, its events are accumulated into whole content blocks, and
//! one JSON response is built from them in the client's protocol.

use vstd::prelude::*;
use crate::ir::{
    anthropic_stop_str, chat_finish_str, BlockStartV, DeltaV, EventV, IrContentBlockStart, IrContentDelta, IrStopReason, IrStreamEvent,
    IrUsage,
};
use crate::json::{
    array_of, empty_object, fields_view, items_view, jobj, json_string, json_text_value, json_u64,
    jstr, object_of, opt_json_view, opt_str_view, parse_json, push_field, push_item, Json, JsonV,
};

verus! {

/// A content block accumulated from stream events, at the position of its
/// stream index.
#[derive(Debug, PartialEq)]
pub enum AccBlock {
    Text(String),
    Thinking { thinking: String, signature: Option<String> },
    ToolUse { id: String, name: String, input_json: String },
}

pub enum AccBlockV {
    Text(Seq<char>),
    Thinking { thinking: Seq<char>, signature: Option<Seq<char>> },
    ToolUse { id: Seq<char>, name: Seq<char>, input_json: Seq<char> },
}

impl View for AccBlock {
    type V = AccBlockV;

    open spec fn view(&self) -> AccBlockV {
        match *self {
            AccBlock::Text(s) => AccBlockV::Text(s@),
            AccBlock::Thinking { thinking, signature } => AccBlockV::Thinking {
                thinking: thinking@,
                signature: opt_str_view(signature),
            },
            AccBlock::ToolUse { id, name, input_json } => AccBlockV::ToolUse {
                id: id@,
                name: name@,
                input_json: input_json@,
            },
        }
    }
}

/// Rebuilds whole response content from a stream of events.
#[derive(Debug)]
pub struct IrAccumulator {
    pub msg_id: String,
    pub model: String,
    /// The content blocks, in the order of their stream indexes.
    pub blocks: Vec<AccBlock>,
    pub stop_reason: Option<IrStopReason>,
}

pub struct AccV {
    pub msg_id: Seq<char>,
    pub model: Seq<char>,
    pub blocks: Seq<AccBlockV>,
    pub stop_reason: Option<IrStopReason>,
}

impl View for IrAccumulator {
    type V = AccV;

    open spec fn view(&self) -> AccV {
        AccV {
            msg_id: self.msg_id@,
            model: self.model@,
            blocks: self.blocks@.map_values(|b: AccBlock| b@),
            stop_reason: self.stop_reason,
        }
    }
}

pub open spec fn empty_acc() -> AccV {
    AccV { msg_id: Seq::empty(), model: Seq::empty(), blocks: Seq::empty(), stop_reason: None }
}

impl Default for IrAccumulator {
    fn default() -> (r: IrAccumulator)
        ensures
            r@ == empty_acc(),
    {
        let r = IrAccumulator {
            msg_id: String::new(),
            model: String::new(),
            blocks: Vec::new(),
            stop_reason: None,
        };
        proof {
            assert(r@.blocks =~= Seq::<AccBlockV>::empty());
        }
        r
    }
}

/// The block that a block start opens.
pub open spec fn fresh_block(b: BlockStartV) -> AccBlockV {
    match b {
        BlockStartV::Text => AccBlockV::Text(Seq::empty()),
        BlockStartV::Thinking { signature } => AccBlockV::Thinking {
            thinking: Seq::empty(),
            signature,
        },
        BlockStartV::ToolUse { id, name } => AccBlockV::ToolUse { id, name, input_json: Seq::empty() },
    }
}

/// `bs` with `v` at `index`, padded with empty text blocks up to it.
pub open spec fn place_block(bs: Seq<AccBlockV>, index: int, v: AccBlockV) -> Seq<AccBlockV> {
    Seq::new(
        if index < bs.len() {
            bs.len()
        } else {
            (index + 1) as nat
        },
        |i: int|
            if i == index {
                v
            } else if i < bs.len() {
                bs[i]
            } else {
                AccBlockV::Text(Seq::empty())
            },
    )
}

/// A delta appends to the block of its own kind and leaves any other alone.
pub open spec fn apply_delta(b: AccBlockV, d: DeltaV) -> AccBlockV {
    match (b, d) {
        (AccBlockV::Text(s), DeltaV::Text(t)) => AccBlockV::Text(s + t),
        (AccBlockV::Thinking { thinking, signature }, DeltaV::Thinking(t)) => AccBlockV::Thinking {
            thinking: thinking + t,
            signature,
        },
        (AccBlockV::ToolUse { id, name, input_json }, DeltaV::InputJson(t)) => AccBlockV::ToolUse {
            id,
            name,
            input_json: input_json + t,
        },
        _ => b,
    }
}

/// What one event does to the accumulated response.
pub open spec fn acc_step(a: AccV, e: EventV) -> AccV {
    match e {
        EventV::MessageStart { id, model, .. } => AccV { msg_id: id, model, ..a },
        EventV::BlockStart { index, block } => AccV {
            blocks: place_block(a.blocks, index, fresh_block(block)),
            ..a
        },
        EventV::BlockDelta { index, delta } => if 0 <= index < a.blocks.len() {
            AccV { blocks: a.blocks.update(index, apply_delta(a.blocks[index], delta)), ..a }
        } else {
            a
        },
        EventV::MessageDelta { stop_reason, .. } => match stop_reason {
            Some(sr) => AccV { stop_reason: Some(sr), ..a },
            None => a,
        },
        _ => a,
    }
}

/// The text a block has gathered: its text, its thinking, or a tool call's
/// input.
pub open spec fn gathered(b: AccBlockV) -> Seq<char> {
    match b {
        AccBlockV::Text(t) => t,
        AccBlockV::Thinking { thinking, .. } => thinking,
        AccBlockV::ToolUse { input_json, .. } => input_json,
    }
}

/// The block with its gathered text replaced, all else kept.
pub open spec fn with_gathered(b: AccBlockV, t: Seq<char>) -> AccBlockV {
    match b {
        AccBlockV::Text(_) => AccBlockV::Text(t),
        AccBlockV::Thinking { signature, .. } => AccBlockV::Thinking { thinking: t, signature },
        AccBlockV::ToolUse { id, name, .. } => AccBlockV::ToolUse { id, name, input_json: t },
    }
}

/// The delta of a block's own kind carrying `t`.
pub open spec fn own_delta(b: AccBlockV, t: Seq<char>) -> DeltaV {
    match b {
        AccBlockV::Text(_) => DeltaV::Text(t),
        AccBlockV::Thinking { .. } => DeltaV::Thinking(t),
        AccBlockV::ToolUse { .. } => DeltaV::InputJson(t),
    }
}

/// Texts joined in order.
pub open spec fn joined(ds: Seq<Seq<char>>) -> Seq<char>
    decreases ds.len(),
{
    if ds.len() == 0 {
        Seq::empty()
    } else {
        joined(ds.drop_last()) + ds.last()
    }
}

/// The deltas `ds`, in order, for block `index` of kind `b`.
pub open spec fn own_deltas(index: int, b: AccBlockV, ds: Seq<Seq<char>>) -> Seq<EventV> {
    Seq::new(ds.len(), |k: int| EventV::BlockDelta { index, delta: own_delta(b, ds[k]) })
}

/// Deltas of a block's own kind append to what it has gathered: after any
/// run of them, block `i` holds what it held followed by every delta in
/// order, keeps its kind, signature, id and name, and every other block
/// stays as it was.
pub proof fn law_deltas_append(a: AccV, i: int, ds: Seq<Seq<char>>)
    requires
        0 <= i < a.blocks.len(),
    ensures
        ({
            let r = acc_events(a, own_deltas(i, a.blocks[i], ds));
            &&& r.blocks.len() == a.blocks.len()
            &&& r.blocks[i] == with_gathered(a.blocks[i], gathered(a.blocks[i]) + joined(ds))
            &&& forall|j: int| 0 <= j < a.blocks.len() && j != i ==> r.blocks[j] == a.blocks[j]
        }),
    decreases ds.len(),
{
    let b = a.blocks[i];
    let es = own_deltas(i, b, ds);
    if ds.len() == 0 {
        assert(es =~= Seq::<EventV>::empty());
        assert(gathered(b) + Seq::<char>::empty() =~= gathered(b));
    } else {
        let d = ds.drop_last();
        law_deltas_append(a, i, d);
        assert(es.drop_last() =~= own_deltas(i, b, d));
        let r0 = acc_events(a, own_deltas(i, b, d));
        assert(es.last() == EventV::BlockDelta { index: i, delta: own_delta(b, ds.last()) });
        assert(gathered(b) + joined(d) + ds.last() =~= gathered(b) + joined(ds));
        assert(apply_delta(r0.blocks[i], own_delta(b, ds.last())) == with_gathered(
            b,
            gathered(b) + joined(ds),
        ));
    }
}

/// A block started and then given deltas of its own kind holds their
/// concatenation: thinking deltas add up to the thinking, text deltas to the
/// text, argument deltas to a tool call's input.
pub proof fn law_started_block_gathers(a: AccV, i: int, start: BlockStartV, ds: Seq<Seq<char>>)
    requires
        0 <= i,
    ensures
        ({
            let a1 = acc_step(a, EventV::BlockStart { index: i, block: start });
            let r = acc_events(a1, own_deltas(i, fresh_block(start), ds));
            r.blocks[i] == with_gathered(fresh_block(start), joined(ds))
        }),
{
    let a1 = acc_step(a, EventV::BlockStart { index: i, block: start });
    assert(a1.blocks[i] == fresh_block(start));
    law_deltas_append(a1, i, ds);
    assert(Seq::<char>::empty() + joined(ds) =~= joined(ds));
    assert(gathered(fresh_block(start)) == Seq::<char>::empty());
}

/// The response accumulated from a whole sequence of events.
pub open spec fn acc_events(a: AccV, es: Seq<EventV>) -> AccV
    decreases es.len(),
{
    if es.len() == 0 {
        a
    } else {
        acc_step(acc_events(a, es.drop_last()), es.last())
    }
}

/// Whether an event may be handed to the accumulator: a block start cannot
/// name the largest index, which no vector could reach.
pub open spec fn acceptable_event(e: EventV) -> bool {
    e matches EventV::BlockStart { index, .. } ==> index < usize::MAX
}

fn fresh_block_exec(b: &IrContentBlockStart) -> (r: AccBlock)
    ensures
        r@ == fresh_block(b@),
{
    match b {
        IrContentBlockStart::Text => AccBlock::Text(String::new()),
        IrContentBlockStart::Thinking { signature } => AccBlock::Thinking {
            thinking: String::new(),
            signature: match signature {
                Some(s) => Some(s.clone()),
                None => None,
            },
        },
        IrContentBlockStart::ToolUse { id, name } => AccBlock::ToolUse {
            id: id.clone(),
            name: name.clone(),
            input_json: String::new(),
        },
    }
}

fn apply_delta_exec(b: AccBlock, d: &IrContentDelta) -> (r: AccBlock)
    ensures
        r@ == apply_delta(b@, d@),
{
    match (b, d) {
        (AccBlock::Text(mut s), IrContentDelta::TextDelta(t)) => {
            s.append(t.as_str());
            AccBlock::Text(s)
        },
        (AccBlock::Thinking { mut thinking, signature }, IrContentDelta::ThinkingDelta(t)) => {
            thinking.append(t.as_str());
            AccBlock::Thinking { thinking, signature }
        },
        (AccBlock::ToolUse { id, name, mut input_json }, IrContentDelta::InputJsonDelta(t)) => {
            input_json.append(t.as_str());
            AccBlock::ToolUse { id, name, input_json }
        },
        (b, _) => b,
    }
}

impl IrAccumulator {
    /// Folds one stream event into the accumulated response.
    pub fn process_event(&mut self, ev: &IrStreamEvent)
        requires
            acceptable_event(ev@),
        ensures
            final(self)@ == acc_step(old(self)@, ev@),
    {
        match ev {
            IrStreamEvent::MessageStart { id, model, .. } => {
                self.msg_id = id.clone();
                self.model = model.clone();
            },
            IrStreamEvent::ContentBlockStart { index, block } => {
                let ghost old_blocks = self@.blocks;
                let index = *index;
                while self.blocks.len() <= index
                    invariant
                        index < usize::MAX,
                        old_blocks.len() <= self@.blocks.len(),
                        self@.blocks.len() <= if index < old_blocks.len() {
                            old_blocks.len()
                        } else {
                            (index + 1) as nat
                        },
                        forall|i: int|
                            0 <= i < self@.blocks.len() ==> #[trigger] self@.blocks[i] == if i
                                < old_blocks.len() {
                                old_blocks[i]
                            } else {
                                AccBlockV::Text(Seq::empty())
                            },
                        self@.msg_id == old(self)@.msg_id,
                        self@.model == old(self)@.model,
                        self@.stop_reason == old(self)@.stop_reason,
                        old_blocks == old(self)@.blocks,
                    decreases index + 1 - self.blocks@.len(),
                {
                    let e = AccBlock::Text(String::new());
                    let ghost before = self.blocks@;
                    let ghost before_v = self@.blocks;
                    let ghost ev = e;
                    self.blocks.push(e);
                    proof {
                        assert(self.blocks@ == before.push(ev));
                        assert(ev@ == AccBlockV::Text(Seq::empty()));
                        assert(self@.blocks =~= before_v.push(ev@));
                    }
                }
                let nb = fresh_block_exec(block);
                let ghost pre = self@.blocks;
                let ghost nbv = nb@;
                self.blocks.set(index, nb);
                proof {
                    assert(self@.blocks =~= pre.update(index as int, nbv));
                    assert(self@.blocks =~= place_block(old_blocks, index as int, fresh_block(block@)));
                }
            },
            IrStreamEvent::ContentBlockDelta { index, delta } => {
                let index = *index;
                if index < self.blocks.len() {
                    let mut taken = AccBlock::Text(String::new());
                    self.blocks.set_and_swap(index, &mut taken);
                    let updated = apply_delta_exec(taken, delta);
                    self.blocks.set(index, updated);
                    proof {
                        assert(self@.blocks =~= old(self)@.blocks.update(
                            index as int,
                            apply_delta(old(self)@.blocks[index as int], delta@),
                        ));
                    }
                }
            },
            IrStreamEvent::MessageDelta { stop_reason, .. } => {
                if let Some(sr) = stop_reason {
                    self.stop_reason = Some(*sr);
                }
            },
            _ => {},
        }
    }
}

// ---- whole responses ----

/// The output tokens reported: the upstream's count, or a quarter of the
/// output characters where it reported none.
pub open spec fn output_tokens_spec(u: IrUsage) -> int {
    if u.output_tokens > 0 {
        u.output_tokens as int
    } else {
        (u.output_chars / 4) as int
    }
}

/// The identifier a response carries: the upstream's message id, or, where
/// there was none, the prefix followed by 32 fresh characters.
pub open spec fn response_id_ok(prefix: Seq<char>, msg_id: Seq<char>, id: Seq<char>) -> bool {
    if msg_id.len() > 0 {
        id == msg_id
    } else {
        id.len() == prefix.len() + 32 && id.take(prefix.len() as int) == prefix
    }
}

pub open spec fn model_or_alias(model: Seq<char>, alias: Seq<char>) -> Seq<char> {
    if model.len() == 0 {
        alias
    } else {
        model
    }
}

/// The input of a tool call, from its accumulated argument text: the parsed
/// value, or an empty object where the text is empty or not JSON.
pub open spec fn tool_input_value(text: Seq<char>) -> JsonV {
    if text.len() == 0 {
        JsonV::Object(Seq::empty())
    } else {
        match json_text_value(text) {
            Some(v) => v,
            None => JsonV::Object(Seq::empty()),
        }
    }
}

/// The argument text of a tool call: `{}` where nothing was accumulated.
pub open spec fn tool_arguments_text(text: Seq<char>) -> Seq<char> {
    if text.len() == 0 {
        "{}"@
    } else {
        text
    }
}

/// An Anthropic content block for an accumulated block; empty text and
/// empty thinking are left out.
pub open spec fn messages_block_json(b: AccBlockV) -> Option<JsonV> {
    match b {
        AccBlockV::Text(t) => if t.len() > 0 {
            Some(jobj(seq![("type"@, jstr("text"@)), ("text"@, jstr(t))]))
        } else {
            None
        },
        AccBlockV::Thinking { thinking, signature } => if thinking.len() > 0 {
            Some(
                jobj(
                    seq![("type"@, jstr("thinking"@)), ("thinking"@, jstr(thinking))] + match signature {
                        Some(sig) => seq![("signature"@, jstr(sig))],
                        None => Seq::empty(),
                    },
                ),
            )
        } else {
            None
        },
        AccBlockV::ToolUse { id, name, input_json } => Some(
            jobj(
                seq![
                    ("type"@, jstr("tool_use"@)),
                    ("id"@, jstr(id)),
                    ("name"@, jstr(name)),
                    ("input"@, tool_input_value(input_json)),
                ],
            ),
        ),
    }
}

pub open spec fn messages_content(bs: Seq<AccBlockV>) -> Seq<JsonV>
    decreases bs.len(),
{
    if bs.len() == 0 {
        Seq::empty()
    } else {
        let rest = messages_content(bs.drop_last());
        match messages_block_json(bs.last()) {
            Some(j) => rest.push(j),
            None => rest,
        }
    }
}

pub open spec fn messages_response_spec(a: AccV, u: IrUsage, alias: Seq<char>, id: Seq<char>) -> JsonV {
    jobj(
        seq![
            ("id"@, jstr(id)),
            ("type"@, jstr("message"@)),
            ("role"@, jstr("assistant"@)),
            ("model"@, jstr(model_or_alias(a.model, alias))),
            ("content"@, JsonV::Array(messages_content(a.blocks))),
            ("stop_reason"@, jstr(
                match a.stop_reason {
                    Some(sr) => anthropic_stop_str(sr),
                    None => "end_turn"@,
                },
            )),
            ("stop_sequence"@, JsonV::Null),
            ("usage"@, jobj(
                seq![
                    ("input_tokens"@, JsonV::Int(u.input_tokens + u.cache_creation_input_tokens)),
                    ("output_tokens"@, JsonV::Int(output_tokens_spec(u))),
                    ("cache_creation_input_tokens"@, JsonV::Int(u.cache_creation_input_tokens as int)),
                    ("cache_read_input_tokens"@, JsonV::Int(u.cache_read_input_tokens as int)),
                ],
            )),
        ],
    )
}

/// The identifier for a response: the upstream message id, or the prefix and
/// a fresh random identifier.
pub fn or_msg_id(prefix: &str, msg_id: &String) -> (r: String)
    ensures
        response_id_ok(prefix@, msg_id@, r@),
{
    if msg_id.as_str().is_empty() {
        let mut id = prefix.to_owned();
        let fresh = crate::outside::new_uuid_simple();
        id.append(fresh.as_str());
        proof {
            assert(id@.take(prefix@.len() as int) =~= prefix@);
        }
        id
    } else {
        msg_id.clone()
    }
}

fn messages_block_exec(b: &AccBlock) -> (r: Option<Json>)
    ensures
        opt_json_view(r) == messages_block_json(b@),
{
    match b {
        AccBlock::Text(t) => {
            if !t.as_str().is_empty() {
                let mut f: Vec<(String, Json)> = Vec::new();
                push_field(&mut f, "type", json_string("text"));
                push_field(&mut f, "text", json_string(t.as_str()));
                proof {
                    assert(fields_view(f@) =~= seq![("type"@, jstr("text"@)), ("text"@, jstr(t@))]);
                }
                Some(object_of(f))
            } else {
                None
            }
        },
        AccBlock::Thinking { thinking, signature } => {
            if !thinking.as_str().is_empty() {
                let mut f: Vec<(String, Json)> = Vec::new();
                push_field(&mut f, "type", json_string("thinking"));
                push_field(&mut f, "thinking", json_string(thinking.as_str()));
                let ghost base = fields_view(f@);
                proof {
                    assert(base =~= seq![("type"@, jstr("thinking"@)), ("thinking"@, jstr(thinking@))]);
                }
                match signature {
                    Some(sig) => {
                        push_field(&mut f, "signature", json_string(sig.as_str()));
                        proof {
                            assert(fields_view(f@) =~= base + seq![("signature"@, jstr(sig@))]);
                        }
                    },
                    None => {
                        proof {
                            assert(fields_view(f@) =~= base + Seq::empty());
                        }
                    },
                }
                Some(object_of(f))
            } else {
                None
            }
        },
        AccBlock::ToolUse { id, name, input_json } => {
            let mut f: Vec<(String, Json)> = Vec::new();
            push_field(&mut f, "type", json_string("tool_use"));
            push_field(&mut f, "id", json_string(id.as_str()));
            push_field(&mut f, "name", json_string(name.as_str()));
            push_field(&mut f, "input", tool_input_exec(input_json.as_str()));
            proof {
                assert(fields_view(f@) =~= seq![
                    ("type"@, jstr("tool_use"@)),
                    ("id"@, jstr(id@)),
                    ("name"@, jstr(name@)),
                    ("input"@, tool_input_value(input_json@)),
                ]);
            }
            Some(object_of(f))
        },
    }
}

fn tool_input_exec(text: &str) -> (r: Json)
    ensures
        r@ == tool_input_value(text@),
{
    if text.is_empty() {
        empty_object()
    } else {
        match parse_json(text) {
            Some(v) => v,
            None => empty_object(),
        }
    }
}

/// The JSON body of an Anthropic Messages response built from `acc`.
pub fn build_messages_response(acc: &IrAccumulator, usage: &IrUsage, model_alias: &str) -> (r: Json)
    requires
        usage.input_tokens + usage.cache_creation_input_tokens <= u64::MAX,
    ensures
        exists|id: Seq<char>|
            response_id_ok("msg_"@, acc@.msg_id, id) && r@ == messages_response_spec(
                acc@,
                *usage,
                model_alias@,
                id,
            ),
{
    let mut content: Vec<Json> = Vec::new();
    let mut i: usize = 0;
    while i < acc.blocks.len()
        invariant
            i <= acc.blocks@.len(),
            items_view(content@) == messages_content(acc@.blocks.take(i as int)),
        decreases acc.blocks@.len() - i,
    {
        proof {
            assert(acc@.blocks.take(i as int + 1).drop_last() =~= acc@.blocks.take(i as int));
            assert(acc@.blocks.take(i as int + 1).last() == acc.blocks@[i as int]@);
        }
        match messages_block_exec(&acc.blocks[i]) {
            Some(j) => push_item(&mut content, j),
            None => {},
        }
        i = i + 1;
    }
    proof {
        assert(acc@.blocks.take(i as int) =~= acc@.blocks);
    }
    let stop: &str = match acc.stop_reason {
        Some(sr) => sr.as_anthropic_str(),
        None => "end_turn",
    };
    let output_tokens: u64 = if usage.output_tokens > 0 {
        usage.output_tokens
    } else {
        usage.output_chars / 4
    };
    let id = or_msg_id("msg_", &acc.msg_id);
    let model: &str = if acc.model.as_str().is_empty() {
        model_alias
    } else {
        acc.model.as_str()
    };
    let mut u: Vec<(String, Json)> = Vec::new();
    push_field(&mut u, "input_tokens", json_u64(usage.input_tokens + usage.cache_creation_input_tokens));
    push_field(&mut u, "output_tokens", json_u64(output_tokens));
    push_field(&mut u, "cache_creation_input_tokens", json_u64(usage.cache_creation_input_tokens));
    push_field(&mut u, "cache_read_input_tokens", json_u64(usage.cache_read_input_tokens));
    let mut f: Vec<(String, Json)> = Vec::new();
    push_field(&mut f, "id", json_string(id.as_str()));
    push_field(&mut f, "type", json_string("message"));
    push_field(&mut f, "role", json_string("assistant"));
    push_field(&mut f, "model", json_string(model));
    push_field(&mut f, "content", array_of(content));
    push_field(&mut f, "stop_reason", json_string(stop));
    push_field(&mut f, "stop_sequence", Json::Null);
    push_field(&mut f, "usage", object_of(u));
    let r = object_of(f);
    proof {
        let uv = fields_view(u@);
        assert(uv =~= seq![
            ("input_tokens"@, JsonV::Int(usage.input_tokens + usage.cache_creation_input_tokens)),
            ("output_tokens"@, JsonV::Int(output_tokens_spec(*usage))),
            ("cache_creation_input_tokens"@, JsonV::Int(usage.cache_creation_input_tokens as int)),
            ("cache_read_input_tokens"@, JsonV::Int(usage.cache_read_input_tokens as int)),
        ]);
        let fv = fields_view(f@);
        assert(fv =~= seq![
            ("id"@, jstr(id@)),
            ("type"@, jstr("message"@)),
            ("role"@, jstr("assistant"@)),
            ("model"@, jstr(model_or_alias(acc@.model, model_alias@))),
            ("content"@, JsonV::Array(messages_content(acc@.blocks))),
            ("stop_reason"@, jstr(
                match acc@.stop_reason {
                    Some(sr) => anthropic_stop_str(sr),
                    None => "end_turn"@,
                },
            )),
            ("stop_sequence"@, JsonV::Null),
            ("usage"@, jobj(uv)),
        ]);
        assert(r@ == jobj(fv));
        let spec_v = messages_response_spec(acc@, *usage, model_alias@, id@);
        assert(spec_v matches JsonV::Object(sf) && sf.len() == 8);
        assert(spec_v->Object_0[7] == fv[7]);
        assert(spec_v->Object_0[0] == fv[0]);
        assert(spec_v->Object_0[3] == fv[3]);
        assert(spec_v->Object_0[4] == fv[4]);
        assert(spec_v->Object_0[5] == fv[5]);
        assert(spec_v->Object_0 =~= fv);
    }
    r
}

/// The text of all text blocks, in order.
pub open spec fn chat_text(bs: Seq<AccBlockV>) -> Seq<char>
    decreases bs.len(),
{
    if bs.len() == 0 {
        Seq::empty()
    } else {
        chat_text(bs.drop_last()) + match bs.last() {
            AccBlockV::Text(t) => t,
            _ => Seq::empty(),
        }
    }
}

/// The text of all thinking blocks, in order.
pub open spec fn chat_reasoning(bs: Seq<AccBlockV>) -> Seq<char>
    decreases bs.len(),
{
    if bs.len() == 0 {
        Seq::empty()
    } else {
        chat_reasoning(bs.drop_last()) + match bs.last() {
            AccBlockV::Thinking { thinking, .. } => thinking,
            _ => Seq::empty(),
        }
    }
}

pub open spec fn chat_tool_call_json(id: Seq<char>, name: Seq<char>, args: Seq<char>) -> JsonV {
    jobj(
        seq![
            ("id"@, jstr(id)),
            ("type"@, jstr("function"@)),
            ("function"@, jobj(
                seq![("name"@, jstr(name)), ("arguments"@, jstr(tool_arguments_text(args)))],
            )),
        ],
    )
}

/// The tool calls of all tool blocks, in order.
pub open spec fn chat_tool_calls(bs: Seq<AccBlockV>) -> Seq<JsonV>
    decreases bs.len(),
{
    if bs.len() == 0 {
        Seq::empty()
    } else {
        let rest = chat_tool_calls(bs.drop_last());
        match bs.last() {
            AccBlockV::ToolUse { id, name, input_json } => rest.push(
                chat_tool_call_json(id, name, input_json),
            ),
            _ => rest,
        }
    }
}

/// The assistant message of a Chat Completions response: `content` is null for
/// a response of tool calls alone.
pub open spec fn chat_message_spec(bs: Seq<AccBlockV>) -> JsonV {
    let text = chat_text(bs);
    let reasoning = chat_reasoning(bs);
    let calls = chat_tool_calls(bs);
    jobj(
        seq![
            ("role"@, jstr("assistant"@)),
            ("content"@, if text.len() == 0 && calls.len() > 0 {
                JsonV::Null
            } else {
                jstr(text)
            }),
        ] + (if reasoning.len() > 0 {
            seq![("reasoning_content"@, jstr(reasoning))]
        } else {
            Seq::empty()
        }) + (if calls.len() > 0 {
            seq![("tool_calls"@, JsonV::Array(calls))]
        } else {
            Seq::empty()
        }),
    )
}

pub open spec fn chat_usage_spec(u: IrUsage) -> JsonV {
    jobj(
        seq![
            ("prompt_tokens"@, JsonV::Int(u.input_tokens + u.cache_read_input_tokens)),
            ("completion_tokens"@, JsonV::Int(output_tokens_spec(u))),
            ("total_tokens"@, JsonV::Int(
                u.input_tokens + u.cache_read_input_tokens + output_tokens_spec(u),
            )),
            ("prompt_tokens_details"@, jobj(
                seq![("cached_tokens"@, JsonV::Int(u.cache_read_input_tokens as int))],
            )),
        ],
    )
}

pub open spec fn chat_response_spec(
    a: AccV,
    u: IrUsage,
    alias: Seq<char>,
    id: Seq<char>,
    created: int,
) -> JsonV {
    jobj(
        seq![
            ("id"@, jstr(id)),
            ("object"@, jstr("chat.completion"@)),
            ("created"@, JsonV::Int(created)),
            ("model"@, jstr(model_or_alias(a.model, alias))),
            ("choices"@, JsonV::Array(
                seq![
                    jobj(
                        seq![
                            ("index"@, JsonV::Int(0)),
                            ("message"@, chat_message_spec(a.blocks)),
                            ("finish_reason"@, jstr(
                                match a.stop_reason {
                                    Some(sr) => chat_finish_str(sr),
                                    None => "stop"@,
                                },
                            )),
                            ("logprobs"@, JsonV::Null),
                        ],
                    ),
                ],
            )),
            ("usage"@, chat_usage_spec(u)),
        ],
    )
}

/// The usage counts fit the sums a response reports.
pub open spec fn usage_sums_fit(u: IrUsage) -> bool {
    u.input_tokens + u.cache_read_input_tokens + output_tokens_spec(u) <= u64::MAX
}

fn chat_usage_exec(usage: &IrUsage) -> (r: Json)
    requires
        usage_sums_fit(*usage),
    ensures
        r@ == chat_usage_spec(*usage),
{
    let out: u64 = if usage.output_tokens > 0 {
        usage.output_tokens
    } else {
        usage.output_chars / 4
    };
    let prompt: u64 = usage.input_tokens + usage.cache_read_input_tokens;
    let mut d: Vec<(String, Json)> = Vec::new();
    push_field(&mut d, "cached_tokens", json_u64(usage.cache_read_input_tokens));
    let mut f: Vec<(String, Json)> = Vec::new();
    push_field(&mut f, "prompt_tokens", json_u64(prompt));
    push_field(&mut f, "completion_tokens", json_u64(out));
    push_field(&mut f, "total_tokens", json_u64(prompt + out));
    push_field(&mut f, "prompt_tokens_details", object_of(d));
    let r = object_of(f);
    proof {
        let dv = fields_view(d@);
        assert(dv =~= seq![("cached_tokens"@, JsonV::Int(usage.cache_read_input_tokens as int))]);
        let fv = fields_view(f@);
        let sv = chat_usage_spec(*usage);
        assert(sv->Object_0[3] == fv[3]);
        assert(sv->Object_0 =~= fv);
    }
    r
}

fn chat_message_exec(acc: &IrAccumulator) -> (r: Json)
    ensures
        r@ == chat_message_spec(acc@.blocks),
{
    let mut text = String::new();
    let mut reasoning = String::new();
    let mut calls: Vec<Json> = Vec::new();
    let mut i: usize = 0;
    while i < acc.blocks.len()
        invariant
            i <= acc.blocks@.len(),
            text@ == chat_text(acc@.blocks.take(i as int)),
            reasoning@ == chat_reasoning(acc@.blocks.take(i as int)),
            items_view(calls@) == chat_tool_calls(acc@.blocks.take(i as int)),
        decreases acc.blocks@.len() - i,
    {
        proof {
            assert(acc@.blocks.take(i as int + 1).drop_last() =~= acc@.blocks.take(i as int));
            assert(acc@.blocks.take(i as int + 1).last() == acc.blocks@[i as int]@);
        }
        match &acc.blocks[i] {
            AccBlock::Text(t) => {
                text.append(t.as_str());
                proof {
                    assert(chat_reasoning(acc@.blocks.take(i as int + 1)) =~= chat_reasoning(
                        acc@.blocks.take(i as int),
                    ) + Seq::empty());
                }
            },
            AccBlock::Thinking { thinking, .. } => {
                reasoning.append(thinking.as_str());
                proof {
                    assert(chat_text(acc@.blocks.take(i as int + 1)) =~= chat_text(
                        acc@.blocks.take(i as int),
                    ) + Seq::empty());
                }
            },
            AccBlock::ToolUse { id, name, input_json } => {
                let args: &str = if input_json.as_str().is_empty() {
                    "{}"
                } else {
                    input_json.as_str()
                };
                let mut fnf: Vec<(String, Json)> = Vec::new();
                push_field(&mut fnf, "name", json_string(name.as_str()));
                push_field(&mut fnf, "arguments", json_string(args));
                let mut call: Vec<(String, Json)> = Vec::new();
                push_field(&mut call, "id", json_string(id.as_str()));
                push_field(&mut call, "type", json_string("function"));
                push_field(&mut call, "function", object_of(fnf));
                proof {
                    assert(fields_view(fnf@) =~= seq![
                        ("name"@, jstr(name@)),
                        ("arguments"@, jstr(tool_arguments_text(input_json@))),
                    ]);
                    assert(fields_view(call@) =~= chat_tool_call_json(
                        id@,
                        name@,
                        input_json@,
                    )->Object_0);
                }
                push_item(&mut calls, object_of(call));
                proof {
                    assert(chat_text(acc@.blocks.take(i as int + 1)) =~= chat_text(
                        acc@.blocks.take(i as int),
                    ) + Seq::empty());
                    assert(chat_reasoning(acc@.blocks.take(i as int + 1)) =~= chat_reasoning(
                        acc@.blocks.take(i as int),
                    ) + Seq::empty());
                }
            },
        }
        i = i + 1;
    }
    proof {
        assert(acc@.blocks.take(i as int) =~= acc@.blocks);
    }
    let no_text = text.as_str().is_empty();
    let has_calls = calls.len() > 0;
    let has_reasoning = !reasoning.as_str().is_empty();
    proof {
        crate::json::lemma_items_view_len(calls@);
    }
    let ghost calls_v = items_view(calls@);
    let mut m: Vec<(String, Json)> = Vec::new();
    push_field(&mut m, "role", json_string("assistant"));
    if no_text && has_calls {
        push_field(&mut m, "content", Json::Null);
    } else {
        push_field(&mut m, "content", json_string(text.as_str()));
    }
    let ghost base = fields_view(m@);
    if has_reasoning {
        push_field(&mut m, "reasoning_content", json_string(reasoning.as_str()));
    }
    let ghost mid = fields_view(m@);
    proof {
        assert(mid =~= base + (if reasoning@.len() > 0 {
            seq![("reasoning_content"@, jstr(reasoning@))]
        } else {
            Seq::empty()
        }));
    }
    if has_calls {
        push_field(&mut m, "tool_calls", array_of(calls));
    }
    let r = object_of(m);
    proof {
        let fv = fields_view(m@);
        assert(fv =~= mid + (if calls_v.len() > 0 {
            seq![("tool_calls"@, JsonV::Array(calls_v))]
        } else {
            Seq::empty()
        }));
        let sv = chat_message_spec(acc@.blocks);
        assert(sv->Object_0 =~= fv);
    }
    r
}

/// The JSON body of an OpenAI Chat Completions response built from `acc`.
pub fn build_chat_completions_response(acc: &IrAccumulator, usage: &IrUsage, model_alias: &str) -> (r: Json)
    requires
        usage_sums_fit(*usage),
    ensures
        exists|id: Seq<char>, created: int|
            response_id_ok("chatcmpl-"@, acc@.msg_id, id) && r@ == chat_response_spec(
                acc@,
                *usage,
                model_alias@,
                id,
                created,
            ),
{
    let message = chat_message_exec(acc);
    let finish: &str = match acc.stop_reason {
        Some(sr) => sr.as_chat_finish_reason(),
        None => "stop",
    };
    let id = or_msg_id("chatcmpl-", &acc.msg_id);
    let created = crate::outside::unix_timestamp_now();
    let model: &str = if acc.model.as_str().is_empty() {
        model_alias
    } else {
        acc.model.as_str()
    };
    let mut choice: Vec<(String, Json)> = Vec::new();
    push_field(&mut choice, "index", json_u64(0));
    push_field(&mut choice, "message", message);
    push_field(&mut choice, "finish_reason", json_string(finish));
    push_field(&mut choice, "logprobs", Json::Null);
    let mut choices: Vec<Json> = Vec::new();
    push_item(&mut choices, object_of(choice));
    let mut f: Vec<(String, Json)> = Vec::new();
    push_field(&mut f, "id", json_string(id.as_str()));
    push_field(&mut f, "object", json_string("chat.completion"));
    push_field(&mut f, "created", crate::json::json_i64(created));
    push_field(&mut f, "model", json_string(model));
    push_field(&mut f, "choices", array_of(choices));
    push_field(&mut f, "usage", chat_usage_exec(usage));
    let r = object_of(f);
    proof {
        let sv = chat_response_spec(acc@, *usage, model_alias@, id@, created as int);
        let fv = fields_view(f@);
        let cv = fields_view(choice@);
        assert(cv =~= sv->Object_0[4].1->Array_0[0]->Object_0);
        assert(items_view(choices@) =~= sv->Object_0[4].1->Array_0);
        assert(sv->Object_0 =~= fv);
    }
    r
}

/// An output item of a Responses response for an accumulated block; empty
/// text and empty thinking are left out.
pub open spec fn responses_item(b: AccBlockV) -> Option<JsonV> {
    match b {
        AccBlockV::Text(t) => if t.len() > 0 {
            Some(
                jobj(
                    seq![
                        ("type"@, jstr("message"@)),
                        ("status"@, jstr("completed"@)),
                        ("role"@, jstr("assistant"@)),
                        ("content"@, JsonV::Array(
                            seq![
                                jobj(
                                    seq![
                                        ("type"@, jstr("output_text"@)),
                                        ("text"@, jstr(t)),
                                        ("annotations"@, JsonV::Array(Seq::empty())),
                                    ],
                                ),
                            ],
                        )),
                    ],
                ),
            )
        } else {
            None
        },
        AccBlockV::Thinking { thinking, .. } => if thinking.len() > 0 {
            Some(
                jobj(
                    seq![
                        ("type"@, jstr("reasoning"@)),
                        ("status"@, jstr("completed"@)),
                        ("content"@, JsonV::Array(
                            seq![
                                jobj(
                                    seq![
                                        ("type"@, jstr("reasoning_text"@)),
                                        ("text"@, jstr(thinking)),
                                        ("summary"@, JsonV::Array(Seq::empty())),
                                    ],
                                ),
                            ],
                        )),
                        ("summary"@, JsonV::Array(Seq::empty())),
                    ],
                ),
            )
        } else {
            None
        },
        AccBlockV::ToolUse { id, name, input_json } => Some(
            jobj(
                seq![
                    ("type"@, jstr("function_call"@)),
                    ("status"@, jstr("completed"@)),
                    ("call_id"@, jstr(id)),
                    ("name"@, jstr(name)),
                    ("arguments"@, jstr(tool_arguments_text(input_json))),
                ],
            ),
        ),
    }
}

pub open spec fn responses_output(bs: Seq<AccBlockV>) -> Seq<JsonV>
    decreases bs.len(),
{
    if bs.len() == 0 {
        Seq::empty()
    } else {
        let rest = responses_output(bs.drop_last());
        match responses_item(bs.last()) {
            Some(j) => rest.push(j),
            None => rest,
        }
    }
}

pub open spec fn responses_usage_spec(u: IrUsage) -> JsonV {
    jobj(
        seq![
            ("input_tokens"@, JsonV::Int(u.input_tokens + u.cache_read_input_tokens)),
            ("output_tokens"@, JsonV::Int(output_tokens_spec(u))),
            ("total_tokens"@, JsonV::Int(
                u.input_tokens + u.cache_read_input_tokens + output_tokens_spec(u),
            )),
            ("input_tokens_details"@, jobj(
                seq![("cached_tokens"@, JsonV::Int(u.cache_read_input_tokens as int))],
            )),
        ],
    )
}

pub open spec fn responses_response_spec(
    a: AccV,
    u: IrUsage,
    alias: Seq<char>,
    id: Seq<char>,
    created: int,
) -> JsonV {
    let truncated = a.stop_reason == Some(IrStopReason::MaxTokens);
    jobj(
        seq![
            ("id"@, jstr(id)),
            ("object"@, jstr("response"@)),
            ("created_at"@, JsonV::Int(created)),
            ("model"@, jstr(model_or_alias(a.model, alias))),
            ("status"@, jstr(
                if truncated {
                    "incomplete"@
                } else {
                    "completed"@
                },
            )),
            ("output"@, JsonV::Array(responses_output(a.blocks))),
            ("usage"@, responses_usage_spec(u)),
        ] + if truncated {
            seq![("incomplete_details"@, jobj(seq![("reason"@, jstr("max_output_tokens"@))]))]
        } else {
            Seq::empty()
        },
    )
}

fn single_part(kind: &str, text: &str, extra: &str) -> (r: Json)
    ensures
        r@ == JsonV::Array(
            seq![
                jobj(
                    seq![
                        ("type"@, jstr(kind@)),
                        ("text"@, jstr(text@)),
                        (extra@, JsonV::Array(Seq::empty())),
                    ],
                ),
            ],
        ),
{
    let mut p: Vec<(String, Json)> = Vec::new();
    push_field(&mut p, "type", json_string(kind));
    push_field(&mut p, "text", json_string(text));
    push_field(&mut p, extra, array_of(Vec::new()));
    let mut items: Vec<Json> = Vec::new();
    push_item(&mut items, object_of(p));
    proof {
        assert(items_view(Seq::<Json>::empty()) =~= Seq::<JsonV>::empty());
        assert(fields_view(p@) =~= seq![
            ("type"@, jstr(kind@)),
            ("text"@, jstr(text@)),
            (extra@, JsonV::Array(Seq::empty())),
        ]);
        assert(items_view(items@) =~= seq![jobj(fields_view(p@))]);
    }
    array_of(items)
}

fn responses_item_exec(b: &AccBlock) -> (r: Option<Json>)
    ensures
        opt_json_view(r) == responses_item(b@),
{
    match b {
        AccBlock::Text(t) => {
            if t.as_str().is_empty() {
                None
            } else {
                let mut f: Vec<(String, Json)> = Vec::new();
                push_field(&mut f, "type", json_string("message"));
                push_field(&mut f, "status", json_string("completed"));
                push_field(&mut f, "role", json_string("assistant"));
                push_field(&mut f, "content", single_part("output_text", t.as_str(), "annotations"));
                proof {
                    let sv = responses_item(b@)->Some_0;
                    assert(sv->Object_0 =~= fields_view(f@));
                }
                Some(object_of(f))
            }
        },
        AccBlock::Thinking { thinking, .. } => {
            if thinking.as_str().is_empty() {
                None
            } else {
                let mut f: Vec<(String, Json)> = Vec::new();
                push_field(&mut f, "type", json_string("reasoning"));
                push_field(&mut f, "status", json_string("completed"));
                push_field(
                    &mut f,
                    "content",
                    single_part("reasoning_text", thinking.as_str(), "summary"),
                );
                push_field(&mut f, "summary", array_of(Vec::new()));
                proof {
                    assert(items_view(Seq::<Json>::empty()) =~= Seq::<JsonV>::empty());
                    let sv = responses_item(b@)->Some_0;
                    assert(sv->Object_0 =~= fields_view(f@));
                }
                Some(object_of(f))
            }
        },
        AccBlock::ToolUse { id, name, input_json } => {
            let args: &str = if input_json.as_str().is_empty() {
                "{}"
            } else {
                input_json.as_str()
            };
            let mut f: Vec<(String, Json)> = Vec::new();
            push_field(&mut f, "type", json_string("function_call"));
            push_field(&mut f, "status", json_string("completed"));
            push_field(&mut f, "call_id", json_string(id.as_str()));
            push_field(&mut f, "name", json_string(name.as_str()));
            push_field(&mut f, "arguments", json_string(args));
            proof {
                let sv = responses_item(b@)->Some_0;
                assert(sv->Object_0 =~= fields_view(f@));
            }
            Some(object_of(f))
        },
    }
}

fn responses_usage_exec(usage: &IrUsage) -> (r: Json)
    requires
        usage_sums_fit(*usage),
    ensures
        r@ == responses_usage_spec(*usage),
{
    let out: u64 = if usage.output_tokens > 0 {
        usage.output_tokens
    } else {
        usage.output_chars / 4
    };
    let input: u64 = usage.input_tokens + usage.cache_read_input_tokens;
    let mut d: Vec<(String, Json)> = Vec::new();
    push_field(&mut d, "cached_tokens", json_u64(usage.cache_read_input_tokens));
    let mut f: Vec<(String, Json)> = Vec::new();
    push_field(&mut f, "input_tokens", json_u64(input));
    push_field(&mut f, "output_tokens", json_u64(out));
    push_field(&mut f, "total_tokens", json_u64(input + out));
    push_field(&mut f, "input_tokens_details", object_of(d));
    let r = object_of(f);
    proof {
        let dv = fields_view(d@);
        assert(dv =~= seq![("cached_tokens"@, JsonV::Int(usage.cache_read_input_tokens as int))]);
        let fv = fields_view(f@);
        let sv = responses_usage_spec(*usage);
        assert(sv->Object_0[3] == fv[3]);
        assert(sv->Object_0 =~= fv);
    }
    r
}

/// The JSON body of an OpenAI Responses response built from `acc`; a response
/// cut short by the token limit is marked incomplete.
pub fn build_responses_response(acc: &IrAccumulator, usage: &IrUsage, model_alias: &str) -> (r: Json)
    requires
        usage_sums_fit(*usage),
    ensures
        exists|id: Seq<char>, created: int|
            response_id_ok("resp_"@, acc@.msg_id, id) && r@ == responses_response_spec(
                acc@,
                *usage,
                model_alias@,
                id,
                created,
            ),
{
    let mut output: Vec<Json> = Vec::new();
    let mut i: usize = 0;
    while i < acc.blocks.len()
        invariant
            i <= acc.blocks@.len(),
            items_view(output@) == responses_output(acc@.blocks.take(i as int)),
        decreases acc.blocks@.len() - i,
    {
        proof {
            assert(acc@.blocks.take(i as int + 1).drop_last() =~= acc@.blocks.take(i as int));
            assert(acc@.blocks.take(i as int + 1).last() == acc.blocks@[i as int]@);
        }
        match responses_item_exec(&acc.blocks[i]) {
            Some(j) => push_item(&mut output, j),
            None => {},
        }
        i = i + 1;
    }
    proof {
        assert(acc@.blocks.take(i as int) =~= acc@.blocks);
    }
    let truncated = match acc.stop_reason {
        Some(IrStopReason::MaxTokens) => true,
        _ => false,
    };
    let id = or_msg_id("resp_", &acc.msg_id);
    let created = crate::outside::unix_timestamp_now();
    let model: &str = if acc.model.as_str().is_empty() {
        model_alias
    } else {
        acc.model.as_str()
    };
    let mut f: Vec<(String, Json)> = Vec::new();
    push_field(&mut f, "id", json_string(id.as_str()));
    push_field(&mut f, "object", json_string("response"));
    push_field(&mut f, "created_at", crate::json::json_i64(created));
    push_field(&mut f, "model", json_string(model));
    push_field(&mut f, "status", json_string(if truncated { "incomplete" } else { "completed" }));
    push_field(&mut f, "output", array_of(output));
    push_field(&mut f, "usage", responses_usage_exec(usage));
    let ghost base = fields_view(f@);
    if truncated {
        let mut d: Vec<(String, Json)> = Vec::new();
        push_field(&mut d, "reason", json_string("max_output_tokens"));
        push_field(&mut f, "incomplete_details", object_of(d));
        proof {
            assert(fields_view(d@) =~= seq![("reason"@, jstr("max_output_tokens"@))]);
        }
    }
    let r = object_of(f);
    proof {
        let sv = responses_response_spec(acc@, *usage, model_alias@, id@, created as int);
        let fv = fields_view(f@);
        assert(sv->Object_0 =~= fv);
    }
    r
}

// ---- error bodies ----

/// The error type that an HTTP status is reported under.
pub open spec fn error_type_spec(status: u16) -> Seq<char> {
    if status == 400 {
        "invalid_request_error"@
    } else if status == 401 || status == 403 {
        "authentication_error"@
    } else if status == 404 {
        "not_found_error"@
    } else if status == 408 || status == 504 {
        "timeout_error"@
    } else if status == 413 {
        "request_too_large"@
    } else if status == 429 {
        "rate_limit_error"@
    } else {
        "api_error"@
    }
}

/// The Anthropic error type for an HTTP status (the `type` of an error body).
pub fn error_type_for_status(status: u16) -> (r: &'static str)
    ensures
        r@ == error_type_spec(status),
{
    if status == 400 {
        "invalid_request_error"
    } else if status == 401 || status == 403 {
        "authentication_error"
    } else if status == 404 {
        "not_found_error"
    } else if status == 408 || status == 504 {
        "timeout_error"
    } else if status == 413 {
        "request_too_large"
    } else if status == 429 {
        "rate_limit_error"
    } else {
        "api_error"
    }
}

} // verus!
