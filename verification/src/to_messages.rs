//! The neutral representation out to Anthropic Messages: request bodies and
//! stream events.
//!
//! Stream events map onto Anthropic events one for one, except that the
//! final stop reason and usage are held back until the stream is finished,
//! when the closing `message_delta` and `message_stop` are written.

use vstd::prelude::*;
use crate::ir::{
    anthropic_stop_str, blocks_view, lemma_blocks_view_index, lemma_blocks_view_len, BlockStartV,
    BlockV, DeltaV, EventV, ImageV, IrContentBlock, IrContentBlockStart, IrContentDelta,
    IrImageSource, IrMessage, IrRequest, IrRole, IrStopReason, IrStreamEvent, IrSystemContent,
    IrSystemBlock, IrToolChoice, IrToolResultContent, IrUsage, MessageV, RequestV, SystemV,
    ToolChoiceV, ToolResultV, ToolV, zero_usage,
};
use crate::json::{
    array_of, empty_object, fields_view, items_view, jobj, json_string, json_text, json_u64, jstr,
    lemma_items_view_push, object_of, opt_json_view, push_field, push_item, to_json_text, Json,
    JsonV,
};
use crate::to_chat_completions::{role_name, usage_output_tokens};

verus! {

// ---- requests ----

/// The entries `f`, with `key: v` after them where `v` is present.
pub open spec fn with_opt(
    f: Seq<(Seq<char>, JsonV)>,
    key: Seq<char>,
    v: Option<JsonV>,
) -> Seq<(Seq<char>, JsonV)> {
    match v {
        Some(x) => f.push((key, x)),
        None => f,
    }
}

pub open spec fn image_source_json(src: ImageV) -> JsonV {
    match src {
        ImageV::Base64 { media_type, data } => jobj(
            seq![("type"@, jstr("base64"@)), ("media_type"@, jstr(media_type)), ("data"@, jstr(data))],
        ),
        ImageV::Url { url } => jobj(seq![("type"@, jstr("url"@)), ("url"@, jstr(url))]),
    }
}

/// A content block as Anthropic writes it.
pub open spec fn anthropic_block_json(b: BlockV) -> JsonV
    decreases b,
{
    match b {
        BlockV::Text { text, cache_control } => jobj(
            with_opt(seq![("type"@, jstr("text"@)), ("text"@, jstr(text))], "cache_control"@, cache_control),
        ),
        BlockV::Image { source } => jobj(
            seq![("type"@, jstr("image"@)), ("source"@, image_source_json(source))],
        ),
        BlockV::Thinking { thinking, signature } => jobj(
            with_opt(
                seq![("type"@, jstr("thinking"@)), ("thinking"@, jstr(thinking))],
                "signature"@,
                match signature {
                    Some(x) => Some(jstr(x)),
                    None => None,
                },
            ),
        ),
        BlockV::ToolUse { id, name, input } => jobj(
            seq![
                ("type"@, jstr("tool_use"@)),
                ("id"@, jstr(id)),
                ("name"@, jstr(name)),
                ("input"@, input),
            ],
        ),
        BlockV::ToolResult { tool_use_id, content, is_error } => {
            let c = match content {
                ToolResultV::Text(t) => jstr(t),
                ToolResultV::Blocks(bs) => JsonV::Array(anthropic_blocks_json(bs)),
            };
            let f = seq![
                ("type"@, jstr("tool_result"@)),
                ("tool_use_id"@, jstr(tool_use_id)),
                ("content"@, c),
            ];
            jobj(
                if is_error {
                    f.push(("is_error"@, JsonV::Bool(true)))
                } else {
                    f
                },
            )
        },
    }
}

pub open spec fn anthropic_blocks_json(bs: Seq<BlockV>) -> Seq<JsonV>
    decreases bs,
{
    if bs.len() == 0 {
        Seq::empty()
    } else {
        anthropic_blocks_json(bs.drop_last()).push(anthropic_block_json(bs.last()))
    }
}

pub open spec fn system_json(s: SystemV) -> JsonV {
    match s {
        SystemV::Text(t) => jstr(t),
        SystemV::Blocks(bs) => JsonV::Array(
            bs.map_values(
                |b: (Seq<char>, Option<JsonV>)|
                    jobj(with_opt(seq![("type"@, jstr("text"@)), ("text"@, jstr(b.0))], "cache_control"@, b.1)),
            ),
        ),
    }
}

pub open spec fn message_json(m: MessageV) -> JsonV {
    jobj(
        seq![
            ("role"@, jstr(role_name(m.role))),
            ("content"@, JsonV::Array(anthropic_blocks_json(m.content))),
        ],
    )
}

pub open spec fn anthropic_tool_json(t: ToolV) -> JsonV {
    jobj(
        with_opt(
            seq![("name"@, jstr(t.name)), ("input_schema"@, t.input_schema)],
            "description"@,
            match t.description {
                Some(d) => Some(jstr(d)),
                None => None,
            },
        ),
    )
}

pub open spec fn anthropic_tool_choice_json(tc: ToolChoiceV) -> JsonV {
    match tc {
        ToolChoiceV::Auto => jobj(seq![("type"@, jstr("auto"@))]),
        ToolChoiceV::Any => jobj(seq![("type"@, jstr("any"@))]),
        ToolChoiceV::NoTools => jobj(seq![("type"@, jstr("none"@))]),
        ToolChoiceV::Tool { name } => jobj(seq![("type"@, jstr("tool"@)), ("name"@, jstr(name))]),
    }
}

fn image_source_exec(src: &IrImageSource) -> (r: Json)
    ensures
        r@ == image_source_json(crate::ir::image_view(*src)),
{
    let mut f: Vec<(String, Json)> = Vec::new();
    match src {
        IrImageSource::Base64 { media_type, data } => {
            push_field(&mut f, "type", json_string("base64"));
            push_field(&mut f, "media_type", json_string(media_type.as_str()));
            push_field(&mut f, "data", json_string(data.as_str()));
        },
        IrImageSource::Url { url } => {
            push_field(&mut f, "type", json_string("url"));
            push_field(&mut f, "url", json_string(url.as_str()));
        },
    }
    proof {
        assert(fields_view(f@) =~= image_source_json(crate::ir::image_view(*src))->Object_0);
    }
    object_of(f)
}

/// Renders one content block.
fn render_block(b: &IrContentBlock) -> (r: Json)
    ensures
        r@ == anthropic_block_json(b@),
    decreases b,
{
    let mut f: Vec<(String, Json)> = Vec::new();
    match b {
        IrContentBlock::Text { text, cache_control } => {
            push_field(&mut f, "type", json_string("text"));
            push_field(&mut f, "text", json_string(text.as_str()));
            match cache_control {
                Some(cc) => {
                    push_field(&mut f, "cache_control", cc.copy());
                },
                None => {},
            }
        },
        IrContentBlock::Image { source } => {
            push_field(&mut f, "type", json_string("image"));
            push_field(&mut f, "source", image_source_exec(source));
        },
        IrContentBlock::Thinking { thinking, signature } => {
            push_field(&mut f, "type", json_string("thinking"));
            push_field(&mut f, "thinking", json_string(thinking.as_str()));
            match signature {
                Some(sig) => {
                    push_field(&mut f, "signature", json_string(sig.as_str()));
                },
                None => {},
            }
        },
        IrContentBlock::ToolUse { id, name, input } => {
            push_field(&mut f, "type", json_string("tool_use"));
            push_field(&mut f, "id", json_string(id.as_str()));
            push_field(&mut f, "name", json_string(name.as_str()));
            push_field(&mut f, "input", input.copy());
        },
        IrContentBlock::ToolResult { tool_use_id, content, is_error } => {
            let c = match content {
                IrToolResultContent::Text(t) => json_string(t.as_str()),
                IrToolResultContent::Blocks(bs) => {
                    let mut out: Vec<Json> = Vec::new();
                    let mut i: usize = 0;
                    proof {
                        assert(items_view(out@) =~= anthropic_blocks_json(blocks_view(bs@.take(0))));
                    }
                    while i < bs.len()
                        invariant
                            i <= bs@.len(),
                            *b == (IrContentBlock::ToolResult {
                                tool_use_id: *tool_use_id,
                                content: IrToolResultContent::Blocks(*bs),
                                is_error: *is_error,
                            }),
                            items_view(out@) == anthropic_blocks_json(blocks_view(bs@.take(i as int))),
                        decreases bs@.len() - i,
                    {
                        proof {
                            assert(decreases_to!(*b => (*b)->ToolResult_content));
                            assert(decreases_to!((*b)->ToolResult_content => (*b)->ToolResult_content->Blocks_0));
                            assert(decreases_to!((*b)->ToolResult_content->Blocks_0 => (*b)->ToolResult_content->Blocks_0@));
                            assert(decreases_to!((*b)->ToolResult_content->Blocks_0@ => (*b)->ToolResult_content->Blocks_0@[i as int]));
                            assert(bs@.take(i as int + 1).drop_last() =~= bs@.take(i as int));
                            assert(blocks_view(bs@.take(i as int + 1)).drop_last() =~= blocks_view(
                                bs@.take(i as int),
                            ));
                        }
                        let x = render_block(&bs[i]);
                        push_item(&mut out, x);
                        i = i + 1;
                    }
                    proof {
                        assert(bs@.take(i as int) =~= bs@);
                    }
                    array_of(out)
                },
            };
            push_field(&mut f, "type", json_string("tool_result"));
            push_field(&mut f, "tool_use_id", json_string(tool_use_id.as_str()));
            push_field(&mut f, "content", c);
            if *is_error {
                push_field(&mut f, "is_error", Json::Bool(true));
            }
        },
    }
    proof {
        assert(fields_view(f@) =~= anthropic_block_json(b@)->Object_0);
    }
    object_of(f)
}

/// Renders content blocks as an Anthropic content array.
fn render_anthropic_content(blocks: &Vec<IrContentBlock>) -> (r: Json)
    ensures
        r@ == JsonV::Array(anthropic_blocks_json(blocks_view(blocks@))),
{
    let mut out: Vec<Json> = Vec::new();
    let mut i: usize = 0;
    proof {
        assert(items_view(out@) =~= anthropic_blocks_json(blocks_view(blocks@.take(0))));
    }
    while i < blocks.len()
        invariant
            i <= blocks@.len(),
            items_view(out@) == anthropic_blocks_json(blocks_view(blocks@.take(i as int))),
        decreases blocks@.len() - i,
    {
        proof {
            assert(blocks@.take(i as int + 1).drop_last() =~= blocks@.take(i as int));
            assert(blocks_view(blocks@.take(i as int + 1)).drop_last() =~= blocks_view(
                blocks@.take(i as int),
            ));
        }
        let x = render_block(&blocks[i]);
        push_item(&mut out, x);
        i = i + 1;
    }
    proof {
        assert(blocks@.take(i as int) =~= blocks@);
    }
    array_of(out)
}

fn system_exec(s: &IrSystemContent) -> (r: Json)
    ensures
        r@ == system_json(crate::ir::system_view(*s)),
{
    match s {
        IrSystemContent::Text(t) => json_string(t.as_str()),
        IrSystemContent::Blocks(bs) => {
            let ghost sv = bs@.map_values(|b: IrSystemBlock| (b.text@, opt_json_view(b.cache_control)));
            let mut out: Vec<Json> = Vec::new();
            let mut i: usize = 0;
            while i < bs.len()
                invariant
                    i <= bs@.len(),
                    sv == bs@.map_values(|b: IrSystemBlock| (b.text@, opt_json_view(b.cache_control))),
                    items_view(out@) == sv.take(i as int).map_values(
                        |b: (Seq<char>, Option<JsonV>)|
                            jobj(with_opt(seq![("type"@, jstr("text"@)), ("text"@, jstr(b.0))], "cache_control"@, b.1)),
                    ),
                decreases bs@.len() - i,
            {
                let mut f: Vec<(String, Json)> = Vec::new();
                push_field(&mut f, "type", json_string("text"));
                push_field(&mut f, "text", json_string(bs[i].text.as_str()));
                match &bs[i].cache_control {
                    Some(cc) => {
                        push_field(&mut f, "cache_control", cc.copy());
                    },
                    None => {},
                }
                let ghost before = items_view(out@);
                let o = object_of(f);
                let ghost ov = o@;
                push_item(&mut out, o);
                proof {
                    let e = sv[i as int];
                    assert(fields_view(f@) =~= with_opt(
                        seq![("type"@, jstr("text"@)), ("text"@, jstr(e.0))],
                        "cache_control"@,
                        e.1,
                    ));
                    assert(sv.take(i as int + 1).map_values(
                        |b: (Seq<char>, Option<JsonV>)|
                            jobj(with_opt(seq![("type"@, jstr("text"@)), ("text"@, jstr(b.0))], "cache_control"@, b.1)),
                    ) =~= before.push(ov));
                }
                i = i + 1;
            }
            proof {
                assert(sv.take(i as int) =~= sv);
            }
            array_of(out)
        },
    }
}

fn messages_exec(ms: &Vec<IrMessage>) -> (r: Vec<Json>)
    ensures
        items_view(r@) == ms@.map_values(|m: IrMessage| m@).map_values(|m: MessageV| message_json(m)),
{
    let ghost mv = ms@.map_values(|m: IrMessage| m@);
    let mut out: Vec<Json> = Vec::new();
    let mut i: usize = 0;
    while i < ms.len()
        invariant
            i <= ms@.len(),
            mv == ms@.map_values(|m: IrMessage| m@),
            items_view(out@) == mv.take(i as int).map_values(|m: MessageV| message_json(m)),
        decreases ms@.len() - i,
    {
        let role: &str = match ms[i].role {
            IrRole::User => "user",
            IrRole::Assistant => "assistant",
        };
        let mut f: Vec<(String, Json)> = Vec::new();
        push_field(&mut f, "role", json_string(role));
        push_field(&mut f, "content", render_anthropic_content(&ms[i].content));
        let ghost before = items_view(out@);
        let o = object_of(f);
        let ghost ov = o@;
        push_item(&mut out, o);
        proof {
            assert(fields_view(f@) =~= message_json(mv[i as int])->Object_0);
            assert(mv.take(i as int + 1).map_values(|m: MessageV| message_json(m)) =~= before.push(ov));
        }
        i = i + 1;
    }
    proof {
        assert(mv.take(i as int) =~= mv);
    }
    out
}

fn tools_exec(ts: &Vec<crate::ir::IrTool>) -> (r: Vec<Json>)
    ensures
        items_view(r@) == ts@.map_values(|t: crate::ir::IrTool| t@).map_values(
            |t: ToolV| anthropic_tool_json(t),
        ),
{
    let ghost tv = ts@.map_values(|t: crate::ir::IrTool| t@);
    let mut out: Vec<Json> = Vec::new();
    let mut i: usize = 0;
    while i < ts.len()
        invariant
            i <= ts@.len(),
            tv == ts@.map_values(|t: crate::ir::IrTool| t@),
            items_view(out@) == tv.take(i as int).map_values(|t: ToolV| anthropic_tool_json(t)),
        decreases ts@.len() - i,
    {
        let mut f: Vec<(String, Json)> = Vec::new();
        push_field(&mut f, "name", json_string(ts[i].name.as_str()));
        push_field(&mut f, "input_schema", ts[i].input_schema.copy());
        match &ts[i].description {
            Some(d) => {
                push_field(&mut f, "description", json_string(d.as_str()));
            },
            None => {},
        }
        let ghost before = items_view(out@);
        let o = object_of(f);
        let ghost ov = o@;
        push_item(&mut out, o);
        proof {
            assert(fields_view(f@) =~= anthropic_tool_json(tv[i as int])->Object_0);
            assert(tv.take(i as int + 1).map_values(|t: ToolV| anthropic_tool_json(t)) =~= before.push(ov));
        }
        i = i + 1;
    }
    proof {
        assert(tv.take(i as int) =~= tv);
    }
    out
}

fn tool_choice_exec(tc: &IrToolChoice) -> (r: Json)
    ensures
        r@ == anthropic_tool_choice_json(tc@),
{
    let mut f: Vec<(String, Json)> = Vec::new();
    match tc {
        IrToolChoice::Auto => {
            push_field(&mut f, "type", json_string("auto"));
        },
        IrToolChoice::Any => {
            push_field(&mut f, "type", json_string("any"));
        },
        IrToolChoice::NoTools => {
            push_field(&mut f, "type", json_string("none"));
        },
        IrToolChoice::Tool { name } => {
            push_field(&mut f, "type", json_string("tool"));
            push_field(&mut f, "name", json_string(name.as_str()));
        },
    }
    proof {
        assert(fields_view(f@) =~= anthropic_tool_choice_json(tc@)->Object_0);
    }
    object_of(f)
}

/// The entries up to the tools: model, stream, system and messages.
pub open spec fn messages_head(r: RequestV) -> Seq<(Seq<char>, JsonV)> {
    let f0 = seq![("model"@, jstr(r.model)), ("stream"@, JsonV::Bool(r.stream))];
    let f1 = with_opt(
        f0,
        "system"@,
        match r.system {
            Some(s) => Some(system_json(s)),
            None => None,
        },
    );
    f1.push(("messages"@, JsonV::Array(r.messages.map_values(|m: MessageV| message_json(m)))))
}

pub open spec fn thinking_json(budget: Option<u64>) -> JsonV {
    jobj(
        with_opt(
            seq![("type"@, jstr("enabled"@))],
            "budget_tokens"@,
            match budget {
                Some(b) => Some(JsonV::Int(b as int)),
                None => None,
            },
        ),
    )
}

/// The Anthropic Messages body of a request.
pub open spec fn messages_request_json(r: RequestV) -> JsonV {
    let f2 = messages_head(r);
    let f3 = if r.tools.len() > 0 {
        f2.push(("tools"@, JsonV::Array(r.tools.map_values(|t: ToolV| anthropic_tool_json(t)))))
    } else {
        f2
    };
    let f4 = with_opt(
        f3,
        "tool_choice"@,
        match r.tool_choice {
            Some(tc) => Some(anthropic_tool_choice_json(tc)),
            None => None,
        },
    );
    let f5 = match r.thinking {
        Some(t) => if t.enabled {
            f4.push(("thinking"@, thinking_json(t.budget_tokens)))
        } else {
            f4
        },
        None => f4,
    };
    let f6 = with_opt(
        f5,
        "max_tokens"@,
        match r.max_tokens {
            Some(m) => Some(JsonV::Int(m as int)),
            None => None,
        },
    );
    let f7 = with_opt(f6, "temperature"@, r.temperature);
    let f8 = with_opt(f7, "top_p"@, r.top_p);
    jobj(f8)
}

fn messages_head_exec(req: &IrRequest) -> (r: Vec<(String, Json)>)
    ensures
        fields_view(r@) == messages_head(req@),
{
    let mut out: Vec<(String, Json)> = Vec::new();
    push_field(&mut out, "model", json_string(req.model.as_str()));
    push_field(&mut out, "stream", Json::Bool(req.stream));
    match &req.system {
        Some(s) => {
            push_field(&mut out, "system", system_exec(s));
        },
        None => {},
    }
    let msgs = messages_exec(&req.messages);
    push_field(&mut out, "messages", array_of(msgs));
    proof {
        assert(fields_view(out@) =~= messages_head(req@));
    }
    out
}

/// Writes a request as an Anthropic Messages body.
pub fn ir_req_to_messages(req: &IrRequest) -> (r: Json)
    ensures
        r@ == messages_request_json(req@),
{
    let ghost rv = req@;
    let mut out = messages_head_exec(req);
    let ghost f2 = fields_view(out@);
    if req.tools.len() > 0 {
        let tools = tools_exec(&req.tools);
        push_field(&mut out, "tools", array_of(tools));
    }
    let ghost f3 = fields_view(out@);
    proof {
        assert(f3 == if rv.tools.len() > 0 {
            f2.push(("tools"@, JsonV::Array(rv.tools.map_values(|t: ToolV| anthropic_tool_json(t)))))
        } else {
            f2
        });
    }
    match &req.tool_choice {
        Some(tc) => {
            push_field(&mut out, "tool_choice", tool_choice_exec(tc));
        },
        None => {},
    }
    let ghost f4 = fields_view(out@);
    match req.thinking {
        Some(t) => {
            if t.enabled {
                let mut tf: Vec<(String, Json)> = Vec::new();
                push_field(&mut tf, "type", json_string("enabled"));
                match t.budget_tokens {
                    Some(b) => {
                        push_field(&mut tf, "budget_tokens", json_u64(b));
                    },
                    None => {},
                }
                proof {
                    assert(fields_view(tf@) =~= thinking_json(t.budget_tokens)->Object_0);
                }
                push_field(&mut out, "thinking", object_of(tf));
            }
        },
        None => {},
    }
    let ghost f5 = fields_view(out@);
    match req.max_tokens {
        Some(m) => {
            push_field(&mut out, "max_tokens", json_u64(m));
        },
        None => {},
    }
    match &req.temperature {
        Some(t) => {
            push_field(&mut out, "temperature", Json::Number(t.copy()));
        },
        None => {},
    }
    match &req.top_p {
        Some(t) => {
            push_field(&mut out, "top_p", Json::Number(t.copy()));
        },
        None => {},
    }
    proof {
        assert(fields_view(out@) =~= messages_request_json(rv)->Object_0);
    }
    object_of(out)
}


// ---- stream events ----

/// The state of an Anthropic Messages stream renderer.
pub struct MessagesRenderState {
    pub msg_id: String,
    pub model: String,
    /// Whether the message start was written.
    pub started: bool,
    /// The stop reason of the last final delta that had one.
    pub last_stop_reason: Option<IrStopReason>,
    /// The usage of the last final delta that had one.
    pub last_usage: Option<IrUsage>,
}

pub struct MessagesRenderV {
    pub msg_id: Seq<char>,
    pub model: Seq<char>,
    pub started: bool,
    pub last_stop_reason: Option<IrStopReason>,
    pub last_usage: Option<IrUsage>,
}

impl View for MessagesRenderState {
    type V = MessagesRenderV;

    open spec fn view(&self) -> MessagesRenderV {
        MessagesRenderV {
            msg_id: self.msg_id@,
            model: self.model@,
            started: self.started,
            last_stop_reason: self.last_stop_reason,
            last_usage: self.last_usage,
        }
    }
}

pub open spec fn initial_messages_render() -> MessagesRenderV {
    MessagesRenderV {
        msg_id: Seq::empty(),
        model: Seq::empty(),
        started: false,
        last_stop_reason: None,
        last_usage: None,
    }
}

/// The frame of a named event: `event: `, its name, then its data line.
pub open spec fn sse_event(event: Seq<char>, data: Seq<char>) -> Seq<char> {
    "event: "@ + event + "\ndata: "@ + data + "\n\n"@
}

/// The usage a message start carries: the event's input and output tokens,
/// or zeros where it has none.
pub open spec fn start_usage_json(usage: Option<IrUsage>) -> JsonV {
    let u = match usage {
        Some(u) => u,
        None => zero_usage(),
    };
    jobj(
        seq![
            ("input_tokens"@, JsonV::Int(u.input_tokens as int)),
            ("output_tokens"@, JsonV::Int(u.output_tokens as int)),
        ],
    )
}

pub open spec fn message_start_json(id: Seq<char>, model: Seq<char>, usage: Option<IrUsage>) -> JsonV {
    jobj(
        seq![
            ("type"@, jstr("message_start"@)),
            ("message"@, jobj(
                seq![
                    ("id"@, jstr(id)),
                    ("type"@, jstr("message"@)),
                    ("role"@, jstr("assistant"@)),
                    ("model"@, jstr(model)),
                    ("content"@, JsonV::Array(Seq::empty())),
                    ("stop_reason"@, JsonV::Null),
                    ("stop_sequence"@, JsonV::Null),
                    ("usage"@, start_usage_json(usage)),
                ],
            )),
        ],
    )
}

pub open spec fn block_start_json(b: BlockStartV) -> JsonV {
    match b {
        BlockStartV::Text => jobj(seq![("type"@, jstr("text"@)), ("text"@, jstr(Seq::empty()))]),
        BlockStartV::Thinking { .. } => jobj(
            seq![("type"@, jstr("thinking"@)), ("thinking"@, jstr(Seq::empty()))],
        ),
        BlockStartV::ToolUse { id, name } => jobj(
            seq![
                ("type"@, jstr("tool_use"@)),
                ("id"@, jstr(id)),
                ("name"@, jstr(name)),
                ("input"@, jobj(Seq::empty())),
            ],
        ),
    }
}

pub open spec fn delta_json(d: DeltaV) -> JsonV {
    match d {
        DeltaV::Text(t) => jobj(seq![("type"@, jstr("text_delta"@)), ("text"@, jstr(t))]),
        DeltaV::Thinking(t) => jobj(seq![("type"@, jstr("thinking_delta"@)), ("thinking"@, jstr(t))]),
        DeltaV::InputJson(p) => jobj(
            seq![("type"@, jstr("input_json_delta"@)), ("partial_json"@, jstr(p))],
        ),
    }
}

/// What one event writes (its name and document) and how the state moves.
/// A final delta is held back: its stop reason and usage are recorded, and
/// neither it nor the message stop writes anything.
pub open spec fn messages_render_spec(s: MessagesRenderV, ev: EventV) -> (
    Option<(Seq<char>, JsonV)>,
    MessagesRenderV,
) {
    match ev {
        EventV::MessageStart { id, model, usage } => (
            Some(("message_start"@, message_start_json(id, model, usage))),
            MessagesRenderV { msg_id: id, model, started: true, ..s },
        ),
        EventV::BlockStart { index, block } => (
            Some(
                (
                    "content_block_start"@,
                    jobj(
                        seq![
                            ("type"@, jstr("content_block_start"@)),
                            ("index"@, JsonV::Int(index)),
                            ("content_block"@, block_start_json(block)),
                        ],
                    ),
                ),
            ),
            s,
        ),
        EventV::BlockDelta { index, delta } => (
            Some(
                (
                    "content_block_delta"@,
                    jobj(
                        seq![
                            ("type"@, jstr("content_block_delta"@)),
                            ("index"@, JsonV::Int(index)),
                            ("delta"@, delta_json(delta)),
                        ],
                    ),
                ),
            ),
            s,
        ),
        EventV::BlockStop { index } => (
            Some(
                (
                    "content_block_stop"@,
                    jobj(seq![("type"@, jstr("content_block_stop"@)), ("index"@, JsonV::Int(index))]),
                ),
            ),
            s,
        ),
        EventV::MessageDelta { stop_reason, usage } => (
            None,
            MessagesRenderV {
                last_stop_reason: match stop_reason {
                    Some(r) => Some(r),
                    None => s.last_stop_reason,
                },
                last_usage: match usage {
                    Some(u) => Some(u),
                    None => s.last_usage,
                },
                ..s
            },
        ),
        EventV::MessageStop => (None, s),
    }
}

/// The closing delta: the recorded stop reason (else `end_turn`) and the
/// output and cache-read tokens of the final usage.
pub open spec fn final_delta_json(s: MessagesRenderV, u: IrUsage) -> JsonV {
    jobj(
        seq![
            ("type"@, jstr("message_delta"@)),
            ("delta"@, jobj(
                seq![
                    ("stop_reason"@, jstr(
                        match s.last_stop_reason {
                            Some(r) => anthropic_stop_str(r),
                            None => "end_turn"@,
                        },
                    )),
                    ("stop_sequence"@, JsonV::Null),
                ],
            )),
            ("usage"@, jobj(
                seq![
                    ("output_tokens"@, JsonV::Int(usage_output_tokens(u))),
                    ("cache_read_input_tokens"@, JsonV::Int(u.cache_read_input_tokens as int)),
                ],
            )),
        ],
    )
}

/// Frames a named event: `event: ` and its name, then the data line.
pub fn sse_event_frame(event: &str, data: &str) -> (r: String)
    ensures
        r@ == sse_event(event@, data@),
{
    let mut out = String::from_str("event: ");
    out.append(event);
    out.append("\ndata: ");
    out.append(data);
    out.append("\n\n");
    out
}

fn frame_exec(event: &str, payload: &Json) -> (r: String)
    ensures
        r@ == sse_event(event@, json_text(payload@)),
{
    let text = to_json_text(payload);
    sse_event_frame(event, text.as_str())
}

fn block_start_exec(b: &IrContentBlockStart) -> (r: Json)
    ensures
        r@ == block_start_json(b@),
{
    let mut f: Vec<(String, Json)> = Vec::new();
    match b {
        IrContentBlockStart::Text => {
            push_field(&mut f, "type", json_string("text"));
            push_field(&mut f, "text", json_string(""));
        },
        IrContentBlockStart::Thinking { .. } => {
            push_field(&mut f, "type", json_string("thinking"));
            push_field(&mut f, "thinking", json_string(""));
        },
        IrContentBlockStart::ToolUse { id, name } => {
            push_field(&mut f, "type", json_string("tool_use"));
            push_field(&mut f, "id", json_string(id.as_str()));
            push_field(&mut f, "name", json_string(name.as_str()));
            push_field(&mut f, "input", empty_object());
        },
    }
    proof {
        reveal_strlit("");
        assert(""@ =~= Seq::<char>::empty());
        assert(fields_view(f@) =~= block_start_json(b@)->Object_0);
    }
    object_of(f)
}

fn delta_exec(d: &IrContentDelta) -> (r: Json)
    ensures
        r@ == delta_json(d@),
{
    let mut f: Vec<(String, Json)> = Vec::new();
    match d {
        IrContentDelta::TextDelta(t) => {
            push_field(&mut f, "type", json_string("text_delta"));
            push_field(&mut f, "text", json_string(t.as_str()));
        },
        IrContentDelta::ThinkingDelta(t) => {
            push_field(&mut f, "type", json_string("thinking_delta"));
            push_field(&mut f, "thinking", json_string(t.as_str()));
        },
        IrContentDelta::InputJsonDelta(p) => {
            push_field(&mut f, "type", json_string("input_json_delta"));
            push_field(&mut f, "partial_json", json_string(p.as_str()));
        },
    }
    proof {
        assert(fields_view(f@) =~= delta_json(d@)->Object_0);
    }
    object_of(f)
}

fn indexed_exec(kind: &str, index: usize, key: &str, inner: Json) -> (r: Json)
    ensures
        r@ == jobj(seq![("type"@, jstr(kind@)), ("index"@, JsonV::Int(index as int)), (key@, inner@)]),
{
    let mut f: Vec<(String, Json)> = Vec::new();
    push_field(&mut f, "type", json_string(kind));
    push_field(&mut f, "index", json_u64(index as u64));
    push_field(&mut f, key, inner);
    proof {
        assert(fields_view(f@) =~= seq![
            ("type"@, jstr(kind@)),
            ("index"@, JsonV::Int(index as int)),
            (key@, inner@),
        ]);
    }
    object_of(f)
}

fn message_start_exec(id: &str, model: &str, start_usage: &Option<IrUsage>) -> (r: Json)
    ensures
        r@ == message_start_json(id@, model@, *start_usage),
{
    let u: IrUsage = match start_usage {
        Some(u) => *u,
        None => IrUsage::default(),
    };
    let mut usage: Vec<(String, Json)> = Vec::new();
    push_field(&mut usage, "input_tokens", json_u64(u.input_tokens));
    push_field(&mut usage, "output_tokens", json_u64(u.output_tokens));
    let mut m: Vec<(String, Json)> = Vec::new();
    push_field(&mut m, "id", json_string(id));
    push_field(&mut m, "type", json_string("message"));
    push_field(&mut m, "role", json_string("assistant"));
    push_field(&mut m, "model", json_string(model));
    push_field(&mut m, "content", array_of(Vec::new()));
    push_field(&mut m, "stop_reason", Json::Null);
    push_field(&mut m, "stop_sequence", Json::Null);
    push_field(&mut m, "usage", object_of(usage));
    let mut f: Vec<(String, Json)> = Vec::new();
    push_field(&mut f, "type", json_string("message_start"));
    push_field(&mut f, "message", object_of(m));
    proof {
        let w = message_start_json(id@, model@, *start_usage)->Object_0;
        assert(items_view(Seq::<Json>::empty()) =~= Seq::<JsonV>::empty());
        assert(fields_view(usage@) =~= w[1].1->Object_0[7].1->Object_0);
        assert(fields_view(m@) =~= w[1].1->Object_0);
        assert(fields_view(f@) =~= w);
    }
    object_of(f)
}

impl MessagesRenderState {
    pub fn new() -> (r: Self)
        ensures
            r@ == initial_messages_render(),
    {
        MessagesRenderState {
            msg_id: String::new(),
            model: String::new(),
            started: false,
            last_stop_reason: None,
            last_usage: None,
        }
    }

    /// Renders one event as the text of an Anthropic SSE event, or nothing
    /// where the event is held back until the stream is finished.
    pub fn render_event(&mut self, ev: &IrStreamEvent) -> (r: Option<String>)
        ensures
            ({
                let (o, s2) = messages_render_spec(old(self)@, ev@);
                &&& final(self)@ == s2
                &&& match r {
                    Some(x) => match o {
                        Some((name, payload)) => x@ == sse_event(name, json_text(payload)),
                        None => false,
                    },
                    None => o is None,
                }
            }),
    {
        match ev {
            IrStreamEvent::MessageStart { id, model, usage } => {
                self.msg_id = id.clone();
                self.model = model.clone();
                self.started = true;
                let p = message_start_exec(id.as_str(), model.as_str(), usage);
                Some(frame_exec("message_start", &p))
            },
            IrStreamEvent::ContentBlockStart { index, block } => {
                let p = indexed_exec("content_block_start", *index, "content_block", block_start_exec(block));
                Some(frame_exec("content_block_start", &p))
            },
            IrStreamEvent::ContentBlockDelta { index, delta } => {
                let p = indexed_exec("content_block_delta", *index, "delta", delta_exec(delta));
                Some(frame_exec("content_block_delta", &p))
            },
            IrStreamEvent::ContentBlockStop { index } => {
                let mut f: Vec<(String, Json)> = Vec::new();
                push_field(&mut f, "type", json_string("content_block_stop"));
                push_field(&mut f, "index", json_u64(*index as u64));
                proof {
                    assert(fields_view(f@) =~= seq![
                        ("type"@, jstr("content_block_stop"@)),
                        ("index"@, JsonV::Int(*index as int)),
                    ]);
                }
                let p = object_of(f);
                Some(frame_exec("content_block_stop", &p))
            },
            IrStreamEvent::MessageDelta { stop_reason, usage } => {
                match stop_reason {
                    Some(sr) => {
                        self.last_stop_reason = Some(*sr);
                    },
                    None => {},
                }
                match usage {
                    Some(u) => {
                        self.last_usage = Some(*u);
                    },
                    None => {},
                }
                None
            },
            IrStreamEvent::MessageStop => None,
        }
    }

    /// The events that end the stream, `message_delta` then `message_stop`,
    /// with the recorded stop reason and the given final usage.
    pub fn finalize(&mut self, usage: &IrUsage) -> (r: Vec<String>)
        ensures
            final(self)@ == old(self)@,
            r@.len() == 2,
            r@[0]@ == sse_event("message_delta"@, json_text(final_delta_json(old(self)@, *usage))),
            r@[1]@ == sse_event(
                "message_stop"@,
                json_text(jobj(seq![("type"@, jstr("message_stop"@))])),
            ),
    {
        let sr: &str = match self.last_stop_reason {
            Some(r) => r.as_anthropic_str(),
            None => "end_turn",
        };
        let out_tokens: u64 = if usage.output_tokens > 0 {
            usage.output_tokens
        } else {
            usage.output_chars / 4
        };
        let mut d: Vec<(String, Json)> = Vec::new();
        push_field(&mut d, "stop_reason", json_string(sr));
        push_field(&mut d, "stop_sequence", Json::Null);
        let mut u: Vec<(String, Json)> = Vec::new();
        push_field(&mut u, "output_tokens", json_u64(out_tokens));
        push_field(&mut u, "cache_read_input_tokens", json_u64(usage.cache_read_input_tokens));
        let mut f: Vec<(String, Json)> = Vec::new();
        push_field(&mut f, "type", json_string("message_delta"));
        push_field(&mut f, "delta", object_of(d));
        push_field(&mut f, "usage", object_of(u));
        proof {
            let w = final_delta_json(self@, *usage)->Object_0;
            assert(fields_view(d@) =~= w[1].1->Object_0);
            assert(fields_view(u@) =~= w[2].1->Object_0);
            assert(fields_view(f@) =~= w);
        }
        let p1 = object_of(f);
        let mut g: Vec<(String, Json)> = Vec::new();
        push_field(&mut g, "type", json_string("message_stop"));
        proof {
            assert(fields_view(g@) =~= seq![("type"@, jstr("message_stop"@))]);
        }
        let p2 = object_of(g);
        let mut out: Vec<String> = Vec::new();
        out.push(frame_exec("message_delta", &p1));
        out.push(frame_exec("message_stop", &p2));
        out
    }
}

impl Default for MessagesRenderState {
    fn default() -> (r: Self)
        ensures
            r@ == initial_messages_render(),
    {
        Self::new()
    }
}

} // verus!
