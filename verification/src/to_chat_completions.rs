//! The neutral representation out to OpenAI Chat Completions: request bodies
//! and stream chunks.
//!
//! Chat streams have no block boundaries: every chunk carries the whole
//! `id`/`model`/`choices` frame, the first one names the assistant role, tool
//! calls have indices of their own, and the finish reason and usage come in
//! the last chunk.

use vstd::prelude::*;
use crate::ir::{
    blocks_view, lemma_blocks_view_index, lemma_blocks_view_len, system_view, BlockV, EventV,
    DeltaV, BlockStartV, ImageV, IrContentBlock, IrContentBlockStart, IrContentDelta, IrImageSource,
    IrMessage, IrRequest, IrRole, IrStopReason, IrStreamEvent, IrSystemContent, IrToolChoice,
    IrToolResultContent, IrUsage, MessageV, RequestV, SystemV, ToolChoiceV, ToolResultV, ToolV,
    chat_finish_str,
};
use crate::json::{
    array_of, fields_view, items_view, jobj, json_i64, json_string, json_text, json_u64, jstr,
    lemma_items_view_len, object_of, opt_json_view, opt_str_view, push_field, push_item,
    to_json_text, Json, JsonV,
};
use crate::text::{join_spec, join_strings};

verus! {

// ---- requests ----

/// The text of a system prompt; blocks are joined by newlines.
pub open spec fn system_text(s: SystemV) -> Seq<char> {
    match s {
        SystemV::Text(t) => t,
        SystemV::Blocks(bs) => join_spec(bs.map_values(|b: (Seq<char>, Option<JsonV>)| b.0), "\n"@),
    }
}

pub open spec fn role_name(r: IrRole) -> Seq<char> {
    match r {
        IrRole::User => "user"@,
        IrRole::Assistant => "assistant"@,
    }
}

/// The texts of the text blocks among `bs`, in order.
pub open spec fn block_texts(bs: Seq<BlockV>) -> Seq<Seq<char>>
    decreases bs.len(),
{
    if bs.len() == 0 {
        Seq::empty()
    } else {
        let rest = block_texts(bs.drop_last());
        match bs.last() {
            BlockV::Text { text, .. } => rest.push(text),
            _ => rest,
        }
    }
}

/// The text of a tool result: its text, or the texts of its text blocks
/// joined by newlines.
pub open spec fn tool_result_text(c: ToolResultV) -> Seq<char> {
    match c {
        ToolResultV::Text(t) => t,
        ToolResultV::Blocks(bs) => join_spec(block_texts(bs), "\n"@),
    }
}

/// The URL of an image: its URL, or a `data:` URL of its base64 data.
pub open spec fn image_url_of(src: ImageV) -> Seq<char> {
    match src {
        ImageV::Url { url } => url,
        ImageV::Base64 { media_type, data } => "data:"@ + media_type + ";base64,"@ + data,
    }
}

pub open spec fn image_part(url: Seq<char>) -> JsonV {
    jobj(seq![("type"@, jstr("image_url"@)), ("image_url"@, jobj(seq![("url"@, jstr(url))]))])
}

pub open spec fn text_part(text: Seq<char>) -> JsonV {
    jobj(seq![("type"@, jstr("text"@)), ("text"@, jstr(text))])
}

/// A tool call of an assistant message; its arguments are the JSON text of
/// its input.
pub open spec fn chat_tool_call(id: Seq<char>, name: Seq<char>, input: JsonV) -> JsonV {
    jobj(
        seq![
            ("id"@, jstr(id)),
            ("type"@, jstr("function"@)),
            ("function"@, jobj(seq![("name"@, jstr(name)), ("arguments"@, jstr(json_text(input)))])),
        ],
    )
}

pub open spec fn tool_message(id: Seq<char>, text: Seq<char>) -> JsonV {
    jobj(seq![("role"@, jstr("tool"@)), ("tool_call_id"@, jstr(id)), ("content"@, jstr(text))])
}

/// A message under construction: its texts not yet placed, its tool calls,
/// its reasoning, its content once an image fixed it, and the tool messages
/// its tool results give.
pub struct ChatMsgV {
    pub texts: Seq<Seq<char>>,
    pub tool_calls: Seq<JsonV>,
    pub reasoning: Option<Seq<char>>,
    pub content: Option<JsonV>,
    pub tool_msgs: Seq<JsonV>,
}

pub open spec fn empty_chat_msg() -> ChatMsgV {
    ChatMsgV {
        texts: Seq::empty(),
        tool_calls: Seq::empty(),
        reasoning: None,
        content: None,
        tool_msgs: Seq::empty(),
    }
}

/// One block of a message. The last reasoning counts; an image makes the
/// content an array of the texts so far (joined) and the image.
pub open spec fn chat_block_step(b: BlockV, m: ChatMsgV) -> ChatMsgV {
    match b {
        BlockV::Text { text, .. } => ChatMsgV { texts: m.texts.push(text), ..m },
        BlockV::Thinking { thinking, .. } => ChatMsgV { reasoning: Some(thinking), ..m },
        BlockV::ToolUse { id, name, input } => ChatMsgV {
            tool_calls: m.tool_calls.push(chat_tool_call(id, name, input)),
            ..m
        },
        BlockV::ToolResult { tool_use_id, content, .. } => ChatMsgV {
            tool_msgs: m.tool_msgs.push(tool_message(tool_use_id, tool_result_text(content))),
            ..m
        },
        BlockV::Image { source } => {
            let url = image_url_of(source);
            if m.texts.len() > 0 {
                ChatMsgV {
                    content: Some(
                        JsonV::Array(seq![text_part(join_spec(m.texts, "\n"@)), image_part(url)]),
                    ),
                    texts: Seq::empty(),
                    ..m
                }
            } else {
                ChatMsgV { content: Some(JsonV::Array(seq![image_part(url)])), ..m }
            }
        },
    }
}

pub open spec fn chat_blocks_fold(bs: Seq<BlockV>) -> ChatMsgV
    decreases bs.len(),
{
    if bs.len() == 0 {
        empty_chat_msg()
    } else {
        chat_block_step(bs.last(), chat_blocks_fold(bs.drop_last()))
    }
}

/// The content a finished message carries: its texts joined, where no image
/// fixed it; an empty text where it has neither content nor tool calls.
pub open spec fn chat_final_content(m: ChatMsgV) -> Option<JsonV> {
    if m.texts.len() > 0 {
        match m.content {
            Some(c) => Some(c),
            None => Some(jstr(join_spec(m.texts, "\n"@))),
        }
    } else if m.content is None && m.tool_calls.len() == 0 {
        Some(jstr(Seq::empty()))
    } else {
        m.content
    }
}

/// The message object: role, content, reasoning, then tool calls (with a
/// null content after them where there is no other).
pub open spec fn chat_msg_object(role: IrRole, m: ChatMsgV) -> JsonV {
    let content = chat_final_content(m);
    let f1 = seq![("role"@, jstr(role_name(role)))];
    let f2 = match content {
        Some(c) => f1.push(("content"@, c)),
        None => f1,
    };
    let f3 = match m.reasoning {
        Some(r) => f2.push(("reasoning_content"@, jstr(r))),
        None => f2,
    };
    let f4 = if m.tool_calls.len() > 0 {
        let g = f3.push(("tool_calls"@, JsonV::Array(m.tool_calls)));
        if content is None {
            g.push(("content"@, JsonV::Null))
        } else {
            g
        }
    } else {
        f3
    };
    jobj(f4)
}

/// What one message gives: its tool messages, then itself.
pub open spec fn chat_message_objects(msg: MessageV) -> Seq<JsonV> {
    let m = chat_blocks_fold(msg.content);
    m.tool_msgs.push(chat_msg_object(msg.role, m))
}

pub open spec fn chat_messages_objects(ms: Seq<MessageV>) -> Seq<JsonV>
    decreases ms.len(),
{
    if ms.len() == 0 {
        Seq::empty()
    } else {
        chat_messages_objects(ms.drop_last()) + chat_message_objects(ms.last())
    }
}

pub open spec fn chat_tool_object(t: ToolV) -> JsonV {
    let f = seq![("name"@, jstr(t.name)), ("parameters"@, t.input_schema)];
    jobj(
        seq![
            ("type"@, jstr("function"@)),
            ("function"@, jobj(
                match t.description {
                    Some(d) => f.push(("description"@, jstr(d))),
                    None => f,
                },
            )),
        ],
    )
}

pub open spec fn chat_tool_choice_json(tc: ToolChoiceV) -> JsonV {
    match tc {
        ToolChoiceV::Auto => jstr("auto"@),
        ToolChoiceV::Any => jstr("required"@),
        ToolChoiceV::NoTools => jstr("none"@),
        ToolChoiceV::Tool { name } => jobj(
            seq![("type"@, jstr("function"@)), ("function"@, jobj(seq![("name"@, jstr(name))]))],
        ),
    }
}

/// The reasoning effort a thinking budget asks for: up to 2048 low, up to
/// 8192 medium, above that (or with no budget) high.
pub open spec fn reasoning_effort(budget: Option<u64>) -> Seq<char> {
    match budget {
        Some(b) => if b <= 2048 {
            "low"@
        } else if b <= 8192 {
            "medium"@
        } else {
            "high"@
        },
        None => "high"@,
    }
}

/// The Chat Completions body of a request.
pub open spec fn chat_request_json(r: RequestV) -> JsonV {
    let sys = match r.system {
        Some(s) => seq![jobj(seq![("role"@, jstr("system"@)), ("content"@, jstr(system_text(s)))])],
        None => Seq::empty(),
    };
    let f0 = seq![
        ("model"@, jstr(r.model)),
        ("stream"@, JsonV::Bool(r.stream)),
        ("messages"@, JsonV::Array(sys + chat_messages_objects(r.messages))),
    ];
    let f1 = if r.tools.len() > 0 {
        f0.push(("tools"@, JsonV::Array(r.tools.map_values(|t: ToolV| chat_tool_object(t)))))
    } else {
        f0
    };
    let f2 = match r.tool_choice {
        Some(tc) => f1.push(("tool_choice"@, chat_tool_choice_json(tc))),
        None => f1,
    };
    let f3 = match r.thinking {
        Some(t) => if t.enabled {
            f2.push(("reasoning_effort"@, jstr(reasoning_effort(t.budget_tokens))))
        } else {
            f2
        },
        None => f2,
    };
    let f4 = match r.max_tokens {
        Some(m) => f3.push(("max_tokens"@, JsonV::Int(m as int))),
        None => f3,
    };
    let f5 = match r.temperature {
        Some(t) => f4.push(("temperature"@, t)),
        None => f4,
    };
    let f6 = match r.top_p {
        Some(t) => f5.push(("top_p"@, t)),
        None => f5,
    };
    jobj(f6)
}

pub open spec fn strings_view(v: Seq<String>) -> Seq<Seq<char>> {
    v.map_values(|t: String| t@)
}

fn system_text_exec(s: &IrSystemContent) -> (r: String)
    ensures
        r@ == system_text(system_view(*s)),
{
    match s {
        IrSystemContent::Text(t) => t.clone(),
        IrSystemContent::Blocks(bs) => {
            let ghost sv = bs@.map_values(
                |b: crate::ir::IrSystemBlock| (b.text@, opt_json_view(b.cache_control)),
            );
            let mut texts: Vec<String> = Vec::new();
            let mut i: usize = 0;
            while i < bs.len()
                invariant
                    i <= bs@.len(),
                    sv == bs@.map_values(
                        |b: crate::ir::IrSystemBlock| (b.text@, opt_json_view(b.cache_control)),
                    ),
                    strings_view(texts@) == sv.take(i as int).map_values(
                        |b: (Seq<char>, Option<JsonV>)| b.0,
                    ),
                decreases bs@.len() - i,
            {
                let ghost before = strings_view(texts@);
                texts.push(bs[i].text.clone());
                proof {
                    assert(strings_view(texts@) =~= before.push(bs@[i as int].text@));
                    assert(sv.take(i as int + 1).map_values(|b: (Seq<char>, Option<JsonV>)| b.0)
                        =~= sv.take(i as int).map_values(|b: (Seq<char>, Option<JsonV>)| b.0).push(
                        bs@[i as int].text@,
                    ));
                }
                i = i + 1;
            }
            proof {
                assert(sv.take(i as int) =~= sv);
            }
            join_strings(&texts, "\n")
        },
    }
}

fn block_texts_exec(bs: &Vec<IrContentBlock>) -> (r: Vec<String>)
    ensures
        strings_view(r@) == block_texts(blocks_view(bs@)),
{
    let ghost bv = blocks_view(bs@);
    proof {
        lemma_blocks_view_len(bs@);
    }
    let mut out: Vec<String> = Vec::new();
    let mut i: usize = 0;
    while i < bs.len()
        invariant
            i <= bs@.len(),
            bv == blocks_view(bs@),
            bv.len() == bs@.len(),
            strings_view(out@) == block_texts(bv.take(i as int)),
        decreases bs@.len() - i,
    {
        proof {
            lemma_blocks_view_index(bs@, i as int);
            assert(bv.take(i as int + 1).drop_last() =~= bv.take(i as int));
        }
        match &bs[i] {
            IrContentBlock::Text { text, .. } => {
                let ghost before = strings_view(out@);
                out.push(text.clone());
                proof {
                    assert(strings_view(out@) =~= before.push(text@));
                }
            },
            _ => {},
        }
        i = i + 1;
    }
    proof {
        assert(bv.take(i as int) =~= bv);
    }
    out
}

fn tool_result_text_exec(c: &IrToolResultContent) -> (r: String)
    ensures
        r@ == tool_result_text(
            match *c {
                IrToolResultContent::Text(t) => ToolResultV::Text(t@),
                IrToolResultContent::Blocks(bs) => ToolResultV::Blocks(blocks_view(bs@)),
            },
        ),
{
    match c {
        IrToolResultContent::Text(t) => t.clone(),
        IrToolResultContent::Blocks(bs) => {
            let texts = block_texts_exec(bs);
            join_strings(&texts, "\n")
        },
    }
}

/// The text of a tool result, as `tool_result_text` says.
pub fn tool_result_text_pub(c: &IrToolResultContent) -> (r: String)
    ensures
        r@ == tool_result_text(
            match *c {
                IrToolResultContent::Text(t) => ToolResultV::Text(t@),
                IrToolResultContent::Blocks(bs) => ToolResultV::Blocks(blocks_view(bs@)),
            },
        ),
{
    tool_result_text_exec(c)
}

fn image_url_exec(src: &IrImageSource) -> (r: String)
    ensures
        r@ == image_url_of(crate::ir::image_view(*src)),
{
    match src {
        IrImageSource::Url { url } => url.clone(),
        IrImageSource::Base64 { media_type, data } => {
            let mut out = String::from_str("data:");
            out.append(media_type.as_str());
            out.append(";base64,");
            out.append(data.as_str());
            out
        },
    }
}

fn image_part_exec(url: &str) -> (r: Json)
    ensures
        r@ == image_part(url@),
{
    let mut inner: Vec<(String, Json)> = Vec::new();
    push_field(&mut inner, "url", json_string(url));
    let mut f: Vec<(String, Json)> = Vec::new();
    push_field(&mut f, "type", json_string("image_url"));
    push_field(&mut f, "image_url", object_of(inner));
    proof {
        assert(fields_view(inner@) =~= seq![("url"@, jstr(url@))]);
        assert(fields_view(f@) =~= image_part(url@)->Object_0);
    }
    object_of(f)
}

fn text_part_exec(text: &str) -> (r: Json)
    ensures
        r@ == text_part(text@),
{
    let mut f: Vec<(String, Json)> = Vec::new();
    push_field(&mut f, "type", json_string("text"));
    push_field(&mut f, "text", json_string(text));
    proof {
        assert(fields_view(f@) =~= text_part(text@)->Object_0);
    }
    object_of(f)
}

fn tool_call_exec(id: &str, name: &str, input: &Json) -> (r: Json)
    ensures
        r@ == chat_tool_call(id@, name@, input@),
{
    let args = to_json_text(input);
    let mut func: Vec<(String, Json)> = Vec::new();
    push_field(&mut func, "name", json_string(name));
    push_field(&mut func, "arguments", Json::Str(args));
    let mut f: Vec<(String, Json)> = Vec::new();
    push_field(&mut f, "id", json_string(id));
    push_field(&mut f, "type", json_string("function"));
    push_field(&mut f, "function", object_of(func));
    proof {
        assert(fields_view(func@) =~= seq![
            ("name"@, jstr(name@)),
            ("arguments"@, jstr(json_text(input@))),
        ]);
        assert(fields_view(f@) =~= chat_tool_call(id@, name@, input@)->Object_0);
    }
    object_of(f)
}

fn tool_message_exec(id: &str, text: String) -> (r: Json)
    ensures
        r@ == tool_message(id@, text@),
{
    let mut f: Vec<(String, Json)> = Vec::new();
    push_field(&mut f, "role", json_string("tool"));
    push_field(&mut f, "tool_call_id", json_string(id));
    push_field(&mut f, "content", Json::Str(text));
    proof {
        assert(fields_view(f@) =~= tool_message(id@, text@)->Object_0);
    }
    object_of(f)
}

/// The state of a message under construction, by its parts.
pub open spec fn chat_msg_view(
    texts: Seq<String>,
    tool_calls: Seq<Json>,
    reasoning: Option<String>,
    content: Option<Json>,
    tool_msgs: Seq<JsonV>,
) -> ChatMsgV {
    ChatMsgV {
        texts: strings_view(texts),
        tool_calls: items_view(tool_calls),
        reasoning: opt_str_view(reasoning),
        content: opt_json_view(content),
        tool_msgs,
    }
}

/// Renders one message onto `out`: its tool messages, then itself.
fn render_chat_message(msg: &IrMessage, out: &mut Vec<Json>)
    ensures
        items_view(final(out)@) == items_view(old(out)@) + chat_message_objects(msg@),
{
    let ghost o0 = items_view(out@);
    let ghost bv = blocks_view(msg.content@);
    proof {
        lemma_blocks_view_len(msg.content@);
    }
    let mut texts: Vec<String> = Vec::new();
    let mut tool_calls: Vec<Json> = Vec::new();
    let mut reasoning: Option<String> = None;
    let mut content: Option<Json> = None;
    proof {
        assert(strings_view(texts@) =~= Seq::<Seq<char>>::empty());
        assert(items_view(tool_calls@) =~= Seq::<JsonV>::empty());
        assert(o0 + Seq::<JsonV>::empty() =~= o0);
    }
    let mut i: usize = 0;
    while i < msg.content.len()
        invariant
            i <= msg.content@.len(),
            bv == blocks_view(msg.content@),
            bv.len() == msg.content@.len(),
            ({
                let m = chat_blocks_fold(bv.take(i as int));
                &&& chat_msg_view(texts@, tool_calls@, reasoning, content, m.tool_msgs) == m
                &&& items_view(out@) == o0 + m.tool_msgs
            }),
        decreases msg.content@.len() - i,
    {
        proof {
            lemma_blocks_view_index(msg.content@, i as int);
            assert(bv.take(i as int + 1).drop_last() =~= bv.take(i as int));
        }
        let ghost m0 = chat_blocks_fold(bv.take(i as int));
        match &msg.content[i] {
            IrContentBlock::Text { text, .. } => {
                texts.push(text.clone());
                proof {
                    assert(strings_view(texts@) =~= m0.texts.push(text@));
                }
            },
            IrContentBlock::Thinking { thinking, .. } => {
                reasoning = Some(thinking.clone());
            },
            IrContentBlock::ToolUse { id, name, input } => {
                let tc = tool_call_exec(id.as_str(), name.as_str(), input);
                push_item(&mut tool_calls, tc);
            },
            IrContentBlock::ToolResult { tool_use_id, content: c, .. } => {
                let text = tool_result_text_exec(c);
                let tm = tool_message_exec(tool_use_id.as_str(), text);
                let ghost tmv = tm@;
                push_item(out, tm);
                proof {
                    assert(o0 + m0.tool_msgs.push(tmv) =~= (o0 + m0.tool_msgs).push(tmv));
                }
            },
            IrContentBlock::Image { source } => {
                let url = image_url_exec(source);
                let img = image_part_exec(url.as_str());
                let mut parts: Vec<Json> = Vec::new();
                if texts.len() > 0 {
                    let joined = join_strings(&texts, "\n");
                    push_item(&mut parts, text_part_exec(joined.as_str()));
                    push_item(&mut parts, img);
                    texts = Vec::new();
                    proof {
                        assert(strings_view(texts@) =~= Seq::<Seq<char>>::empty());
                        assert(items_view(parts@) =~= seq![
                            text_part(join_spec(m0.texts, "\n"@)),
                            image_part(url@),
                        ]);
                    }
                } else {
                    push_item(&mut parts, img);
                    proof {
                        assert(items_view(parts@) =~= seq![image_part(url@)]);
                    }
                }
                content = Some(array_of(parts));
            },
        }
        i = i + 1;
    }
    proof {
        assert(bv.take(i as int) =~= bv);
    }
    let ghost m = chat_blocks_fold(bv);
    let ghost fc = chat_final_content(m);
    let final_content: Option<Json> = if texts.len() > 0 {
        match content {
            Some(c) => Some(c),
            None => {
                let joined = join_strings(&texts, "\n");
                Some(Json::Str(joined))
            },
        }
    } else if content.is_none() && tool_calls.len() == 0 {
        proof {
            lemma_items_view_len(tool_calls@);
        }
        Some(Json::Str(String::new()))
    } else {
        proof {
            lemma_items_view_len(tool_calls@);
        }
        content
    };
    proof {
        lemma_items_view_len(tool_calls@);
        assert(opt_json_view(final_content) == fc);
    }
    let role: &str = match msg.role {
        IrRole::User => "user",
        IrRole::Assistant => "assistant",
    };
    let mut f: Vec<(String, Json)> = Vec::new();
    push_field(&mut f, "role", json_string(role));
    let has_content = final_content.is_some();
    match final_content {
        Some(c) => {
            push_field(&mut f, "content", c);
        },
        None => {},
    }
    match reasoning {
        Some(r) => {
            push_field(&mut f, "reasoning_content", Json::Str(r));
        },
        None => {},
    }
    if tool_calls.len() > 0 {
        push_field(&mut f, "tool_calls", array_of(tool_calls));
        if !has_content {
            push_field(&mut f, "content", Json::Null);
        }
    }
    proof {
        let f1 = seq![("role"@, jstr(role_name(msg.role)))];
        assert(fields_view(f@) =~= chat_msg_object(msg.role, m)->Object_0);
    }
    let obj = object_of(f);
    let ghost ov = obj@;
    push_item(out, obj);
    proof {
        assert(o0 + m.tool_msgs.push(ov) =~= (o0 + m.tool_msgs).push(ov));
    }
}

fn chat_tool_object_exec(t: &crate::ir::IrTool) -> (r: Json)
    ensures
        r@ == chat_tool_object(t@),
{
    let mut func: Vec<(String, Json)> = Vec::new();
    push_field(&mut func, "name", json_string(t.name.as_str()));
    push_field(&mut func, "parameters", t.input_schema.copy());
    match &t.description {
        Some(d) => {
            push_field(&mut func, "description", json_string(d.as_str()));
        },
        None => {},
    }
    let mut f: Vec<(String, Json)> = Vec::new();
    push_field(&mut f, "type", json_string("function"));
    push_field(&mut f, "function", object_of(func));
    proof {
        let fv = seq![("name"@, jstr(t@.name)), ("parameters"@, t@.input_schema)];
        assert(fields_view(func@) =~= match t@.description {
            Some(d) => fv.push(("description"@, jstr(d))),
            None => fv,
        });
        assert(fields_view(f@) =~= chat_tool_object(t@)->Object_0);
    }
    object_of(f)
}

fn chat_tool_choice_exec(tc: &IrToolChoice) -> (r: Json)
    ensures
        r@ == chat_tool_choice_json(tc@),
{
    match tc {
        IrToolChoice::Auto => json_string("auto"),
        IrToolChoice::Any => json_string("required"),
        IrToolChoice::NoTools => json_string("none"),
        IrToolChoice::Tool { name } => {
            let mut inner: Vec<(String, Json)> = Vec::new();
            push_field(&mut inner, "name", json_string(name.as_str()));
            let mut f: Vec<(String, Json)> = Vec::new();
            push_field(&mut f, "type", json_string("function"));
            push_field(&mut f, "function", object_of(inner));
            proof {
                assert(fields_view(inner@) =~= seq![("name"@, jstr(name@))]);
                assert(fields_view(f@) =~= chat_tool_choice_json(tc@)->Object_0);
            }
            object_of(f)
        },
    }
}

/// The messages array: the system prompt, then each message.
fn chat_messages_exec(req: &IrRequest) -> (r: Vec<Json>)
    ensures
        items_view(r@) == (match req@.system {
            Some(s) => seq![jobj(seq![("role"@, jstr("system"@)), ("content"@, jstr(system_text(s)))])],
            None => Seq::<JsonV>::empty(),
        }) + chat_messages_objects(req@.messages),
{
    let mut messages: Vec<Json> = Vec::new();
    proof {
        assert(items_view(messages@) =~= Seq::<JsonV>::empty());
    }
    match &req.system {
        Some(s) => {
            let text = system_text_exec(s);
            let mut f: Vec<(String, Json)> = Vec::new();
            push_field(&mut f, "role", json_string("system"));
            push_field(&mut f, "content", Json::Str(text));
            push_item(&mut messages, object_of(f));
            proof {
                assert(fields_view(f@) =~= seq![
                    ("role"@, jstr("system"@)),
                    ("content"@, jstr(system_text(system_view(*s)))),
                ]);
            }
        },
        None => {},
    }
    let ghost sys = items_view(messages@);
    let ghost mv = req.messages@.map_values(|m: IrMessage| m@);
    let mut i: usize = 0;
    while i < req.messages.len()
        invariant
            i <= req.messages@.len(),
            mv == req.messages@.map_values(|m: IrMessage| m@),
            items_view(messages@) == sys + chat_messages_objects(mv.take(i as int)),
        decreases req.messages@.len() - i,
    {
        proof {
            assert(mv.take(i as int + 1).drop_last() =~= mv.take(i as int));
            assert(mv.take(i as int + 1).last() == req.messages@[i as int]@);
        }
        render_chat_message(&req.messages[i], &mut messages);
        proof {
            assert(sys + chat_messages_objects(mv.take(i as int + 1)) =~= sys
                + chat_messages_objects(mv.take(i as int)) + chat_message_objects(
                req.messages@[i as int]@,
            ));
        }
        i = i + 1;
    }
    proof {
        assert(mv.take(i as int) =~= mv);
    }
    messages
}

fn chat_tools_exec(tools: &Vec<crate::ir::IrTool>) -> (r: Vec<Json>)
    ensures
        items_view(r@) == tools@.map_values(|t: crate::ir::IrTool| t@).map_values(
            |t: ToolV| chat_tool_object(t),
        ),
{
    let mut out: Vec<Json> = Vec::new();
    let ghost tv = tools@.map_values(|t: crate::ir::IrTool| t@);
    let mut k: usize = 0;
    while k < tools.len()
        invariant
            k <= tools@.len(),
            tv == tools@.map_values(|t: crate::ir::IrTool| t@),
            items_view(out@) == tv.take(k as int).map_values(|t: ToolV| chat_tool_object(t)),
        decreases tools@.len() - k,
    {
        let ghost before = items_view(out@);
        push_item(&mut out, chat_tool_object_exec(&tools[k]));
        proof {
            assert(tv.take(k as int + 1).map_values(|t: ToolV| chat_tool_object(t)) =~= before.push(
                chat_tool_object(tv[k as int]),
            ));
        }
        k = k + 1;
    }
    proof {
        assert(tv.take(k as int) =~= tv);
    }
    out
}

/// Writes a request as an OpenAI Chat Completions body.
pub fn ir_req_to_chat_completions(req: &IrRequest) -> (r: Json)
    ensures
        r@ == chat_request_json(req@),
{
    let ghost rv = req@;
    let messages = chat_messages_exec(req);
    let mut out: Vec<(String, Json)> = Vec::new();
    push_field(&mut out, "model", json_string(req.model.as_str()));
    push_field(&mut out, "stream", Json::Bool(req.stream));
    push_field(&mut out, "messages", array_of(messages));
    proof {
        let sys = match rv.system {
            Some(s) => seq![jobj(seq![("role"@, jstr("system"@)), ("content"@, jstr(system_text(s)))])],
            None => Seq::<JsonV>::empty(),
        };
        assert(fields_view(out@) =~= seq![
            ("model"@, jstr(rv.model)),
            ("stream"@, JsonV::Bool(rv.stream)),
            ("messages"@, JsonV::Array(sys + chat_messages_objects(rv.messages))),
        ]);
    }
    if req.tools.len() > 0 {
        let tools = chat_tools_exec(&req.tools);
        push_field(&mut out, "tools", array_of(tools));
    }
    match &req.tool_choice {
        Some(tc) => {
            push_field(&mut out, "tool_choice", chat_tool_choice_exec(tc));
        },
        None => {},
    }
    match req.thinking {
        Some(t) => {
            if t.enabled {
                let effort: &str = match t.budget_tokens {
                    Some(b) => if b <= 2048 {
                        "low"
                    } else if b <= 8192 {
                        "medium"
                    } else {
                        "high"
                    },
                    None => "high",
                };
                push_field(&mut out, "reasoning_effort", json_string(effort));
            }
        },
        None => {},
    }
    match req.max_tokens {
        Some(m) => {
            push_field(&mut out, "max_tokens", json_u64(m));
        },
        None => {},
    }
    match &req.temperature {
        Some(t) => {
            push_field(&mut out, "temperature", Json::Number(t.copy()));
        },
        None => {},
    }
    match &req.top_p {
        Some(t) => {
            push_field(&mut out, "top_p", Json::Number(t.copy()));
        },
        None => {},
    }
    proof {
        assert(fields_view(out@) =~= chat_request_json(rv)->Object_0);
    }
    object_of(out)
}


// ---- stream chunks ----

/// The state of a Chat Completions stream renderer.
pub struct ChatCompletionsRenderState {
    pub msg_id: String,
    pub model: String,
    /// The creation time every chunk carries, in seconds since the epoch.
    pub created: i64,
    /// The tool calls announced so far.
    pub tool_count: usize,
    /// Whether a chunk has named the assistant role yet.
    pub first_chunk_sent: bool,
    /// Whether the end-of-stream marker was written.
    pub done_sent: bool,
}

pub struct ChatRenderV {
    pub msg_id: Seq<char>,
    pub model: Seq<char>,
    pub created: i64,
    pub tool_count: int,
    pub first_chunk_sent: bool,
    pub done_sent: bool,
}

impl View for ChatCompletionsRenderState {
    type V = ChatRenderV;

    open spec fn view(&self) -> ChatRenderV {
        ChatRenderV {
            msg_id: self.msg_id@,
            model: self.model@,
            created: self.created,
            tool_count: self.tool_count as int,
            first_chunk_sent: self.first_chunk_sent,
            done_sent: self.done_sent,
        }
    }
}

/// What a renderer writes for one event: a data frame holding a document,
/// or the end-of-stream marker.
pub enum SseOutV {
    Data(JsonV),
    Done,
}

/// The frame of a data line.
pub open spec fn sse_data(data: Seq<char>) -> Seq<char> {
    "data: "@ + data + "\n\n"@
}

pub open spec fn done_frame() -> Seq<char> {
    "data: [DONE]\n\n"@
}

pub open spec fn chat_frame(o: SseOutV) -> Seq<char> {
    match o {
        SseOutV::Data(p) => sse_data(json_text(p)),
        SseOutV::Done => done_frame(),
    }
}

/// A chunk of the stream, with its one choice.
pub open spec fn chat_chunk_json(s: ChatRenderV, delta: JsonV, finish: JsonV) -> JsonV {
    jobj(
        seq![
            ("id"@, jstr(s.msg_id)),
            ("object"@, jstr("chat.completion.chunk"@)),
            ("created"@, JsonV::Int(s.created as int)),
            ("model"@, jstr(s.model)),
            ("choices"@, JsonV::Array(
                seq![
                    jobj(
                        seq![
                            ("index"@, JsonV::Int(0)),
                            ("delta"@, delta),
                            ("finish_reason"@, finish),
                        ],
                    ),
                ],
            )),
        ],
    )
}

/// The role the first chunk names.
pub open spec fn role_fields(s: ChatRenderV) -> Seq<(Seq<char>, JsonV)> {
    if !s.first_chunk_sent {
        seq![("role"@, jstr("assistant"@))]
    } else {
        Seq::empty()
    }
}

/// The output tokens of a usage: the reported count, else a quarter of the
/// characters seen.
pub open spec fn usage_output_tokens(u: IrUsage) -> int {
    if u.output_tokens > 0 {
        u.output_tokens as int
    } else {
        (u.output_chars / 4) as int
    }
}

pub open spec fn chat_usage_json(u: IrUsage) -> JsonV {
    let prompt = u.input_tokens + u.cache_read_input_tokens;
    let out = usage_output_tokens(u);
    jobj(
        seq![
            ("prompt_tokens"@, JsonV::Int(prompt)),
            ("completion_tokens"@, JsonV::Int(out)),
            ("total_tokens"@, JsonV::Int(prompt + out)),
            ("prompt_tokens_details"@, jobj(
                seq![("cached_tokens"@, JsonV::Int(u.cache_read_input_tokens as int))],
            )),
        ],
    )
}

/// The tool call an argument delta of block `index` belongs to: the block
/// index less all but one of the tool calls announced, never below 0.
pub open spec fn tool_arg_index(index: int, tool_count: int) -> int {
    let base = if tool_count >= 1 {
        tool_count - 1
    } else {
        0
    };
    if index >= base {
        index - base
    } else {
        0
    }
}

pub open spec fn tool_call_header(index: int, id: Seq<char>, name: Seq<char>) -> JsonV {
    jobj(
        seq![
            ("index"@, JsonV::Int(index)),
            ("id"@, jstr(id)),
            ("type"@, jstr("function"@)),
            ("function"@, jobj(seq![("name"@, jstr(name)), ("arguments"@, jstr(Seq::empty()))])),
        ],
    )
}

pub open spec fn delta_field(index: int, d: DeltaV, tool_count: int) -> (Seq<char>, JsonV) {
    match d {
        DeltaV::Text(t) => ("content"@, jstr(t)),
        DeltaV::Thinking(t) => ("reasoning_content"@, jstr(t)),
        DeltaV::InputJson(p) => (
            "tool_calls"@,
            JsonV::Array(
                seq![
                    jobj(
                        seq![
                            ("index"@, JsonV::Int(tool_arg_index(index, tool_count))),
                            ("function"@, jobj(seq![("arguments"@, jstr(p))])),
                        ],
                    ),
                ],
            ),
        ),
    }
}

/// What one event writes and how the state moves: a message start only
/// records the id and model; block starts and stops write nothing but a
/// tool call's header; deltas, the final delta and the stop write chunks.
pub open spec fn chat_render_spec(s: ChatRenderV, ev: EventV) -> (Option<SseOutV>, ChatRenderV) {
    match ev {
        EventV::MessageStart { id, model, .. } => (None, ChatRenderV { msg_id: id, model, ..s }),
        EventV::BlockStart { block, .. } => match block {
            BlockStartV::ToolUse { id, name } => {
                let s1 = ChatRenderV { tool_count: s.tool_count + 1, first_chunk_sent: true, ..s };
                let delta = jobj(
                    role_fields(s).push(
                        ("tool_calls"@, JsonV::Array(seq![tool_call_header(s.tool_count, id, name)])),
                    ),
                );
                (Some(SseOutV::Data(chat_chunk_json(s, delta, JsonV::Null))), s1)
            },
            _ => (None, s),
        },
        EventV::BlockDelta { index, delta } => {
            let s1 = ChatRenderV { first_chunk_sent: true, ..s };
            let d = jobj(role_fields(s).push(delta_field(index, delta, s.tool_count)));
            (Some(SseOutV::Data(chat_chunk_json(s, d, JsonV::Null))), s1)
        },
        EventV::BlockStop { .. } => (None, s),
        EventV::MessageDelta { stop_reason, usage } => {
            let fr = match stop_reason {
                Some(r) => jstr(chat_finish_str(r)),
                None => JsonV::Null,
            };
            let base = chat_chunk_json(s, jobj(Seq::empty()), fr);
            let chunk = match usage {
                Some(u) => jobj(base->Object_0.push(("usage"@, chat_usage_json(u)))),
                None => base,
            };
            (Some(SseOutV::Data(chunk)), s)
        },
        EventV::MessageStop => (Some(SseOutV::Done), ChatRenderV { done_sent: true, ..s }),
    }
}

/// Whether an event writes a chunk that may name the role: a delta, or the
/// start of a tool call.
pub open spec fn writes_role(ev: EventV) -> bool {
    ||| ev is BlockDelta
    ||| ev matches EventV::BlockStart { block: BlockStartV::ToolUse { .. }, .. }
}

/// The renderer after a run of events.
pub open spec fn chat_state_after(s: ChatRenderV, evs: Seq<EventV>) -> ChatRenderV
    decreases evs.len(),
{
    if evs.len() == 0 {
        s
    } else {
        chat_render_spec(chat_state_after(s, evs.drop_last()), evs.last()).1
    }
}

proof fn lemma_first_chunk_sent(s: ChatRenderV, evs: Seq<EventV>)
    ensures
        chat_state_after(s, evs).first_chunk_sent == (s.first_chunk_sent || exists|j: int|
            0 <= j < evs.len() && writes_role(#[trigger] evs[j])),
    decreases evs.len(),
{
    if evs.len() > 0 {
        let d = evs.drop_last();
        lemma_first_chunk_sent(s, d);
        if exists|j: int| 0 <= j < d.len() && writes_role(#[trigger] d[j]) {
            let j = choose|j: int| 0 <= j < d.len() && writes_role(#[trigger] d[j]);
            assert(evs[j] == d[j]);
        }
        if exists|j: int| 0 <= j < evs.len() && writes_role(#[trigger] evs[j]) {
            let j = choose|j: int| 0 <= j < evs.len() && writes_role(#[trigger] evs[j]);
            if j < d.len() {
                assert(d[j] == evs[j]);
            }
        }
    }
}

/// Over a whole stream the role is named once: from a renderer that has not
/// named it, the chunk of event `i` carries the role exactly when `i` is the
/// first event that writes a delta or a tool call's start.
pub proof fn law_role_only_first(s: ChatRenderV, evs: Seq<EventV>, i: int)
    requires
        !s.first_chunk_sent,
        0 <= i < evs.len(),
    ensures
        (writes_role(evs[i]) && role_fields(chat_state_after(s, evs.take(i))).len() > 0) == (writes_role(
            evs[i],
        ) && forall|j: int| 0 <= j < i ==> !writes_role(#[trigger] evs[j])),
{
    let pre = evs.take(i);
    lemma_first_chunk_sent(s, pre);
    if exists|j: int| 0 <= j < i && writes_role(#[trigger] evs[j]) {
        let j = choose|j: int| 0 <= j < i && writes_role(#[trigger] evs[j]);
        assert(pre[j] == evs[j]);
    }
    if exists|j: int| 0 <= j < pre.len() && writes_role(#[trigger] pre[j]) {
        let j = choose|j: int| 0 <= j < pre.len() && writes_role(#[trigger] pre[j]);
        assert(pre[j] == evs[j]);
    }
}

/// The renderer can take the event: a tool call can still be counted, and
/// the token totals of a final usage fit in 64 bits.
pub open spec fn chat_render_ok(s: ChatRenderV, ev: EventV) -> bool {
    &&& (ev matches EventV::BlockStart { block: BlockStartV::ToolUse { .. }, .. } ==> s.tool_count
        < usize::MAX)
    &&& (ev matches EventV::MessageDelta { usage: Some(u), .. } ==> u.input_tokens
        + u.cache_read_input_tokens + usage_output_tokens(u) <= u64::MAX)
}

/// Frames a data line: `data: `, the data and a blank line.
pub fn sse_data_frame(data: &str) -> (r: String)
    ensures
        r@ == sse_data(data@),
{
    let mut out = String::from_str("data: ");
    out.append(data);
    out.append("\n\n");
    out
}

fn done_frame_exec() -> (r: String)
    ensures
        r@ == done_frame(),
{
    String::from_str("data: [DONE]\n\n")
}

fn chat_chunk_exec(s: &ChatCompletionsRenderState, delta: Json, finish: Json) -> (r: Json)
    ensures
        r@ == chat_chunk_json(s@, delta@, finish@),
{
    let mut choice: Vec<(String, Json)> = Vec::new();
    push_field(&mut choice, "index", json_u64(0));
    push_field(&mut choice, "delta", delta);
    push_field(&mut choice, "finish_reason", finish);
    let mut choices: Vec<Json> = Vec::new();
    push_item(&mut choices, object_of(choice));
    let mut f: Vec<(String, Json)> = Vec::new();
    push_field(&mut f, "id", json_string(s.msg_id.as_str()));
    push_field(&mut f, "object", json_string("chat.completion.chunk"));
    push_field(&mut f, "created", json_i64(s.created));
    push_field(&mut f, "model", json_string(s.model.as_str()));
    push_field(&mut f, "choices", array_of(choices));
    proof {
        let c = chat_chunk_json(s@, delta@, finish@)->Object_0;
        assert(fields_view(choice@) =~= c[4].1->Array_0[0]->Object_0);
        assert(items_view(choices@) =~= c[4].1->Array_0);
        assert(fields_view(f@) =~= c);
    }
    object_of(f)
}

fn role_fields_exec(first_chunk_sent: bool) -> (r: Vec<(String, Json)>)
    ensures
        fields_view(r@) == role_fields(ChatRenderV {
            msg_id: Seq::empty(),
            model: Seq::empty(),
            created: 0,
            tool_count: 0,
            first_chunk_sent,
            done_sent: false,
        }),
{
    let mut f: Vec<(String, Json)> = Vec::new();
    if !first_chunk_sent {
        push_field(&mut f, "role", json_string("assistant"));
        proof {
            assert(fields_view(f@) =~= seq![("role"@, jstr("assistant"@))]);
        }
    } else {
        proof {
            assert(fields_view(f@) =~= Seq::<(Seq<char>, JsonV)>::empty());
        }
    }
    f
}

fn chat_usage_exec(u: &IrUsage) -> (r: Json)
    requires
        u.input_tokens + u.cache_read_input_tokens + usage_output_tokens(*u) <= u64::MAX,
    ensures
        r@ == chat_usage_json(*u),
{
    let out: u64 = if u.output_tokens > 0 {
        u.output_tokens
    } else {
        u.output_chars / 4
    };
    let prompt: u64 = u.input_tokens + u.cache_read_input_tokens;
    let mut details: Vec<(String, Json)> = Vec::new();
    push_field(&mut details, "cached_tokens", json_u64(u.cache_read_input_tokens));
    let mut f: Vec<(String, Json)> = Vec::new();
    push_field(&mut f, "prompt_tokens", json_u64(prompt));
    push_field(&mut f, "completion_tokens", json_u64(out));
    push_field(&mut f, "total_tokens", json_u64(prompt + out));
    push_field(&mut f, "prompt_tokens_details", object_of(details));
    proof {
        let c = chat_usage_json(*u)->Object_0;
        assert(fields_view(details@) =~= c[3].1->Object_0);
        assert(fields_view(f@) =~= c);
    }
    object_of(f)
}

impl ChatCompletionsRenderState {
    /// A renderer with no message yet, whose chunks carry the current time.
    pub fn new() -> (r: Self)
        ensures
            r@.msg_id == Seq::<char>::empty(),
            r@.model == Seq::<char>::empty(),
            r@.tool_count == 0,
            !r@.first_chunk_sent,
            !r@.done_sent,
    {
        ChatCompletionsRenderState {
            msg_id: String::new(),
            model: String::new(),
            created: crate::outside::unix_timestamp_now(),
            tool_count: 0,
            first_chunk_sent: false,
            done_sent: false,
        }
    }

    /// Renders one event as the text of a Chat Completions SSE frame, or
    /// nothing where the event has no counterpart in that protocol.
    pub fn render_event(&mut self, ev: &IrStreamEvent) -> (r: Option<String>)
        requires
            chat_render_ok(old(self)@, ev@),
        ensures
            ({
                let (o, s2) = chat_render_spec(old(self)@, ev@);
                &&& final(self)@ == s2
                &&& match r {
                    Some(x) => o is Some && x@ == chat_frame(o->0),
                    None => o is None,
                }
            }),
    {
        match ev {
            IrStreamEvent::MessageStart { id, model, .. } => {
                self.msg_id = id.clone();
                self.model = model.clone();
                None
            },
            IrStreamEvent::ContentBlockStart { block, .. } => match block {
                IrContentBlockStart::ToolUse { id, name } => {
                    let ghost s0 = self@;
                    let tool_index = self.tool_count;
                    let mut d = role_fields_exec(self.first_chunk_sent);
                    let mut fn_fields: Vec<(String, Json)> = Vec::new();
                    push_field(&mut fn_fields, "name", json_string(name.as_str()));
                    push_field(&mut fn_fields, "arguments", json_string(""));
                    let mut header: Vec<(String, Json)> = Vec::new();
                    push_field(&mut header, "index", json_u64(tool_index as u64));
                    push_field(&mut header, "id", json_string(id.as_str()));
                    push_field(&mut header, "type", json_string("function"));
                    push_field(&mut header, "function", object_of(fn_fields));
                    let mut calls: Vec<Json> = Vec::new();
                    push_item(&mut calls, object_of(header));
                    push_field(&mut d, "tool_calls", array_of(calls));
                    proof {
                        reveal_strlit("");
                        assert(""@ =~= Seq::<char>::empty());
                        let h = tool_call_header(s0.tool_count, id@, name@)->Object_0;
                        assert(fields_view(fn_fields@) =~= h[3].1->Object_0);
                        assert(fields_view(header@) =~= h);
                        assert(items_view(calls@) =~= seq![tool_call_header(s0.tool_count, id@, name@)]);
                    }
                    let chunk = chat_chunk_exec(self, object_of(d), Json::Null);
                    self.tool_count = self.tool_count + 1;
                    self.first_chunk_sent = true;
                    let text = to_json_text(&chunk);
                    Some(sse_data_frame(text.as_str()))
                },
                _ => None,
            },
            IrStreamEvent::ContentBlockDelta { index, delta } => {
                let ghost s0 = self@;
                let mut d = role_fields_exec(self.first_chunk_sent);
                match delta {
                    IrContentDelta::TextDelta(t) => {
                        push_field(&mut d, "content", json_string(t.as_str()));
                    },
                    IrContentDelta::ThinkingDelta(t) => {
                        push_field(&mut d, "reasoning_content", json_string(t.as_str()));
                    },
                    IrContentDelta::InputJsonDelta(p) => {
                        let base: usize = if self.tool_count >= 1 {
                            self.tool_count - 1
                        } else {
                            0
                        };
                        let ti: usize = if *index >= base {
                            *index - base
                        } else {
                            0
                        };
                        let mut args: Vec<(String, Json)> = Vec::new();
                        push_field(&mut args, "arguments", json_string(p.as_str()));
                        let mut call: Vec<(String, Json)> = Vec::new();
                        push_field(&mut call, "index", json_u64(ti as u64));
                        push_field(&mut call, "function", object_of(args));
                        let mut calls: Vec<Json> = Vec::new();
                        push_item(&mut calls, object_of(call));
                        push_field(&mut d, "tool_calls", array_of(calls));
                        proof {
                            let fv = delta_field(*index as int, delta@, s0.tool_count).1;
                            assert(fields_view(args@) =~= fv->Array_0[0]->Object_0[1].1->Object_0);
                            assert(fields_view(call@) =~= fv->Array_0[0]->Object_0);
                            assert(items_view(calls@) =~= fv->Array_0);
                        }
                    },
                }
                proof {
                    assert(fields_view(d@) =~= role_fields(s0).push(
                        delta_field(*index as int, delta@, s0.tool_count),
                    ));
                }
                let chunk = chat_chunk_exec(self, object_of(d), Json::Null);
                self.first_chunk_sent = true;
                let text = to_json_text(&chunk);
                Some(sse_data_frame(text.as_str()))
            },
            IrStreamEvent::ContentBlockStop { .. } => None,
            IrStreamEvent::MessageDelta { stop_reason, usage } => {
                let fr = match stop_reason {
                    Some(sr) => json_string(sr.as_chat_finish_reason()),
                    None => Json::Null,
                };
                let chunk = chat_chunk_exec(self, crate::json::empty_object(), fr);
                let chunk = match usage {
                    Some(u) => match chunk {
                        Json::Object(mut fields) => {
                            push_field(&mut fields, "usage", chat_usage_exec(u));
                            Json::Object(fields)
                        },
                        other => other,
                    },
                    None => chunk,
                };
                let text = to_json_text(&chunk);
                Some(sse_data_frame(text.as_str()))
            },
            IrStreamEvent::MessageStop => {
                self.done_sent = true;
                Some(done_frame_exec())
            },
        }
    }

    /// The frames that end the stream: the end-of-stream marker, unless it
    /// was already written.
    pub fn finalize(&mut self, usage: &IrUsage) -> (r: Vec<String>)
        ensures
            final(self)@ == (ChatRenderV { done_sent: true, ..old(self)@ }),
            old(self)@.done_sent ==> r@.len() == 0,
            !old(self)@.done_sent ==> (r@.len() == 1 && r@[0]@ == done_frame()),
    {
        let mut out: Vec<String> = Vec::new();
        if !self.done_sent {
            out.push(done_frame_exec());
            self.done_sent = true;
        }
        out
    }
}

impl Default for ChatCompletionsRenderState {
    fn default() -> (r: Self)
        ensures
            r@.msg_id == Seq::<char>::empty(),
            r@.model == Seq::<char>::empty(),
            r@.tool_count == 0,
            !r@.first_chunk_sent,
            !r@.done_sent,
    {
        Self::new()
    }
}

} // verus!
