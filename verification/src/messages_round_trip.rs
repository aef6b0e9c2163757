//! Reading back what was written: a request rendered as an Anthropic
//! Messages body reads back as the same request.

use vstd::prelude::*;
use crate::from_messages::{
    anthropic_block, anthropic_blocks, anthropic_messages, anthropic_req_spec, anthropic_system, anthropic_tool,
    anthropic_tool_choice, anthropic_tools,
};
use crate::ir::{BlockV, IrRole, MessageV, RequestV, SystemV, ToolChoiceV, ToolResultV, ToolV};
use crate::json::{field_lookup, JsonV};
use crate::to_messages::{
    messages_head, thinking_json, with_opt,
    anthropic_block_json, anthropic_blocks_json, anthropic_tool_choice_json, anthropic_tool_json, message_json,
    messages_request_json, system_json,
};

verus! {

/// Looking a key up in an object that ends with a given entry.
pub broadcast proof fn lemma_lookup_push(f: Seq<(Seq<char>, JsonV)>, e: (Seq<char>, JsonV), k: Seq<char>)
    ensures
        #[trigger] field_lookup(f.push(e), k) == if e.0 == k {
            Some(e.1)
        } else {
            field_lookup(f, k)
        },
{
    assert(f.push(e).drop_last() =~= f);
}

pub broadcast proof fn lemma_lookup_empty(k: Seq<char>)
    ensures
        #[trigger] field_lookup(Seq::<(Seq<char>, JsonV)>::empty(), k) is None,
{
}

/// A key that no entry has is not found.
pub proof fn lemma_lookup_absent(f: Seq<(Seq<char>, JsonV)>, k: Seq<char>)
    requires
        forall|i: int| 0 <= i < f.len() ==> #[trigger] f[i].0 != k,
    ensures
        field_lookup(f, k) is None,
    decreases f.len(),
{
    if f.len() > 0 {
        lemma_lookup_absent(f.drop_last(), k);
    }
}


/// The keys and words of the documents: enough of each to tell them
/// apart.
proof fn lemma_keys()
    ensures
        "type"@.len() == 4,
        "type"@[0] == 't',
        "type"@[1] == 'y',
        "text"@.len() == 4,
        "text"@[0] == 't',
        "text"@[1] == 'e',
        "cache_control"@.len() == 13,
        "cache_control"@[0] == 'c',
        "image"@.len() == 5,
        "image"@[0] == 'i',
        "image"@[1] == 'm',
        "source"@.len() == 6,
        "source"@[0] == 's',
        "source"@[1] == 'o',
        "base64"@.len() == 6,
        "base64"@[0] == 'b',
        "url"@.len() == 3,
        "url"@[0] == 'u',
        "media_type"@.len() == 10,
        "media_type"@[1] == 'e',
        "data"@.len() == 4,
        "data"@[0] == 'd',
        "thinking"@.len() == 8,
        "thinking"@[0] == 't',
        "thinking"@[1] == 'h',
        "signature"@.len() == 9,
        "signature"@[0] == 's',
        "tool_use"@.len() == 8,
        "tool_use"@[0] == 't',
        "tool_use"@[1] == 'o',
        "id"@.len() == 2,
        "name"@.len() == 4,
        "name"@[0] == 'n',
        "name"@[1] == 'a',
        "input"@.len() == 5,
        "input"@[0] == 'i',
        "input"@[1] == 'n',
        "tool_result"@.len() == 11,
        "tool_result"@[0] == 't',
        "tool_result"@[1] == 'o',
        "tool_result"@[5] == 'r',
        "tool_use_id"@.len() == 11,
        "tool_use_id"@[0] == 't',
        "tool_use_id"@[1] == 'o',
        "tool_use_id"@[5] == 'u',
        "content"@.len() == 7,
        "content"@[0] == 'c',
        "is_error"@.len() == 8,
        "is_error"@[0] == 'i',
        "model"@.len() == 5,
        "model"@[0] == 'm',
        "stream"@.len() == 6,
        "stream"@[0] == 's',
        "stream"@[1] == 't',
        "system"@.len() == 6,
        "system"@[0] == 's',
        "system"@[1] == 'y',
        "messages"@.len() == 8,
        "messages"@[0] == 'm',
        "tools"@.len() == 5,
        "tools"@[0] == 't',
        "tools"@[2] == 'o',
        "tool_choice"@.len() == 11,
        "tool_choice"@[0] == 't',
        "tool_choice"@[1] == 'o',
        "tool_choice"@[5] == 'c',
        "max_tokens"@.len() == 10,
        "max_tokens"@[1] == 'a',
        "temperature"@.len() == 11,
        "temperature"@[0] == 't',
        "temperature"@[1] == 'e',
        "top_p"@.len() == 5,
        "top_p"@[0] == 't',
        "top_p"@[2] == 'p',
        "budget_tokens"@.len() == 13,
        "budget_tokens"@[0] == 'b',
        "enabled"@.len() == 7,
        "enabled"@[0] == 'e',
        "role"@.len() == 4,
        "role"@[0] == 'r',
        "user"@.len() == 4,
        "user"@[0] == 'u',
        "assistant"@.len() == 9,
        "assistant"@[0] == 'a',
        "description"@.len() == 11,
        "description"@[0] == 'd',
        "input_schema"@.len() == 12,
        "auto"@.len() == 4,
        "auto"@[0] == 'a',
        "any"@.len() == 3,
        "any"@[0] == 'a',
        "none"@.len() == 4,
        "none"@[0] == 'n',
        "none"@[1] == 'o',
        "tool"@.len() == 4,
        "tool"@[0] == 't',
        "tool"@[1] == 'o',
{
    reveal_strlit("type");
    reveal_strlit("text");
    reveal_strlit("cache_control");
    reveal_strlit("image");
    reveal_strlit("source");
    reveal_strlit("base64");
    reveal_strlit("url");
    reveal_strlit("media_type");
    reveal_strlit("data");
    reveal_strlit("thinking");
    reveal_strlit("signature");
    reveal_strlit("tool_use");
    reveal_strlit("id");
    reveal_strlit("name");
    reveal_strlit("input");
    reveal_strlit("tool_result");
    reveal_strlit("tool_use_id");
    reveal_strlit("content");
    reveal_strlit("is_error");
    reveal_strlit("model");
    reveal_strlit("stream");
    reveal_strlit("system");
    reveal_strlit("messages");
    reveal_strlit("tools");
    reveal_strlit("tool_choice");
    reveal_strlit("max_tokens");
    reveal_strlit("temperature");
    reveal_strlit("top_p");
    reveal_strlit("budget_tokens");
    reveal_strlit("enabled");
    reveal_strlit("role");
    reveal_strlit("user");
    reveal_strlit("assistant");
    reveal_strlit("description");
    reveal_strlit("input_schema");
    reveal_strlit("auto");
    reveal_strlit("any");
    reveal_strlit("none");
    reveal_strlit("tool");
}

/// A content block written for Anthropic reads back as itself.
pub proof fn law_block_round_trip(b: BlockV)
    ensures
        anthropic_block(anthropic_block_json(b)) == Some(b),
    decreases b,
{
    broadcast use lemma_lookup_push, lemma_lookup_empty;
    lemma_keys();
    reveal_with_fuel(field_lookup, 6);
    match b {
        BlockV::ToolResult { tool_use_id, content, is_error } => {
            let c = match content {
                ToolResultV::Text(t) => JsonV::Str(t),
                ToolResultV::Blocks(bs) => JsonV::Array(anthropic_blocks_json(bs)),
            };
            let f = seq![
                ("type"@, JsonV::Str("tool_result"@)),
                ("tool_use_id"@, JsonV::Str(tool_use_id)),
                ("content"@, c),
            ];
            let w = if is_error {
                f.push(("is_error"@, JsonV::Bool(true)))
            } else {
                f
            };
            assert(anthropic_block_json(b) == JsonV::Object(w));
            match content {
                ToolResultV::Blocks(bs) => {
                    law_blocks_round_trip(bs);
                },
                _ => {},
            }
            if is_error {
                assert(field_lookup(w, "is_error"@) == Some(JsonV::Bool(true)));
            } else {
                lemma_lookup_absent(f, "is_error"@);
            }
            assert(field_lookup(w, "content"@) == Some(c));
            assert(field_lookup(w, "tool_use_id"@) == Some(JsonV::Str(tool_use_id)));
            assert(field_lookup(w, "type"@) == Some(JsonV::Str("tool_result"@)));
        },
        _ => {},
    }
}

/// Content blocks written for Anthropic read back as themselves.
pub proof fn law_blocks_round_trip(bs: Seq<BlockV>)
    ensures
        anthropic_blocks(anthropic_blocks_json(bs)) == bs,
    decreases bs,
{
    if bs.len() > 0 {
        law_blocks_round_trip(bs.drop_last());
        law_block_round_trip(bs.last());
        assert(anthropic_blocks_json(bs).drop_last() =~= anthropic_blocks_json(bs.drop_last()));
        assert(bs.drop_last().push(bs.last()) =~= bs);
    } else {
        assert(bs =~= Seq::<BlockV>::empty());
    }
}

/// Messages written for Anthropic read back as themselves, where no user
/// message is empty (an empty user message is dropped on reading).
pub proof fn law_messages_round_trip(ms: Seq<MessageV>)
    requires
        forall|i: int| 0 <= i < ms.len() && ms[i].role == IrRole::User ==> #[trigger] ms[i].content.len() > 0,
    ensures
        anthropic_messages(ms.map_values(|m: MessageV| message_json(m))) == ms,
    decreases ms.len(),
{
    broadcast use lemma_lookup_push, lemma_lookup_empty;
    lemma_keys();
    reveal_with_fuel(field_lookup, 3);
    let js = ms.map_values(|m: MessageV| message_json(m));
    if ms.len() == 0 {
        assert(ms =~= Seq::<MessageV>::empty());
    } else {
        let m = ms.last();
        assert(js.drop_last() =~= ms.drop_last().map_values(|m: MessageV| message_json(m)));
        law_messages_round_trip(ms.drop_last());
        law_blocks_round_trip(m.content);
        assert(js.last() == message_json(m));
        assert(ms.drop_last().push(m) =~= ms);
    }
}

/// A tool definition written for Anthropic reads back as itself.
pub proof fn law_tool_round_trip(t: ToolV)
    ensures
        anthropic_tool(anthropic_tool_json(t), false) == Some(t),
{
    broadcast use lemma_lookup_push, lemma_lookup_empty;
    lemma_keys();
    reveal_with_fuel(field_lookup, 4);
}

pub proof fn law_tools_round_trip(ts: Seq<ToolV>)
    ensures
        anthropic_tools(ts.map_values(|t: ToolV| anthropic_tool_json(t)), false) == ts,
    decreases ts.len(),
{
    let js = ts.map_values(|t: ToolV| anthropic_tool_json(t));
    if ts.len() == 0 {
        assert(ts =~= Seq::<ToolV>::empty());
    } else {
        assert(js.drop_last() =~= ts.drop_last().map_values(|t: ToolV| anthropic_tool_json(t)));
        law_tools_round_trip(ts.drop_last());
        law_tool_round_trip(ts.last());
        assert(ts.drop_last().push(ts.last()) =~= ts);
    }
}

/// A tool choice written for Anthropic reads back as itself.
pub proof fn law_tool_choice_round_trip(tc: ToolChoiceV)
    ensures
        anthropic_tool_choice(anthropic_tool_choice_json(tc)) == tc,
{
    broadcast use lemma_lookup_push, lemma_lookup_empty;
    lemma_keys();
    reveal_with_fuel(field_lookup, 3);
}

/// A system prompt written for Anthropic reads back as itself.
pub proof fn law_system_round_trip(sys: SystemV)
    ensures
        anthropic_system(system_json(sys)) == sys,
{
    broadcast use lemma_lookup_push, lemma_lookup_empty;
    lemma_keys();
    reveal_with_fuel(field_lookup, 4);
    match sys {
        SystemV::Blocks(bs) => {
            let js = system_json(sys)->Array_0;
            let back = js.map_values(
                |b: JsonV| (crate::usage::str_or_empty(b.str_at("text"@)), b.get("cache_control"@)),
            );
            assert forall|i: int| 0 <= i < bs.len() implies #[trigger] back[i] == bs[i] by {
                assert(js[i] == system_json(sys)->Array_0[i]);
            }
            assert(back =~= bs);
        },
        _ => {},
    }
}

/// The requests that read back as themselves: no user message is empty,
/// thinking is absent or on, and the sampling values are numbers.
pub open spec fn round_trippable(r: RequestV) -> bool {
    &&& forall|i: int| 0 <= i < r.messages.len() && r.messages[i].role == IrRole::User ==> #[trigger] r.messages[i].content.len() > 0
    &&& (r.thinking matches Some(t) ==> t.enabled)
    &&& (r.temperature matches Some(v) ==> (v is Int || v is Float))
    &&& (r.top_p matches Some(v) ==> (v is Int || v is Float))
}

/// Looking a key up in an object with an optional last entry.
pub broadcast proof fn lemma_lookup_with_opt(
    f: Seq<(Seq<char>, JsonV)>,
    k2: Seq<char>,
    v: Option<JsonV>,
    k: Seq<char>,
)
    ensures
        #[trigger] field_lookup(with_opt(f, k2, v), k) == match v {
            Some(x) => if k2 == k {
                Some(x)
            } else {
                field_lookup(f, k)
            },
            None => field_lookup(f, k),
        },
{
    broadcast use lemma_lookup_push;
}

proof fn lemma_head_lookups(r: RequestV)
    ensures
        field_lookup(messages_head(r), "model"@) == Some(JsonV::Str(r.model)),
        field_lookup(messages_head(r), "stream"@) == Some(JsonV::Bool(r.stream)),
        field_lookup(messages_head(r), "system"@) == match r.system {
            Some(sys) => Some(system_json(sys)),
            None => None::<JsonV>,
        },
        field_lookup(messages_head(r), "messages"@) == Some(
            JsonV::Array(r.messages.map_values(|m: MessageV| message_json(m))),
        ),
        forall|k: Seq<char>|
            k != "model"@ && k != "stream"@ && k != "system"@ && k != "messages"@ ==> #[trigger] field_lookup(
                messages_head(r),
                k,
            ) is None,
{
    broadcast use lemma_lookup_push, lemma_lookup_empty, lemma_lookup_with_opt;
    lemma_keys();
    reveal_with_fuel(field_lookup, 3);
}

proof fn lemma_body_lookups(r: RequestV)
    ensures
        ({
            let j = messages_request_json(r);
            &&& j.get("model"@) == Some(JsonV::Str(r.model))
            &&& j.get("stream"@) == Some(JsonV::Bool(r.stream))
            &&& j.get("system"@) == match r.system {
                Some(sys) => Some(system_json(sys)),
                None => None::<JsonV>,
            }
            &&& j.get("messages"@) == Some(JsonV::Array(r.messages.map_values(|m: MessageV| message_json(m))))
            &&& j.get("tools"@) == if r.tools.len() > 0 {
                Some(JsonV::Array(r.tools.map_values(|t: ToolV| anthropic_tool_json(t))))
            } else {
                None::<JsonV>
            }
            &&& j.get("tool_choice"@) == match r.tool_choice {
                Some(tc) => Some(anthropic_tool_choice_json(tc)),
                None => None::<JsonV>,
            }
            &&& j.get("thinking"@) == match r.thinking {
                Some(t) => if t.enabled {
                    Some(thinking_json(t.budget_tokens))
                } else {
                    None::<JsonV>
                },
                None => None::<JsonV>,
            }
            &&& j.get("max_tokens"@) == match r.max_tokens {
                Some(m) => Some(JsonV::Int(m as int)),
                None => None::<JsonV>,
            }
            &&& j.get("temperature"@) == r.temperature
            &&& j.get("top_p"@) == r.top_p
        }),
{
    broadcast use lemma_lookup_push, lemma_lookup_empty, lemma_lookup_with_opt;
    lemma_keys();
    lemma_head_lookups(r);
}

proof fn lemma_thinking_lookups(budget: Option<u64>)
    ensures
        thinking_json(budget).at("type"@).as_str() == Some("enabled"@),
        thinking_json(budget).at("budget_tokens"@).as_u64() == budget,
{
    broadcast use lemma_lookup_push, lemma_lookup_empty, lemma_lookup_with_opt;
    lemma_keys();
    reveal_with_fuel(field_lookup, 3);
}

/// What is written as an Anthropic Messages body reads back as the same
/// request: the translation to Anthropic loses nothing that reading
/// restores. (An empty user message is dropped on reading, thinking that is
/// off is not written, and only numbers are read as sampling values.)
pub proof fn law_request_round_trip(r: RequestV)
    requires
        round_trippable(r),
    ensures
        anthropic_req_spec(messages_request_json(r), false) == r,
{
    lemma_body_lookups(r);
    law_messages_round_trip(r.messages);
    law_tools_round_trip(r.tools);
    match r.tool_choice {
        Some(tc) => law_tool_choice_round_trip(tc),
        None => {},
    }
    match r.system {
        Some(sys) => law_system_round_trip(sys),
        None => {},
    }
    match r.thinking {
        Some(t) => lemma_thinking_lookups(t.budget_tokens),
        None => {},
    }
    if r.tools.len() == 0 {
        assert(r.tools =~= Seq::<ToolV>::empty());
    }
    assert(anthropic_req_spec(messages_request_json(r), false) =~= r);
}

} // verus!
