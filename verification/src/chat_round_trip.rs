//! Reading back what was written, for Chat Completions: the settings of a
//! request rendered as a Chat Completions body read back as they were.

use vstd::prelude::*;
use crate::from_chat_completions::{chat_req_spec, chat_tool_choice_spec, chat_tool_def, chat_tool_defs};
use crate::ir::{RequestV, ToolChoiceV, ToolV};
use crate::json::{field_lookup, JsonV};
use crate::messages_round_trip::{lemma_lookup_empty, lemma_lookup_push};
use crate::to_chat_completions::{chat_request_json, chat_tool_choice_json, chat_tool_object};

verus! {

/// The keys and words of a Chat Completions body: enough of each to tell
/// them apart.
proof fn lemma_chat_keys()
    ensures
        "model"@.len() == 5 && "model"@[0] == 'm',
        "tools"@.len() == 5 && "tools"@[0] == 't' && "tools"@[2] == 'o',
        "top_p"@.len() == 5 && "top_p"@[0] == 't' && "top_p"@[2] == 'p',
        "stream"@.len() == 6,
        "messages"@.len() == 8,
        "tool_choice"@.len() == 11 && "tool_choice"@[1] == 'o',
        "temperature"@.len() == 11 && "temperature"@[1] == 'e',
        "reasoning_effort"@.len() == 16,
        "max_tokens"@.len() == 10,
        "max_completion_tokens"@.len() == 21,
        "type"@.len() == 4 && "type"@[0] == 't',
        "name"@.len() == 4 && "name"@[0] == 'n',
        "function"@.len() == 8,
        "parameters"@.len() == 10,
        "description"@.len() == 11,
        "auto"@.len() == 4 && "auto"@[0] == 'a',
        "none"@.len() == 4 && "none"@[0] == 'n',
        "required"@.len() == 8,
        "low"@.len() == 3,
        "medium"@.len() == 6,
        "high"@.len() == 4,
{
    reveal_strlit("model");
    reveal_strlit("tools");
    reveal_strlit("top_p");
    reveal_strlit("stream");
    reveal_strlit("messages");
    reveal_strlit("tool_choice");
    reveal_strlit("temperature");
    reveal_strlit("reasoning_effort");
    reveal_strlit("max_tokens");
    reveal_strlit("max_completion_tokens");
    reveal_strlit("type");
    reveal_strlit("name");
    reveal_strlit("function");
    reveal_strlit("parameters");
    reveal_strlit("description");
    reveal_strlit("auto");
    reveal_strlit("none");
    reveal_strlit("required");
    reveal_strlit("low");
    reveal_strlit("medium");
    reveal_strlit("high");
}

/// A tool written as a Chat Completions function reads back as itself.
pub proof fn law_chat_tool_round_trip(t: ToolV)
    ensures
        chat_tool_def(chat_tool_object(t)) == Some(t),
{
    broadcast use lemma_lookup_push, lemma_lookup_empty;

    lemma_chat_keys();
    reveal_with_fuel(field_lookup, 3);
}

/// Tools written as Chat Completions functions read back as themselves.
pub proof fn law_chat_tools_round_trip(ts: Seq<ToolV>)
    ensures
        chat_tool_defs(ts.map_values(|t: ToolV| chat_tool_object(t))) == ts,
    decreases ts.len(),
{
    let js = ts.map_values(|t: ToolV| chat_tool_object(t));
    if ts.len() == 0 {
        assert(ts =~= Seq::<ToolV>::empty());
    } else {
        assert(js.drop_last() =~= ts.drop_last().map_values(|t: ToolV| chat_tool_object(t)));
        law_chat_tools_round_trip(ts.drop_last());
        law_chat_tool_round_trip(ts.last());
        assert(ts.drop_last().push(ts.last()) =~= ts);
    }
}

/// A tool choice written for Chat Completions reads back as itself.
pub proof fn law_chat_tool_choice_round_trip(tc: ToolChoiceV)
    ensures
        chat_tool_choice_spec(chat_tool_choice_json(tc)) == tc,
{
    broadcast use lemma_lookup_push, lemma_lookup_empty;

    lemma_chat_keys();
    reveal_with_fuel(field_lookup, 3);
}

proof fn lemma_lookup3(a: (Seq<char>, JsonV), b: (Seq<char>, JsonV), c: (Seq<char>, JsonV), k: Seq<char>)
    ensures
        field_lookup(seq![a, b, c], k) == if c.0 == k {
            Some(c.1)
        } else if b.0 == k {
            Some(b.1)
        } else if a.0 == k {
            Some(a.1)
        } else {
            None
        },
{
    broadcast use lemma_lookup_push, lemma_lookup_empty;

    assert(seq![a, b, c] =~= Seq::empty().push(a).push(b).push(c));
}

/// Where each setting stands in a written body.
#[verifier::rlimit(50)]
proof fn lemma_chat_body_lookups(r: RequestV)
    ensures
        ({
            let j = chat_request_json(r);
            &&& j.get("model"@) == Some(JsonV::Str(r.model))
            &&& j.get("stream"@) == Some(JsonV::Bool(r.stream))
            &&& j.get("max_completion_tokens"@) is None
        }),
{
    broadcast use lemma_lookup_push, lemma_lookup_empty;

    lemma_chat_keys();
    let sys = match r.system {
        Some(sy) => seq![crate::json::jobj(seq![("role"@, JsonV::Str("system"@)), ("content"@, JsonV::Str(crate::to_chat_completions::system_text(sy)))])],
        None => Seq::empty(),
    };
    let a = ("model"@, JsonV::Str(r.model));
    let b = ("stream"@, JsonV::Bool(r.stream));
    let c = ("messages"@, JsonV::Array(sys + crate::to_chat_completions::chat_messages_objects(r.messages)));
    lemma_lookup3(a, b, c, "model"@);
    lemma_lookup3(a, b, c, "stream"@);
    lemma_lookup3(a, b, c, "max_completion_tokens"@);
    lemma_lookup3(a, b, c, "tools"@);
    lemma_lookup3(a, b, c, "tool_choice"@);
    lemma_lookup3(a, b, c, "max_tokens"@);
    lemma_lookup3(a, b, c, "reasoning_effort"@);
}

#[verifier::rlimit(50)]
proof fn lemma_chat_body_tools(r: RequestV)
    ensures
        ({
            let j = chat_request_json(r);
            &&& j.get("tools"@) == if r.tools.len() > 0 {
                Some(JsonV::Array(r.tools.map_values(|t: ToolV| chat_tool_object(t))))
            } else {
                None
            }
            &&& j.get("tool_choice"@) == match r.tool_choice {
                Some(tc) => Some(chat_tool_choice_json(tc)),
                None => None,
            }
        }),
{
    broadcast use lemma_lookup_push, lemma_lookup_empty;

    lemma_chat_keys();
    let sys = match r.system {
        Some(sy) => seq![crate::json::jobj(seq![("role"@, JsonV::Str("system"@)), ("content"@, JsonV::Str(crate::to_chat_completions::system_text(sy)))])],
        None => Seq::empty(),
    };
    let a = ("model"@, JsonV::Str(r.model));
    let b = ("stream"@, JsonV::Bool(r.stream));
    let c = ("messages"@, JsonV::Array(sys + crate::to_chat_completions::chat_messages_objects(r.messages)));
    lemma_lookup3(a, b, c, "model"@);
    lemma_lookup3(a, b, c, "stream"@);
    lemma_lookup3(a, b, c, "max_completion_tokens"@);
    lemma_lookup3(a, b, c, "tools"@);
    lemma_lookup3(a, b, c, "tool_choice"@);
    lemma_lookup3(a, b, c, "max_tokens"@);
    lemma_lookup3(a, b, c, "reasoning_effort"@);
}

proof fn lemma_chat_body_limits(r: RequestV)
    ensures
        ({
            let j = chat_request_json(r);
            &&& j.get("max_tokens"@) == match r.max_tokens {
                Some(m) => Some(JsonV::Int(m as int)),
                None => None,
            }
            &&& j.get("reasoning_effort"@) == match r.thinking {
                Some(t) => if t.enabled {
                    Some(JsonV::Str(crate::to_chat_completions::reasoning_effort(t.budget_tokens)))
                } else {
                    None
                },
                None => None,
            }
        }),
{
    broadcast use lemma_lookup_push, lemma_lookup_empty;

    lemma_chat_keys();
    let sys = match r.system {
        Some(sy) => seq![crate::json::jobj(seq![("role"@, JsonV::Str("system"@)), ("content"@, JsonV::Str(crate::to_chat_completions::system_text(sy)))])],
        None => Seq::empty(),
    };
    let a = ("model"@, JsonV::Str(r.model));
    let b = ("stream"@, JsonV::Bool(r.stream));
    let c = ("messages"@, JsonV::Array(sys + crate::to_chat_completions::chat_messages_objects(r.messages)));
    lemma_lookup3(a, b, c, "model"@);
    lemma_lookup3(a, b, c, "stream"@);
    lemma_lookup3(a, b, c, "max_completion_tokens"@);
    lemma_lookup3(a, b, c, "tools"@);
    lemma_lookup3(a, b, c, "tool_choice"@);
    lemma_lookup3(a, b, c, "max_tokens"@);
    lemma_lookup3(a, b, c, "reasoning_effort"@);
}

/// The settings of a request written as a Chat Completions body read back
/// as they were: its model, whether it streams, its token limit, its tools
/// and tool choice, and its thinking, where thinking is off or asks for one
/// of the budgets the reasoning efforts stand for (1024, 4096, 16384).
pub proof fn law_chat_request_round_trip(r: RequestV)
    requires
        match r.thinking {
            Some(t) => t.enabled && (t.budget_tokens == Some(1024u64) || t.budget_tokens == Some(4096u64)
                || t.budget_tokens == Some(16384u64)),
            None => true,
        },
    ensures
        ({
            let back = chat_req_spec(chat_request_json(r));
            &&& back.model == r.model
            &&& back.stream == r.stream
            &&& back.max_tokens == r.max_tokens
            &&& back.tools == r.tools
            &&& back.tool_choice == r.tool_choice
            &&& back.thinking == r.thinking
        }),
{
    lemma_chat_keys();
    lemma_chat_body_lookups(r);
    lemma_chat_body_tools(r);
    lemma_chat_body_limits(r);
    law_chat_tools_round_trip(r.tools);
    if r.tools.len() == 0 {
        assert(r.tools =~= Seq::<ToolV>::empty());
    }
    match r.tool_choice {
        Some(tc) => law_chat_tool_choice_round_trip(tc),
        None => {},
    }
}

#[verifier::rlimit(50)]
proof fn lemma_chat_body_sampling(r: RequestV)
    ensures
        ({
            let j = chat_request_json(r);
            &&& j.get("temperature"@) == r.temperature
            &&& j.get("top_p"@) == r.top_p
        }),
{
    broadcast use lemma_lookup_push, lemma_lookup_empty;

    lemma_chat_keys();
    let sys = match r.system {
        Some(sy) => seq![crate::json::jobj(seq![("role"@, JsonV::Str("system"@)), ("content"@, JsonV::Str(crate::to_chat_completions::system_text(sy)))])],
        None => Seq::empty(),
    };
    let a = ("model"@, JsonV::Str(r.model));
    let b = ("stream"@, JsonV::Bool(r.stream));
    let c = ("messages"@, JsonV::Array(sys + crate::to_chat_completions::chat_messages_objects(r.messages)));
    lemma_lookup3(a, b, c, "temperature"@);
    lemma_lookup3(a, b, c, "top_p"@);
}

/// The sampling settings of a request written as a Chat Completions body
/// read back as they were, where each is absent or a number: the
/// temperature comes back as the temperature and top_p as top_p.
pub proof fn law_chat_sampling_round_trip(r: RequestV)
    requires
        match r.temperature {
            Some(v) => v is Int || v is Float,
            None => true,
        },
        match r.top_p {
            Some(v) => v is Int || v is Float,
            None => true,
        },
    ensures
        chat_req_spec(chat_request_json(r)).temperature == r.temperature,
        chat_req_spec(chat_request_json(r)).top_p == r.top_p,
{
    lemma_chat_body_sampling(r);
    crate::from_chat_completions::law_chat_sampling_keys(chat_request_json(r));
}

} // verus!
