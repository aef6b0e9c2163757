//! Token usage read from the stream chunks of the three upstream protocols,
//! and the estimate of a request's input tokens.

use vstd::prelude::*;
use crate::ir::{
    zero_usage, IrContentBlock, IrMessage, IrRequest, IrSystemBlock, IrSystemContent,
    IrToolResultContent, IrUsage,
};
use crate::json::{Json, JsonV};

verus! {

/// A count member: its value where it is a non-negative integer, else 0.
pub open spec fn count_or_zero(v: JsonV) -> u64 {
    match v.as_u64() {
        Some(n) => n,
        None => 0,
    }
}

/// The number of characters of a string value; 0 for any other value.
pub open spec fn str_chars(v: JsonV) -> nat {
    match v.as_str() {
        Some(s) => s.len(),
        None => 0,
    }
}

pub open spec fn str_or_empty(o: Option<Seq<char>>) -> Seq<char> {
    match o {
        Some(s) => s,
        None => Seq::empty(),
    }
}

/// The sums that reading an Anthropic chunk adds up fit in 64 bits.
pub open spec fn anthropic_usage_fits(chunk: JsonV) -> bool {
    let u = chunk.at("message"@).at("usage"@);
    str_or_empty(chunk.str_at("type"@)) == "message_start"@ ==> count_or_zero(u.at("input_tokens"@))
        + count_or_zero(u.at("cache_creation_input_tokens"@)) <= u64::MAX
}

/// The usage an Anthropic chunk reports: input (with cache writes) and cache
/// reads on `message_start`, output and cache reads on `message_delta`, and
/// the characters of a text or thinking delta.
pub open spec fn anthropic_usage_spec(chunk: JsonV) -> IrUsage {
    let t = str_or_empty(chunk.str_at("type"@));
    if t == "message_start"@ {
        let u = chunk.at("message"@).at("usage"@);
        IrUsage {
            input_tokens: (count_or_zero(u.at("input_tokens"@)) + count_or_zero(
                u.at("cache_creation_input_tokens"@),
            )) as u64,
            cache_read_input_tokens: count_or_zero(u.at("cache_read_input_tokens"@)),
            cache_creation_input_tokens: count_or_zero(u.at("cache_creation_input_tokens"@)),
            ..zero_usage()
        }
    } else if t == "message_delta"@ {
        let u = chunk.at("usage"@);
        IrUsage {
            output_tokens: count_or_zero(u.at("output_tokens"@)),
            cache_read_input_tokens: count_or_zero(u.at("cache_read_input_tokens"@)),
            ..zero_usage()
        }
    } else if t == "content_block_delta"@ {
        let d = chunk.at("delta"@);
        let dt = d.str_at("type"@);
        IrUsage {
            output_chars: if dt == Some("text_delta"@) {
                str_chars(d.at("text"@)) as u64
            } else if dt == Some("thinking_delta"@) {
                str_chars(d.at("thinking"@)) as u64
            } else {
                0
            },
            ..zero_usage()
        }
    } else {
        zero_usage()
    }
}

fn count_of(v: Option<&Json>) -> (r: u64)
    ensures
        r == match v {
            Some(j) => count_or_zero(j@),
            None => 0,
        },
{
    match v {
        Some(j) => match j.as_u64() {
            Some(n) => n,
            None => 0,
        },
        None => 0,
    }
}

fn chars_of(v: Option<&Json>) -> (r: u64)
    ensures
        r == match v {
            Some(j) => str_chars(j@) as u64,
            None => 0,
        },
        r == match v {
            Some(j) => str_chars(j@),
            None => 0,
        },
{
    match v {
        Some(j) => match j.as_str() {
            Some(s) => {
                let n = s.unicode_len();
                n as u64
            },
            None => 0,
        },
        None => 0,
    }
}

/// The usage increment that an Anthropic stream chunk reports.
pub fn extract_anthropic_usage(chunk: &Json) -> (r: IrUsage)
    requires
        anthropic_usage_fits(chunk@),
    ensures
        r == anthropic_usage_spec(chunk@),
{
    let mut usage = IrUsage::default();
    let t: &str = match chunk.str_at("type") {
        Some(t) => t,
        None => "",
    };
    proof {
        assert(str_or_empty(chunk@.str_at("type"@)) == t@) by {
            if chunk@.str_at("type"@) is None {
                assert(""@ =~= Seq::<char>::empty()) by {
                    reveal_strlit("");
                }
            }
        }
    }
    if crate::json::str_eq(t, "message_start") {
        let (input, cache_creation, cache_read) = match chunk.get("message") {
            Some(m) => match m.get("usage") {
                Some(u) => (
                    count_of(u.get("input_tokens")),
                    count_of(u.get("cache_creation_input_tokens")),
                    count_of(u.get("cache_read_input_tokens")),
                ),
                None => (0, 0, 0),
            },
            None => (0, 0, 0),
        };
        usage.input_tokens = input + cache_creation;
        usage.cache_read_input_tokens = cache_read;
        usage.cache_creation_input_tokens = cache_creation;
    } else if crate::json::str_eq(t, "message_delta") {
        let (output, cache_read) = match chunk.get("usage") {
            Some(u) => (count_of(u.get("output_tokens")), count_of(u.get("cache_read_input_tokens"))),
            None => (0, 0),
        };
        usage.output_tokens = output;
        usage.cache_read_input_tokens = cache_read;
    } else if crate::json::str_eq(t, "content_block_delta") {
        match chunk.get("delta") {
            Some(d) => {
                let dt = d.str_at("type");
                let is_text = match dt {
                    Some(s) => crate::json::str_eq(s, "text_delta"),
                    None => false,
                };
                let is_thinking = match dt {
                    Some(s) => crate::json::str_eq(s, "thinking_delta"),
                    None => false,
                };
                if is_text {
                    usage.output_chars = chars_of(d.get("text"));
                } else if is_thinking {
                    usage.output_chars = chars_of(d.get("thinking"));
                }
            },
            None => {},
        }
    }
    usage
}

/// The usage a Chat Completions chunk reports. Cache hits are read from
/// `prompt_cache_hit_tokens` or `prompt_tokens_details.cached_tokens`; the
/// uncached input is `prompt_cache_miss_tokens` where given, else the prompt
/// tokens less the hits (never below 0); an explicit
/// `cache_read_input_tokens` takes precedence for cache reads. The
/// characters of the first choice's content delta are counted.
pub open spec fn chat_usage_spec(chunk: JsonV) -> IrUsage {
    let u = chunk.get("usage"@);
    let base = match u {
        Some(u) => {
            let after_prompt = match u.at("prompt_tokens"@).as_u64() {
                Some(pt) => {
                    let hit = match u.at("prompt_cache_hit_tokens"@).as_u64() {
                        Some(h) => Some(h),
                        None => u.at("prompt_tokens_details"@).at("cached_tokens"@).as_u64(),
                    };
                    match hit {
                        Some(h) => IrUsage {
                            cache_read_input_tokens: h,
                            input_tokens: match u.at("prompt_cache_miss_tokens"@).as_u64() {
                                Some(miss) => miss,
                                None => if pt >= h {
                                    (pt - h) as u64
                                } else {
                                    0
                                },
                            },
                            ..zero_usage()
                        },
                        None => IrUsage { input_tokens: pt, ..zero_usage() },
                    }
                },
                None => zero_usage(),
            };
            let after_completion = match u.at("completion_tokens"@).as_u64() {
                Some(ct) => IrUsage { output_tokens: ct, ..after_prompt },
                None => after_prompt,
            };
            match u.at("cache_read_input_tokens"@).as_u64() {
                Some(cr) => IrUsage { cache_read_input_tokens: cr, ..after_completion },
                None => after_completion,
            }
        },
        None => zero_usage(),
    };
    match first_delta_content(chunk) {
        Some(s) => IrUsage { output_chars: s.len() as u64, ..base },
        None => base,
    }
}

/// The content of the delta of the first choice, where it is a string.
pub open spec fn first_delta_content(chunk: JsonV) -> Option<Seq<char>> {
    match chunk.at("choices"@).as_array() {
        Some(items) => if items.len() > 0 {
            items[0].at("delta"@).at("content"@).as_str()
        } else {
            None
        },
        None => None,
    }
}

fn first_delta_content_exec(chunk: &Json) -> (r: Option<&str>)
    ensures
        match r {
            Some(s) => first_delta_content(chunk@) == Some(s@),
            None => first_delta_content(chunk@) is None,
        },
{
    match chunk.array_at("choices") {
        Some(items) => {
            if items.len() > 0 {
                proof {
                    crate::json::lemma_items_view_index(items@, 0);
                }
                match items[0].get("delta") {
                    Some(d) => d.str_at("content"),
                    None => None,
                }
            } else {
                proof {
                    crate::json::lemma_items_view_len(items@);
                }
                None
            }
        },
        None => None,
    }
}

/// The usage increment that a Chat Completions stream chunk reports.
pub fn extract_chat_usage(chunk: &Json) -> (r: IrUsage)
    ensures
        r == chat_usage_spec(chunk@),
{
    let mut usage = IrUsage::default();
    match chunk.get("usage") {
        Some(u) => {
            match u.u64_at("prompt_tokens") {
                Some(pt) => {
                    let hit: Option<u64> = match u.u64_at("prompt_cache_hit_tokens") {
                        Some(h) => Some(h),
                        None => match u.get("prompt_tokens_details") {
                            Some(d) => d.u64_at("cached_tokens"),
                            None => None,
                        },
                    };
                    match hit {
                        Some(h) => {
                            usage.cache_read_input_tokens = h;
                            match u.u64_at("prompt_cache_miss_tokens") {
                                Some(miss) => {
                                    usage.input_tokens = miss;
                                },
                                None => {
                                    usage.input_tokens = pt.saturating_sub(h);
                                },
                            }
                        },
                        None => {
                            usage.input_tokens = pt;
                        },
                    }
                },
                None => {},
            }
            match u.u64_at("completion_tokens") {
                Some(ct) => {
                    usage.output_tokens = ct;
                },
                None => {},
            }
            match u.u64_at("cache_read_input_tokens") {
                Some(cr) => {
                    usage.cache_read_input_tokens = cr;
                },
                None => {},
            }
        },
        None => {},
    }
    match first_delta_content_exec(chunk) {
        Some(s) => {
            let n = s.unicode_len();
            usage.output_chars = n as u64;
        },
        None => {},
    }
    usage
}

/// The usage a Responses chunk reports: the counts of `response.completed`,
/// and the characters of any string `delta`.
pub open spec fn responses_usage_spec(chunk: JsonV) -> IrUsage {
    let base = if chunk.str_at("type"@) == Some("response.completed"@) {
        match chunk.at("response"@).get("usage"@) {
            Some(u) => IrUsage {
                input_tokens: count_or_zero(u.at("input_tokens"@)),
                output_tokens: count_or_zero(u.at("output_tokens"@)),
                cache_read_input_tokens: match u.get("input_tokens_details"@) {
                    Some(d) => count_or_zero(d.at("cached_tokens"@)),
                    None => 0,
                },
                ..zero_usage()
            },
            None => zero_usage(),
        }
    } else {
        zero_usage()
    };
    match chunk.at("delta"@).as_str() {
        Some(s) => IrUsage { output_chars: s.len() as u64, ..base },
        None => base,
    }
}

/// The usage increment that a Responses stream chunk reports.
pub fn extract_responses_usage(chunk: &Json) -> (r: IrUsage)
    ensures
        r == responses_usage_spec(chunk@),
{
    let mut usage = IrUsage::default();
    let completed = match chunk.str_at("type") {
        Some(t) => crate::json::str_eq(t, "response.completed"),
        None => false,
    };
    if completed {
        match chunk.get("response") {
            Some(resp) => match resp.get("usage") {
                Some(u) => {
                    usage.input_tokens = count_of(u.get("input_tokens"));
                    usage.output_tokens = count_of(u.get("output_tokens"));
                    match u.get("input_tokens_details") {
                        Some(d) => {
                            usage.cache_read_input_tokens = count_of(d.get("cached_tokens"));
                        },
                        None => {},
                    }
                },
                None => {},
            },
            None => {},
        }
    }
    match chunk.str_at("delta") {
        Some(s) => {
            let n = s.unicode_len();
            usage.output_chars = n as u64;
        },
        None => {},
    }
    usage
}


// ---- input estimate ----

pub open spec fn text_blocks_chars(bs: Seq<IrContentBlock>) -> nat
    decreases bs.len(),
{
    if bs.len() == 0 {
        0
    } else {
        text_blocks_chars(bs.drop_last()) + match bs.last() {
            IrContentBlock::Text { text, .. } => text@.len(),
            _ => 0,
        }
    }
}

/// The characters of a content block that count toward the input estimate:
/// text, thinking, and the text of a tool result.
pub open spec fn block_chars(b: IrContentBlock) -> nat {
    match b {
        IrContentBlock::Text { text, .. } => text@.len(),
        IrContentBlock::Thinking { thinking, .. } => thinking@.len(),
        IrContentBlock::ToolResult { content, .. } => match content {
            IrToolResultContent::Text(t) => t@.len(),
            IrToolResultContent::Blocks(bs) => text_blocks_chars(bs@),
        },
        _ => 0,
    }
}

pub open spec fn blocks_chars(bs: Seq<IrContentBlock>) -> nat
    decreases bs.len(),
{
    if bs.len() == 0 {
        0
    } else {
        blocks_chars(bs.drop_last()) + block_chars(bs.last())
    }
}

pub open spec fn messages_chars(ms: Seq<IrMessage>) -> nat
    decreases ms.len(),
{
    if ms.len() == 0 {
        0
    } else {
        messages_chars(ms.drop_last()) + blocks_chars(ms.last().content@)
    }
}

pub open spec fn system_blocks_chars(bs: Seq<IrSystemBlock>) -> nat
    decreases bs.len(),
{
    if bs.len() == 0 {
        0
    } else {
        system_blocks_chars(bs.drop_last()) + bs.last().text@.len()
    }
}

pub open spec fn system_chars(s: Option<IrSystemContent>) -> nat {
    match s {
        Some(IrSystemContent::Text(t)) => t@.len(),
        Some(IrSystemContent::Blocks(bs)) => system_blocks_chars(bs@),
        None => 0,
    }
}

/// The characters of the system prompt and the messages of a request.
pub open spec fn request_chars(req: IrRequest) -> nat {
    system_chars(req.system) + messages_chars(req.messages@)
}

/// A quarter of the request's characters, and at least 1.
pub open spec fn estimate_spec(req: IrRequest) -> u64 {
    let q = request_chars(req) / 4;
    if q >= 1 {
        q as u64
    } else {
        1
    }
}

/// The estimate never falls as the conversation grows: a request with one
/// more message has an estimate at least as large, and both are at least 1
/// (for every request whose estimate fits in 64 bits).
pub proof fn law_estimate_grows(req: IrRequest, req2: IrRequest, m: IrMessage)
    requires
        req2.system == req.system,
        req2.messages@ == req.messages@.push(m),
        request_chars(req2) / 4 <= u64::MAX,
    ensures
        estimate_spec(req2) >= estimate_spec(req),
        estimate_spec(req) >= 1,
{
    assert(req2.messages@.drop_last() =~= req.messages@);
    let a = request_chars(req);
    let b = request_chars(req2);
    assert(a <= b);
    assert(a / 4 <= b / 4) by (nonlinear_arith)
        requires
            a <= b,
    ;
}

fn add_chars(total: usize, s: &String) -> (r: usize)
    requires
        total + s@.len() <= usize::MAX,
    ensures
        r == total + s@.len(),
{
    total + s.as_str().unicode_len()
}

proof fn lemma_prefix_le_text_blocks(bs: Seq<IrContentBlock>, i: int)
    requires
        0 <= i <= bs.len(),
    ensures
        text_blocks_chars(bs.take(i)) <= text_blocks_chars(bs),
    decreases bs.len() - i,
{
    if i < bs.len() {
        lemma_prefix_le_text_blocks(bs, i + 1);
        assert(bs.take(i + 1).drop_last() =~= bs.take(i));
    } else {
        assert(bs.take(i) =~= bs);
    }
}

proof fn lemma_prefix_le_blocks(bs: Seq<IrContentBlock>, i: int)
    requires
        0 <= i <= bs.len(),
    ensures
        blocks_chars(bs.take(i)) <= blocks_chars(bs),
    decreases bs.len() - i,
{
    if i < bs.len() {
        lemma_prefix_le_blocks(bs, i + 1);
        assert(bs.take(i + 1).drop_last() =~= bs.take(i));
    } else {
        assert(bs.take(i) =~= bs);
    }
}

proof fn lemma_prefix_le_messages(ms: Seq<IrMessage>, i: int)
    requires
        0 <= i <= ms.len(),
    ensures
        messages_chars(ms.take(i)) <= messages_chars(ms),
    decreases ms.len() - i,
{
    if i < ms.len() {
        lemma_prefix_le_messages(ms, i + 1);
        assert(ms.take(i + 1).drop_last() =~= ms.take(i));
    } else {
        assert(ms.take(i) =~= ms);
    }
}

proof fn lemma_prefix_le_system(bs: Seq<IrSystemBlock>, i: int)
    requires
        0 <= i <= bs.len(),
    ensures
        system_blocks_chars(bs.take(i)) <= system_blocks_chars(bs),
    decreases bs.len() - i,
{
    if i < bs.len() {
        lemma_prefix_le_system(bs, i + 1);
        assert(bs.take(i + 1).drop_last() =~= bs.take(i));
    } else {
        assert(bs.take(i) =~= bs);
    }
}

fn text_blocks_count(bs: &Vec<IrContentBlock>, start: usize) -> (r: usize)
    requires
        start + text_blocks_chars(bs@) <= usize::MAX,
    ensures
        r == start + text_blocks_chars(bs@),
{
    let mut total = start;
    let mut i: usize = 0;
    while i < bs.len()
        invariant
            i <= bs@.len(),
            start + text_blocks_chars(bs@) <= usize::MAX,
            total == start + text_blocks_chars(bs@.take(i as int)),
        decreases bs@.len() - i,
    {
        proof {
            assert(bs@.take(i as int + 1).drop_last() =~= bs@.take(i as int));
            lemma_prefix_le_text_blocks(bs@, i as int + 1);
        }
        match &bs[i] {
            IrContentBlock::Text { text, .. } => {
                total = add_chars(total, text);
            },
            _ => {},
        }
        i = i + 1;
    }
    proof {
        assert(bs@.take(i as int) =~= bs@);
    }
    total
}

fn blocks_count(bs: &Vec<IrContentBlock>, start: usize) -> (r: usize)
    requires
        start + blocks_chars(bs@) <= usize::MAX,
    ensures
        r == start + blocks_chars(bs@),
{
    let mut total = start;
    let mut i: usize = 0;
    while i < bs.len()
        invariant
            i <= bs@.len(),
            start + blocks_chars(bs@) <= usize::MAX,
            total == start + blocks_chars(bs@.take(i as int)),
        decreases bs@.len() - i,
    {
        proof {
            assert(bs@.take(i as int + 1).drop_last() =~= bs@.take(i as int));
            lemma_prefix_le_blocks(bs@, i as int + 1);
        }
        match &bs[i] {
            IrContentBlock::Text { text, .. } => {
                total = add_chars(total, text);
            },
            IrContentBlock::Thinking { thinking, .. } => {
                total = add_chars(total, thinking);
            },
            IrContentBlock::ToolResult { content, .. } => match content {
                IrToolResultContent::Text(t) => {
                    total = add_chars(total, t);
                },
                IrToolResultContent::Blocks(inner) => {
                    total = text_blocks_count(inner, total);
                },
            },
            _ => {},
        }
        i = i + 1;
    }
    proof {
        assert(bs@.take(i as int) =~= bs@);
    }
    total
}

/// A rough estimate of a request's input tokens, used before the upstream
/// reports any: the characters of the system prompt and of the text,
/// thinking and tool results of the messages, divided by 4, and at least 1.
pub fn estimate_input_tokens(req: &IrRequest) -> (r: u64)
    requires
        request_chars(*req) <= usize::MAX,
    ensures
        r == estimate_spec(*req),
        r >= 1,
{
    let mut chars: usize = 0;
    match &req.system {
        Some(IrSystemContent::Text(t)) => {
            chars = add_chars(chars, t);
        },
        Some(IrSystemContent::Blocks(bs)) => {
            let mut i: usize = 0;
            while i < bs.len()
                invariant
                    i <= bs@.len(),
                    system_blocks_chars(bs@) + messages_chars(req.messages@) <= usize::MAX,
                    chars == system_blocks_chars(bs@.take(i as int)),
                decreases bs@.len() - i,
            {
                proof {
                    assert(bs@.take(i as int + 1).drop_last() =~= bs@.take(i as int));
                    lemma_prefix_le_system(bs@, i as int + 1);
                }
                chars = add_chars(chars, &bs[i].text);
                i = i + 1;
            }
            proof {
                assert(bs@.take(i as int) =~= bs@);
            }
        },
        None => {},
    }
    let base = chars;
    let mut i: usize = 0;
    while i < req.messages.len()
        invariant
            i <= req.messages@.len(),
            base + messages_chars(req.messages@) <= usize::MAX,
            chars == base + messages_chars(req.messages@.take(i as int)),
        decreases req.messages@.len() - i,
    {
        proof {
            assert(req.messages@.take(i as int + 1).drop_last() =~= req.messages@.take(i as int));
            lemma_prefix_le_messages(req.messages@, i as int + 1);
        }
        chars = blocks_count(&req.messages[i].content, chars);
        i = i + 1;
    }
    proof {
        assert(req.messages@.take(i as int) =~= req.messages@);
    }
    let q = (chars / 4) as u64;
    if q >= 1 {
        q
    } else {
        1
    }
}

} // verus!
