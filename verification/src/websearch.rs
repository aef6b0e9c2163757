//! Web search through tool calls: the proxy offers the model its own
//! `web_search` tool, runs each search itself, and feeds the results back,
//! until the model answers, repeats itself, or the rounds run out.

use vstd::prelude::*;
use crate::audit::{message_text, text_of_blocks};
use crate::config::decimal;
use crate::ir::{
    blocks_view, lemma_blocks_view_index, lemma_blocks_view_len, BlockV, IrContentBlock,
    IrMessage, IrRequest, IrTool, IrToolChoice, MessageV, RequestV, ToolChoiceV, ToolV,
};
use crate::json::{Json, JsonV};
use crate::stream::{in_family, is_search_tool, is_search_tool_name, keep_outside, ToolFamily};
use crate::text::{chars_of, is_ws, lowercase, seq_starts_with, string_from_chars, to_lowercase, trim, trim_spec};

verus! {

/// The most tool rounds of one request.
pub const MAX_TOOL_ROUNDS: usize = 10;

/// How many earlier search rounds a new round's queries are compared with.
pub const NO_PROGRESS_ROUNDS: usize = 2;

/// One search result.
#[derive(Debug)]
pub struct SearchResult {
    pub title: String,
    pub url: String,
    pub snippet: String,
}

/// One result as the model reads it: its number, title, URL and summary.
pub open spec fn result_text(n: nat, r: SearchResult) -> Seq<char> {
    "["@ + decimal(n) + "] "@ + r.title@ + "\n"@ + r.url@ + "\n摘要: "@ + r.snippet@
}

/// The results as the model reads them, numbered from 1, separated by blank
/// lines.
pub open spec fn search_text(rs: Seq<SearchResult>) -> Seq<char>
    decreases rs.len(),
{
    if rs.len() == 0 {
        Seq::empty()
    } else if rs.len() == 1 {
        result_text(1, rs[0])
    } else {
        search_text(rs.drop_last()) + "\n\n"@ + result_text(rs.len(), rs.last())
    }
}

/// Formats search results for the model.
pub fn format_search_text(results: &[SearchResult]) -> (r: String)
    ensures
        r@ == search_text(results@),
{
    let mut out = String::new();
    let mut i: usize = 0;
    while i < results.len()
        invariant
            i <= results@.len(),
            out@ == search_text(results@.take(i as int)),
        decreases results@.len() - i,
    {
        proof {
            assert(results@.take(i as int + 1).drop_last() =~= results@.take(i as int));
            assert(results@.take(i as int + 1).last() == results@[i as int]);
        }
        if i > 0 {
            out.append("\n\n");
        }
        out.append("[");
        let num = crate::config::decimal_string((i + 1) as u64);
        out.append(num.as_str());
        out.append("] ");
        out.append(results[i].title.as_str());
        out.append("\n");
        out.append(results[i].url.as_str());
        out.append("\n摘要: ");
        out.append(results[i].snippet.as_str());
        proof {
            if i == 0 {
                assert(out@ =~= result_text(1, results@[0]));
            } else {
                assert(out@ =~= search_text(results@.take(i as int)) + "\n\n"@ + result_text(
                    (i + 1) as nat,
                    results@[i as int],
                ));
            }
        }
        i = i + 1;
    }
    proof {
        assert(results@.take(i as int) =~= results@);
    }
    out
}

// ---- repeated queries ----

/// A query as it is compared: lowercase, without whitespace.
pub open spec fn normalize_spec(q: Seq<char>) -> Seq<char> {
    lowercase(q).filter(|c: char| !is_ws(c))
}

/// Lowercases a query and drops its whitespace.
pub fn normalize_query(q: &str) -> (r: String)
    ensures
        r@ == normalize_spec(q@),
{
    let lower = to_lowercase(q);
    let cs = chars_of(lower.as_str());
    let mut out: Vec<char> = Vec::new();
    let mut i: usize = 0;
    proof {
        assert(cs@.take(0).filter(|c: char| !is_ws(c)) =~= Seq::<char>::empty()) by {
            reveal(Seq::filter);
        }
    }
    while i < cs.len()
        invariant
            i <= cs@.len(),
            out@ == cs@.take(i as int).filter(|c: char| !is_ws(c)),
        decreases cs@.len() - i,
    {
        let c = cs[i];
        proof {
            assert(cs@.take(i as int + 1) =~= cs@.take(i as int).push(c));
            cs@.take(i as int).lemma_filter_push(c, |c: char| !is_ws(c));
        }
        if !crate::text::is_ws_exec(c) {
            out.push(c);
        }
        i = i + 1;
    }
    proof {
        assert(cs@.take(i as int) =~= cs@);
    }
    string_from_chars(out.as_slice())
}

/// The edit distance of two texts: the fewest insertions, deletions and
/// substitutions of characters that turn one into the other.
pub open spec fn edit_distance(a: Seq<char>, b: Seq<char>) -> nat
    decreases a.len() + b.len(),
{
    if a.len() == 0 {
        b.len()
    } else if b.len() == 0 {
        a.len()
    } else {
        let del = edit_distance(a.drop_last(), b) + 1;
        let ins = edit_distance(a, b.drop_last()) + 1;
        let sub = edit_distance(a.drop_last(), b.drop_last()) + if a.last() == b.last() {
            0nat
        } else {
            1nat
        };
        min3(del, ins, sub)
    }
}

pub open spec fn min3(x: nat, y: nat, z: nat) -> nat {
    let m = if x <= y {
        x
    } else {
        y
    };
    if m <= z {
        m
    } else {
        z
    }
}

proof fn lemma_edit_distance_bound(a: Seq<char>, b: Seq<char>)
    ensures
        edit_distance(a, b) <= a.len() + b.len(),
    decreases a.len() + b.len(),
{
    if a.len() > 0 && b.len() > 0 {
        lemma_edit_distance_bound(a.drop_last(), b);
    }
}

/// The edit distance of two character sequences, by dynamic programming
/// over two rows.
pub fn edit_distance_chars(a: &Vec<char>, b: &Vec<char>) -> (r: u128)
    ensures
        r == edit_distance(a@, b@),
{
    let n = a.len();
    let m = b.len();
    let mut prev: Vec<u128> = Vec::new();
    prev.push(0);
    let mut j: usize = 0;
    proof {
        assert(a@.take(0).len() == 0);
        assert(b@.take(0).len() == 0);
    }
    while j < m
        invariant
            j <= m,
            m == b@.len(),
            prev@.len() == j + 1,
            forall|k: int| 0 <= k <= j ==> #[trigger] prev@[k] == edit_distance(a@.take(0), b@.take(k)),
        decreases m - j,
    {
        proof {
            assert(a@.take(0).len() == 0);
            assert(b@.take(j as int + 1).len() == j + 1);
        }
        prev.push(j as u128 + 1);
        j = j + 1;
    }
    let mut i: usize = 0;
    while i < n
        invariant
            i <= n,
            n == a@.len(),
            m == b@.len(),
            prev@.len() == m + 1,
            forall|k: int| 0 <= k <= m ==> #[trigger] prev@[k] == edit_distance(a@.take(i as int), b@.take(k)),
        decreases n - i,
    {
        let ghost ai = a@.take(i as int);
        let ghost ai1 = a@.take(i as int + 1);
        proof {
            assert(ai1.drop_last() =~= ai);
            assert(ai1.last() == a@[i as int]);
            assert(b@.take(0).len() == 0);
        }
        let mut cur: Vec<u128> = Vec::new();
        cur.push(i as u128 + 1);
        let mut k: usize = 0;
        while k < m
            invariant
                k <= m,
                i < n,
                n == a@.len(),
                m == b@.len(),
                ai == a@.take(i as int),
                ai1 == a@.take(i as int + 1),
                ai1.drop_last() == ai,
                ai1.last() == a@[i as int],
                ai.len() == i,
                ai1.len() == i + 1,
                prev@.len() == m + 1,
                forall|x: int| 0 <= x <= m ==> #[trigger] prev@[x] == edit_distance(ai, b@.take(x)),
                cur@.len() == k + 1,
                forall|x: int| 0 <= x <= k ==> #[trigger] cur@[x] == edit_distance(ai1, b@.take(x)),
            decreases m - k,
        {
            let ghost bk1 = b@.take(k as int + 1);
            proof {
                assert(bk1.drop_last() =~= b@.take(k as int));
                assert(bk1.last() == b@[k as int]);
                lemma_edit_distance_bound(ai, bk1);
                lemma_edit_distance_bound(ai1, b@.take(k as int));
                lemma_edit_distance_bound(ai, b@.take(k as int));
                assert(prev@[k as int + 1] == edit_distance(ai, bk1));
                assert(cur@[k as int] == edit_distance(ai1, b@.take(k as int)));
                assert(prev@[k as int] == edit_distance(ai, b@.take(k as int)));
            }
            let cost: u128 = if a[i] == b[k] {
                0
            } else {
                1
            };
            let del = prev[k + 1] + 1;
            let ins = cur[k] + 1;
            let sub = prev[k] + cost;
            let mut best = if del <= ins {
                del
            } else {
                ins
            };
            if sub < best {
                best = sub;
            }
            proof {
                assert(best == edit_distance(ai1, bk1));
            }
            cur.push(best);
            k = k + 1;
        }
        prev = cur;
        i = i + 1;
    }
    proof {
        assert(a@.take(n as int) =~= a@);
        assert(b@.take(m as int) =~= b@);
    }
    prev[m]
}

/// Two queries repeat each other when, normalized, they are equal, or both
/// non-empty with an edit distance of at most two fifths of the longer one:
/// a similarity `1 - distance / longer` of at least 0.6.
pub open spec fn queries_repeat_spec(p: Seq<char>, q: Seq<char>) -> bool {
    let a = normalize_spec(p);
    let b = normalize_spec(q);
    let longer = if a.len() >= b.len() {
        a.len()
    } else {
        b.len()
    };
    a == b || (a.len() > 0 && b.len() > 0 && 5 * edit_distance(a, b) <= 2 * longer)
}

/// Whether two queries repeat each other.
pub fn queries_repeat(p: &str, q: &str) -> (r: bool)
    ensures
        r == queries_repeat_spec(p@, q@),
{
    let a = normalize_query(p);
    let b = normalize_query(q);
    if crate::json::str_eq(a.as_str(), b.as_str()) {
        return true;
    }
    let ac = chars_of(a.as_str());
    let bc = chars_of(b.as_str());
    let la = ac.len();
    let lb = bc.len();
    if la == 0 || lb == 0 {
        return false;
    }
    let longer: u128 = if la >= lb {
        la as u128
    } else {
        lb as u128
    };
    let d = edit_distance_chars(&ac, &bc);
    proof {
        lemma_edit_distance_bound(ac@, bc@);
    }
    5 * d <= 2 * longer
}

/// Whether a round repeats the recent search: one of its queries repeats
/// one of the last `NO_PROGRESS_ROUNDS` queries of the history.
pub open spec fn is_repetitive_spec(history: Seq<String>, round: Seq<String>) -> bool {
    exists|i: int, j: int|
        0 <= i < recent_queries(history).len() && 0 <= j < round.len() && repeats_at(
            history,
            round,
            i,
            j,
        )
}

/// The last `NO_PROGRESS_ROUNDS` queries of the history.
pub open spec fn recent_queries(history: Seq<String>) -> Seq<String> {
    if history.len() <= NO_PROGRESS_ROUNDS {
        history
    } else {
        history.skip(history.len() - NO_PROGRESS_ROUNDS)
    }
}

pub open spec fn repeats_at(history: Seq<String>, round: Seq<String>, i: int, j: int) -> bool {
    queries_repeat_spec(recent_queries(history)[i]@, round[j]@)
}

/// Whether a round's queries repeat the recent search.
pub fn is_repetitive(history: &[String], round: &[String]) -> (r: bool)
    ensures
        r == is_repetitive_spec(history@, round@),
{
    let n = history.len();
    let start: usize = if n <= NO_PROGRESS_ROUNDS {
        0
    } else {
        n - NO_PROGRESS_ROUNDS
    };
    let ghost recent = recent_queries(history@);
    proof {
        assert(recent =~= history@.skip(start as int));
    }
    let mut i: usize = start;
    while i < n
        invariant
            start <= i <= n,
            n == history@.len(),
            recent == history@.skip(start as int),
            recent == recent_queries(history@),
            forall|x: int, y: int|
                0 <= x < i - start && 0 <= y < round@.len() ==> !#[trigger] repeats_at(history@, round@, x, y),
        decreases n - i,
    {
        let mut j: usize = 0;
        while j < round.len()
            invariant
                start <= i < n,
                n == history@.len(),
                recent == history@.skip(start as int),
                recent == recent_queries(history@),
                j <= round@.len(),
                forall|x: int, y: int|
                    0 <= x < i - start && 0 <= y < round@.len() ==> !#[trigger] repeats_at(history@, round@, x, y),
                forall|y: int| 0 <= y < j ==> !#[trigger] repeats_at(history@, round@, i - start, y),
            decreases round@.len() - j,
        {
            if queries_repeat(history[i].as_str(), round[j].as_str()) {
                proof {
                    let x = i - start;
                    assert(recent.len() == n - start);
                    assert(recent[x] == history@[i as int]);
                    assert(repeats_at(history@, round@, x, j as int));
                }
                return true;
            }
            j = j + 1;
        }
        proof {
            assert forall|x: int, y: int|
                0 <= x < i + 1 - start && 0 <= y < round@.len() implies !#[trigger] repeats_at(history@, round@, x, y) by {
                if x == i - start {
                }
            }
        }
        i = i + 1;
    }
    false
}

// ---- the proxy's search tool ----

/// Whether the request offers a search tool.
pub open spec fn has_search_tool(ts: Seq<ToolV>) -> bool {
    exists|i: int| 0 <= i < ts.len() && is_search_tool(#[trigger] ts[i].name)
}

pub fn has_websearch_tool_ir(req: &IrRequest) -> (r: bool)
    ensures
        r == has_search_tool(req@.tools),
{
    let mut i: usize = 0;
    while i < req.tools.len()
        invariant
            i <= req.tools@.len(),
            forall|k: int| 0 <= k < i ==> !is_search_tool(#[trigger] req@.tools[k].name),
        decreases req.tools@.len() - i,
    {
        if is_search_tool_name(req.tools[i].name.as_str()) {
            proof {
                assert(is_search_tool(req@.tools[i as int].name));
            }
            return true;
        }
        i = i + 1;
    }
    false
}

pub const WEB_SEARCH_DESCRIPTION: &'static str = "Search the web for current information. Use this when the user's question requires up-to-date facts, recent events, or information not in your training data.";

/// The proxy's own `web_search` tool.
pub open spec fn web_search_tool() -> ToolV {
    ToolV {
        name: "web_search"@,
        description: Some(WEB_SEARCH_DESCRIPTION@),
        input_schema: crate::from_messages::websearch_schema(),
    }
}

/// The request after `ensure_websearch_tool`: every search tool of the
/// client replaced by the proxy's own `web_search`, which comes last, and a
/// forced choice of a removed tool pointed at it.
pub open spec fn with_web_search(r: RequestV) -> RequestV {
    RequestV {
        tools: keep_outside(ToolFamily::Search, r.tools).push(web_search_tool()),
        tool_choice: match r.tool_choice {
            Some(ToolChoiceV::Tool { name }) => if is_search_tool(name) {
                Some(ToolChoiceV::Tool { name: "web_search"@ })
            } else {
                r.tool_choice
            },
            _ => r.tool_choice,
        },
        ..r
    }
}

/// Replaces the client's search tools with the proxy's `web_search`.
pub fn ensure_websearch_tool(ir_request: &mut IrRequest)
    ensures
        final(ir_request)@ == with_web_search(old(ir_request)@),
{
    let forced = match &ir_request.tool_choice {
        Some(IrToolChoice::Tool { name }) => is_search_tool_name(name.as_str()),
        _ => false,
    };
    crate::stream::strip_tools(ir_request, ToolFamily::Search);
    if forced {
        ir_request.tool_choice = Some(IrToolChoice::Tool { name: "web_search".to_owned() });
    }
    let tool = IrTool {
        name: "web_search".to_owned(),
        description: Some(WEB_SEARCH_DESCRIPTION.to_owned()),
        input_schema: web_search_schema_exec(),
    };
    let ghost before = ir_request@.tools;
    let ghost tv = tool@;
    ir_request.tools.push(tool);
    proof {
        assert(ir_request@.tools =~= before.push(tv));
    }
}

fn web_search_schema_exec() -> (r: Json)
    ensures
        r@ == crate::from_messages::websearch_schema(),
{
    crate::from_messages::websearch_schema_json()
}

/// The query a search tool call asks for: its `query`, else its `q`, where
/// that is a non-empty string, trimmed.
pub open spec fn query_of_input(input: JsonV) -> Option<Seq<char>> {
    let v = match input.get("query"@) {
        Some(v) => Some(v),
        None => input.get("q"@),
    };
    match v {
        Some(x) => match x.as_str() {
            Some(s) => if s.len() > 0 {
                Some(trim_spec(s))
            } else {
                None
            },
            None => None,
        },
        None => None,
    }
}

pub fn extract_query_from_tool_input(input: &Json) -> (r: Option<String>)
    ensures
        crate::json::opt_str_view(r) == query_of_input(input@),
{
    let v = match input.get("query") {
        Some(v) => Some(v),
        None => input.get("q"),
    };
    match v {
        Some(x) => match x.as_str() {
            Some(s) => {
                if !s.is_empty() {
                    Some(trim(s))
                } else {
                    None
                }
            },
            None => None,
        },
        None => None,
    }
}

/// The search calls of an assistant message: id and input of every tool use
/// whose name starts with `web_search`.
pub open spec fn search_calls(bs: Seq<BlockV>) -> Seq<(Seq<char>, JsonV)>
    decreases bs.len(),
{
    if bs.len() == 0 {
        Seq::empty()
    } else {
        let rest = search_calls(bs.drop_last());
        match bs.last() {
            BlockV::ToolUse { id, name, input } => if seq_starts_with(name, "web_search"@) {
                rest.push((id, input))
            } else {
                rest
            },
            _ => rest,
        }
    }
}

pub fn extract_websearch_tool_calls(msg: &IrMessage) -> (r: Vec<(String, Json)>)
    ensures
        r@.map_values(|c: (String, Json)| (c.0@, c.1@)) == search_calls(msg@.content),
{
    let mut out: Vec<(String, Json)> = Vec::new();
    let mut i: usize = 0;
    proof {
        assert(out@.map_values(|c: (String, Json)| (c.0@, c.1@)) =~= Seq::<(Seq<char>, JsonV)>::empty());
        assert(blocks_view(msg.content@).take(0) =~= Seq::<BlockV>::empty());
    }
    while i < msg.content.len()
        invariant
            i <= msg.content@.len(),
            out@.map_values(|c: (String, Json)| (c.0@, c.1@)) == search_calls(
                blocks_view(msg.content@).take(i as int),
            ),
        decreases msg.content@.len() - i,
    {
        proof {
            lemma_blocks_view_index(msg.content@, i as int);
            assert(blocks_view(msg.content@).take(i as int + 1).drop_last() =~= blocks_view(
                msg.content@,
            ).take(i as int));
        }
        match &msg.content[i] {
            IrContentBlock::ToolUse { id, name, input } => {
                if crate::text::starts_with(name.as_str(), "web_search") {
                    let ghost before = out@.map_values(|c: (String, Json)| (c.0@, c.1@));
                    let pair = (id.clone(), input.copy());
                    let ghost pv = (pair.0@, pair.1@);
                    out.push(pair);
                    proof {
                        assert(out@.map_values(|c: (String, Json)| (c.0@, c.1@)) =~= before.push(pv));
                    }
                }
            },
            _ => {},
        }
        i = i + 1;
    }
    proof {
        lemma_blocks_view_len(msg.content@);
        assert(blocks_view(msg.content@).take(i as int) =~= blocks_view(msg.content@));
    }
    out
}

/// The final answer of an assistant message: its text blocks joined.
pub fn extract_final_text(msg: &IrMessage) -> (r: String)
    ensures
        r@ == message_text(msg@),
{
    crate::audit::extract_text(msg)
}

/// A text on one line: line breaks become spaces.
pub open spec fn one_line(s: Seq<char>) -> Seq<char> {
    s.map_values(|c: char| if c == '\n' || c == '\r' { ' ' } else { c })
}

/// An SSE comment line with a progress message, kept on one line.
pub fn progress_comment(msg: &str) -> (r: String)
    ensures
        r@ == ": "@ + one_line(msg@) + "\n\n"@,
{
    let cs = chars_of(msg);
    let mut out: Vec<char> = Vec::new();
    let mut i: usize = 0;
    while i < cs.len()
        invariant
            i <= cs@.len(),
            out@ == one_line(cs@.take(i as int)),
        decreases cs@.len() - i,
    {
        let c = cs[i];
        out.push(if c == '\n' || c == '\r' { ' ' } else { c });
        proof {
            assert(one_line(cs@.take(i as int + 1)) =~= one_line(cs@.take(i as int)).push(
                if c == '\n' || c == '\r' { ' ' } else { c },
            ));
        }
        i = i + 1;
    }
    proof {
        assert(cs@.take(i as int) =~= cs@);
    }
    let body = string_from_chars(out.as_slice());
    let mut r = ": ".to_owned();
    r.append(body.as_str());
    r.append("\n\n");
    r
}


// ---- the forced final round ----

pub open spec fn has_tool_use(bs: Seq<BlockV>) -> bool {
    exists|i: int| 0 <= i < bs.len() && #[trigger] bs[i] is ToolUse
}

pub open spec fn has_tool_result(bs: Seq<BlockV>) -> bool {
    exists|i: int| 0 <= i < bs.len() && #[trigger] bs[i] is ToolResult
}

/// The non-empty texts of the tool results among `bs`, in order.
pub open spec fn result_texts(bs: Seq<BlockV>) -> Seq<Seq<char>>
    decreases bs.len(),
{
    if bs.len() == 0 {
        Seq::empty()
    } else {
        let rest = result_texts(bs.drop_last());
        match bs.last() {
            BlockV::ToolResult { content, .. } => {
                let t = crate::to_chat_completions::tool_result_text(content);
                if t.len() > 0 {
                    rest.push(t)
                } else {
                    rest
                }
            },
            _ => rest,
        }
    }
}

/// The messages kept for the forced final round (none with a tool use or a
/// tool result), and the texts of the search results they dropped.
pub open spec fn final_round_fold(ms: Seq<MessageV>) -> (Seq<MessageV>, Seq<Seq<char>>)
    decreases ms.len(),
{
    if ms.len() == 0 {
        (Seq::empty(), Seq::empty())
    } else {
        let (kept, texts) = final_round_fold(ms.drop_last());
        let m = ms.last();
        let texts2 = if has_tool_result(m.content) {
            texts + result_texts(m.content)
        } else {
            texts
        };
        if !has_tool_use(m.content) && !has_tool_result(m.content) {
            (kept.push(m), texts2)
        } else {
            (kept, texts2)
        }
    }
}

/// The tools whose names do not start with `web_search`, in order.
pub open spec fn without_web_search(ts: Seq<ToolV>) -> Seq<ToolV>
    decreases ts.len(),
{
    if ts.len() == 0 {
        Seq::empty()
    } else {
        let rest = without_web_search(ts.drop_last());
        if seq_starts_with(ts.last().name, "web_search"@) {
            rest
        } else {
            rest.push(ts.last())
        }
    }
}

pub open spec fn summary_intro() -> Seq<char> {
    "以下是网络搜索获得的相关信息，请基于这些信息回答用户的问题，不要再调用任何工具：\n\n"@
}

/// The request of the forced final round, once the rounds ran out: the tool
/// traffic is removed, the search tools are withdrawn and tools are
/// refused, and the search results are handed over as a user message.
pub open spec fn forced_final_request(r: RequestV) -> RequestV {
    let (kept, texts) = final_round_fold(r.messages);
    RequestV {
        messages: if texts.len() > 0 {
            kept.push(
                MessageV {
                    role: crate::ir::IrRole::User,
                    content: seq![
                        BlockV::Text {
                            text: summary_intro() + crate::text::join_spec(texts, "\n\n"@),
                            cache_control: None,
                        },
                    ],
                },
            )
        } else {
            kept
        },
        tools: without_web_search(r.tools),
        tool_choice: Some(ToolChoiceV::NoTools),
        ..r
    }
}

fn message_flags(bs: &Vec<IrContentBlock>) -> (r: (bool, bool))
    ensures
        r.0 == has_tool_use(blocks_view(bs@)),
        r.1 == has_tool_result(blocks_view(bs@)),
{
    let ghost bv = blocks_view(bs@);
    proof {
        lemma_blocks_view_len(bs@);
    }
    let mut tu = false;
    let mut tr = false;
    let mut i: usize = 0;
    while i < bs.len()
        invariant
            i <= bs@.len(),
            bv == blocks_view(bs@),
            bv.len() == bs@.len(),
            tu <==> exists|j: int| 0 <= j < i && #[trigger] bv[j] is ToolUse,
            tr <==> exists|j: int| 0 <= j < i && #[trigger] bv[j] is ToolResult,
        decreases bs@.len() - i,
    {
        proof {
            lemma_blocks_view_index(bs@, i as int);
        }
        match &bs[i] {
            IrContentBlock::ToolUse { .. } => {
                tu = true;
            },
            IrContentBlock::ToolResult { .. } => {
                tr = true;
            },
            _ => {},
        }
        proof {
            assert(bv[i as int] is ToolUse <==> bs@[i as int] is ToolUse);
            assert(bv[i as int] is ToolResult <==> bs@[i as int] is ToolResult);
        }
        i = i + 1;
    }
    (tu, tr)
}

fn push_result_texts(bs: &Vec<IrContentBlock>, out: &mut Vec<String>)
    ensures
        final(out)@.map_values(|t: String| t@) == old(out)@.map_values(|t: String| t@) + result_texts(
            blocks_view(bs@),
        ),
{
    let ghost o0 = out@.map_values(|t: String| t@);
    let ghost bv = blocks_view(bs@);
    proof {
        lemma_blocks_view_len(bs@);
        assert(o0 + result_texts(bv.take(0)) =~= o0);
    }
    let mut i: usize = 0;
    while i < bs.len()
        invariant
            i <= bs@.len(),
            bv == blocks_view(bs@),
            bv.len() == bs@.len(),
            out@.map_values(|t: String| t@) == o0 + result_texts(bv.take(i as int)),
        decreases bs@.len() - i,
    {
        proof {
            lemma_blocks_view_index(bs@, i as int);
            assert(bv.take(i as int + 1).drop_last() =~= bv.take(i as int));
        }
        match &bs[i] {
            IrContentBlock::ToolResult { content, .. } => {
                let t = crate::to_chat_completions::tool_result_text_pub(content);
                if t.unicode_len() > 0 {
                    let ghost before = out@.map_values(|t: String| t@);
                    let ghost tv = t@;
                    out.push(t);
                    proof {
                        assert(out@.map_values(|t: String| t@) =~= before.push(tv));
                    }
                }
            },
            _ => {},
        }
        proof {
            assert(out@.map_values(|t: String| t@) =~= o0 + result_texts(bv.take(i as int + 1)));
        }
        i = i + 1;
    }
    proof {
        assert(bv.take(i as int) =~= bv);
    }
}

/// Turns the request into that of the forced final round.
pub fn prepare_forced_final_round(req: &mut IrRequest)
    ensures
        final(req)@ == forced_final_request(old(req)@),
{
    let ghost r0 = req@;
    let mut old_msgs: Vec<IrMessage> = Vec::new();
    std::mem::swap(&mut old_msgs, &mut req.messages);
    let ghost mv = old_msgs@.map_values(|m: IrMessage| m@);
    let mut kept: Vec<IrMessage> = Vec::new();
    let mut texts: Vec<String> = Vec::new();
    let mut i: usize = 0;
    let n = old_msgs.len();
    proof {
        assert(mv == r0.messages);
        assert(final_round_fold(mv.take(0)) == (Seq::<MessageV>::empty(), Seq::<Seq<char>>::empty()));
        assert(kept@.map_values(|m: IrMessage| m@) =~= Seq::<MessageV>::empty());
        assert(texts@.map_values(|t: String| t@) =~= Seq::<Seq<char>>::empty());
    }
    while old_msgs.len() > 0
        invariant
            n == mv.len(),
            i + old_msgs@.len() == n,
            old_msgs@.map_values(|m: IrMessage| m@) == mv.skip(i as int),
            (kept@.map_values(|m: IrMessage| m@), texts@.map_values(|t: String| t@)) == final_round_fold(
                mv.take(i as int),
            ),
            req@ == (RequestV { messages: Seq::empty(), ..r0 }),
        decreases old_msgs@.len(),
    {
        let ghost rest = old_msgs@;
        let m = old_msgs.remove(0);
        proof {
            assert(rest.map_values(|m: IrMessage| m@)[0] == m@);
            assert(old_msgs@ =~= rest.subrange(1, rest.len() as int));
            assert(rest.subrange(1, rest.len() as int).map_values(|m: IrMessage| m@) =~= rest.map_values(
                |m: IrMessage| m@,
            ).subrange(1, rest.len() as int));
            assert(mv.skip(i as int).subrange(1, rest.len() as int) =~= mv.skip(i as int + 1));
            assert(old_msgs@.map_values(|m: IrMessage| m@) =~= mv.skip(i as int + 1));
            assert(mv.skip(i as int)[0] == mv[i as int]);
            assert(mv.take(i as int + 1).drop_last() =~= mv.take(i as int));
            assert(mv.take(i as int + 1).last() == m@);
        }
        let (tu, tr) = message_flags(&m.content);
        if tr {
            push_result_texts(&m.content, &mut texts);
        }
        if !tu && !tr {
            let ghost before = kept@.map_values(|m: IrMessage| m@);
            let ghost mvv = m@;
            kept.push(m);
            proof {
                assert(kept@.map_values(|m: IrMessage| m@) =~= before.push(mvv));
            }
        }
        i = i + 1;
    }
    proof {
        assert(mv.take(i as int) =~= mv);
    }
    if texts.len() > 0 {
        let mut body = String::from_str("以下是网络搜索获得的相关信息，请基于这些信息回答用户的问题，不要再调用任何工具：\n\n");
        let joined = crate::text::join_strings(&texts, "\n\n");
        body.append(joined.as_str());
        let mut content: Vec<IrContentBlock> = Vec::new();
        proof {
            assert(blocks_view(content@) =~= Seq::<BlockV>::empty());
        }
        crate::ir::push_block(&mut content, IrContentBlock::Text { text: body, cache_control: None });
        let ghost before = kept@.map_values(|m: IrMessage| m@);
        let msg = IrMessage { role: crate::ir::IrRole::User, content };
        let ghost mvv = msg@;
        kept.push(msg);
        proof {
            assert(kept@.map_values(|m: IrMessage| m@) =~= before.push(mvv));
        }
    }
    req.messages = kept;
    let mut old_tools: Vec<IrTool> = Vec::new();
    std::mem::swap(&mut old_tools, &mut req.tools);
    let ghost tv = old_tools@.map_values(|t: IrTool| t@);
    let mut tools: Vec<IrTool> = Vec::new();
    let mut k: usize = 0;
    let tn = old_tools.len();
    proof {
        assert(tv == r0.tools);
        assert(tools@.map_values(|t: IrTool| t@) =~= without_web_search(tv.take(0)));
    }
    while old_tools.len() > 0
        invariant
            tn == tv.len(),
            k + old_tools@.len() == tn,
            old_tools@.map_values(|t: IrTool| t@) == tv.skip(k as int),
            tools@.map_values(|t: IrTool| t@) == without_web_search(tv.take(k as int)),
        decreases old_tools@.len(),
    {
        let ghost rest = old_tools@;
        let t = old_tools.remove(0);
        proof {
            assert(rest.map_values(|t: IrTool| t@)[0] == t@);
            assert(old_tools@ =~= rest.subrange(1, rest.len() as int));
            assert(rest.subrange(1, rest.len() as int).map_values(|t: IrTool| t@) =~= rest.map_values(
                |t: IrTool| t@,
            ).subrange(1, rest.len() as int));
            assert(tv.skip(k as int).subrange(1, rest.len() as int) =~= tv.skip(k as int + 1));
            assert(old_tools@.map_values(|t: IrTool| t@) =~= tv.skip(k as int + 1));
            assert(tv.skip(k as int)[0] == tv[k as int]);
            assert(tv.take(k as int + 1).drop_last() =~= tv.take(k as int));
            assert(tv.take(k as int + 1).last() == t@);
        }
        if !crate::text::starts_with(t.name.as_str(), "web_search") {
            let ghost before = tools@.map_values(|t: IrTool| t@);
            let ghost tvv = t@;
            tools.push(t);
            proof {
                assert(tools@.map_values(|t: IrTool| t@) =~= before.push(tvv));
            }
        }
        k = k + 1;
    }
    proof {
        assert(tv.take(k as int) =~= tv);
    }
    req.tools = tools;
    req.tool_choice = Some(IrToolChoice::NoTools);
    proof {
        assert(req@.messages =~= forced_final_request(r0).messages);
        assert(req@.tools =~= forced_final_request(r0).tools);
    }
}


// ---- the brand message ----

/// The line that announces a search.
pub open spec fn brand_line(q: Seq<char>) -> Seq<char> {
    "🌐 WebSearch Powered by XRL Router | 关键词: "@ + q
}

pub open spec fn brand_text(queries: Seq<Seq<char>>) -> Seq<char> {
    crate::text::join_spec(queries.map_values(|q: Seq<char>| brand_line(q)), "\n"@)
}

/// The frames of the message that announces a round's searches to an
/// Anthropic client: a message of one text block, the announcement, closed
/// with a final delta (ending the turn, no usage) and the message stop.
pub open spec fn brand_frames(id: Seq<char>, model: Seq<char>, queries: Seq<Seq<char>>) -> Seq<Seq<char>> {
    use_type_frames(id, model, brand_text(queries))
}

pub open spec fn use_type_frames(id: Seq<char>, model: Seq<char>, text: Seq<char>) -> Seq<Seq<char>> {
    let idx = |kind: Seq<char>, key: Seq<char>, inner: JsonV|
        crate::json::jobj(seq![("type"@, JsonV::Str(kind)), ("index"@, JsonV::Int(0)), (key, inner)]);
    let st = crate::to_messages::MessagesRenderV {
        msg_id: id,
        model,
        started: true,
        ..crate::to_messages::initial_messages_render()
    };
    seq![
        crate::to_messages::sse_event(
            "message_start"@,
            crate::json::json_text(crate::to_messages::message_start_json(id, model, Some(crate::ir::zero_usage()))),
        ),
        crate::to_messages::sse_event(
            "content_block_start"@,
            crate::json::json_text(
                idx(
                    "content_block_start"@,
                    "content_block"@,
                    crate::to_messages::block_start_json(crate::ir::BlockStartV::Text),
                ),
            ),
        ),
        crate::to_messages::sse_event(
            "content_block_delta"@,
            crate::json::json_text(
                idx(
                    "content_block_delta"@,
                    "delta"@,
                    crate::to_messages::delta_json(crate::ir::DeltaV::Text(text)),
                ),
            ),
        ),
        crate::to_messages::sse_event(
            "content_block_stop"@,
            crate::json::json_text(
                crate::json::jobj(seq![("type"@, JsonV::Str("content_block_stop"@)), ("index"@, JsonV::Int(0))]),
            ),
        ),
        crate::to_messages::sse_event(
            "message_delta"@,
            crate::json::json_text(crate::to_messages::final_delta_json(st, crate::ir::zero_usage())),
        ),
        crate::to_messages::sse_event(
            "message_stop"@,
            crate::json::json_text(crate::json::jobj(seq![("type"@, JsonV::Str("message_stop"@))])),
        ),
    ]
}

/// Renders the announcement of a round's searches for an Anthropic client.
pub fn brand_message_frames(msg_id: &str, model: &str, queries: &Vec<String>) -> (r: Vec<String>)
    ensures
        r@.map_values(|f: String| f@) == brand_frames(msg_id@, model@, queries@.map_values(|q: String| q@)),
{
    let mut lines: Vec<String> = Vec::new();
    let ghost qv = queries@.map_values(|q: String| q@);
    let mut i: usize = 0;
    while i < queries.len()
        invariant
            i <= queries@.len(),
            qv == queries@.map_values(|q: String| q@),
            lines@.map_values(|l: String| l@) == qv.take(i as int).map_values(|q: Seq<char>| brand_line(q)),
        decreases queries@.len() - i,
    {
        let mut l = String::from_str("🌐 WebSearch Powered by XRL Router | 关键词: ");
        l.append(queries[i].as_str());
        let ghost before = lines@.map_values(|l: String| l@);
        let ghost lv = l@;
        lines.push(l);
        proof {
            assert(lines@.map_values(|l: String| l@) =~= before.push(lv));
            assert(qv.take(i as int + 1).map_values(|q: Seq<char>| brand_line(q)) =~= before.push(
                brand_line(qv[i as int]),
            ));
        }
        i = i + 1;
    }
    proof {
        assert(qv.take(i as int) =~= qv);
    }
    let text = crate::text::join_strings(&lines, "\n");
    let ghost tv = text@;
    let mut state = crate::to_messages::MessagesRenderState::new();
    let zero = crate::ir::IrUsage::default();
    let f1 = state.render_event(
        &crate::ir::IrStreamEvent::MessageStart {
            id: msg_id.to_owned(),
            model: model.to_owned(),
            usage: Some(zero),
        },
    );
    let f2 = state.render_event(
        &crate::ir::IrStreamEvent::ContentBlockStart { index: 0, block: crate::ir::IrContentBlockStart::Text },
    );
    let f3 = state.render_event(
        &crate::ir::IrStreamEvent::ContentBlockDelta {
            index: 0,
            delta: crate::ir::IrContentDelta::TextDelta(text),
        },
    );
    let f4 = state.render_event(&crate::ir::IrStreamEvent::ContentBlockStop { index: 0 });
    let fin = state.finalize(&zero);
    let mut out: Vec<String> = Vec::new();
    out.push(unwrap_frame(f1));
    out.push(unwrap_frame(f2));
    out.push(unwrap_frame(f3));
    out.push(unwrap_frame(f4));
    out.push(fin[0].clone());
    out.push(fin[1].clone());
    proof {
        assert(tv == brand_text(qv));
        assert(out@.map_values(|f: String| f@) =~= brand_frames(msg_id@, model@, qv));
    }
    out
}

fn unwrap_frame(f: Option<String>) -> (r: String)
    ensures
        f matches Some(x) ==> r@ == x@,
{
    match f {
        Some(x) => x,
        None => String::new(),
    }
}

} // verus!
