//! Request-level rules of the streaming proxy: the client's protocol, the
//! context of an authenticated request, which tools the proxy removes, the
//! notification hint it adds, and how upstream error bodies are read.

use vstd::prelude::*;
use crate::ir::{IrMessage, IrRequest, IrSystemBlock, IrSystemContent, IrTool, IrToolChoice, ToolV};
use crate::json::{parse_json, Json, JsonV};
use crate::text::{
    chars_of, contains_chars, contains_seq, lowercase, seq_starts_with, starts_with, to_lowercase,
};

verus! {

/// The protocol the client speaks.
#[derive(Debug, Clone, Copy, PartialEq, Eq, Structural)]
pub enum ClientFormat {
    Messages,
    ChatCompletions,
    Responses,
}

/// An authenticated service key.
#[derive(Debug)]
pub struct ServiceKeyInfo {
    pub id: String,
    pub name: String,
    pub key_masked: String,
    pub allowed_models: Vec<String>,
    /// Token limit over a rolling 5 hours; 0 for none.
    pub quota_5h: i64,
    /// Token limit over a rolling 7 days; 0 for none.
    pub quota_7d: i64,
}

/// What the audit log keeps of a request.
#[derive(Debug)]
pub struct AuditCapture {
    pub sk_id: String,
    pub sk_name: String,
    pub request_messages: Vec<IrMessage>,
}

/// An authenticated request, ready for the proxy engine.
#[derive(Debug)]
pub struct StreamContext {
    pub trace_id: String,
    /// When the request arrived, in milliseconds since the Unix epoch.
    pub start_time: u64,
    pub service_key: ServiceKeyInfo,
    pub model_name: String,
    pub endpoint: String,
    /// The request, with streaming set.
    pub ir_request: IrRequest,
    pub client_format: ClientFormat,
    /// The estimated input tokens.
    pub est_input: u64,
    /// How long to wait for the upstream's response headers, in seconds.
    pub header_timeout_secs: u64,
    /// Whether the client asked for a stream.
    pub client_wants_stream: bool,
    pub audit: Option<AuditCapture>,
}

// ---- tool names ----

/// The code of a character's ASCII lowercase.
pub open spec fn ascii_lower(c: char) -> u32 {
    if 'A' <= c && c <= 'Z' {
        ((c as u32) + 32) as u32
    } else {
        c as u32
    }
}

/// Equality up to ASCII case, as `str::eq_ignore_ascii_case` compares.
pub open spec fn eq_ignore_ascii_case_spec(a: Seq<char>, b: Seq<char>) -> bool {
    a.len() == b.len() && forall|i: int| 0 <= i < a.len() ==> ascii_lower(#[trigger] a[i]) == ascii_lower(b[i])
}

fn ascii_lower_exec(c: char) -> (r: u32)
    ensures
        r == ascii_lower(c),
{
    if 'A' <= c && c <= 'Z' {
        (c as u32) + 32
    } else {
        c as u32
    }
}

pub fn eq_ignore_ascii_case(a: &str, b: &str) -> (r: bool)
    ensures
        r == eq_ignore_ascii_case_spec(a@, b@),
{
    let x = chars_of(a);
    let y = chars_of(b);
    if x.len() != y.len() {
        return false;
    }
    let mut i: usize = 0;
    while i < x.len()
        invariant
            i <= x@.len(),
            x@ == a@,
            y@ == b@,
            x@.len() == y@.len(),
            forall|j: int| 0 <= j < i ==> ascii_lower(#[trigger] x@[j]) == ascii_lower(y@[j]),
        decreases x@.len() - i,
    {
        if ascii_lower_exec(x[i]) != ascii_lower_exec(y[i]) {
            return false;
        }
        i = i + 1;
    }
    true
}

pub open spec fn seq_ends_with(s: Seq<char>, p: Seq<char>) -> bool {
    p.len() <= s.len() && s.skip(s.len() - p.len()) == p
}

pub fn ends_with(s: &str, p: &str) -> (r: bool)
    ensures
        r == seq_ends_with(s@, p@),
{
    let n = s.unicode_len();
    let m = p.unicode_len();
    if m > n {
        return false;
    }
    let tail = s.substring_char(n - m, n);
    proof {
        assert(tail@ =~= s@.skip(s@.len() - p@.len()));
    }
    crate::json::str_eq(tail, p)
}

/// A search tool: Anthropic's server-side `web_search*` or the client's
/// `WebSearch`.
pub open spec fn is_search_tool(name: Seq<char>) -> bool {
    seq_starts_with(name, "web_search"@) || eq_ignore_ascii_case_spec(name, "WebSearch"@)
}

/// A fetch tool: Anthropic's server-side `web_fetch*` or the client's
/// `WebFetch`.
pub open spec fn is_fetch_tool(name: Seq<char>) -> bool {
    seq_starts_with(name, "web_fetch"@) || eq_ignore_ascii_case_spec(name, "WebFetch"@)
}

/// A native notification tool of a client or upstream; MCP tools
/// (`mcp__...`) never count.
pub open spec fn is_notify_tool(name: Seq<char>) -> bool {
    !seq_starts_with(name, "mcp__"@) && (eq_ignore_ascii_case_spec(name, "PushNotification"@)
        || eq_ignore_ascii_case_spec(name, "send_notification"@) || eq_ignore_ascii_case_spec(
        name,
        "notify"@,
    ) || eq_ignore_ascii_case_spec(name, "notification"@) || seq_starts_with(name, "notify_"@)
        || seq_ends_with(name, "_notification"@))
}

pub fn is_search_tool_name(name: &str) -> (r: bool)
    ensures
        r == is_search_tool(name@),
{
    starts_with(name, "web_search") || eq_ignore_ascii_case(name, "WebSearch")
}

pub fn is_fetch_tool_name(name: &str) -> (r: bool)
    ensures
        r == is_fetch_tool(name@),
{
    starts_with(name, "web_fetch") || eq_ignore_ascii_case(name, "WebFetch")
}

pub fn is_notify_tool_name(name: &str) -> (r: bool)
    ensures
        r == is_notify_tool(name@),
{
    if starts_with(name, "mcp__") {
        return false;
    }
    eq_ignore_ascii_case(name, "PushNotification") || eq_ignore_ascii_case(name, "send_notification")
        || eq_ignore_ascii_case(name, "notify") || eq_ignore_ascii_case(name, "notification")
        || starts_with(name, "notify_") || ends_with(name, "_notification")
}

/// Which family of tools a strip removes.
#[derive(Debug, Clone, Copy, PartialEq, Eq, Structural)]
pub enum ToolFamily {
    Search,
    Fetch,
    Notify,
}

pub open spec fn in_family(f: ToolFamily, name: Seq<char>) -> bool {
    match f {
        ToolFamily::Search => is_search_tool(name),
        ToolFamily::Fetch => is_fetch_tool(name),
        ToolFamily::Notify => is_notify_tool(name),
    }
}

fn in_family_exec(f: ToolFamily, name: &str) -> (r: bool)
    ensures
        r == in_family(f, name@),
{
    match f {
        ToolFamily::Search => is_search_tool_name(name),
        ToolFamily::Fetch => is_fetch_tool_name(name),
        ToolFamily::Notify => is_notify_tool_name(name),
    }
}

pub open spec fn tools_view(ts: Seq<IrTool>) -> Seq<ToolV> {
    ts.map_values(|t: IrTool| t@)
}

/// The tools outside a family, in their order.
pub open spec fn keep_outside(f: ToolFamily, ts: Seq<ToolV>) -> Seq<ToolV> {
    ts.filter(|t: ToolV| !in_family(f, t.name))
}

/// The tool choice after a strip: a forced choice of a removed tool becomes
/// `Auto`.
pub open spec fn choice_after_strip(f: ToolFamily, c: Option<crate::ir::ToolChoiceV>) -> Option<
    crate::ir::ToolChoiceV,
> {
    match c {
        Some(crate::ir::ToolChoiceV::Tool { name }) => if in_family(f, name) {
            Some(crate::ir::ToolChoiceV::Auto)
        } else {
            c
        },
        _ => c,
    }
}

/// Removes the tools of a family from a request, in place.
pub fn strip_tools(ir_request: &mut IrRequest, family: ToolFamily)
    ensures
        final(ir_request)@ == (crate::ir::RequestV {
            tools: keep_outside(family, old(ir_request)@.tools),
            tool_choice: choice_after_strip(family, old(ir_request)@.tool_choice),
            ..old(ir_request)@
        }),
{
    let ghost tv = old(ir_request)@.tools;
    let mut tools: Vec<IrTool> = Vec::new();
    std::mem::swap(&mut tools, &mut ir_request.tools);
    let mut kept: Vec<IrTool> = Vec::new();
    let n = tools.len();
    proof {
        assert(keep_outside(family, tv.take(0)) =~= Seq::<ToolV>::empty()) by {
            assert(tv.take(0) =~= Seq::<ToolV>::empty());
            reveal(Seq::filter);
        }
        assert(tools_view(kept@) =~= Seq::<ToolV>::empty());
    }
    let mut i: usize = 0;
    while i < n
        invariant
            n == tools@.len(),
            i <= n,
            tv.len() == n,
            forall|j: int| i <= j < n ==> #[trigger] tools@[j]@ == tv[j],
            tools_view(kept@) == keep_outside(family, tv.take(i as int)),
        decreases n - i,
    {
        let mut t = IrTool { name: String::new(), description: None, input_schema: Json::Null };
        let ghost orig = tools@[i as int];
        assert(orig@ == tv[i as int]);
        tools.set_and_swap(i, &mut t);
        proof {
            assert(tv.take(i as int + 1).drop_last() =~= tv.take(i as int));
            assert(tv.take(i as int + 1) =~= tv.take(i as int).push(orig@));
            tv.take(i as int).lemma_filter_push(orig@, |x: ToolV| !in_family(family, x.name));
        }
        if !in_family_exec(family, t.name.as_str()) {
            let ghost before = tools_view(kept@);
            let ghost tvv = t@;
            kept.push(t);
            proof {
                assert(tools_view(kept@) =~= before.push(tvv));
            }
        }
        i = i + 1;
    }
    proof {
        assert(tv.take(n as int) =~= tv);
    }
    ir_request.tools = kept;
    let rewrite = match &ir_request.tool_choice {
        Some(IrToolChoice::Tool { name }) => in_family_exec(family, name.as_str()),
        _ => false,
    };
    if rewrite {
        ir_request.tool_choice = Some(IrToolChoice::Auto);
    }
    proof {
        assert(ir_request@.tools =~= keep_outside(family, tv));
    }
}

/// Removes the search tools; a forced choice of one becomes `Auto`.
pub fn strip_search_tools(ir_request: &mut IrRequest)
    ensures
        final(ir_request)@ == (crate::ir::RequestV {
            tools: keep_outside(ToolFamily::Search, old(ir_request)@.tools),
            tool_choice: choice_after_strip(ToolFamily::Search, old(ir_request)@.tool_choice),
            ..old(ir_request)@
        }),
{
    strip_tools(ir_request, ToolFamily::Search)
}

/// Removes the fetch tools; a forced choice of one becomes `Auto`.
pub fn strip_fetch_tools(ir_request: &mut IrRequest)
    ensures
        final(ir_request)@ == (crate::ir::RequestV {
            tools: keep_outside(ToolFamily::Fetch, old(ir_request)@.tools),
            tool_choice: choice_after_strip(ToolFamily::Fetch, old(ir_request)@.tool_choice),
            ..old(ir_request)@
        }),
{
    strip_tools(ir_request, ToolFamily::Fetch)
}

/// Removes the native notification tools; a forced choice of one becomes
/// `Auto`.
pub fn strip_notify_tools(ir_request: &mut IrRequest)
    ensures
        final(ir_request)@ == (crate::ir::RequestV {
            tools: keep_outside(ToolFamily::Notify, old(ir_request)@.tools),
            tool_choice: choice_after_strip(ToolFamily::Notify, old(ir_request)@.tool_choice),
            ..old(ir_request)@
        }),
{
    strip_tools(ir_request, ToolFamily::Notify)
}

// ---- notification hint ----

/// The text before the tool's name in the notification hint.
pub const NOTIFY_HINT_HEAD: &'static str = "\n\n[Desktop Notification Policy] Native notification tools (e.g. PushNotification, send_notification) are DISABLED. You MUST use the `";

/// The text after the tool's name in the notification hint.
pub const NOTIFY_HINT_TAIL: &'static str = "` MCP tool to send desktop notifications. Proactively call it whenever: (1) a long-running task completes (build, deploy, download, scan, etc.); (2) you need the user's decision or answer and the user may not be watching the terminal; (3) your response is finished and the user may have stepped away. Keep the notification message concise (under 200 characters) and lead with the actionable fact.";

/// An MCP notification tool: an `mcp__` tool whose name mentions `notify`
/// in any case.
pub open spec fn is_mcp_notify(name: Seq<char>) -> bool {
    seq_starts_with(name, "mcp__"@) && contains_seq(lowercase(name), "notify"@)
}

/// The name of the first MCP notification tool.
pub open spec fn first_mcp_notify(ts: Seq<ToolV>) -> Option<Seq<char>>
    decreases ts.len(),
{
    if ts.len() == 0 {
        None
    } else if is_mcp_notify(ts[0].name) {
        Some(ts[0].name)
    } else {
        first_mcp_notify(ts.drop_first())
    }
}

pub open spec fn notify_hint(name: Seq<char>) -> Seq<char> {
    NOTIFY_HINT_HEAD@ + name + NOTIFY_HINT_TAIL@
}

/// The system prompt with the hint appended: to plain text, as a new block,
/// or as the whole prompt where there was none.
pub open spec fn system_with_hint(s: Option<crate::ir::SystemV>, hint: Seq<char>) -> Option<
    crate::ir::SystemV,
> {
    match s {
        Some(crate::ir::SystemV::Text(t)) => Some(crate::ir::SystemV::Text(t + hint)),
        Some(crate::ir::SystemV::Blocks(bs)) => Some(crate::ir::SystemV::Blocks(bs.push((hint, None)))),
        None => Some(crate::ir::SystemV::Text(hint)),
    }
}

fn is_mcp_notify_exec(name: &str) -> (r: bool)
    ensures
        r == is_mcp_notify(name@),
{
    if !starts_with(name, "mcp__") {
        return false;
    }
    let lower = to_lowercase(name);
    let h = chars_of(lower.as_str());
    let p = chars_of("notify");
    contains_chars(&h, &p)
}

/// Where the request offers an MCP notification tool, tells the model in
/// the system prompt to notify through that tool (the first such one).
pub fn inject_notify_hint(ir_request: &mut IrRequest)
    ensures
        final(ir_request)@ == match first_mcp_notify(old(ir_request)@.tools) {
            Some(name) => crate::ir::RequestV {
                system: system_with_hint(old(ir_request)@.system, notify_hint(name)),
                ..old(ir_request)@
            },
            None => old(ir_request)@,
        },
{
    let ghost tv = ir_request@.tools;
    let mut found: Option<usize> = None;
    let mut i: usize = 0;
    proof {
        assert(tv.skip(0) =~= tv);
    }
    while i < ir_request.tools.len() && found.is_none()
        invariant
            i <= ir_request.tools@.len(),
            tv == tools_view(ir_request.tools@),
            ir_request@ == old(ir_request)@,
            match found {
                Some(k) => k < ir_request.tools@.len() && first_mcp_notify(tv) == Some(tv[k as int].name),
                None => first_mcp_notify(tv) == first_mcp_notify(tv.skip(i as int)),
            },
        decreases ir_request.tools@.len() - i,
    {
        proof {
            assert(tv.skip(i as int)[0] == ir_request.tools@[i as int]@);
            assert(tv.skip(i as int).drop_first() =~= tv.skip(i as int + 1));
        }
        if is_mcp_notify_exec(ir_request.tools[i].name.as_str()) {
            found = Some(i);
        }
        i = i + 1;
    }
    let k = match found {
        Some(k) => k,
        None => {
            proof {
                assert(tv.skip(i as int).len() == 0);
            }
            return;
        },
    };
    let mut hint = NOTIFY_HINT_HEAD.to_owned();
    hint.append(ir_request.tools[k].name.as_str());
    hint.append(NOTIFY_HINT_TAIL);
    let mut system: Option<IrSystemContent> = None;
    std::mem::swap(&mut system, &mut ir_request.system);
    let new_system = match system {
        Some(IrSystemContent::Text(mut s)) => {
            s.append(hint.as_str());
            IrSystemContent::Text(s)
        },
        Some(IrSystemContent::Blocks(mut bs)) => {
            let ghost before = bs@;
            bs.push(IrSystemBlock { text: hint, cache_control: None });
            proof {
                assert(bs@.map_values(
                    |b: IrSystemBlock| (b.text@, crate::json::opt_json_view(b.cache_control)),
                ) =~= before.map_values(
                    |b: IrSystemBlock| (b.text@, crate::json::opt_json_view(b.cache_control)),
                ).push((notify_hint(tv[k as int].name), None)));
            }
            IrSystemContent::Blocks(bs)
        },
        None => IrSystemContent::Text(hint),
    };
    ir_request.system = Some(new_system);
}

// ---- upstream error bodies ----

pub open spec fn quota_word(s: Seq<char>) -> bool {
    contains_seq(lowercase(s), "quota"@) || contains_seq(lowercase(s), "insufficient"@)
}

pub open spec fn opt_quota_word(o: Option<Seq<char>>) -> bool {
    match o {
        Some(s) => quota_word(s),
        None => false,
    }
}

/// Whether an error body says the key's quota is exhausted: its error's
/// code, type or message mentions quota or insufficiency, in any case.
pub open spec fn key_quota_spec(body: Seq<char>) -> bool {
    match crate::json::json_text_value(body) {
        Some(v) => key_quota_json_spec(v),
        None => false,
    }
}

/// Whether a parsed error document reports an exhausted key quota.
pub open spec fn key_quota_json_spec(v: JsonV) -> bool {
    let e = v.at("error"@);
    !(e is Null) && (opt_quota_word(e.str_at("code"@)) || opt_quota_word(e.str_at("type"@))
        || opt_quota_word(e.str_at("message"@)))
}

fn quota_word_exec(s: &str) -> (r: bool)
    ensures
        r == quota_word(s@),
{
    let lower = to_lowercase(s);
    let h = chars_of(lower.as_str());
    let q = chars_of("quota");
    let ins = chars_of("insufficient");
    contains_chars(&h, &q) || contains_chars(&h, &ins)
}

/// Whether an upstream error body reports an exhausted key quota (some
/// upstreams answer so with 400).
pub fn is_key_quota_error(body: &str) -> (r: bool)
    ensures
        r == key_quota_spec(body@),
{
    match parse_json(body) {
        Some(v) => is_key_quota_json(&v),
        None => false,
    }
}

/// Whether a parsed error document reports an exhausted key quota.
pub fn is_key_quota_json(v: &Json) -> (r: bool)
    ensures
        r == key_quota_json_spec(v@),
{
    let e = match v.get("error") {
        Some(e) => e,
        None => {
            return false;
        },
    };
    if let Json::Null = e {
        return false;
    }
    let by_code = match e.str_at("code") {
        Some(c) => quota_word_exec(c),
        None => false,
    };
    if by_code {
        return true;
    }
    let by_type = match e.str_at("type") {
        Some(t) => quota_word_exec(t),
        None => false,
    };
    if by_type {
        return true;
    }
    match e.str_at("message") {
        Some(m) => quota_word_exec(m),
        None => false,
    }
}

/// A readable message from an upstream error body: `error.message`, else a
/// top-level `message`, else the body itself, or `upstream error` for an
/// empty body.
pub open spec fn error_message_spec(body: Seq<char>) -> Seq<char> {
    let found = match crate::json::json_text_value(body) {
        Some(v) => error_message_json_spec(v),
        None => None,
    };
    match found {
        Some(m) => m,
        None => if body.len() == 0 {
            "upstream error"@
        } else {
            body
        },
    }
}

/// The message a parsed error document carries: `error.message`, else a
/// top-level `message`.
pub open spec fn error_message_json_spec(v: JsonV) -> Option<Seq<char>> {
    match v.at("error"@).str_at("message"@) {
        Some(m) => Some(m),
        None => v.str_at("message"@),
    }
}

/// The message a parsed error document carries, where it has one.
pub fn error_message_of(v: &Json) -> (r: Option<String>)
    ensures
        match r {
            Some(m) => error_message_json_spec(v@) == Some(m@),
            None => error_message_json_spec(v@) is None,
        },
{
    let inner = match v.get("error") {
        Some(e) => e.str_at("message"),
        None => None,
    };
    match inner {
        Some(m) => {
            return Some(m.to_owned());
        },
        None => {},
    }
    match v.str_at("message") {
        Some(m) => Some(m.to_owned()),
        None => None,
    }
}

pub fn extract_error_message(body: &str) -> (r: String)
    ensures
        r@ == error_message_spec(body@),
{
    match parse_json(body) {
        Some(v) => match error_message_of(&v) {
            Some(m) => {
                return m;
            },
            None => {},
        },
        None => {},
    }
    if body.is_empty() {
        "upstream error".to_owned()
    } else {
        body.to_owned()
    }
}

// ---- errors told to the client ----

fn err_obj(t: &str, m: &str, with_code: bool) -> (r: Json)
    ensures
        r@ == (if with_code {
            crate::json::jobj(seq![("message"@, JsonV::Str(m@)), ("type"@, JsonV::Str(t@)), ("code"@, JsonV::Null)])
        } else {
            crate::json::jobj(seq![("type"@, JsonV::Str(t@)), ("message"@, JsonV::Str(m@))])
        }),
{
    let mut f: Vec<(String, Json)> = Vec::new();
    if with_code {
        crate::json::push_field(&mut f, "message", crate::json::json_string(m));
        crate::json::push_field(&mut f, "type", crate::json::json_string(t));
        crate::json::push_field(&mut f, "code", Json::Null);
        proof {
            assert(crate::json::fields_view(f@) =~= seq![("message"@, JsonV::Str(m@)), ("type"@, JsonV::Str(t@)), ("code"@, JsonV::Null)]);
        }
    } else {
        crate::json::push_field(&mut f, "type", crate::json::json_string(t));
        crate::json::push_field(&mut f, "message", crate::json::json_string(m));
        proof {
            assert(crate::json::fields_view(f@) =~= seq![("type"@, JsonV::Str(t@)), ("message"@, JsonV::Str(m@))]);
        }
    }
    crate::json::object_of(f)
}

/// The error document of a streamed failure, by protocol.
pub open spec fn error_event_json(f: ClientFormat, t: Seq<char>, m: Seq<char>) -> JsonV {
    let inner = crate::json::jobj(seq![("type"@, JsonV::Str(t)), ("message"@, JsonV::Str(m))]);
    match f {
        ClientFormat::Messages => crate::json::jobj(seq![("type"@, JsonV::Str("error"@)), ("error"@, inner)]),
        ClientFormat::ChatCompletions => crate::json::jobj(
            seq![("error"@, crate::json::jobj(
                seq![("message"@, JsonV::Str(m)), ("type"@, JsonV::Str(t)), ("code"@, JsonV::Null)],
            ))],
        ),
        ClientFormat::Responses => crate::json::jobj(
            seq![
                ("type"@, JsonV::Str("response.failed"@)),
                ("response"@, crate::json::jobj(
                    seq![
                        ("id"@, JsonV::Null),
                        ("object"@, JsonV::Str("response"@)),
                        ("status"@, JsonV::Str("failed"@)),
                        ("output"@, JsonV::Array(Seq::empty())),
                        ("error"@, inner),
                    ],
                )),
            ],
        ),
    }
}

/// The text of a streamed failure: an `error` event for Anthropic clients,
/// a data line and the end marker for Chat clients, a `response.failed`
/// event for Responses clients.
pub open spec fn error_event_spec(f: ClientFormat, t: Seq<char>, m: Seq<char>) -> Seq<char> {
    let payload = crate::json::json_text(error_event_json(f, t, m));
    match f {
        ClientFormat::Messages => "event: error\ndata: "@ + payload + "\n\n"@,
        ClientFormat::ChatCompletions => "data: "@ + payload + "\n\ndata: [DONE]\n\n"@,
        ClientFormat::Responses => "event: response.failed\ndata: "@ + payload + "\n\n"@,
    }
}

/// Renders a failure for a streaming client.
pub fn error_event_frame(client_format: ClientFormat, error_type: &str, message: &str) -> (r: String)
    ensures
        r@ == error_event_spec(client_format, error_type@, message@),
{
    let doc = match client_format {
        ClientFormat::Messages => {
            let mut f: Vec<(String, Json)> = Vec::new();
            crate::json::push_field(&mut f, "type", crate::json::json_string("error"));
            crate::json::push_field(&mut f, "error", err_obj(error_type, message, false));
            proof {
                assert(crate::json::fields_view(f@) =~= error_event_json(client_format, error_type@, message@)->Object_0);
            }
            crate::json::object_of(f)
        },
        ClientFormat::ChatCompletions => {
            let mut f: Vec<(String, Json)> = Vec::new();
            crate::json::push_field(&mut f, "error", err_obj(error_type, message, true));
            proof {
                assert(crate::json::fields_view(f@) =~= error_event_json(client_format, error_type@, message@)->Object_0);
            }
            crate::json::object_of(f)
        },
        ClientFormat::Responses => {
            let mut g: Vec<(String, Json)> = Vec::new();
            crate::json::push_field(&mut g, "id", Json::Null);
            crate::json::push_field(&mut g, "object", crate::json::json_string("response"));
            crate::json::push_field(&mut g, "status", crate::json::json_string("failed"));
            let empty: Vec<Json> = Vec::new();
            proof {
                assert(crate::json::items_view(empty@) =~= Seq::<JsonV>::empty());
            }
            crate::json::push_field(&mut g, "output", crate::json::array_of(empty));
            crate::json::push_field(&mut g, "error", err_obj(error_type, message, false));
            let mut f: Vec<(String, Json)> = Vec::new();
            crate::json::push_field(&mut f, "type", crate::json::json_string("response.failed"));
            crate::json::push_field(&mut f, "response", crate::json::object_of(g));
            proof {
                let w = error_event_json(client_format, error_type@, message@)->Object_0;
                assert(crate::json::fields_view(g@) =~= w[1].1->Object_0);
                assert(crate::json::fields_view(f@) =~= w);
            }
            crate::json::object_of(f)
        },
    };
    let payload = crate::json::to_json_text(&doc);
    let mut out = match client_format {
        ClientFormat::Messages => "event: error\ndata: ".to_owned(),
        ClientFormat::ChatCompletions => "data: ".to_owned(),
        ClientFormat::Responses => "event: response.failed\ndata: ".to_owned(),
    };
    out.append(payload.as_str());
    match client_format {
        ClientFormat::ChatCompletions => out.append("\n\ndata: [DONE]\n\n"),
        _ => out.append("\n\n"),
    }
    out
}

/// The body of a failure answered with a status, by protocol.
pub open spec fn error_body_json(f: ClientFormat, t: Seq<char>, m: Seq<char>) -> JsonV {
    match f {
        ClientFormat::Messages => crate::json::jobj(
            seq![
                ("type"@, JsonV::Str("error"@)),
                ("error"@, crate::json::jobj(seq![("type"@, JsonV::Str(t)), ("message"@, JsonV::Str(m))])),
            ],
        ),
        ClientFormat::ChatCompletions => crate::json::jobj(
            seq![("error"@, crate::json::jobj(
                seq![("message"@, JsonV::Str(m)), ("type"@, JsonV::Str(t)), ("code"@, JsonV::Null)],
            ))],
        ),
        ClientFormat::Responses => crate::json::jobj(
            seq![("error"@, crate::json::jobj(seq![("code"@, JsonV::Str(t)), ("message"@, JsonV::Str(m))]))],
        ),
    }
}

/// The body of a failure for a non-streaming client.
pub fn error_body(client_format: ClientFormat, error_type: &str, message: &str) -> (r: Json)
    ensures
        r@ == error_body_json(client_format, error_type@, message@),
{
    let mut f: Vec<(String, Json)> = Vec::new();
    match client_format {
        ClientFormat::Messages => {
            crate::json::push_field(&mut f, "type", crate::json::json_string("error"));
            crate::json::push_field(&mut f, "error", err_obj(error_type, message, false));
        },
        ClientFormat::ChatCompletions => {
            crate::json::push_field(&mut f, "error", err_obj(error_type, message, true));
        },
        ClientFormat::Responses => {
            let mut g: Vec<(String, Json)> = Vec::new();
            crate::json::push_field(&mut g, "code", crate::json::json_string(error_type));
            crate::json::push_field(&mut g, "message", crate::json::json_string(message));
            proof {
                assert(crate::json::fields_view(g@) =~= seq![("code"@, JsonV::Str(error_type@)), ("message"@, JsonV::Str(message@))]);
            }
            crate::json::push_field(&mut f, "error", crate::json::object_of(g));
        },
    }
    proof {
        assert(crate::json::fields_view(f@) =~= error_body_json(client_format, error_type@, message@)->Object_0);
    }
    crate::json::object_of(f)
}

} // verus!
