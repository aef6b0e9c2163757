//! The decisions of the search tool loop: the proxy lets the model call its
//! `web_search` tool, runs the searches itself and hands the results back,
//! round after round, until the model answers without searching, repeats
//! itself, or the rounds run out; then a last round without tools is forced.
//!
//! The side that talks to the upstream and the search engine feeds each
//! outcome back as an event and carries out the action it is given.

use vstd::prelude::*;
use crate::ir::{
    zero_usage, BlockV, IrContentBlock, IrMessage, IrRequest, IrRole, IrToolChoice, IrToolResultContent,
    IrUsage, MessageV, RequestV, ToolChoiceV, ToolResultV,
};
use crate::json::{Json, JsonV};
use crate::stream::{error_event_spec, ClientFormat};
use crate::websearch::{
    brand_frames, forced_final_request, is_repetitive_spec, one_line, query_of_input, search_calls,
    MAX_TOOL_ROUNDS,
};

verus! {

/// What the loop awaits.
#[derive(Debug, Clone, Copy, PartialEq, Eq, Structural)]
pub enum LoopPhase {
    /// The buffered answer to a round's request.
    Answer,
    /// The results of the searches the model asked for.
    Results,
    /// The answer to the forced last round.
    ForcedAnswer,
    /// Nothing: the loop is over.
    Done,
}

/// The state of a search tool loop.
pub struct WebSearchLoop {
    /// The request of the next round.
    pub request: IrRequest,
    pub client_format: ClientFormat,
    /// The current round, from 0.
    pub round: usize,
    /// The queries searched so far, in order.
    pub history: Vec<String>,
    /// Whether the announcement of the searches reached the client.
    pub brand_sent: bool,
    /// The usage of all rounds so far.
    pub total_usage: IrUsage,
    /// The search calls awaiting results: tool-use id and input.
    pub pending: Vec<(String, Json)>,
    pub phase: LoopPhase,
}

pub struct LoopV {
    pub request: RequestV,
    pub client_format: ClientFormat,
    pub round: int,
    pub history: Seq<Seq<char>>,
    pub brand_sent: bool,
    pub total_usage: IrUsage,
    pub pending: Seq<(Seq<char>, JsonV)>,
    pub phase: LoopPhase,
}

pub open spec fn strings_view(v: Seq<String>) -> Seq<Seq<char>> {
    v.map_values(|s: String| s@)
}

pub open spec fn calls_view(v: Seq<(String, Json)>) -> Seq<(Seq<char>, JsonV)> {
    v.map_values(|c: (String, Json)| (c.0@, c.1@))
}

impl View for WebSearchLoop {
    type V = LoopV;

    open spec fn view(&self) -> LoopV {
        LoopV {
            request: self.request@,
            client_format: self.client_format,
            round: self.round as int,
            history: strings_view(self.history@),
            brand_sent: self.brand_sent,
            total_usage: self.total_usage,
            pending: calls_view(self.pending@),
            phase: self.phase,
        }
    }
}

/// What happened, in answer to the last action.
pub enum LoopEvent {
    /// The round's request failed: no answer, or one refused with this text.
    SendFailed(String),
    /// The round's answer, buffered: its message id and model, the assistant
    /// message it makes, its usage, and the error it carried inside.
    Answered {
        msg_id: String,
        model: String,
        assistant: IrMessage,
        usage: IrUsage,
        stream_error: Option<(u16, String)>,
    },
    /// The result text of each pending search, in order.
    SearchResults(Vec<String>),
}

pub enum LoopEventV {
    SendFailed(Seq<char>),
    Answered {
        msg_id: Seq<char>,
        model: Seq<char>,
        assistant: MessageV,
        usage: IrUsage,
        stream_error: Option<(u16, Seq<char>)>,
    },
    SearchResults(Seq<Seq<char>>),
}

impl View for LoopEvent {
    type V = LoopEventV;

    open spec fn view(&self) -> LoopEventV {
        match *self {
            LoopEvent::SendFailed(m) => LoopEventV::SendFailed(m@),
            LoopEvent::Answered { msg_id, model, assistant, usage, stream_error } => LoopEventV::Answered {
                msg_id: msg_id@,
                model: model@,
                assistant: assistant@,
                usage,
                stream_error: match stream_error {
                    Some((s, m)) => Some((s, m@)),
                    None => None,
                },
            },
            LoopEvent::SearchResults(ts) => LoopEventV::SearchResults(strings_view(ts@)),
        }
    }
}

/// What to do next.
pub enum LoopAction {
    /// Send the loop's request for the next round and buffer its answer.
    SendRound,
    /// Send these frames to the client, then run these searches (tool-use
    /// id and input) and report their results.
    Search { frames: Vec<String>, calls: Vec<(String, Json)> },
    /// Send these frames to the client, then the forced last round.
    SendForced { frames: Vec<String> },
    /// The first round met a key-level error before anything reached the
    /// client: hand it back to the key rotation.
    KeyError { status: u16, message: String },
    /// Send this error frame to the client; the loop is over.
    DeliverError { frame: String },
    /// The last buffered answer is the final one: pass it on. Its text is
    /// given too.
    Final { text: String },
}

pub enum LoopActionV {
    SendRound,
    Search { frames: Seq<Seq<char>>, calls: Seq<(Seq<char>, JsonV)> },
    SendForced { frames: Seq<Seq<char>> },
    KeyError { status: u16, message: Seq<char> },
    DeliverError { frame: Seq<char> },
    Final { text: Seq<char> },
}

impl View for LoopAction {
    type V = LoopActionV;

    open spec fn view(&self) -> LoopActionV {
        match *self {
            LoopAction::SendRound => LoopActionV::SendRound,
            LoopAction::Search { frames, calls } => LoopActionV::Search {
                frames: strings_view(frames@),
                calls: calls_view(calls@),
            },
            LoopAction::SendForced { frames } => LoopActionV::SendForced { frames: strings_view(frames@) },
            LoopAction::KeyError { status, message } => LoopActionV::KeyError { status, message: message@ },
            LoopAction::DeliverError { frame } => LoopActionV::DeliverError { frame: frame@ },
            LoopAction::Final { text } => LoopActionV::Final { text: text@ },
        }
    }
}

// ---- the pieces of a step ----

/// The progress comment of one query.
pub open spec fn searching_frame(q: Seq<char>) -> Seq<char> {
    ": "@ + one_line("websearch: 模型调用 web_search 工具，正在搜索 \""@ + q + "\""@) + "\n\n"@
}

/// The progress comment sent before the forced last round.
pub open spec fn finishing_frame() -> Seq<char> {
    ": "@ + one_line("websearch: 搜索完成，正在基于搜索结果生成回答…"@) + "\n\n"@
}

/// The queries of the search calls that carry one, in order.
pub open spec fn call_queries(calls: Seq<(Seq<char>, JsonV)>) -> Seq<Seq<char>>
    decreases calls.len(),
{
    if calls.len() == 0 {
        Seq::empty()
    } else {
        let rest = call_queries(calls.drop_last());
        match query_of_input(calls.last().1) {
            Some(q) => rest.push(q),
            None => rest,
        }
    }
}

/// The frames of a searching round: a progress comment per query, then,
/// for an Anthropic client not told yet, the announcement message.
pub open spec fn round_frames(
    queries: Seq<Seq<char>>,
    announce: bool,
    msg_id: Seq<char>,
    model: Seq<char>,
) -> Seq<Seq<char>> {
    queries.map_values(|q: Seq<char>| searching_frame(q)) + if announce {
        brand_frames(msg_id, model, queries)
    } else {
        Seq::empty()
    }
}

/// The user message that hands a search's result back.
pub open spec fn result_message(tool_use_id: Seq<char>, text: Seq<char>) -> MessageV {
    MessageV {
        role: IrRole::User,
        content: seq![BlockV::ToolResult { tool_use_id, content: ToolResultV::Text(text), is_error: false }],
    }
}

/// The result messages of the calls, in order.
pub open spec fn result_messages(calls: Seq<(Seq<char>, JsonV)>, texts: Seq<Seq<char>>) -> Seq<MessageV> {
    Seq::new(calls.len(), |i: int| result_message(calls[i].0, texts[i]))
}

/// Two usages added field by field.
pub open spec fn usage_sum(a: IrUsage, b: IrUsage) -> IrUsage {
    IrUsage {
        input_tokens: (a.input_tokens + b.input_tokens) as u64,
        output_tokens: (a.output_tokens + b.output_tokens) as u64,
        cache_read_input_tokens: (a.cache_read_input_tokens + b.cache_read_input_tokens) as u64,
        cache_creation_input_tokens: (a.cache_creation_input_tokens + b.cache_creation_input_tokens) as u64,
        output_chars: (a.output_chars + b.output_chars) as u64,
    }
}

pub open spec fn usage_sum_fits(a: IrUsage, b: IrUsage) -> bool {
    &&& a.input_tokens + b.input_tokens <= u64::MAX
    &&& a.output_tokens + b.output_tokens <= u64::MAX
    &&& a.cache_read_input_tokens + b.cache_read_input_tokens <= u64::MAX
    &&& a.cache_creation_input_tokens + b.cache_creation_input_tokens <= u64::MAX
    &&& a.output_chars + b.output_chars <= u64::MAX
}

pub open spec fn error_frame(f: ClientFormat, m: Seq<char>) -> Seq<char> {
    error_event_spec(f, "api_error"@, m)
}

/// The last queries that a round is compared with.
pub open spec fn recent(history: Seq<Seq<char>>) -> Seq<Seq<char>> {
    if history.len() <= crate::websearch::NO_PROGRESS_ROUNDS {
        history
    } else {
        history.skip(history.len() - crate::websearch::NO_PROGRESS_ROUNDS)
    }
}

/// Whether one of the round's queries repeats one of the recent ones.
pub open spec fn repetitive(history: Seq<Seq<char>>, qs: Seq<Seq<char>>) -> bool {
    exists|i: int, j: int|
        0 <= i < recent(history).len() && 0 <= j < qs.len() && #[trigger] crate::websearch::queries_repeat_spec(
            recent(history)[i],
            #[trigger] qs[j],
        )
}

proof fn lemma_repetitive_view(h: Seq<String>, r: Seq<String>)
    ensures
        is_repetitive_spec(h, r) == repetitive(strings_view(h), strings_view(r)),
{
    let hv = strings_view(h);
    let rv = strings_view(r);
    let rq = crate::websearch::recent_queries(h);
    assert(rq.len() == recent(hv).len());
    assert forall|i: int| 0 <= i < rq.len() implies #[trigger] rq[i]@ == recent(hv)[i] by {
        if h.len() > crate::websearch::NO_PROGRESS_ROUNDS {
            assert(rq[i] == h[i + h.len() - crate::websearch::NO_PROGRESS_ROUNDS]);
        }
    }
    if is_repetitive_spec(h, r) {
        let (i, j) = choose|i: int, j: int|
            0 <= i < rq.len() && 0 <= j < r.len() && crate::websearch::repeats_at(h, r, i, j);
        assert(rq[i]@ == recent(hv)[i]);
        assert(rv[j] == r[j]@);
        assert(crate::websearch::queries_repeat_spec(recent(hv)[i], rv[j]));
    }
    if repetitive(hv, rv) {
        let (i, j) = choose|i: int, j: int|
            0 <= i < recent(hv).len() && 0 <= j < rv.len() && crate::websearch::queries_repeat_spec(
                recent(hv)[i],
                rv[j],
            );
        assert(rq[i]@ == recent(hv)[i]);
        assert(rv[j] == r[j]@);
        assert(crate::websearch::repeats_at(h, r, i, j));
    }
}

/// The well-formed states: a searching round is below the limit.
pub open spec fn loop_wf(s: LoopV) -> bool {
    (s.phase == LoopPhase::Answer || s.phase == LoopPhase::Results) ==> 0 <= s.round < MAX_TOOL_ROUNDS
}

/// Whether the event answers what the loop awaits (and, for an answer
/// without error, whether the usage totals stay within 64 bits).
pub open spec fn loop_event_fits(s: LoopV, ev: LoopEventV) -> bool {
    match s.phase {
        LoopPhase::Answer | LoopPhase::ForcedAnswer => match ev {
            LoopEventV::SendFailed(_) => true,
            LoopEventV::Answered { usage, stream_error, .. } => stream_error is Some || usage_sum_fits(
                s.total_usage,
                usage,
            ),
            LoopEventV::SearchResults(_) => false,
        },
        LoopPhase::Results => ev matches LoopEventV::SearchResults(ts) && ts.len() == s.pending.len(),
        LoopPhase::Done => false,
    }
}

/// The move to the forced last round, with this request as its basis.
pub open spec fn go_forced(s: LoopV, request: RequestV) -> (LoopV, LoopActionV) {
    (
        LoopV { request: forced_final_request(request), pending: Seq::empty(), phase: LoopPhase::ForcedAnswer, ..s },
        LoopActionV::SendForced { frames: seq![finishing_frame()] },
    )
}

/// One step of the loop: the next state and the action.
pub open spec fn loop_step(s: LoopV, ev: LoopEventV) -> (LoopV, LoopActionV) {
    let done = LoopV { pending: Seq::empty(), phase: LoopPhase::Done, ..s };
    match s.phase {
        LoopPhase::Answer => match ev {
            LoopEventV::SendFailed(m) => (done, LoopActionV::DeliverError { frame: error_frame(s.client_format, m) }),
            LoopEventV::Answered { msg_id, model, assistant, usage, stream_error } => match stream_error {
                Some((st, m)) => if s.round == 0 && !s.brand_sent && crate::forward::is_key_level(st) {
                    (done, LoopActionV::KeyError { status: st, message: m })
                } else {
                    (done, LoopActionV::DeliverError { frame: error_frame(s.client_format, m) })
                },
                None => {
                    let total = usage_sum(s.total_usage, usage);
                    let calls = search_calls(assistant.content);
                    if calls.len() == 0 {
                        (
                            LoopV { total_usage: total, ..done },
                            LoopActionV::Final { text: crate::audit::message_text(assistant) },
                        )
                    } else {
                        let qs = call_queries(calls);
                        if repetitive(s.history, qs) {
                            go_forced(LoopV { total_usage: total, ..s }, s.request)
                        } else {
                            let announce = s.client_format == ClientFormat::Messages && !s.brand_sent;
                            (
                                LoopV {
                                    request: RequestV { messages: s.request.messages.push(assistant), ..s.request },
                                    history: s.history + qs,
                                    brand_sent: s.brand_sent || announce,
                                    total_usage: total,
                                    pending: calls,
                                    phase: LoopPhase::Results,
                                    ..s
                                },
                                LoopActionV::Search { frames: round_frames(qs, announce, msg_id, model), calls },
                            )
                        }
                    }
                },
            },
            LoopEventV::SearchResults(_) => (s, LoopActionV::SendRound),
        },
        LoopPhase::Results => match ev {
            LoopEventV::SearchResults(ts) => {
                let req = RequestV {
                    messages: s.request.messages + result_messages(s.pending, ts),
                    tool_choice: Some(ToolChoiceV::Auto),
                    ..s.request
                };
                if s.round + 1 >= MAX_TOOL_ROUNDS {
                    go_forced(LoopV { round: s.round + 1, ..s }, req)
                } else {
                    (
                        LoopV { request: req, round: s.round + 1, pending: Seq::empty(), phase: LoopPhase::Answer, ..s },
                        LoopActionV::SendRound,
                    )
                }
            },
            _ => (s, LoopActionV::SendRound),
        },
        LoopPhase::ForcedAnswer => match ev {
            LoopEventV::SendFailed(m) => (done, LoopActionV::DeliverError { frame: error_frame(s.client_format, m) }),
            LoopEventV::Answered { assistant, usage, stream_error, .. } => match stream_error {
                Some((_, m)) => (done, LoopActionV::DeliverError { frame: error_frame(s.client_format, m) }),
                None => (
                    LoopV { total_usage: usage_sum(s.total_usage, usage), ..done },
                    LoopActionV::Final { text: crate::audit::message_text(assistant) },
                ),
            },
            LoopEventV::SearchResults(_) => (s, LoopActionV::SendRound),
        },
        LoopPhase::Done => (s, LoopActionV::SendRound),
    }
}

// ---- carrying out a step ----

fn copy_calls(v: &Vec<(String, Json)>) -> (r: Vec<(String, Json)>)
    ensures
        calls_view(r@) == calls_view(v@),
{
    let mut out: Vec<(String, Json)> = Vec::new();
    let mut i: usize = 0;
    while i < v.len()
        invariant
            i <= v@.len(),
            calls_view(out@) == calls_view(v@).take(i as int),
        decreases v@.len() - i,
    {
        let ghost before = calls_view(out@);
        out.push((v[i].0.clone(), v[i].1.copy()));
        proof {
            assert(calls_view(out@) =~= before.push((v@[i as int].0@, v@[i as int].1@)));
            assert(calls_view(v@).take(i as int + 1) =~= calls_view(v@).take(i as int).push(
                calls_view(v@)[i as int],
            ));
        }
        i = i + 1;
    }
    proof {
        assert(calls_view(v@).take(i as int) =~= calls_view(v@));
    }
    out
}

fn queries_of(calls: &Vec<(String, Json)>) -> (r: Vec<String>)
    ensures
        strings_view(r@) == call_queries(calls_view(calls@)),
{
    let ghost cv = calls_view(calls@);
    let mut out: Vec<String> = Vec::new();
    let mut i: usize = 0;
    proof {
        assert(strings_view(out@) =~= Seq::<Seq<char>>::empty());
        assert(cv.take(0) =~= Seq::<(Seq<char>, JsonV)>::empty());
    }
    while i < calls.len()
        invariant
            i <= calls@.len(),
            cv == calls_view(calls@),
            strings_view(out@) == call_queries(cv.take(i as int)),
        decreases calls@.len() - i,
    {
        proof {
            assert(cv.take(i as int + 1).drop_last() =~= cv.take(i as int));
            assert(cv[i as int] == (calls@[i as int].0@, calls@[i as int].1@));
        }
        match crate::websearch::extract_query_from_tool_input(&calls[i].1) {
            Some(q) => {
                let ghost before = strings_view(out@);
                out.push(q);
                proof {
                    assert(strings_view(out@) =~= before.push(out@.last()@));
                }
            },
            None => {},
        }
        i = i + 1;
    }
    proof {
        assert(cv.take(i as int) =~= cv);
    }
    out
}

fn progress_frames(qs: &Vec<String>) -> (r: Vec<String>)
    ensures
        strings_view(r@) == strings_view(qs@).map_values(|q: Seq<char>| searching_frame(q)),
{
    let mut out: Vec<String> = Vec::new();
    let mut i: usize = 0;
    while i < qs.len()
        invariant
            i <= qs@.len(),
            strings_view(out@) == strings_view(qs@).take(i as int).map_values(|q: Seq<char>| searching_frame(q)),
        decreases qs@.len() - i,
    {
        let mut m = "websearch: 模型调用 web_search 工具，正在搜索 \"".to_owned();
        m.append(qs[i].as_str());
        m.append("\"");
        let f = crate::websearch::progress_comment(m.as_str());
        let ghost before = strings_view(out@);
        out.push(f);
        proof {
            assert(strings_view(out@) =~= before.push(searching_frame(qs@[i as int]@)));
            assert(strings_view(qs@).take(i as int + 1).map_values(|q: Seq<char>| searching_frame(q))
                =~= strings_view(qs@).take(i as int).map_values(|q: Seq<char>| searching_frame(q)).push(
                searching_frame(qs@[i as int]@),
            ));
        }
        i = i + 1;
    }
    proof {
        assert(strings_view(qs@).take(i as int) =~= strings_view(qs@));
    }
    out
}

fn add_usage(a: &IrUsage, b: &IrUsage) -> (r: IrUsage)
    requires
        usage_sum_fits(*a, *b),
    ensures
        r == usage_sum(*a, *b),
{
    IrUsage {
        input_tokens: a.input_tokens + b.input_tokens,
        output_tokens: a.output_tokens + b.output_tokens,
        cache_read_input_tokens: a.cache_read_input_tokens + b.cache_read_input_tokens,
        cache_creation_input_tokens: a.cache_creation_input_tokens + b.cache_creation_input_tokens,
        output_chars: a.output_chars + b.output_chars,
    }
}

fn sum_fits_exec(a: &IrUsage, b: &IrUsage) -> (r: bool)
    ensures
        r == usage_sum_fits(*a, *b),
{
    a.input_tokens <= u64::MAX - b.input_tokens && a.output_tokens <= u64::MAX - b.output_tokens
        && a.cache_read_input_tokens <= u64::MAX - b.cache_read_input_tokens
        && a.cache_creation_input_tokens <= u64::MAX - b.cache_creation_input_tokens && a.output_chars
        <= u64::MAX - b.output_chars
}

impl WebSearchLoop {
    /// A loop over the given request; the first action sends it.
    pub fn new(request: IrRequest, client_format: ClientFormat) -> (r: (WebSearchLoop, LoopAction))
        ensures
            r.0@ == (LoopV {
                request: request@,
                client_format,
                round: 0,
                history: Seq::empty(),
                brand_sent: false,
                total_usage: zero_usage(),
                pending: Seq::empty(),
                phase: LoopPhase::Answer,
            }),
            loop_wf(r.0@),
            r.1@ == LoopActionV::SendRound,
    {
        let l = WebSearchLoop {
            request,
            client_format,
            round: 0,
            history: Vec::new(),
            brand_sent: false,
            total_usage: IrUsage::default(),
            pending: Vec::new(),
            phase: LoopPhase::Answer,
        };
        proof {
            assert(strings_view(l.history@) =~= Seq::<Seq<char>>::empty());
            assert(calls_view(l.pending@) =~= Seq::<(Seq<char>, JsonV)>::empty());
        }
        (l, LoopAction::SendRound)
    }

    /// Whether the event answers what the loop awaits.
    pub fn fits(&self, ev: &LoopEvent) -> (r: bool)
        ensures
            r == loop_event_fits(self@, ev@),
    {
        match self.phase {
            LoopPhase::Answer | LoopPhase::ForcedAnswer => match ev {
                LoopEvent::SendFailed(_) => true,
                LoopEvent::Answered { usage, stream_error, .. } => stream_error.is_some() || sum_fits_exec(
                    &self.total_usage,
                    usage,
                ),
                LoopEvent::SearchResults(_) => false,
            },
            LoopPhase::Results => match ev {
                LoopEvent::SearchResults(ts) => ts.len() == self.pending.len(),
                _ => false,
            },
            LoopPhase::Done => false,
        }
    }

    fn enter_forced(&mut self) -> (r: LoopAction)
        ensures
            (final(self)@, r@) == go_forced(old(self)@, old(self)@.request),
    {
        crate::websearch::prepare_forced_final_round(&mut self.request);
        self.pending = Vec::new();
        self.phase = LoopPhase::ForcedAnswer;
        let f = crate::websearch::progress_comment("websearch: 搜索完成，正在基于搜索结果生成回答…");
        let frames = vec![f];
        proof {
            assert(calls_view(self.pending@) =~= Seq::<(Seq<char>, JsonV)>::empty());
            assert(strings_view(frames@) =~= seq![finishing_frame()]);
        }
        LoopAction::SendForced { frames }
    }

    fn error_action(&mut self, message: &str) -> (r: LoopAction)
        ensures
            final(self)@ == (LoopV { pending: Seq::empty(), phase: LoopPhase::Done, ..old(self)@ }),
            r@ == (LoopActionV::DeliverError { frame: error_frame(old(self)@.client_format, message@) }),
    {
        self.pending = Vec::new();
        self.phase = LoopPhase::Done;
        proof {
            assert(calls_view(self.pending@) =~= Seq::<(Seq<char>, JsonV)>::empty());
        }
        LoopAction::DeliverError { frame: crate::stream::error_event_frame(self.client_format, "api_error", message) }
    }
}


impl WebSearchLoop {
    /// Takes the event that answers the last action, and says what to do.
    pub fn step(&mut self, ev: LoopEvent) -> (r: LoopAction)
        requires
            loop_wf(old(self)@),
            loop_event_fits(old(self)@, ev@),
        ensures
            loop_wf(final(self)@),
            (final(self)@, r@) == loop_step(old(self)@, ev@),
    {
        match self.phase {
            LoopPhase::Answer => self.step_answer(ev),
            LoopPhase::Results => match ev {
                LoopEvent::SearchResults(ts) => self.step_results(ts),
                _ => LoopAction::SendRound,
            },
            LoopPhase::ForcedAnswer => self.step_forced(ev),
            LoopPhase::Done => LoopAction::SendRound,
        }
    }

    fn step_answer(&mut self, ev: LoopEvent) -> (r: LoopAction)
        requires
            old(self)@.phase == LoopPhase::Answer,
            loop_wf(old(self)@),
            loop_event_fits(old(self)@, ev@),
        ensures
            loop_wf(final(self)@),
            (final(self)@, r@) == loop_step(old(self)@, ev@),
    {
        match ev {
            LoopEvent::SendFailed(m) => self.error_action(m.as_str()),
            LoopEvent::Answered { msg_id, model, assistant, usage, stream_error } => {
                match stream_error {
                    Some((st, m)) => {
                        if self.round == 0 && !self.brand_sent && crate::forward::is_key_level_status(st) {
                            self.pending = Vec::new();
                            self.phase = LoopPhase::Done;
                            proof {
                                assert(calls_view(self.pending@) =~= Seq::<(Seq<char>, JsonV)>::empty());
                            }
                            LoopAction::KeyError { status: st, message: m }
                        } else {
                            self.error_action(m.as_str())
                        }
                    },
                    None => self.answered(msg_id, model, assistant, usage),
                }
            },
            LoopEvent::SearchResults(_) => LoopAction::SendRound,
        }
    }

    fn answered(&mut self, msg_id: String, model: String, assistant: IrMessage, usage: IrUsage) -> (r: LoopAction)
        requires
            old(self)@.phase == LoopPhase::Answer,
            loop_wf(old(self)@),
            usage_sum_fits(old(self)@.total_usage, usage),
        ensures
            loop_wf(final(self)@),
            (final(self)@, r@) == loop_step(
                old(self)@,
                LoopEventV::Answered {
                    msg_id: msg_id@,
                    model: model@,
                    assistant: assistant@,
                    usage,
                    stream_error: None,
                },
            ),
    {
        let ghost s0 = self@;
        let total = add_usage(&self.total_usage, &usage);
        let calls = crate::websearch::extract_websearch_tool_calls(&assistant);
        proof {
            assert(calls_view(calls@) == search_calls(assistant@.content));
        }
        if calls.len() == 0 {
            let text = crate::websearch::extract_final_text(&assistant);
            self.total_usage = total;
            self.pending = Vec::new();
            self.phase = LoopPhase::Done;
            proof {
                assert(calls_view(self.pending@) =~= Seq::<(Seq<char>, JsonV)>::empty());
            }
            return LoopAction::Final { text };
        }
        let qs = queries_of(&calls);
        let rep = crate::websearch::is_repetitive(self.history.as_slice(), qs.as_slice());
        proof {
            lemma_repetitive_view(self.history@, qs@);
        }
        if rep {
            self.total_usage = total;
            return self.enter_forced();
        }
        let announce = self.client_format == ClientFormat::Messages && !self.brand_sent;
        let mut frames = progress_frames(&qs);
        if announce {
            let brand = crate::websearch::brand_message_frames(msg_id.as_str(), model.as_str(), &qs);
            let ghost f0 = strings_view(frames@);
            let ghost bv = strings_view(brand@);
            let mut k: usize = 0;
            while k < brand.len()
                invariant
                    k <= brand@.len(),
                    bv == strings_view(brand@),
                    strings_view(frames@) == f0 + bv.take(k as int),
                decreases brand@.len() - k,
            {
                let ghost before = strings_view(frames@);
                frames.push(brand[k].clone());
                proof {
                    assert(strings_view(frames@) =~= before.push(bv[k as int]));
                    assert(f0 + bv.take(k as int + 1) =~= (f0 + bv.take(k as int)).push(bv[k as int]));
                }
                k = k + 1;
            }
            proof {
                assert(bv.take(k as int) =~= bv);
                assert(bv == brand_frames(msg_id@, model@, strings_view(qs@)));
            }
        } else {
            proof {
                assert(strings_view(frames@) + Seq::<Seq<char>>::empty() =~= strings_view(frames@));
            }
        }
        let action_calls = copy_calls(&calls);
        let ghost av = assistant@;
        self.request.messages.push(assistant);
        let ghost h0 = strings_view(self.history@);
        proof {
            assert(self@.request.messages =~= s0.request.messages.push(av));
            assert(h0 + strings_view(qs@).take(0) =~= h0);
        }
        let mut j: usize = 0;
        while j < qs.len()
            invariant
                j <= qs@.len(),
                h0 == s0.history,
                self@ == (LoopV {
                    request: RequestV { messages: s0.request.messages.push(av), ..s0.request },
                    history: h0 + strings_view(qs@).take(j as int),
                    ..s0
                }),
            decreases qs@.len() - j,
        {
            let ghost before = strings_view(self.history@);
            self.history.push(qs[j].clone());
            proof {
                assert(strings_view(self.history@) =~= before.push(qs@[j as int]@));
                assert(h0 + strings_view(qs@).take(j as int + 1) =~= (h0 + strings_view(qs@).take(j as int)).push(
                    qs@[j as int]@,
                ));
            }
            j = j + 1;
        }
        proof {
            assert(strings_view(qs@).take(j as int) =~= strings_view(qs@));
        }
        self.brand_sent = self.brand_sent || announce;
        self.total_usage = total;
        self.pending = calls;
        self.phase = LoopPhase::Results;
        LoopAction::Search { frames, calls: action_calls }
    }

    fn step_results(&mut self, ts: Vec<String>) -> (r: LoopAction)
        requires
            old(self)@.phase == LoopPhase::Results,
            loop_wf(old(self)@),
            ts@.len() == old(self)@.pending.len(),
        ensures
            loop_wf(final(self)@),
            (final(self)@, r@) == loop_step(old(self)@, LoopEventV::SearchResults(strings_view(ts@))),
    {
        let ghost s0 = self@;
        let ghost tv = strings_view(ts@);
        let ghost pv = s0.pending;
        let ghost m0 = s0.request.messages;
        let n = self.pending.len();
        let mut i: usize = 0;
        proof {
            assert(m0 + result_messages(pv, tv).take(0) =~= m0);
        }
        while i < n
            invariant
                i <= n,
                n == self.pending@.len(),
                n == ts@.len(),
                pv == calls_view(self.pending@),
                tv == strings_view(ts@),
                self@ == (LoopV {
                    request: RequestV { messages: m0 + result_messages(pv, tv).take(i as int), ..s0.request },
                    ..s0
                }),
            decreases n - i,
        {
            let mut content: Vec<IrContentBlock> = Vec::new();
            crate::ir::push_block(
                &mut content,
                IrContentBlock::ToolResult {
                    tool_use_id: self.pending[i].0.clone(),
                    content: IrToolResultContent::Text(ts[i].clone()),
                    is_error: false,
                },
            );
            let msg = IrMessage { role: IrRole::User, content };
            let ghost before = self@.request.messages;
            proof {
                assert(crate::ir::blocks_view(msg.content@) =~= seq![
                    BlockV::ToolResult {
                        tool_use_id: pv[i as int].0,
                        content: ToolResultV::Text(tv[i as int]),
                        is_error: false,
                    },
                ]);
                assert(msg@ == result_message(pv[i as int].0, tv[i as int]));
            }
            self.request.messages.push(msg);
            proof {
                assert(self@.request.messages =~= before.push(result_message(pv[i as int].0, tv[i as int])));
                assert(result_messages(pv, tv).take(i as int + 1) =~= result_messages(pv, tv).take(i as int).push(
                    result_message(pv[i as int].0, tv[i as int]),
                ));
                assert(m0 + result_messages(pv, tv).take(i as int + 1) =~= (m0 + result_messages(pv, tv).take(
                    i as int,
                )).push(result_message(pv[i as int].0, tv[i as int])));
            }
            i = i + 1;
        }
        proof {
            assert(result_messages(pv, tv).take(i as int) =~= result_messages(pv, tv));
        }
        self.request.tool_choice = Some(IrToolChoice::Auto);
        self.round = self.round + 1;
        if self.round >= MAX_TOOL_ROUNDS {
            self.enter_forced()
        } else {
            self.pending = Vec::new();
            self.phase = LoopPhase::Answer;
            proof {
                assert(calls_view(self.pending@) =~= Seq::<(Seq<char>, JsonV)>::empty());
            }
            LoopAction::SendRound
        }
    }

    fn step_forced(&mut self, ev: LoopEvent) -> (r: LoopAction)
        requires
            old(self)@.phase == LoopPhase::ForcedAnswer,
            loop_event_fits(old(self)@, ev@),
        ensures
            loop_wf(final(self)@),
            (final(self)@, r@) == loop_step(old(self)@, ev@),
    {
        match ev {
            LoopEvent::SendFailed(m) => self.error_action(m.as_str()),
            LoopEvent::Answered { assistant, usage, stream_error, .. } => match stream_error {
                Some((_, m)) => self.error_action(m.as_str()),
                None => {
                    let total = add_usage(&self.total_usage, &usage);
                    let text = crate::websearch::extract_final_text(&assistant);
                    self.total_usage = total;
                    self.pending = Vec::new();
                    self.phase = LoopPhase::Done;
                    proof {
                        assert(calls_view(self.pending@) =~= Seq::<(Seq<char>, JsonV)>::empty());
                    }
                    LoopAction::Final { text }
                },
            },
            LoopEvent::SearchResults(_) => LoopAction::SendRound,
        }
    }
}

// ---- laws ----

/// A measure of the work left: it falls with every step.
pub open spec fn loop_measure(s: LoopV) -> int {
    match s.phase {
        LoopPhase::Done => 0,
        LoopPhase::ForcedAnswer => 1,
        LoopPhase::Results => 2 * (MAX_TOOL_ROUNDS - s.round),
        LoopPhase::Answer => 2 * (MAX_TOOL_ROUNDS - s.round) + 1,
    }
}

/// Every step of a loop that is not over keeps it well formed and lowers
/// its measure, which is never negative: the loop ends after at most
/// `2 * MAX_TOOL_ROUNDS + 1` events, so it sends at most
/// `MAX_TOOL_ROUNDS + 1` requests.
pub proof fn law_loop_progress(s: LoopV, ev: LoopEventV)
    requires
        loop_wf(s),
        loop_event_fits(s, ev),
    ensures
        loop_wf(loop_step(s, ev).0),
        0 <= loop_measure(loop_step(s, ev).0) < loop_measure(s),
        loop_measure(s) <= 2 * MAX_TOOL_ROUNDS + 1,
{
}

/// No tool whose name starts with `web_search` survives the withdrawal.
proof fn lemma_without_web_search(ts: Seq<crate::ir::ToolV>)
    ensures
        forall|i: int|
            0 <= i < crate::websearch::without_web_search(ts).len() ==> !crate::text::seq_starts_with(
                #[trigger] crate::websearch::without_web_search(ts)[i].name,
                "web_search"@,
            ),
    decreases ts.len(),
{
    if ts.len() > 0 {
        lemma_without_web_search(ts.drop_last());
    }
}

/// The forced last round offers the model no search tool and refuses tool
/// calls.
pub proof fn law_forced_round_offers_no_search(s: LoopV, ev: LoopEventV)
    requires
        loop_wf(s),
        loop_event_fits(s, ev),
        loop_step(s, ev).0.phase == LoopPhase::ForcedAnswer,
    ensures
        loop_step(s, ev).0.request.tool_choice == Some(ToolChoiceV::NoTools),
        forall|i: int|
            0 <= i < loop_step(s, ev).0.request.tools.len() ==> !crate::text::seq_starts_with(
                #[trigger] loop_step(s, ev).0.request.tools[i].name,
                "web_search"@,
            ),
{
    lemma_without_web_search(s.request.tools);
}

/// The announcement of the searches reaches the client at most once: once
/// sent, a searching round's frames are its progress comments alone, and
/// it stays sent.
pub proof fn law_announcement_at_most_once(s: LoopV, ev: LoopEventV)
    requires
        loop_wf(s),
        loop_event_fits(s, ev),
        s.brand_sent,
    ensures
        loop_step(s, ev).0.brand_sent,
        loop_step(s, ev).1 matches LoopActionV::Search { frames, calls } ==> frames == call_queries(
            calls,
        ).map_values(|q: Seq<char>| searching_frame(q)),
{
    if let LoopActionV::Search { frames, calls } = loop_step(s, ev).1 {
        let qs = call_queries(calls);
        assert(frames =~= qs.map_values(|q: Seq<char>| searching_frame(q)));
    }
}

/// A key-level error is handed back to the key rotation only from the
/// first round, before anything reached the client; later it is delivered.
pub proof fn law_key_error_only_before_output(s: LoopV, ev: LoopEventV)
    requires
        loop_wf(s),
        loop_event_fits(s, ev),
        loop_step(s, ev).1 is KeyError,
    ensures
        s.phase == LoopPhase::Answer,
        s.round == 0,
        !s.brand_sent,
{
}

} // verus!
