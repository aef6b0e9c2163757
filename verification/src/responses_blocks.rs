//! The blocks of a Responses stream: every block the parser opens gets an
//! index no other block has, and by the end of the stream each is closed
//! exactly once.

use vstd::prelude::*;
use crate::from_responses::{
    close_text, completed_spec, item_added_spec, initial_responses_state, responses_chunk_spec,
    text_delta_spec, thinking_start, tool_stops, ResponsesParseV,
};
use crate::ir::{BlockStartV, EventV};
use crate::json::JsonV;

verus! {

broadcast use {vstd::seq_lib::group_to_multiset_ensures, vstd::multiset::group_multiset_axioms};

/// The indexes of the blocks that events start, in order.
pub open spec fn block_starts(evs: Seq<EventV>) -> Seq<int>
    decreases evs.len(),
{
    if evs.len() == 0 {
        Seq::empty()
    } else {
        let rest = block_starts(evs.drop_last());
        match evs.last() {
            EventV::BlockStart { index, .. } => rest.push(index),
            _ => rest,
        }
    }
}

/// The indexes of the blocks that events stop, in order.
pub open spec fn block_stops(evs: Seq<EventV>) -> Seq<int>
    decreases evs.len(),
{
    if evs.len() == 0 {
        Seq::empty()
    } else {
        let rest = block_stops(evs.drop_last());
        match evs.last() {
            EventV::BlockStop { index } => rest.push(index),
            _ => rest,
        }
    }
}

/// The events of a run of chunks read in order from `s`, and the state after.
pub open spec fn responses_chunks_spec(chunks: Seq<JsonV>, s: ResponsesParseV) -> (
    Seq<EventV>,
    ResponsesParseV,
)
    decreases chunks.len(),
{
    if chunks.len() == 0 {
        (Seq::empty(), s)
    } else {
        let (e, s1) = responses_chunks_spec(chunks.drop_last(), s);
        let (e2, s2) = responses_chunk_spec(chunks.last(), s1);
        (e + e2, s2)
    }
}

pub open spec fn is_completed(chunk: JsonV) -> bool {
    chunk.at("type"@).as_str() == Some("response.completed"@)
}

/// The blocks of the tool calls recorded.
pub open spec fn tool_blocks(m: Seq<(int, int)>) -> Seq<int> {
    m.map_values(|p: (int, int)| p.1)
}

/// The blocks the parser holds open.
pub open spec fn open_blocks(s: ResponsesParseV) -> vstd::multiset::Multiset<int> {
    let th = if s.thinking_open {
        vstd::multiset::Multiset::singleton(s.thinking_index)
    } else {
        vstd::multiset::Multiset::empty()
    };
    let tx = match s.text_open {
        Some((t, _)) => vstd::multiset::Multiset::singleton(t),
        None => vstd::multiset::Multiset::empty(),
    };
    th.add(tx).add(tool_blocks(s.tool_map).to_multiset())
}

/// What holds after any events of a stream not yet completed: starts never
/// repeat an index, every start is below the next free index, and the
/// blocks started are those stopped and those still open.
pub open spec fn blocks_inv(e: Seq<EventV>, s: ResponsesParseV) -> bool {
    &&& block_starts(e).no_duplicates()
    &&& forall|k: int| 0 <= k < block_starts(e).len() ==> 0 <= #[trigger] block_starts(e)[k] < s.next_index
    &&& block_stops(e).to_multiset().add(open_blocks(s)) =~= block_starts(e).to_multiset()
    &&& s.thinking_open ==> s.thinking_ever_started
    &&& s.next_index >= 0
}

proof fn lemma_push_event(e: Seq<EventV>, x: EventV)
    ensures
        block_starts(e.push(x)) == match x {
            EventV::BlockStart { index, .. } => block_starts(e).push(index),
            _ => block_starts(e),
        },
        block_stops(e.push(x)) == match x {
            EventV::BlockStop { index } => block_stops(e).push(index),
            _ => block_stops(e),
        },
{
    assert(e.push(x).drop_last() =~= e);
}

proof fn lemma_append_events(e: Seq<EventV>, f: Seq<EventV>)
    ensures
        block_starts(e + f) == block_starts(e) + block_starts(f),
        block_stops(e + f) == block_stops(e) + block_stops(f),
    decreases f.len(),
{
    if f.len() == 0 {
        assert(e + f =~= e);
        assert(block_starts(e) + block_starts(f) =~= block_starts(e));
        assert(block_stops(e) + block_stops(f) =~= block_stops(e));
    } else {
        lemma_append_events(e, f.drop_last());
        assert((e + f).drop_last() =~= e + f.drop_last());
        assert((e + f).last() == f.last());
        assert(block_starts(e) + block_starts(f.drop_last()).push(f.last()->BlockStart_index) =~= (
        block_starts(e) + block_starts(f.drop_last())).push(f.last()->BlockStart_index));
        assert(block_stops(e) + block_stops(f.drop_last()).push(f.last()->BlockStop_index) =~= (
        block_stops(e) + block_stops(f.drop_last())).push(f.last()->BlockStop_index));
    }
}

/// A stop of an open block keeps the invariant.
proof fn lemma_inv_stop(e: Seq<EventV>, s: ResponsesParseV, s2: ResponsesParseV, y: int)
    requires
        blocks_inv(e, s),
        open_blocks(s) =~= open_blocks(s2).insert(y),
        s2.next_index == s.next_index,
        s2.thinking_open ==> s2.thinking_ever_started,
    ensures
        blocks_inv(e.push(EventV::BlockStop { index: y }), s2),
{
    lemma_push_event(e, EventV::BlockStop { index: y });
}

/// A start at the next free index, which then opens, keeps the invariant.
proof fn lemma_inv_start(e: Seq<EventV>, s: ResponsesParseV, s2: ResponsesParseV, b: BlockStartV)
    requires
        blocks_inv(e, s),
        open_blocks(s2) =~= open_blocks(s).insert(s.next_index),
        s2.next_index == s.next_index + 1,
        s2.thinking_open ==> s2.thinking_ever_started,
    ensures
        blocks_inv(e.push(EventV::BlockStart { index: s.next_index, block: b }), s2),
{
    let x = EventV::BlockStart { index: s.next_index, block: b };
    lemma_push_event(e, x);
    let st = block_starts(e);
    assert(!st.contains(s.next_index));
    assert forall|i: int, j: int| 0 <= i < st.push(s.next_index).len() && 0 <= j < st.push(s.next_index).len()
        && i != j implies st.push(s.next_index)[i] != st.push(s.next_index)[j] by {
        if i < st.len() && j < st.len() {
            assert(st.push(s.next_index)[i] == st[i]);
            assert(st.push(s.next_index)[j] == st[j]);
        } else if i < st.len() {
            assert(st.push(s.next_index)[i] == st[i]);
        } else if j < st.len() {
            assert(st.push(s.next_index)[j] == st[j]);
        }
    }
    assert forall|k: int| 0 <= k < st.push(s.next_index).len() implies 0 <= #[trigger] st.push(
        s.next_index,
    )[k] < s2.next_index by {
        if k < st.len() {
            assert(st.push(s.next_index)[k] == st[k]);
        }
    }
}

/// An event that neither starts nor stops a block keeps the invariant where
/// the open blocks stay.
proof fn lemma_inv_other(e: Seq<EventV>, s: ResponsesParseV, s2: ResponsesParseV, x: EventV)
    requires
        blocks_inv(e, s),
        !(x is BlockStart),
        !(x is BlockStop),
        open_blocks(s2) =~= open_blocks(s),
        s2.next_index == s.next_index,
        s2.thinking_open ==> s2.thinking_ever_started,
    ensures
        blocks_inv(e.push(x), s2),
{
    lemma_push_event(e, x);
}

proof fn lemma_close_text(e: Seq<EventV>, e1: Seq<EventV>, s: ResponsesParseV)
    requires
        blocks_inv(e + e1, s),
    ensures
        blocks_inv(e + close_text(e1, s).0, close_text(e1, s).1),
{
    match s.text_open {
        Some((t, _)) => {
            let s2 = ResponsesParseV { text_open: None, ..s };
            lemma_inv_stop(e + e1, s, s2, t);
            assert(e + e1.push(EventV::BlockStop { index: t }) =~= (e + e1).push(EventV::BlockStop { index: t }));
        },
        None => {},
    }
}

proof fn lemma_thinking_start(e: Seq<EventV>, e1: Seq<EventV>, s: ResponsesParseV)
    requires
        blocks_inv(e + e1, s),
    ensures
        blocks_inv(e + thinking_start(e1, s).0, thinking_start(e1, s).1),
        thinking_start(e1, s).1.next_index <= s.next_index + 1,
{
    if !s.thinking_ever_started {
        let (e2, s2) = thinking_start(e1, s);
        let b = BlockStartV::Thinking { signature: None };
        lemma_inv_start(e + e1, s, s2, b);
        assert(e + e1.push(EventV::BlockStart { index: s.next_index, block: b }) =~= (e + e1).push(
            EventV::BlockStart { index: s.next_index, block: b },
        ));
    }
}

proof fn lemma_item_added(e: Seq<EventV>, c: JsonV, s: ResponsesParseV)
    requires
        blocks_inv(e, s),
    ensures
        blocks_inv(e + item_added_spec(c, s).0, item_added_spec(c, s).1),
{
    assert(e + Seq::<EventV>::empty() =~= e);
    match c.get("item"@) {
        None => {},
        Some(item) => {
            let it = crate::usage::str_or_empty(item.str_at("type"@));
            if it == "function_call"@ {
                lemma_close_text(e, Seq::empty(), s);
                let (e1, s1) = close_text(Seq::empty(), s);
                let (e2, s2) = if s1.thinking_open {
                    (
                        e1.push(EventV::BlockStop { index: s1.thinking_index }),
                        ResponsesParseV { thinking_open: false, ..s1 },
                    )
                } else {
                    (e1, s1)
                };
                if s1.thinking_open {
                    lemma_inv_stop(e + e1, s1, s2, s1.thinking_index);
                    assert(e + e2 =~= (e + e1).push(EventV::BlockStop { index: s1.thinking_index }));
                }
                let (e3, s3) = item_added_spec(c, s);
                let bi = s2.next_index;
                let x = e3.last();
                assert(e3 == e2.push(x));
                assert(tool_blocks(s3.tool_map) =~= tool_blocks(s2.tool_map).push(bi));
                lemma_inv_start(e + e2, s2, s3, x->BlockStart_block);
                assert(e + e3 =~= (e + e2).push(x));
            } else if it == "reasoning"@ {
                lemma_thinking_start(e, Seq::empty(), s);
            } else if it == "message"@ {
                lemma_close_text(e, Seq::empty(), s);
            }
        },
    }
}

proof fn lemma_text_delta(e: Seq<EventV>, c: JsonV, s: ResponsesParseV)
    requires
        blocks_inv(e, s),
    ensures
        blocks_inv(e + text_delta_spec(c, s).0, text_delta_spec(c, s).1),
{
    assert(e + Seq::<EventV>::empty() =~= e);
    match c.at("delta"@).as_str() {
        None => {},
        Some(d) => {
            let oi = crate::from_responses::output_index(c);
            let (e1, s1) = match s.text_open {
                Some((t, to)) => if to != oi {
                    (seq![EventV::BlockStop { index: t }], ResponsesParseV { text_open: None, ..s })
                } else {
                    (Seq::empty(), s)
                },
                None => (Seq::empty(), s),
            };
            if let Some((t, to)) = s.text_open {
                if to != oi {
                    lemma_inv_stop(e, s, s1, t);
                    assert(e + e1 =~= e.push(EventV::BlockStop { index: t }));
                }
            }
            let (e2, s2) = if s1.thinking_open && s1.text_open is None {
                (
                    e1.push(EventV::BlockStop { index: s1.thinking_index }),
                    ResponsesParseV { thinking_open: false, ..s1 },
                )
            } else {
                (e1, s1)
            };
            if s1.thinking_open && s1.text_open is None {
                lemma_inv_stop(e + e1, s1, s2, s1.thinking_index);
                assert(e + e2 =~= (e + e1).push(EventV::BlockStop { index: s1.thinking_index }));
            }
            let (e3, s3) = if s2.text_open is None {
                let bi = s2.next_index;
                (
                    e2.push(EventV::BlockStart { index: bi, block: BlockStartV::Text }),
                    ResponsesParseV { next_index: bi + 1, text_open: Some((bi, oi)), ..s2 },
                )
            } else {
                (e2, s2)
            };
            if s2.text_open is None {
                lemma_inv_start(e + e2, s2, s3, BlockStartV::Text);
                assert(e + e3 =~= (e + e2).push(EventV::BlockStart { index: s2.next_index, block: BlockStartV::Text }));
            }
            let x = EventV::BlockDelta { index: crate::from_responses::text_block_of(s3), delta: crate::ir::DeltaV::Text(d) };
            lemma_inv_other(e + e3, s3, s3, x);
            assert(e + e3.push(x) =~= (e + e3).push(x));
        },
    }
}

/// One chunk before the end keeps the invariant.
proof fn lemma_chunk_step(e: Seq<EventV>, c: JsonV, s: ResponsesParseV)
    requires
        blocks_inv(e, s),
        !is_completed(c),
    ensures
        blocks_inv(e + responses_chunk_spec(c, s).0, responses_chunk_spec(c, s).1),
{
    assert(e + Seq::<EventV>::empty() =~= e);
    match c.at("type"@).as_str() {
        None => {},
        Some(t) => if t == "response.created"@ {
            let (e2, s2) = responses_chunk_spec(c, s);
            lemma_inv_other(e, s, s2, e2[0]);
            assert(e + e2 =~= e.push(e2[0]));
        } else if t == "response.output_item.added"@ {
            lemma_item_added(e, c, s);
        } else if t == "response.output_text.delta"@ {
            lemma_text_delta(e, c, s);
        } else if t == "response.reasoning.delta"@ {
            match c.at("delta"@).as_str() {
                None => {},
                Some(d) => {
                    lemma_thinking_start(e, Seq::empty(), s);
                    let (e1, s1) = thinking_start(Seq::empty(), s);
                    let x = EventV::BlockDelta { index: s1.thinking_index, delta: crate::ir::DeltaV::Thinking(d) };
                    lemma_inv_other(e + e1, s1, s1, x);
                    assert(e + e1.push(x) =~= (e + e1).push(x));
                },
            }
        } else if t == "response.function_call_arguments.delta"@ {
            let (e2, s2) = responses_chunk_spec(c, s);
            if e2.len() > 0 {
                lemma_inv_other(e, s, s2, e2[0]);
                assert(e + e2 =~= e.push(e2[0]));
            }
        } else if t == "response.completed"@ {
        } else {
        },
    }
}

proof fn lemma_tool_stops(m: Seq<(int, int)>)
    ensures
        block_starts(tool_stops(m)) == Seq::<int>::empty(),
        block_stops(tool_stops(m)) == tool_blocks(m),
    decreases m.len(),
{
    if m.len() > 0 {
        lemma_tool_stops(m.drop_last());
        assert(tool_stops(m).drop_last() =~= tool_stops(m.drop_last()));
        assert(tool_blocks(m) =~= tool_blocks(m.drop_last()).push(m.last().1));
    } else {
        assert(tool_stops(m) =~= Seq::<EventV>::empty());
        assert(tool_blocks(m) =~= Seq::<int>::empty());
    }
}

/// The end of the stream closes every open block and starts none.
proof fn lemma_completed(e: Seq<EventV>, c: JsonV, s: ResponsesParseV)
    requires
        blocks_inv(e, s),
    ensures
        ({
            let f = e + completed_spec(c, s).0;
            &&& block_starts(f) == block_starts(e)
            &&& block_stops(f).to_multiset() =~= block_starts(e).to_multiset()
        }),
{
    let (e1, s1) = if s.thinking_open {
        (seq![EventV::BlockStop { index: s.thinking_index }], ResponsesParseV { thinking_open: false, ..s })
    } else {
        (Seq::empty(), s)
    };
    let (e2, s2) = close_text(e1, s1);
    let e3 = e2 + tool_stops(s2.tool_map);
    let (ec, _) = completed_spec(c, s);
    let m1 = ec[ec.len() - 2];
    let m2 = ec[ec.len() - 1];
    assert(ec == e3.push(m1).push(m2));
    lemma_append_events(e, ec);
    lemma_push_event(e3, m1);
    lemma_push_event(e3.push(m1), m2);
    lemma_append_events(e2, tool_stops(s2.tool_map));
    lemma_tool_stops(s2.tool_map);
    let th = if s.thinking_open { seq![s.thinking_index] } else { Seq::<int>::empty() };
    let tx = match s.text_open {
        Some((t, _)) => seq![t],
        None => Seq::<int>::empty(),
    };
    if s.thinking_open {
        lemma_push_event(Seq::empty(), EventV::BlockStop { index: s.thinking_index });
        assert(e1 =~= Seq::<EventV>::empty().push(EventV::BlockStop { index: s.thinking_index }));
    }
    assert(block_stops(e1) =~= th);
    assert(block_starts(e1) =~= Seq::<int>::empty());
    if let Some((t, _)) = s.text_open {
        lemma_push_event(e1, EventV::BlockStop { index: t });
    }
    assert(block_stops(e2) =~= th + tx);
    assert(block_starts(e2) =~= Seq::<int>::empty());
    assert(block_starts(ec) =~= Seq::<int>::empty());
    assert(block_stops(ec) =~= th + tx + tool_blocks(s2.tool_map));
    assert(block_starts(e + ec) =~= block_starts(e));
    vstd::seq_lib::lemma_multiset_commutative(th + tx, tool_blocks(s.tool_map));
    vstd::seq_lib::lemma_multiset_commutative(th, tx);
    assert(seq![s.thinking_index] =~= Seq::<int>::empty().push(s.thinking_index));
    if let Some((t, _)) = s.text_open {
        assert(seq![t] =~= Seq::<int>::empty().push(t));
    }
    assert((th + tx + tool_blocks(s.tool_map)).to_multiset() =~= open_blocks(s));
    vstd::seq_lib::lemma_multiset_commutative(block_stops(e), block_stops(ec));
}

/// The invariant holds of every run of chunks without the end.
proof fn lemma_chunks_inv(chunks: Seq<JsonV>)
    requires
        forall|i: int| 0 <= i < chunks.len() ==> !is_completed(#[trigger] chunks[i]),
    ensures
        blocks_inv(
            responses_chunks_spec(chunks, initial_responses_state()).0,
            responses_chunks_spec(chunks, initial_responses_state()).1,
        ),
    decreases chunks.len(),
{
    let s0 = initial_responses_state();
    if chunks.len() == 0 {
        assert(block_starts(Seq::<EventV>::empty()) =~= Seq::<int>::empty());
        assert(block_stops(Seq::<EventV>::empty()) =~= Seq::<int>::empty());
        assert(tool_blocks(s0.tool_map) =~= Seq::<int>::empty());
    } else {
        assert forall|i: int| 0 <= i < chunks.drop_last().len() implies !is_completed(
            #[trigger] chunks.drop_last()[i],
        ) by {
            assert(chunks.drop_last()[i] == chunks[i]);
        }
        lemma_chunks_inv(chunks.drop_last());
        let (e, s1) = responses_chunks_spec(chunks.drop_last(), s0);
        assert(!is_completed(chunks[chunks.len() - 1]));
        lemma_chunk_step(e, chunks.last(), s1);
    }
}

/// Blocks of a Responses stream never share an index, and once the stream
/// has completed each block started was stopped exactly once: read from the
/// start, chunks without the end and then the end give starts without a
/// repeat, and the same indexes stopped, as many times each.
pub proof fn law_responses_blocks(chunks: Seq<JsonV>)
    requires
        chunks.len() >= 1,
        is_completed(chunks.last()),
        forall|i: int| 0 <= i < chunks.len() - 1 ==> !is_completed(#[trigger] chunks[i]),
    ensures
        ({
            let e = responses_chunks_spec(chunks, initial_responses_state()).0;
            &&& block_starts(e).no_duplicates()
            &&& block_stops(e).to_multiset() =~= block_starts(e).to_multiset()
        }),
{
    let front = chunks.drop_last();
    assert forall|i: int| 0 <= i < front.len() implies !is_completed(#[trigger] front[i]) by {
        assert(front[i] == chunks[i]);
    }
    lemma_chunks_inv(front);
    let (e, s1) = responses_chunks_spec(front, initial_responses_state());
    let c = chunks.last();
    reveal_strlit("response.created");
    reveal_strlit("response.output_item.added");
    reveal_strlit("response.output_text.delta");
    reveal_strlit("response.reasoning.delta");
    reveal_strlit("response.function_call_arguments.delta");
    reveal_strlit("response.completed");
    let t = c.at("type"@).as_str()->Some_0;
    assert(t == "response.completed"@);
    assert(t.len() == 18);
    assert(t != "response.created"@);
    assert(t != "response.output_item.added"@);
    assert(t != "response.output_text.delta"@);
    assert(t != "response.reasoning.delta"@);
    assert(t != "response.function_call_arguments.delta"@);
    assert(responses_chunk_spec(c, s1) == completed_spec(c, s1));
    lemma_completed(e, c, s1);
}

} // verus!
