//! The earlier reading of Anthropic requests and stream chunks: cache writes
//! count as input at `message_start`, thinking blocks carry no signature, and
//! tools need a name.

use vstd::prelude::*;
use crate::from_messages::{anthropic_events, anthropic_req_spec, anthropic_request, messages_chunk_fits, messages_chunk_spec};
use crate::ir::{events_view, zero_usage, IrRequest, IrStreamEvent, IrUsage};
use crate::json::Json;

verus! {

/// The state of an Anthropic stream parser: the usage seen so far.
pub struct AnthropicParseState {
    pub usage: IrUsage,
}

impl AnthropicParseState {
    pub fn new() -> (r: Self)
        ensures
            r.usage == zero_usage(),
    {
        AnthropicParseState { usage: IrUsage::default() }
    }
}

impl Default for AnthropicParseState {
    fn default() -> (r: Self)
        ensures
            r.usage == zero_usage(),
    {
        Self::new()
    }
}

/// Reads one Anthropic stream chunk in the earlier reading.
pub fn anthropic_chunk_to_ir(chunk: &Json, state: &mut AnthropicParseState) -> (r: Vec<IrStreamEvent>)
    requires
        messages_chunk_fits(chunk@, old(state).usage, true),
    ensures
        (events_view(r@), final(state).usage) == messages_chunk_spec(chunk@, old(state).usage, true),
{
    anthropic_events(chunk, &mut state.usage, true)
}

/// Reads an Anthropic request body in the earlier reading.
pub fn anthropic_req_to_ir(req: &Json) -> (r: IrRequest)
    ensures
        r@ == anthropic_req_spec(req@, true),
{
    anthropic_request(req, true)
}

} // verus!
