//! The protocol-neutral representation of a request and of a response stream.
//!
//! Requests of the three client protocols (Anthropic Messages, OpenAI Chat
//! Completions, OpenAI Responses) are read into `IrRequest`; upstream streams of
//! any of them are read into `IrStreamEvent`s, which are rendered again in the
//! protocol that the client speaks.

use vstd::prelude::*;
use crate::json::{Json, JsonNumber, JsonV};

verus! {

#[derive(Debug, Clone, Copy, PartialEq, Eq, Structural)]
pub enum IrRole {
    User,
    Assistant,
}

#[derive(Debug)]
pub enum IrImageSource {
    Base64 { media_type: String, data: String },
    Url { url: String },
}

#[derive(Debug)]
pub enum IrContentBlock {
    Text { text: String, cache_control: Option<Json> },
    Image { source: IrImageSource },
    Thinking { thinking: String, signature: Option<String> },
    ToolUse { id: String, name: String, input: Json },
    ToolResult { tool_use_id: String, content: IrToolResultContent, is_error: bool },
}

#[derive(Debug)]
pub enum IrToolResultContent {
    Text(String),
    Blocks(Vec<IrContentBlock>),
}

#[derive(Debug)]
pub struct IrMessage {
    pub role: IrRole,
    pub content: Vec<IrContentBlock>,
}

#[derive(Debug)]
pub struct IrSystemBlock {
    pub text: String,
    pub cache_control: Option<Json>,
}

#[derive(Debug)]
pub enum IrSystemContent {
    Text(String),
    Blocks(Vec<IrSystemBlock>),
}

#[derive(Debug)]
pub struct IrTool {
    pub name: String,
    pub description: Option<String>,
    pub input_schema: Json,
}

#[derive(Debug)]
pub enum IrToolChoice {
    Auto,
    Any,
    NoTools,
    Tool { name: String },
}

#[derive(Debug, Clone, Copy, PartialEq, Eq, Structural)]
pub struct IrThinkingConfig {
    pub enabled: bool,
    pub budget_tokens: Option<u64>,
}

/// A request, whatever protocol it came in.
#[derive(Debug)]
pub struct IrRequest {
    pub model: String,
    pub system: Option<IrSystemContent>,
    pub messages: Vec<IrMessage>,
    pub tools: Vec<IrTool>,
    pub tool_choice: Option<IrToolChoice>,
    pub max_tokens: Option<u64>,
    /// Sampling temperature, any JSON number.
    pub temperature: Option<JsonNumber>,
    pub top_p: Option<JsonNumber>,
    pub thinking: Option<IrThinkingConfig>,
    pub stream: bool,
}

/// Token counts of a response, and the characters of output seen, from which
/// the output tokens are estimated where the upstream reports none.
#[derive(Debug, Clone, Copy, PartialEq, Eq, Structural)]
pub struct IrUsage {
    pub input_tokens: u64,
    pub output_tokens: u64,
    pub cache_read_input_tokens: u64,
    pub cache_creation_input_tokens: u64,
    pub output_chars: u64,
}

pub open spec fn zero_usage() -> IrUsage {
    IrUsage {
        input_tokens: 0,
        output_tokens: 0,
        cache_read_input_tokens: 0,
        cache_creation_input_tokens: 0,
        output_chars: 0,
    }
}

impl Default for IrUsage {
    fn default() -> (r: IrUsage)
        ensures
            r == zero_usage(),
    {
        IrUsage {
            input_tokens: 0,
            output_tokens: 0,
            cache_read_input_tokens: 0,
            cache_creation_input_tokens: 0,
            output_chars: 0,
        }
    }
}

#[derive(Debug, Clone, Copy, PartialEq, Eq, Structural)]
pub enum IrStopReason {
    EndTurn,
    ToolUse,
    MaxTokens,
    StopSequence,
}

pub open spec fn stop_reason_from_anthropic_spec(s: Seq<char>) -> IrStopReason {
    if s == "tool_use"@ {
        IrStopReason::ToolUse
    } else if s == "max_tokens"@ {
        IrStopReason::MaxTokens
    } else if s == "stop_sequence"@ {
        IrStopReason::StopSequence
    } else {
        IrStopReason::EndTurn
    }
}

pub open spec fn anthropic_stop_str(r: IrStopReason) -> Seq<char> {
    match r {
        IrStopReason::EndTurn => "end_turn"@,
        IrStopReason::ToolUse => "tool_use"@,
        IrStopReason::MaxTokens => "max_tokens"@,
        IrStopReason::StopSequence => "stop_sequence"@,
    }
}

pub open spec fn chat_finish_str(r: IrStopReason) -> Seq<char> {
    match r {
        IrStopReason::EndTurn => "stop"@,
        IrStopReason::ToolUse => "tool_calls"@,
        IrStopReason::MaxTokens => "length"@,
        IrStopReason::StopSequence => "stop"@,
    }
}

impl IrStopReason {
    /// Reads an Anthropic `stop_reason`; anything unknown ends the turn.
    pub fn from_anthropic(s: &str) -> (r: IrStopReason)
        ensures
            r == stop_reason_from_anthropic_spec(s@),
    {
        if crate::json::str_eq(s, "tool_use") {
            IrStopReason::ToolUse
        } else if crate::json::str_eq(s, "max_tokens") {
            IrStopReason::MaxTokens
        } else if crate::json::str_eq(s, "stop_sequence") {
            IrStopReason::StopSequence
        } else {
            IrStopReason::EndTurn
        }
    }

    /// The Anthropic `stop_reason` string.
    pub fn as_anthropic_str(&self) -> (r: &'static str)
        ensures
            r@ == anthropic_stop_str(*self),
    {
        match self {
            IrStopReason::EndTurn => "end_turn",
            IrStopReason::ToolUse => "tool_use",
            IrStopReason::MaxTokens => "max_tokens",
            IrStopReason::StopSequence => "stop_sequence",
        }
    }

    /// The Chat Completions `finish_reason` string.
    pub fn as_chat_finish_reason(&self) -> (r: &'static str)
        ensures
            r@ == chat_finish_str(*self),
    {
        match self {
            IrStopReason::EndTurn => "stop",
            IrStopReason::ToolUse => "tool_calls",
            IrStopReason::MaxTokens => "length",
            IrStopReason::StopSequence => "stop",
        }
    }
}

#[derive(Debug)]
pub enum IrContentBlockStart {
    Text,
    Thinking { signature: Option<String> },
    ToolUse { id: String, name: String },
}

#[derive(Debug)]
pub enum IrContentDelta {
    TextDelta(String),
    ThinkingDelta(String),
    InputJsonDelta(String),
}

/// One event of a response stream.
#[derive(Debug)]
pub enum IrStreamEvent {
    MessageStart { id: String, model: String, usage: Option<IrUsage> },
    ContentBlockStart { index: usize, block: IrContentBlockStart },
    ContentBlockDelta { index: usize, delta: IrContentDelta },
    ContentBlockStop { index: usize },
    MessageDelta { stop_reason: Option<IrStopReason>, usage: Option<IrUsage> },
    MessageStop,
}

// ---- mathematical values of stream events ----

pub enum BlockStartV {
    Text,
    Thinking { signature: Option<Seq<char>> },
    ToolUse { id: Seq<char>, name: Seq<char> },
}

pub enum DeltaV {
    Text(Seq<char>),
    Thinking(Seq<char>),
    InputJson(Seq<char>),
}

pub enum EventV {
    MessageStart { id: Seq<char>, model: Seq<char>, usage: Option<IrUsage> },
    BlockStart { index: int, block: BlockStartV },
    BlockDelta { index: int, delta: DeltaV },
    BlockStop { index: int },
    MessageDelta { stop_reason: Option<IrStopReason>, usage: Option<IrUsage> },
    MessageStop,
}

impl View for IrContentBlockStart {
    type V = BlockStartV;

    open spec fn view(&self) -> BlockStartV {
        match *self {
            IrContentBlockStart::Text => BlockStartV::Text,
            IrContentBlockStart::Thinking { signature } => BlockStartV::Thinking {
                signature: crate::json::opt_str_view(signature),
            },
            IrContentBlockStart::ToolUse { id, name } => BlockStartV::ToolUse { id: id@, name: name@ },
        }
    }
}

impl View for IrContentDelta {
    type V = DeltaV;

    open spec fn view(&self) -> DeltaV {
        match *self {
            IrContentDelta::TextDelta(s) => DeltaV::Text(s@),
            IrContentDelta::ThinkingDelta(s) => DeltaV::Thinking(s@),
            IrContentDelta::InputJsonDelta(s) => DeltaV::InputJson(s@),
        }
    }
}

impl View for IrStreamEvent {
    type V = EventV;

    open spec fn view(&self) -> EventV {
        match *self {
            IrStreamEvent::MessageStart { id, model, usage } => EventV::MessageStart {
                id: id@,
                model: model@,
                usage,
            },
            IrStreamEvent::ContentBlockStart { index, block } => EventV::BlockStart {
                index: index as int,
                block: block@,
            },
            IrStreamEvent::ContentBlockDelta { index, delta } => EventV::BlockDelta {
                index: index as int,
                delta: delta@,
            },
            IrStreamEvent::ContentBlockStop { index } => EventV::BlockStop { index: index as int },
            IrStreamEvent::MessageDelta { stop_reason, usage } => EventV::MessageDelta {
                stop_reason,
                usage,
            },
            IrStreamEvent::MessageStop => EventV::MessageStop,
        }
    }
}

/// The values of a sequence of events.
pub open spec fn events_view(s: Seq<IrStreamEvent>) -> Seq<EventV> {
    s.map_values(|e: IrStreamEvent| e@)
}

/// Appends an event to a sequence under construction.
pub fn push_event(events: &mut Vec<IrStreamEvent>, e: IrStreamEvent)
    ensures
        events_view(final(events)@) == events_view(old(events)@).push(e@),
{
    events.push(e);
    proof {
        assert(events_view(events@) =~= events_view(old(events)@).push(e@));
    }
}

pub open spec fn json_opt_view(o: Option<Json>) -> Option<JsonV> {
    crate::json::opt_json_view(o)
}

// ---- mathematical values of requests ----

pub enum ImageV {
    Base64 { media_type: Seq<char>, data: Seq<char> },
    Url { url: Seq<char> },
}

pub enum BlockV {
    Text { text: Seq<char>, cache_control: Option<JsonV> },
    Image { source: ImageV },
    Thinking { thinking: Seq<char>, signature: Option<Seq<char>> },
    ToolUse { id: Seq<char>, name: Seq<char>, input: JsonV },
    ToolResult { tool_use_id: Seq<char>, content: ToolResultV, is_error: bool },
}

pub enum ToolResultV {
    Text(Seq<char>),
    Blocks(Seq<BlockV>),
}

pub struct MessageV {
    pub role: IrRole,
    pub content: Seq<BlockV>,
}

pub enum SystemV {
    Text(Seq<char>),
    Blocks(Seq<(Seq<char>, Option<JsonV>)>),
}

pub struct ToolV {
    pub name: Seq<char>,
    pub description: Option<Seq<char>>,
    pub input_schema: JsonV,
}

pub enum ToolChoiceV {
    Auto,
    Any,
    NoTools,
    Tool { name: Seq<char> },
}

pub struct RequestV {
    pub model: Seq<char>,
    pub system: Option<SystemV>,
    pub messages: Seq<MessageV>,
    pub tools: Seq<ToolV>,
    pub tool_choice: Option<ToolChoiceV>,
    pub max_tokens: Option<u64>,
    pub temperature: Option<JsonV>,
    pub top_p: Option<JsonV>,
    pub thinking: Option<IrThinkingConfig>,
    pub stream: bool,
}

pub open spec fn image_view(i: IrImageSource) -> ImageV {
    match i {
        IrImageSource::Base64 { media_type, data } => ImageV::Base64 {
            media_type: media_type@,
            data: data@,
        },
        IrImageSource::Url { url } => ImageV::Url { url: url@ },
    }
}

pub open spec fn block_view(b: IrContentBlock) -> BlockV
    decreases b,
{
    match b {
        IrContentBlock::Text { text, cache_control } => BlockV::Text {
            text: text@,
            cache_control: crate::json::opt_json_view(cache_control),
        },
        IrContentBlock::Image { source } => BlockV::Image { source: image_view(source) },
        IrContentBlock::Thinking { thinking, signature } => BlockV::Thinking {
            thinking: thinking@,
            signature: crate::json::opt_str_view(signature),
        },
        IrContentBlock::ToolUse { id, name, input } => BlockV::ToolUse {
            id: id@,
            name: name@,
            input: input@,
        },
        IrContentBlock::ToolResult { tool_use_id, content, is_error } => BlockV::ToolResult {
            tool_use_id: tool_use_id@,
            content: match content {
                IrToolResultContent::Text(t) => ToolResultV::Text(t@),
                IrToolResultContent::Blocks(bs) => ToolResultV::Blocks(blocks_view(bs@)),
            },
            is_error,
        },
    }
}

pub open spec fn blocks_view(s: Seq<IrContentBlock>) -> Seq<BlockV>
    decreases s,
{
    if s.len() == 0 {
        Seq::empty()
    } else {
        blocks_view(s.drop_last()).push(block_view(s.last()))
    }
}

impl View for IrContentBlock {
    type V = BlockV;

    open spec fn view(&self) -> BlockV {
        block_view(*self)
    }
}

impl View for IrMessage {
    type V = MessageV;

    open spec fn view(&self) -> MessageV {
        MessageV { role: self.role, content: blocks_view(self.content@) }
    }
}

pub open spec fn system_view(s: IrSystemContent) -> SystemV {
    match s {
        IrSystemContent::Text(t) => SystemV::Text(t@),
        IrSystemContent::Blocks(bs) => SystemV::Blocks(
            bs@.map_values(|b: IrSystemBlock| (b.text@, crate::json::opt_json_view(b.cache_control))),
        ),
    }
}

impl View for IrTool {
    type V = ToolV;

    open spec fn view(&self) -> ToolV {
        ToolV {
            name: self.name@,
            description: crate::json::opt_str_view(self.description),
            input_schema: self.input_schema@,
        }
    }
}

impl View for IrToolChoice {
    type V = ToolChoiceV;

    open spec fn view(&self) -> ToolChoiceV {
        match *self {
            IrToolChoice::Auto => ToolChoiceV::Auto,
            IrToolChoice::Any => ToolChoiceV::Any,
            IrToolChoice::NoTools => ToolChoiceV::NoTools,
            IrToolChoice::Tool { name } => ToolChoiceV::Tool { name: name@ },
        }
    }
}

pub open spec fn number_opt_view(n: Option<JsonNumber>) -> Option<JsonV> {
    match n {
        Some(x) => Some(crate::json::number_view(x)),
        None => None,
    }
}

impl View for IrRequest {
    type V = RequestV;

    open spec fn view(&self) -> RequestV {
        RequestV {
            model: self.model@,
            system: match self.system {
                Some(s) => Some(system_view(s)),
                None => None,
            },
            messages: self.messages@.map_values(|m: IrMessage| m@),
            tools: self.tools@.map_values(|t: IrTool| t@),
            tool_choice: match self.tool_choice {
                Some(c) => Some(c@),
                None => None,
            },
            max_tokens: self.max_tokens,
            temperature: number_opt_view(self.temperature),
            top_p: number_opt_view(self.top_p),
            thinking: self.thinking,
            stream: self.stream,
        }
    }
}

pub proof fn lemma_blocks_view_push(s: Seq<IrContentBlock>, x: IrContentBlock)
    ensures
        blocks_view(s.push(x)) == blocks_view(s).push(x@),
{
    assert(s.push(x).drop_last() =~= s);
}

pub proof fn lemma_blocks_view_len(s: Seq<IrContentBlock>)
    ensures
        blocks_view(s).len() == s.len(),
    decreases s.len(),
{
    if s.len() > 0 {
        lemma_blocks_view_len(s.drop_last());
    }
}

pub proof fn lemma_blocks_view_index(s: Seq<IrContentBlock>, i: int)
    requires
        0 <= i < s.len(),
    ensures
        blocks_view(s).len() == s.len(),
        blocks_view(s)[i] == s[i]@,
    decreases s.len(),
{
    lemma_blocks_view_len(s);
    if i < s.len() - 1 {
        lemma_blocks_view_index(s.drop_last(), i);
    }
}

pub fn copy_opt_string(o: &Option<String>) -> (r: Option<String>)
    ensures
        crate::json::opt_str_view(r) == crate::json::opt_str_view(*o),
{
    match o {
        Some(s) => Some(s.clone()),
        None => None,
    }
}

pub fn copy_opt_json(o: &Option<Json>) -> (r: Option<Json>)
    ensures
        crate::json::opt_json_view(r) == crate::json::opt_json_view(*o),
{
    match o {
        Some(j) => Some(j.copy()),
        None => None,
    }
}

impl IrImageSource {
    pub fn copy(&self) -> (r: IrImageSource)
        ensures
            image_view(r) == image_view(*self),
    {
        match self {
            IrImageSource::Base64 { media_type, data } => IrImageSource::Base64 {
                media_type: media_type.clone(),
                data: data.clone(),
            },
            IrImageSource::Url { url } => IrImageSource::Url { url: url.clone() },
        }
    }
}

impl IrContentBlock {
    /// A copy of the block with the same value.
    pub fn copy(&self) -> (r: IrContentBlock)
        ensures
            r@ == self@,
        decreases self,
    {
        match self {
            IrContentBlock::Text { text, cache_control } => IrContentBlock::Text {
                text: text.clone(),
                cache_control: copy_opt_json(cache_control),
            },
            IrContentBlock::Image { source } => IrContentBlock::Image { source: source.copy() },
            IrContentBlock::Thinking { thinking, signature } => IrContentBlock::Thinking {
                thinking: thinking.clone(),
                signature: copy_opt_string(signature),
            },
            IrContentBlock::ToolUse { id, name, input } => IrContentBlock::ToolUse {
                id: id.clone(),
                name: name.clone(),
                input: input.copy(),
            },
            IrContentBlock::ToolResult { tool_use_id, content, is_error } => {
                let c = match content {
                    IrToolResultContent::Text(t) => IrToolResultContent::Text(t.clone()),
                    IrToolResultContent::Blocks(bs) => {
                        let mut out: Vec<IrContentBlock> = Vec::new();
                        let mut i: usize = 0;
                        while i < bs.len()
                            invariant
                                i <= bs@.len(),
                                *self == (IrContentBlock::ToolResult {
                                    tool_use_id: *tool_use_id,
                                    content: IrToolResultContent::Blocks(*bs),
                                    is_error: *is_error,
                                }),
                                blocks_view(out@) == blocks_view(bs@.take(i as int)),
                            decreases bs@.len() - i,
                        {
                            proof {
                                assert(decreases_to!(*self => (*self)->ToolResult_content));
                                assert(decreases_to!((*self)->ToolResult_content => (*self)->ToolResult_content->Blocks_0));
                                assert(decreases_to!((*self)->ToolResult_content->Blocks_0 => (*self)->ToolResult_content->Blocks_0@));
                                assert(decreases_to!((*self)->ToolResult_content->Blocks_0@ => (*self)->ToolResult_content->Blocks_0@[i as int]));
                                assert(bs@.take(i as int + 1).drop_last() =~= bs@.take(i as int));
                            }
                            let b = bs[i].copy();
                            push_block(&mut out, b);
                            i = i + 1;
                        }
                        proof {
                            assert(bs@.take(i as int) =~= bs@);
                        }
                        IrToolResultContent::Blocks(out)
                    },
                };
                IrContentBlock::ToolResult {
                    tool_use_id: tool_use_id.clone(),
                    content: c,
                    is_error: *is_error,
                }
            },
        }
    }
}

/// Appends a block to a sequence under construction.
pub fn push_block(blocks: &mut Vec<IrContentBlock>, b: IrContentBlock)
    ensures
        blocks_view(final(blocks)@) == blocks_view(old(blocks)@).push(b@),
        final(blocks)@.len() == old(blocks)@.len() + 1,
{
    proof {
        lemma_blocks_view_push(blocks@, b);
    }
    blocks.push(b);
}

} // verus!
