//! What the translation of answers counts: whether tokens can be added and blocks be numbered.
use vstd::prelude::*;
use aigw::anthropic::ContentBlock;
use aigw::anthropic::StreamEvent;
use aigw::anthropic::TypedContentBlock;

verus! {

/// The input and output token counts that `serde_json::from_slice` reads from a body as an
/// `aigw::anthropic::MessagesResponse`; nothing where the body is no such response.
pub uninterp spec fn response_counts(body: Seq<u8>) -> Option<(u64, u64)>;

/// What the translation of a stream counts of an event.
pub enum EventKind {
    /// A `message_start` with its input token count.
    Start(u64),
    /// A `message_delta` with its output token count.
    Delta(u64),
    /// The start of a block that uses a tool.
    ToolUse,
    /// The start of a block of thinking.
    Thinking,
    /// A ping.
    Ping,
    /// Any other event, and what is no event.
    Other,
}

/// What `serde_json::from_str` reads from a payload as an `aigw::anthropic::StreamEvent`, as far
/// as it is counted.
pub uninterp spec fn event_kind(data: Seq<char>) -> EventKind;

/// `serde_json::from_slice` for an `aigw::anthropic::MessagesResponse`, of which the token counts
/// are kept.
#[verifier::external_body]
fn read_response_counts(body: &[u8]) -> (counts: Option<(u64, u64)>)
    ensures
        counts == response_counts(body@),
{
    match serde_json::from_slice::<aigw::anthropic::MessagesResponse>(body) {
        Ok(response) => Some((response.usage.input_tokens, response.usage.output_tokens)),
        Err(_) => None,
    }
}

/// `serde_json::from_str` for an `aigw::anthropic::StreamEvent`, of which the kind is kept.
#[verifier::external_body]
pub(crate) fn read_event_kind(data: &str) -> (kind: EventKind)
    ensures
        kind == event_kind(data@),
{
    match serde_json::from_str::<StreamEvent>(data) {
        Ok(StreamEvent::MessageStart { message }) => EventKind::Start(message.usage.input_tokens),
        Ok(StreamEvent::MessageDelta { usage, .. }) => EventKind::Delta(usage.output_tokens),
        Ok(StreamEvent::ContentBlockStart { content_block, .. }) => match content_block {
            ContentBlock::Typed(TypedContentBlock::ToolUse { .. }) => EventKind::ToolUse,
            ContentBlock::Typed(TypedContentBlock::Thinking { .. }) => EventKind::Thinking,
            _ => EventKind::Other,
        },
        Ok(StreamEvent::Ping) => EventKind::Ping,
        _ => EventKind::Other,
    }
}

/// Whether the token counts of a response, where it has any, have a sum that fits.
pub open spec fn response_counts_fit(body: Seq<u8>) -> bool {
    response_counts(body) matches Some((input, output)) ==> input + output <= u64::MAX
}

/// What the translation of a stream has counted.
pub struct Counts {
    /// The last input token count, zero before there is one.
    pub input: u64,
    /// The blocks that use a tool.
    pub tools: nat,
    /// The blocks of thinking.
    pub thoughts: nat,
}

/// What has been counted after one more payload.
pub open spec fn counted(counts: Counts, data: Seq<char>) -> Counts {
    match event_kind(data) {
        EventKind::Start(input) => Counts { input, ..counts },
        EventKind::ToolUse => Counts { tools: counts.tools + 1, ..counts },
        EventKind::Thinking => Counts { thoughts: counts.thoughts + 1, ..counts },
        _ => counts,
    }
}

/// What has been counted in a sequence of payloads.
pub open spec fn counts_of(history: Seq<Seq<char>>) -> Counts
    decreases history.len(),
{
    if history.len() == 0 {
        Counts { input: 0, tools: 0, thoughts: 0 }
    } else {
        counted(counts_of(history.drop_last()), history.last())
    }
}

/// Whether a payload can be counted: its output tokens can be added to the last input tokens in
/// 64 bits, and its block be numbered in 32 bits.
pub open spec fn can_count(counts: Counts, data: Seq<char>) -> bool {
    match event_kind(data) {
        EventKind::Delta(output) => counts.input + output <= u64::MAX,
        EventKind::ToolUse => counts.tools < u32::MAX,
        EventKind::Thinking => counts.thoughts < u32::MAX,
        _ => true,
    }
}

/// Whether the token counts of a response, where it has any, have a sum that fits.
pub fn check_response_counts(body: &[u8]) -> (fit: bool)
    ensures
        fit == response_counts_fit(body@),
        match response_counts(body@) {
            Some((input, output)) => fit <==> input + output <= u64::MAX,
            None => fit,
        },
{
    match read_response_counts(body) {
        Some((input, output)) => input <= u64::MAX - output,
        None => true,
    }
}

/// Keeps what the translation of a stream has counted.
pub struct EventCounter {
    input: u64,
    tools: u32,
    thoughts: u32,
}

impl View for EventCounter {
    type V = Counts;

    closed spec fn view(&self) -> Counts {
        Counts { input: self.input, tools: self.tools as nat, thoughts: self.thoughts as nat }
    }
}

impl EventCounter {
    /// A counter that has counted nothing.
    pub fn new() -> (counter: EventCounter)
        ensures
            counter@ == (Counts { input: 0, tools: 0, thoughts: 0 }),
    {
        EventCounter { input: 0, tools: 0, thoughts: 0 }
    }

    /// Whether a payload can be counted.
    pub fn check(&self, data: &str) -> (fit: bool)
        ensures
            fit == can_count(self@, data@),
            match event_kind(data@) {
                EventKind::Delta(output) => fit <==> self@.input + output <= u64::MAX,
                EventKind::ToolUse => fit <==> self@.tools < u32::MAX,
                EventKind::Thinking => fit <==> self@.thoughts < u32::MAX,
                _ => fit,
            },
    {
        match read_event_kind(data) {
            EventKind::Delta(output) => self.input <= u64::MAX - output,
            EventKind::ToolUse => self.tools < u32::MAX,
            EventKind::Thinking => self.thoughts < u32::MAX,
            _ => true,
        }
    }

    /// Counts a payload.
    pub fn count(&mut self, data: &str)
        requires
            can_count(old(self)@, data@),
        ensures
            final(self)@ == counted(old(self)@, data@),
            match event_kind(data@) {
                EventKind::Start(input) => final(self)@ == (Counts { input, ..old(self)@ }),
                EventKind::ToolUse => final(self)@ == (Counts {
                    tools: old(self)@.tools + 1,
                    ..old(self)@
                }),
                EventKind::Thinking => final(self)@ == (Counts {
                    thoughts: old(self)@.thoughts + 1,
                    ..old(self)@
                }),
                _ => final(self)@ == old(self)@,
            },
    {
        match read_event_kind(data) {
            EventKind::Start(input) => self.input = input,
            EventKind::ToolUse => self.tools += 1,
            EventKind::Thinking => self.thoughts += 1,
            _ => {},
        }
    }
}

} // verus!
