//! Streamed responses: server-sent events taken line by line from a stream of bytes.
use vstd::prelude::*;
use aigw_core::translate::StreamParser;
use crate::gateway::print_translate_error;
use crate::gateway::translate_error_text;
use crate::json::Json;
use crate::json::JsonView;
use crate::text::decode_lossy;
use crate::text::decoded_text;
use crate::text::starts_with;
use crate::text::strip_prefix;
use crate::text::trim_end;
use crate::text::trim_line_end;
use crate::usage::can_count;
use crate::usage::counts_of;
use crate::usage::event_kind;
use crate::usage::EventCounter;
use crate::usage::EventKind;
use crate::value::json_string;
use crate::value::read_str;
use crate::value::str_json;
use crate::value::write_string;

verus! {

/// `aigw::anthropic::translate::AnthropicStreamParser`; what it has been given is
/// [`parser_history`].
#[verifier::external_type_specification]
#[verifier::external_body]
pub struct ExStreamParser(aigw::anthropic::translate::AnthropicStreamParser);

/// `aigw_core::model::StreamEvent`, an event of the canonical stream.
#[verifier::external_type_specification]
#[verifier::external_body]
pub struct ExStreamEvent(aigw_core::model::StreamEvent);

/// The payloads that a parser has been given, in order, but for pings.
pub uninterp spec fn parser_history(
    parser: aigw::anthropic::translate::AnthropicStreamParser,
) -> Seq<Seq<char>>;

/// The events that a parser with a given history makes of a payload, or the text of the error.
pub uninterp spec fn parsed_events(history: Seq<Seq<char>>, data: Seq<char>) -> Result<
    Seq<aigw_core::model::StreamEvent>,
    Seq<char>,
>;

/// The events that a payload gives after a history, or the text of the error. A ping gives none.
pub open spec fn event_outcome(history: Seq<Seq<char>>, data: Seq<char>) -> Result<
    Seq<aigw_core::model::StreamEvent>,
    Seq<char>,
> {
    match event_kind(data) {
        EventKind::Ping => Ok(Seq::empty()),
        _ => parsed_events(history, data),
    }
}

/// The history after a payload. A ping leaves the parser as it is.
pub open spec fn remembered(history: Seq<Seq<char>>, data: Seq<char>) -> Seq<Seq<char>> {
    match event_kind(data) {
        EventKind::Ping => history,
        _ => history.push(data),
    }
}

/// Whether an event is `StreamEvent::Done`.
pub uninterp spec fn is_done_event(event: aigw_core::model::StreamEvent) -> bool;

/// `AnthropicStreamParser::new` of `aigw`: a parser that has been given nothing.
#[verifier::external_body]
fn new_parser() -> (parser: aigw::anthropic::translate::AnthropicStreamParser)
    ensures
        parser_history(parser) =~= Seq::empty(),
{
    aigw::anthropic::translate::AnthropicStreamParser::new()
}

/// `AnthropicStreamParser::parse_event` of `aigw`: what it gives depends on the payload and on
/// those before it, and not on the type of the event. A ping gives no event and leaves the parser
/// as it is. The call numbers the blocks of tool use and those of thinking in 32 bits, and adds
/// the output tokens of a payload to the last input tokens in 64 bits.
#[verifier::external_body]
fn parse_event(
    parser: &mut aigw::anthropic::translate::AnthropicStreamParser,
    event_type: &str,
    data: &str,
) -> (parsed: Result<Vec<aigw_core::model::StreamEvent>, aigw_core::error::TranslateError>)
    requires
        can_count(counts_of(parser_history(*old(parser))), data@),
    ensures
        parser_history(*final(parser)) == remembered(parser_history(*old(parser)), data@),
        !(event_kind(data@) is Ping) ==> match parsed {
            Ok(events) => parsed_events(parser_history(*old(parser)), data@) == Ok::<
                Seq<aigw_core::model::StreamEvent>,
                Seq<char>,
            >(events@),
            Err(error) => parsed_events(parser_history(*old(parser)), data@) == Err::<
                Seq<aigw_core::model::StreamEvent>,
                Seq<char>,
            >(translate_error_text(error)),
        },
        event_kind(data@) is Ping ==> parsed is Ok && parsed->Ok_0@.len() == 0,
{
    parser.parse_event(event_type, data)
}

/// Tells the variant `StreamEvent::Done` of `aigw_core` from the others.
#[verifier::external_body]
fn event_is_done(event: &aigw_core::model::StreamEvent) -> (done: bool)
    ensures
        done == is_done_event(*event),
{
    matches!(event, aigw_core::model::StreamEvent::Done)
}

/// The place of the first line feed; the number of bytes where there is none.
pub open spec fn line_feed(bytes: Seq<u8>) -> nat
    decreases bytes.len(),
{
    if bytes.len() == 0 || bytes[0] == 0x0a {
        0
    } else {
        1 + line_feed(bytes.drop_first())
    }
}

/// Whether the bytes hold a whole line.
pub open spec fn has_line(bytes: Seq<u8>) -> bool {
    line_feed(bytes) < bytes.len()
}

/// The first line, with its line feed.
pub open spec fn first_line(bytes: Seq<u8>) -> Seq<u8> {
    bytes.take(line_feed(bytes) as int + 1)
}

/// What follows the first line.
pub open spec fn after_line(bytes: Seq<u8>) -> Seq<u8> {
    bytes.skip(line_feed(bytes) as int + 1)
}

/// The payload that a line of text carries, if it is a data line.
pub open spec fn text_payload(line: Seq<char>) -> Option<Seq<char>> {
    let text = trim_end(line, set!['\r', '\n']);
    if starts_with(text, "data: "@) {
        Some(text.skip("data: "@.len() as int))
    } else {
        None
    }
}

/// The payload that a line of bytes carries, if it is a data line.
pub open spec fn payload(line: Seq<u8>) -> Option<Seq<char>> {
    text_payload(decoded_text(line))
}

/// The payloads of all whole lines.
pub open spec fn payloads(bytes: Seq<u8>) -> Seq<Seq<char>>
    decreases bytes.len(),
{
    if has_line(bytes) {
        let rest = payloads(after_line(bytes));
        match payload(first_line(bytes)) {
            Some(data) => seq![data] + rest,
            None => rest,
        }
    } else {
        Seq::empty()
    }
}

/// The bytes that follow the last whole line.
pub open spec fn unread(bytes: Seq<u8>) -> Seq<u8>
    decreases bytes.len(),
{
    if has_line(bytes) {
        unread(after_line(bytes))
    } else {
        bytes
    }
}

/// The first payload, and the bytes after its line; nothing where no whole line carries one.
pub open spec fn next_payload(bytes: Seq<u8>) -> Option<(Seq<char>, Seq<u8>)>
    decreases bytes.len(),
{
    if has_line(bytes) {
        match payload(first_line(bytes)) {
            Some(data) => Some((data, after_line(bytes))),
            None => next_payload(after_line(bytes)),
        }
    } else {
        None
    }
}

/// The first line feed is where it is found.
proof fn lemma_line_feed(bytes: Seq<u8>, place: int)
    requires
        0 <= place <= bytes.len(),
        place < bytes.len() ==> bytes[place] == 0x0a,
        forall|i: int| 0 <= i < place ==> #[trigger] bytes[i] != 0x0a,
    ensures
        line_feed(bytes) == place,
    decreases bytes.len(),
{
    if place > 0 {
        lemma_line_feed(bytes.drop_first(), place - 1);
    }
}

/// What a stream translator waits for or has found.
pub enum SseStep {
    /// A payload to be parsed.
    Data(String),
    /// The stream is complete.
    End,
    /// More bytes are needed.
    More,
}

/// What a payload has been parsed to.
pub enum Parsed {
    /// Events to be passed on.
    Events(Vec<aigw_core::model::StreamEvent>),
    /// No event: a ping, or the end of a block.
    Nothing,
    /// An error, which is passed over.
    Failed(String),
}

/// Translates a stream of bytes to payloads, and payloads to events.
pub struct SseTranslator {
    pending: Vec<u8>,
    parser: aigw::anthropic::translate::AnthropicStreamParser,
    counter: EventCounter,
    reverse_tool_names: bool,
    done: bool,
}

/// What a [`SseTranslator`] is.
pub struct SseView {
    /// The bytes that have been fed and not been read.
    pub pending: Seq<u8>,
    /// The payloads that have been parsed.
    pub history: Seq<Seq<char>>,
    /// Whether tool names are renamed back.
    pub reverse_tool_names: bool,
    /// Whether the last event has been passed on.
    pub done: bool,
}

impl View for SseTranslator {
    type V = SseView;

    closed spec fn view(&self) -> SseView {
        SseView {
            pending: self.pending@,
            history: parser_history(self.parser),
            reverse_tool_names: self.reverse_tool_names,
            done: self.done,
        }
    }
}

/// The translator after bytes have been fed to it.
pub open spec fn after_feed(view: SseView, bytes: Seq<u8>) -> SseView {
    SseView { pending: view.pending + bytes, ..view }
}

/// Whether a payload can be parsed: its tokens can be added, and its block be numbered.
pub open spec fn can_parse(view: SseView, data: Seq<char>) -> bool {
    can_count(counts_of(view.history), data)
}

/// The translator after a payload has been given to it; one that cannot be parsed is passed over.
pub open spec fn after_payload(view: SseView, data: Seq<char>) -> SseView {
    if can_parse(view, data) {
        SseView { history: remembered(view.history, data), ..view }
    } else {
        view
    }
}

/// The events of a payload: none where it cannot be parsed, or is none of a stream.
pub open spec fn payload_events(view: SseView, data: Seq<char>) -> Seq<
    aigw_core::model::StreamEvent,
> {
    match event_outcome(view.history, data) {
        Ok(events) if can_parse(view, data) => events,
        _ => Seq::empty(),
    }
}

/// The translator after events have been passed on as the bytes that they have been written as.
pub open spec fn after_emit(
    view: SseView,
    events: Seq<aigw_core::model::StreamEvent>,
    written: Seq<u8>,
) -> SseView {
    SseView { done: view.done || (written.len() > 0 && has_done_event(events)), ..view }
}

/// The payload that an event is written as; the payload that it came from where it cannot be
/// written.
pub open spec fn rewritten(event: JsonView, data: Seq<char>) -> Seq<char> {
    match json_string(event) {
        Ok(text) => text,
        Err(_) => data,
    }
}

/// The payload that is parsed in place of a given one, where its event is renamed back.
pub open spec fn renamed_payload(
    reverse_tool_names: bool,
    rename: spec_fn(JsonView) -> JsonView,
    data: Seq<char>,
) -> Seq<char> {
    match str_json(data) {
        Ok(event) if reverse_tool_names => rewritten(rename(event), data),
        _ => data,
    }
}

/// The payload that a line of text carries, if it is a data line.
pub fn line_payload(line: &str) -> (data: Option<String>)
    ensures
        match data {
            Some(data) => text_payload(line@) == Some(data@),
            None => text_payload(line@) is None,
        },
{
    match strip_prefix(trim_line_end(line), "data: ") {
        Some(data) => Some(data.to_owned()),
        None => None,
    }
}

/// What is to be done with a payload before it is parsed.
pub enum PayloadStep {
    /// The tool names of the event have to be renamed back first; the payload is kept.
    Rename(Json, String),
    /// The payload is parsed as it is.
    Parse(String),
}

/// The payload of an event whose tool names have been renamed back; the payload that it came
/// from where it cannot be written.
pub fn end_payload(event: Json, data: &str) -> (renamed: String)
    ensures
        renamed@ == rewritten(event@, data@),
        match json_string(event@) {
            Ok(text) => renamed@ == text,
            Err(_) => renamed@ == data@,
        },
{
    match write_string(event) {
        Ok(text) => text,
        Err(_) => data.to_owned(),
    }
}

/// What the outcome of parsing means: events are passed on, and errors are passed over.
pub fn classify(
    outcome: Result<Vec<aigw_core::model::StreamEvent>, aigw_core::error::TranslateError>,
) -> (parsed: Parsed)
    ensures
        match outcome {
            Ok(events) => if events@.len() > 0 {
                parsed == Parsed::Events(events)
            } else {
                parsed is Nothing
            },
            Err(error) => parsed matches Parsed::Failed(message) && message@
                == translate_error_text(error),
        },
{
    match outcome {
        Ok(events) => if events.len() > 0 {
            Parsed::Events(events)
        } else {
            Parsed::Nothing
        },
        Err(error) => Parsed::Failed(print_translate_error(&error)),
    }
}

/// Whether one of the events is the last one of a stream.
pub open spec fn has_done_event(events: Seq<aigw_core::model::StreamEvent>) -> bool {
    exists|i: int| 0 <= i < events.len() && is_done_event(#[trigger] events[i])
}

/// Whether one of the events is the last one of a stream.
fn find_done_event(events: &Vec<aigw_core::model::StreamEvent>) -> (found: bool)
    ensures
        found == has_done_event(events@),
{
    let mut i: usize = 0;
    while i < events.len()
        invariant
            i <= events@.len(),
            forall|j: int| 0 <= j < i ==> !is_done_event(#[trigger] events@[j]),
        decreases events@.len() - i,
    {
        if event_is_done(&events[i]) {
            return true;
        }
        i += 1;
    }
    false
}

impl SseTranslator {
    /// What has been counted in the parsed payloads is kept.
    pub closed spec fn wf(self) -> bool {
        self.counter@ == counts_of(parser_history(self.parser))
    }

    /// A translator that has been fed nothing.
    pub fn new(reverse_tool_names: bool) -> (translator: SseTranslator)
        ensures
            translator.wf(),
            translator@ == (SseView {
                pending: Seq::empty(),
                history: Seq::empty(),
                reverse_tool_names,
                done: false,
            }),
    {
        SseTranslator {
            pending: Vec::new(),
            parser: new_parser(),
            counter: EventCounter::new(),
            reverse_tool_names,
            done: false,
        }
    }

    /// The first step on a payload: to rename the tool names of its event back, where that is
    /// wanted and the payload can be read.
    pub fn begin(&self, data: String) -> (step: PayloadStep)
        ensures
            match str_json(data@) {
                Ok(event) if self@.reverse_tool_names => step matches PayloadStep::Rename(
                    json,
                    kept,
                ) && json@ == event && kept@ == data@,
                _ => step matches PayloadStep::Parse(text) && text@ == data@,
            },
    {
        if self.reverse_tool_names {
            match read_str(data.as_str()) {
                Ok(event) => PayloadStep::Rename(event, data),
                Err(_) => PayloadStep::Parse(data),
            }
        } else {
            PayloadStep::Parse(data)
        }
    }

    /// Takes bytes of the stream in.
    pub fn feed(&mut self, bytes: &[u8])
        requires
            old(self).wf(),
        ensures
            final(self).wf(),
            final(self)@ == after_feed(old(self)@, bytes@),
    {
        self.pending.extend_from_slice(bytes);
        assert(self.pending@ =~= old(self).pending@ + bytes@);
    }

    /// Takes the first whole line out, if there is one.
    fn take_line(&mut self) -> (line: Option<Vec<u8>>)
        requires
            old(self).wf(),
        ensures
            final(self).wf(),
            match line {
                Some(line) => has_line(old(self)@.pending) && line@ == first_line(
                    old(self)@.pending,
                ) && final(self)@ == (SseView {
                    pending: after_line(old(self)@.pending),
                    ..old(self)@
                }),
                None => !has_line(old(self)@.pending) && final(self)@ == old(self)@,
            },
    {
        let mut i: usize = 0;
        while i < self.pending.len() && self.pending[i] != 0x0a
            invariant
                i <= self.pending@.len(),
                forall|j: int| 0 <= j < i ==> #[trigger] self.pending@[j] != 0x0a,
            decreases self.pending@.len() - i,
        {
            i += 1;
        }
        proof {
            lemma_line_feed(self.pending@, i as int);
        }
        if i == self.pending.len() {
            return None;
        }
        let mut line: Vec<u8> = self.pending.split_off(i + 1);
        core::mem::swap(&mut line, &mut self.pending);
        assert(line@ =~= first_line(old(self)@.pending));
        assert(self.pending@ =~= after_line(old(self)@.pending));
        Some(line)
    }

    /// The next payload. Lines that carry none are passed over; where no whole line is left, the
    /// stream ends if its last event has been passed on, and more bytes are needed if not.
    pub fn next_step(&mut self) -> (step: SseStep)
        requires
            old(self).wf(),
        ensures
            final(self).wf(),
            match next_payload(old(self)@.pending) {
                Some((data, rest)) => step matches SseStep::Data(text) && text@ == data
                    && final(self)@ == (SseView { pending: rest, ..old(self)@ }),
                None => step == (if old(self)@.done {
                    SseStep::End
                } else {
                    SseStep::More
                }) && final(self)@ == (SseView {
                    pending: unread(old(self)@.pending),
                    ..old(self)@
                }),
            },
    {
        loop
            invariant
                self.wf(),
                self@.history == old(self)@.history,
                self@.reverse_tool_names == old(self)@.reverse_tool_names,
                self@.done == old(self)@.done,
                next_payload(self@.pending) == next_payload(old(self)@.pending),
                unread(self@.pending) == unread(old(self)@.pending),
            decreases self@.pending.len(),
        {
            match self.take_line() {
                Some(line) => {
                    let text = decode_lossy(line.as_slice());
                    match line_payload(text.as_str()) {
                        Some(data) => return SseStep::Data(data),
                        None => {},
                    }
                },
                None => {
                    return if self.done {
                        SseStep::End
                    } else {
                        SseStep::More
                    };
                },
            }
        }
    }

    /// Parses a payload.
    pub fn parse(&mut self, data: &str) -> (parsed: Parsed)
        requires
            old(self).wf(),
            can_parse(old(self)@, data@),
        ensures
            final(self).wf(),
            final(self)@ == after_payload(old(self)@, data@),
            match event_outcome(old(self)@.history, data@) {
                Ok(events) => if events.len() > 0 {
                    parsed matches Parsed::Events(list) && list@ == events
                } else {
                    parsed is Nothing
                },
                Err(text) => parsed matches Parsed::Failed(message) && message@ == text,
            },
    {
        self.counter.count(data);
        let outcome = parse_event(&mut self.parser, "", data);
        proof {
            let history = old(self)@.history;
            assert(history.push(data@).drop_last() =~= history);
        }
        classify(outcome)
    }

    /// Parses a payload that can be parsed; gives nothing, and parses nothing, where its tokens
    /// cannot be added or its block cannot be numbered.
    pub fn parse_checked(&mut self, data: &str) -> (parsed: Option<Parsed>)
        requires
            old(self).wf(),
        ensures
            final(self).wf(),
            final(self)@ == after_payload(old(self)@, data@),
            parsed is Some <==> can_parse(old(self)@, data@),
            parsed matches Some(parsed) ==> match event_outcome(old(self)@.history, data@) {
                Ok(events) => if events.len() > 0 {
                    parsed matches Parsed::Events(list) && list@ == events
                } else {
                    parsed is Nothing
                },
                Err(text) => parsed matches Parsed::Failed(message) && message@ == text,
            },
    {
        if self.counter.check(data) {
            Some(self.parse(data))
        } else {
            None
        }
    }

    /// Passes on what events have been written as: nothing where that is empty. The stream is
    /// done once the last event has been passed on.
    pub fn emit(
        &mut self,
        events: &Vec<aigw_core::model::StreamEvent>,
        written: Vec<u8>,
    ) -> (passed: Option<Vec<u8>>)
        requires
            old(self).wf(),
        ensures
            final(self).wf(),
            final(self)@ == after_emit(old(self)@, events@, written@),
            passed == if written@.len() > 0 {
                Some(written)
            } else {
                None
            },
    {
        if written.len() == 0 {
            return None;
        }
        if find_done_event(events) {
            self.done = true;
        }
        Some(written)
    }
}

} // verus!
