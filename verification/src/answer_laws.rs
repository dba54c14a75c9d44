//! What is made of answers, said of their bytes, characters and numbers themselves.
use vstd::prelude::*;
use crate::error::ByokError;
use crate::gateway::translated_response;
use crate::gateway::without_created;
use crate::json::Json;
use crate::json::JsonView;
use crate::plain_laws::trimming_drops_the_end;
use crate::response::is_completion;
use crate::sse::after_emit;
use crate::sse::after_feed;
use crate::sse::after_line;
use crate::sse::after_payload;
use crate::sse::can_parse;
use crate::sse::event_outcome;
use crate::sse::first_line;
use crate::sse::has_done_event;
use crate::sse::has_line;
use crate::sse::is_done_event;
use crate::sse::line_feed;
use crate::sse::next_payload;
use crate::sse::parsed_events;
use crate::sse::payload;
use crate::sse::payload_events;
use crate::sse::payloads;
use crate::sse::remembered;
use crate::sse::renamed_payload;
use crate::sse::rewritten;
use crate::sse::text_payload;
use crate::sse::unread;
use crate::sse::SseView;
use crate::text::decoded_text;
use crate::text::lemma_trim_end;
use crate::text::trim_end;
use crate::usage::can_count;
use crate::usage::counted;
use crate::usage::counts_of;
use crate::usage::event_kind;
use crate::usage::response_counts;
use crate::usage::response_counts_fit;
use crate::usage::Counts;
use crate::usage::EventKind;
use crate::value::json_string;
use crate::value::str_json;

verus! {

// Lines and payloads.

/// Whether the bytes hold no line feed.
pub open spec fn is_without_line_feed(bytes: Seq<u8>) -> bool {
    forall|i: int| 0 <= i < bytes.len() ==> #[trigger] bytes[i] != 0x0a
}

/// A line ends at its line feed, whatever stands in it, and what follows is left.
pub proof fn lines_end_at_line_feeds(content: Seq<u8>, rest: Seq<u8>)
    requires
        is_without_line_feed(content),
    ensures
        !has_line(content),
        has_line(content + seq![0x0au8] + rest),
        first_line(content + seq![0x0au8] + rest) == content + seq![0x0au8],
        after_line(content + seq![0x0au8] + rest) == rest,
    decreases content.len(),
{
    let whole = content + seq![0x0au8] + rest;
    if content.len() > 0 {
        let short = content.drop_first();
        assert forall|i: int| 0 <= i < short.len() implies #[trigger] short[i] != 0x0a by {
            assert(short[i] == content[i + 1]);
        }
        lines_end_at_line_feeds(short, rest);
        assert(whole[0] == content[0]);
        assert(whole.drop_first() =~= short + seq![0x0au8] + rest);
        lemma_first_line_len(short, rest);
        assert(line_feed(whole) == content.len());
    } else {
        assert(whole[0] == 0x0a);
    }
    assert(first_line(whole) =~= content + seq![0x0au8]);
    assert(after_line(whole) =~= rest);
}

/// The line feed stands behind the content.
proof fn lemma_first_line_len(content: Seq<u8>, rest: Seq<u8>)
    requires
        is_without_line_feed(content),
    ensures
        line_feed(content + seq![0x0au8] + rest) == content.len(),
    decreases content.len(),
{
    let whole = content + seq![0x0au8] + rest;
    if content.len() > 0 {
        let short = content.drop_first();
        assert forall|i: int| 0 <= i < short.len() implies #[trigger] short[i] != 0x0a by {
            assert(short[i] == content[i + 1]);
        }
        assert(whole[0] == content[0]);
        assert(whole.drop_first() =~= short + seq![0x0au8] + rest);
        lemma_first_line_len(short, rest);
    } else {
        assert(whole[0] == 0x0a);
    }
}

/// Bytes without a line feed give no payload and are left unread; a line in front gives its payload
/// first, if it carries one, and nothing of it is left.
pub proof fn each_line_gives_its_payload(content: Seq<u8>, rest: Seq<u8>)
    requires
        is_without_line_feed(content),
    ensures
        payloads(content).len() == 0,
        unread(content) == content,
        next_payload(content) is None,
        ({
            let line = content + seq![0x0au8];
            &&& unread(line + rest) == unread(rest)
            &&& match text_payload(decoded_text(line)) {
                Some(data) => {
                    &&& payloads(line + rest) == seq![data] + payloads(rest)
                    &&& next_payload(line + rest) == Some((data, rest))
                },
                None => {
                    &&& payloads(line + rest) == payloads(rest)
                    &&& next_payload(line + rest) == next_payload(rest)
                },
            }
        }),
{
    lines_end_at_line_feeds(content, rest);
    assert(payload(content + seq![0x0au8]) == text_payload(decoded_text(content + seq![0x0au8])));
}

/// Whether the characters are carriage returns and line feeds.
pub open spec fn is_line_ending(text: Seq<char>) -> bool {
    forall|i: int| 0 <= i < text.len() ==> #[trigger] text[i] == '\r' || text[i] == '\n'
}

/// The payload of a data line is what stands between `data: ` and the line ending.
pub proof fn data_lines_carry_what_follows(data: Seq<char>, ending: Seq<char>)
    requires
        is_line_ending(ending),
        data.len() > 0 ==> data.last() != '\r' && data.last() != '\n',
    ensures
        text_payload("data: "@ + data + ending) == Some(data),
{
    let ends = set!['\r', '\n'];
    let start = "data: "@;
    reveal_strlit("data: ");
    assert(start.len() == 6 && start.last() == ' ');
    let text = start + data;
    assert(text.len() > 0 && !ends.contains(text.last()));
    assert forall|i: int| 0 <= i < ending.len() implies ends.contains(#[trigger] ending[i]) by {}
    trimming_drops_the_end(text, ends, ending);
    assert(text.take(6) =~= start);
    assert(text.skip(6) =~= data);
}

/// A line carries a payload exactly where it begins with `data: `.
pub proof fn lines_that_begin_with_data_carry_a_payload(line: Seq<char>)
    ensures
        text_payload(line) is Some <==> exists|rest: Seq<char>| line == #[trigger] ("data: "@
            + rest),
{
    let ends = set!['\r', '\n'];
    let start = "data: "@;
    reveal_strlit("data: ");
    assert(start.len() == 6 && start.last() == ' ');
    lemma_trim_end(line, ends);
    let cut = trim_end(line, ends);
    if text_payload(line) is Some {
        assert(cut.take(6) =~= start);
        assert(line =~= start + line.skip(6)) by {
            assert forall|i: int| 0 <= i < 6 implies line[i] == start[i] by {
                assert(cut[i] == line[i]);
                assert(cut.take(6)[i] == start[i]);
            }
        }
    }
    if exists|rest: Seq<char>| line == #[trigger] (start + rest) {
        let rest = choose|rest: Seq<char>| line == #[trigger] (start + rest);
        assert(line[5] == start[5]);
        if cut.len() < 6 {
            assert(ends.contains(line[5]));
        }
        assert(cut.take(6) =~= start) by {
            assert forall|i: int| 0 <= i < 6 implies cut[i] == start[i] by {
                assert(cut[i] == line[i]);
                assert(line[i] == start[i]);
            }
        }
    }
}

// Renaming.

/// An event that can be written as JSON text is passed on as exactly that text, whatever members it
/// has; the payload that it came from stands in only where it cannot be written.
pub proof fn renamed_events_are_passed_on(event: JsonView, data: Seq<char>, text: Seq<char>)
    ensures
        json_string(event) == Ok::<Seq<char>, Seq<char>>(text) ==> rewritten(event, data) == text,
        json_string(event) is Err ==> rewritten(event, data) == data,
{
}

/// A payload is parsed as it is where no renaming is wanted or it cannot be read; otherwise its
/// event is renamed, and what is parsed is the text of the renamed event.
pub proof fn payloads_are_renamed_where_that_is_wanted(
    rename: spec_fn(JsonView) -> JsonView,
    data: Seq<char>,
)
    ensures
        renamed_payload(false, rename, data) == data,
        str_json(data) is Err ==> renamed_payload(true, rename, data) == data,
        str_json(data) matches Ok(event) ==> match json_string(rename(event)) {
            Ok(text) => renamed_payload(true, rename, data) == text,
            Err(_) => renamed_payload(true, rename, data) == data,
        },
{
}

// Counting and parsing.

/// The number of payloads that start a block of tool use.
pub open spec fn tool_blocks(history: Seq<Seq<char>>) -> nat {
    history.filter(|data: Seq<char>| event_kind(data) is ToolUse).len()
}

/// The number of payloads that start a block of thinking.
pub open spec fn thinking_blocks(history: Seq<Seq<char>>) -> nat {
    history.filter(|data: Seq<char>| event_kind(data) is Thinking).len()
}

/// Whether a number is the last input count of a history, or zero where there is none.
pub open spec fn is_last_input(history: Seq<Seq<char>>, input: u64) -> bool {
    ||| input == 0 && forall|i: int|
        0 <= i < history.len() ==> !(event_kind(#[trigger] history[i]) is Start)
    ||| exists|i: int|
        0 <= i < history.len() && event_kind(#[trigger] history[i]) == EventKind::Start(input) && (
        forall|j: int|
            i < j < history.len() ==> !(event_kind(#[trigger] history[j]) is Start))
}

/// What is counted of a history are its blocks and its last input tokens.
pub proof fn blocks_and_tokens_are_counted(history: Seq<Seq<char>>)
    ensures
        counts_of(history).tools == tool_blocks(history),
        counts_of(history).thoughts == thinking_blocks(history),
        is_last_input(history, counts_of(history).input),
        tool_blocks(history) <= history.len(),
        thinking_blocks(history) <= history.len(),
    decreases history.len(),
{
    let tool = |data: Seq<char>| event_kind(data) is ToolUse;
    let thought = |data: Seq<char>| event_kind(data) is Thinking;
    reveal(Seq::filter);
    if history.len() > 0 {
        let rest = history.drop_last();
        blocks_and_tokens_are_counted(rest);
        assert(history.filter(tool).len() == rest.filter(tool).len() + if tool(history.last()) {
            1int
        } else {
            0int
        });
        assert(history.filter(thought).len() == rest.filter(thought).len() + if thought(
            history.last(),
        ) {
            1int
        } else {
            0int
        });
        let input = counts_of(history).input;
        if event_kind(history.last()) is Start {
            assert(event_kind(history[history.len() - 1]) == EventKind::Start(input));
        } else if forall|i: int|
            0 <= i < rest.len() ==> !(event_kind(#[trigger] rest[i]) is Start) {
            assert forall|i: int| 0 <= i < history.len() implies !(event_kind(
                #[trigger] history[i],
            ) is Start) by {
                if i < rest.len() {
                    assert(rest[i] == history[i]);
                }
            }
            if !(counts_of(rest).input == 0) {
                let i = choose|i: int|
                    0 <= i < rest.len() && event_kind(#[trigger] rest[i]) == EventKind::Start(
                        counts_of(rest).input,
                    );
                assert(event_kind(rest[i]) is Start);
            }
        } else {
            let i = choose|i: int|
                0 <= i < rest.len() && event_kind(#[trigger] rest[i]) == EventKind::Start(input)
                    && (forall|j: int|
                    i < j < rest.len() ==> !(event_kind(#[trigger] rest[j]) is Start));
            assert(event_kind(history[i]) == EventKind::Start(input)) by {
                assert(rest[i] == history[i]);
            }
            assert forall|j: int| i < j < history.len() implies !(event_kind(
                #[trigger] history[j],
            ) is Start) by {
                if j < rest.len() {
                    assert(rest[j] == history[j]);
                }
            }
        }
    }
}

/// One more payload counts as what it is.
pub proof fn one_more_payload_is_counted(counts: Counts, data: Seq<char>)
    ensures
        counted(counts, data).input == if event_kind(data) is Start {
            event_kind(data)->Start_0
        } else {
            counts.input
        },
        counted(counts, data).tools == counts.tools + if event_kind(data) is ToolUse {
            1nat
        } else {
            0nat
        },
        counted(counts, data).thoughts == counts.thoughts + if event_kind(data) is Thinking {
            1nat
        } else {
            0nat
        },
{
}

/// Whether parsing a payload after a history would overflow: the 32-bit number of its block, or the
/// 64-bit sum of its output tokens and the last input tokens.
pub open spec fn overflows(history: Seq<Seq<char>>, data: Seq<char>) -> bool {
    match event_kind(data) {
        EventKind::ToolUse => tool_blocks(history) >= 0xffff_ffff,
        EventKind::Thinking => thinking_blocks(history) >= 0xffff_ffff,
        EventKind::Delta(output) => exists|input: u64| #[trigger]
            is_last_input(history, input) && input + output > 0xffff_ffff_ffff_ffff,
        EventKind::Start(_) => false,
        EventKind::Ping => false,
        EventKind::Other => false,
    }
}

/// A history has one last input count.
proof fn lemma_last_input_is_one(history: Seq<Seq<char>>, a: u64, b: u64)
    requires
        is_last_input(history, a),
        is_last_input(history, b),
    ensures
        a == b,
{
    if exists|i: int| 0 <= i < history.len() && event_kind(#[trigger] history[i]) is Start {
        let i = choose|i: int|
            0 <= i < history.len() && event_kind(#[trigger] history[i]) == EventKind::Start(a) && (
            forall|j: int|
                i < j < history.len() ==> !(event_kind(#[trigger] history[j]) is Start));
        let k = choose|i: int|
            0 <= i < history.len() && event_kind(#[trigger] history[i]) == EventKind::Start(b) && (
            forall|j: int|
                i < j < history.len() ==> !(event_kind(#[trigger] history[j]) is Start));
        assert(event_kind(history[i]) is Start && event_kind(history[k]) is Start);
        assert(i == k);
    }
}

/// A payload is refused exactly where parsing it would overflow. Every other one is parsed: all its
/// events are passed on, and the parser has been given it.
pub proof fn payloads_are_parsed_unless_they_overflow(view: SseView, data: Seq<char>)
    ensures
        can_parse(view, data) <==> !overflows(view.history, data),
        overflows(view.history, data) ==> after_payload(view, data) == view && payload_events(
            view,
            data,
        ).len() == 0,
        !overflows(view.history, data) && !(event_kind(data) is Ping) ==> {
            &&& after_payload(view, data).history == view.history.push(data)
            &&& match parsed_events(view.history, data) {
                Ok(events) => payload_events(view, data) == events,
                Err(_) => payload_events(view, data).len() == 0,
            }
        },
        event_kind(data) is Ping ==> after_payload(view, data) == view && payload_events(
            view,
            data,
        ).len() == 0,
        after_payload(view, data).pending == view.pending,
        after_payload(view, data).done == view.done,
        after_payload(view, data).reverse_tool_names == view.reverse_tool_names,
{
    let history = view.history;
    blocks_and_tokens_are_counted(history);
    match event_kind(data) {
        EventKind::Delta(output) => {
            let input = counts_of(history).input;
            if exists|other: u64| #[trigger]
                is_last_input(history, other) && other + output > 0xffff_ffff_ffff_ffff {
                let other = choose|other: u64| #[trigger]
                    is_last_input(history, other) && other + output > 0xffff_ffff_ffff_ffff;
                lemma_last_input_is_one(history, input, other);
            }
        },
        _ => {},
    }
}

/// Whatever has been counted, a payload can be counted exactly where its block has a number in 32
/// bits and its token sum fits into 64.
pub proof fn counting_stops_at_the_bounds(counts: Counts, data: Seq<char>)
    ensures
        match event_kind(data) {
            EventKind::ToolUse => can_count(counts, data) <==> counts.tools <= 0xffff_fffe,
            EventKind::Thinking => can_count(counts, data) <==> counts.thoughts <= 0xffff_fffe,
            EventKind::Delta(output) => can_count(counts, data) <==> counts.input + output
                <= 0xffff_ffff_ffff_ffff,
            EventKind::Start(_) => can_count(counts, data),
            EventKind::Ping => can_count(counts, data),
            EventKind::Other => can_count(counts, data),
        },
{
}

/// In a stream of fewer than 2^32 - 1 payloads, no payload but one with token sums that are too
/// large is refused.
pub proof fn short_streams_are_parsed_whole(view: SseView, data: Seq<char>)
    requires
        view.history.len() < 0xffff_ffff,
        !(event_kind(data) is Delta),
    ensures
        can_parse(view, data),
{
    blocks_and_tokens_are_counted(view.history);
    payloads_are_parsed_unless_they_overflow(view, data);
}

/// What a payload gives is what the parser gives, but that a ping gives nothing and is not kept.
pub proof fn outcomes_are_those_of_the_parser(history: Seq<Seq<char>>, data: Seq<char>)
    ensures
        !(event_kind(data) is Ping) ==> event_outcome(history, data) == parsed_events(history, data)
            && remembered(history, data) == history.push(data),
        event_kind(data) is Ping ==> event_outcome(history, data) is Ok && event_outcome(
            history,
            data,
        )->Ok_0.len() == 0 && remembered(history, data) == history,
{
}

/// Feeding adds bytes behind those that wait, and changes nothing else.
pub proof fn fed_bytes_wait_behind_the_others(view: SseView, bytes: Seq<u8>)
    ensures
        after_feed(view, bytes).pending == view.pending + bytes,
        after_feed(view, bytes).history == view.history,
        after_feed(view, bytes).done == view.done,
        after_feed(view, bytes).reverse_tool_names == view.reverse_tool_names,
{
}

/// A stream is done exactly from where an event `Done` has been passed on as some bytes.
pub proof fn streams_are_done_after_the_last_event(
    view: SseView,
    events: Seq<aigw_core::model::StreamEvent>,
    written: Seq<u8>,
)
    ensures
        after_emit(view, events, written).done <==> (view.done || (written.len() > 0
            && exists|i: int| 0 <= i < events.len() && is_done_event(#[trigger] events[i]))),
        after_emit(view, events, written).pending == view.pending,
        after_emit(view, events, written).history == view.history,
        after_emit(view, events, written).reverse_tool_names == view.reverse_tool_names,
        has_done_event(events) <==> exists|i: int|
            0 <= i < events.len() && is_done_event(#[trigger] events[i]),
{
}

// Whole responses.

/// The counts of a response fit exactly where it has none, or their sum fits into 64 bits.
pub proof fn responses_are_refused_at_the_bound(body: Seq<u8>)
    ensures
        match response_counts(body) {
            Some((input, output)) => response_counts_fit(body) <==> input + output
                <= 0xffff_ffff_ffff_ffff,
            None => response_counts_fit(body),
        },
{
}

/// The completion of a body is the translated response: all its members as translated, and a
/// number under `created`; or the error of the translation with its text.
pub proof fn completions_are_the_translated_response(
    body: Seq<u8>,
    result: Result<Json, ByokError>,
)
    requires
        is_completion(body, result),
    ensures
        match translated_response(body) {
            Ok(Ok(fields)) => {
                &&& result is Ok
                &&& result->Ok_0@ matches JsonView::Object(members)
                &&& members.dom().contains("created"@)
                &&& members["created"@] is Number
                &&& fields == JsonView::Object(members.remove("created"@))
            },
            Ok(Err(text)) => result matches Err(ByokError::Translation(shown)) && shown@ == text,
            Err(text) => result matches Err(ByokError::Translation(shown)) && shown@ == text,
        },
{
}

/// A response without its time of creation has all its other members.
pub proof fn only_the_time_of_creation_is_left_open(
    members: Map<Seq<char>, JsonView>,
    key: Seq<char>,
)
    ensures
        without_created(Ok(JsonView::Object(members))) matches Ok(JsonView::Object(rest))
            && !rest.dom().contains("created"@) && (key != "created"@ ==> rest.dom().contains(key)
            == members.dom().contains(key) && (members.dom().contains(key) ==> rest[key]
            == members[key])),
{
}

} // verus!
