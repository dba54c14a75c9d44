//! What holds of a whole stream, from its bytes to the items that are passed on.
use vstd::prelude::*;
use crate::json::JsonView;
use crate::laws::payloads_do_not_depend_on_a_cut;
use crate::laws::unread_bytes_hold_no_line;
use crate::sse::after_emit;
use crate::sse::after_feed;
use crate::sse::after_line;
use crate::sse::after_payload;
use crate::sse::first_line;
use crate::sse::has_line;
use crate::sse::line_feed;
use crate::sse::event_outcome;
use crate::sse::payload;
use crate::sse::payload_events;
use crate::sse::payloads;
use crate::sse::renamed_payload;
use crate::sse::rewritten;
use crate::sse::text_payload;
use crate::sse::unread;
use crate::sse::SseView;
use crate::text::decoded_text;
use crate::text::trim_end;
use crate::usage::counts_of;
use crate::usage::event_kind;
use crate::value::str_json;

verus! {

/// What is done to a payload outside of the translator: the renaming of tool names in its event,
/// and the writing of its events by a writer that keeps a state of type `W`.
#[verifier::reject_recursive_types(W)]
pub struct Surroundings<W> {
    pub rename: spec_fn(JsonView) -> JsonView,
    pub write: spec_fn(W, Seq<aigw_core::model::StreamEvent>) -> (W, Seq<u8>),
}

/// A translator together with the state of the writer.
pub struct Run<W> {
    pub view: SseView,
    pub writer: W,
}

/// The payload that a run parses in place of a given one.
pub open spec fn run_text<W>(around: Surroundings<W>, run: Run<W>, data: Seq<char>) -> Seq<char> {
    renamed_payload(run.view.reverse_tool_names, around.rename, data)
}

/// The bytes that the events of a payload are written as.
pub open spec fn run_written<W>(around: Surroundings<W>, run: Run<W>, data: Seq<char>) -> (
    W,
    Seq<u8>,
) {
    (around.write)(run.writer, payload_events(run.view, run_text(around, run, data)))
}

/// The item that a payload is passed on as, if there is one.
pub open spec fn payload_item<W>(
    around: Surroundings<W>,
    run: Run<W>,
    data: Seq<char>,
) -> Option<Seq<u8>> {
    if payload_events(run.view, run_text(around, run, data)).len() > 0 && run_written(
        around,
        run,
        data,
    ).1.len() > 0 {
        Some(run_written(around, run, data).1)
    } else {
        None
    }
}

/// The run after one payload.
pub open spec fn after_item<W>(around: Surroundings<W>, run: Run<W>, data: Seq<char>) -> Run<W> {
    let text = run_text(around, run, data);
    let events = payload_events(run.view, text);
    let view = after_payload(run.view, text);
    if events.len() > 0 {
        let (writer, written) = run_written(around, run, data);
        Run { view: after_emit(view, events, written), writer }
    } else {
        Run { view, writer: run.writer }
    }
}

/// The run after some payloads.
pub open spec fn after_items<W>(
    around: Surroundings<W>,
    run: Run<W>,
    data: Seq<Seq<char>>,
) -> Run<W>
    decreases data.len(),
{
    if data.len() == 0 {
        run
    } else {
        after_item(around, after_items(around, run, data.drop_last()), data.last())
    }
}

/// The items that payloads are passed on as.
pub open spec fn items<W>(
    around: Surroundings<W>,
    run: Run<W>,
    data: Seq<Seq<char>>,
) -> Seq<Seq<u8>>
    decreases data.len(),
{
    if data.len() == 0 {
        Seq::empty()
    } else {
        let before = items(around, run, data.drop_last());
        match payload_item(around, after_items(around, run, data.drop_last()), data.last()) {
            Some(item) => before.push(item),
            None => before,
        }
    }
}

/// The run without the bytes that wait in it.
pub open spec fn settled<W>(run: Run<W>) -> Run<W> {
    Run { view: SseView { pending: Seq::empty(), ..run.view }, ..run }
}

/// The run after all its whole lines have been read.
pub open spec fn drained<W>(around: Surroundings<W>, run: Run<W>) -> Run<W> {
    let after = after_items(around, settled(run), payloads(run.view.pending));
    Run { view: SseView { pending: unread(run.view.pending), ..after.view }, ..after }
}

/// The items of a stream of chunks: the whole lines are read, then the stream ends if its last
/// event has been passed on or no chunk is left, and otherwise the next chunk is fed.
pub open spec fn stream_items<W>(
    around: Surroundings<W>,
    run: Run<W>,
    chunks: Seq<Seq<u8>>,
) -> Seq<Seq<u8>>
    decreases chunks.len(),
{
    let now = items(around, settled(run), payloads(run.view.pending));
    let next = drained(around, run);
    if next.view.done || chunks.len() == 0 {
        now
    } else {
        now + stream_items(
            around,
            Run { view: after_feed(next.view, chunks.first()), ..next },
            chunks.drop_first(),
        )
    }
}

/// All the payloads of a stream of chunks.
pub open spec fn stream_payloads<W>(run: Run<W>, chunks: Seq<Seq<u8>>) -> Seq<Seq<char>> {
    payloads(run.view.pending + chunks.flatten())
}

/// Whether no payload follows the one with which the last event is passed on.
pub open spec fn nothing_follows_the_end<W>(
    around: Surroundings<W>,
    run: Run<W>,
    data: Seq<Seq<char>>,
) -> bool {
    forall|n: int|
        0 <= n < data.len() ==> !(#[trigger] after_items(around, run, data.take(n))).view.done
}

/// Payloads can be taken in two parts.
proof fn lemma_items_split<W>(
    around: Surroundings<W>,
    run: Run<W>,
    a: Seq<Seq<char>>,
    b: Seq<Seq<char>>,
)
    ensures
        after_items(around, run, a + b) == after_items(around, after_items(around, run, a), b),
        items(around, run, a + b) == items(around, run, a) + items(
            around,
            after_items(around, run, a),
            b,
        ),
    decreases b.len(),
{
    if b.len() == 0 {
        assert(a + b =~= a);
        assert(items(around, run, a) + Seq::<Seq<u8>>::empty() =~= items(around, run, a));
    } else {
        assert((a + b).drop_last() =~= a + b.drop_last());
        assert((a + b).last() == b.last());
        lemma_items_split(around, run, a, b.drop_last());
        let middle = after_items(around, run, a);
        match payload_item(around, after_items(around, middle, b.drop_last()), b.last()) {
            Some(item) => {
                assert(items(around, run, a + b) =~= items(around, run, a) + items(
                    around,
                    middle,
                    b,
                ));
            },
            None => {},
        }
    }
}

/// Reading payloads leaves the bytes that wait as they are.
proof fn lemma_items_keep_pending<W>(
    around: Surroundings<W>,
    run: Run<W>,
    data: Seq<Seq<char>>,
)
    ensures
        after_items(around, run, data).view.pending == run.view.pending,
    decreases data.len(),
{
    if data.len() > 0 {
        lemma_items_keep_pending(around, run, data.drop_last());
    }
}

/// A stream gives the items of its first payloads, as many of them as it reads before its end;
/// where no payload follows the end, it gives the items of all.
pub proof fn streams_give_the_items_of_their_payloads<W>(
    around: Surroundings<W>,
    run: Run<W>,
    chunks: Seq<Seq<u8>>,
)
    ensures
        exists|n: int|
            0 <= n <= stream_payloads(run, chunks).len() && stream_items(around, run, chunks)
                == items(around, settled(run), #[trigger] stream_payloads(run, chunks).take(n)),
        nothing_follows_the_end(around, settled(run), stream_payloads(run, chunks))
            ==> stream_items(around, run, chunks) == items(
            around,
            settled(run),
            stream_payloads(run, chunks),
        ),
    decreases chunks.len(),
{
    let whole = stream_payloads(run, chunks);
    let first = payloads(run.view.pending);
    let start = settled(run);
    let next = drained(around, run);
    payloads_do_not_depend_on_a_cut(run.view.pending, chunks.flatten());
    lemma_items_keep_pending(around, start, first);
    if next.view.done || chunks.len() == 0 {
        assert(whole.take(first.len() as int) =~= first);
        if chunks.len() == 0 {
            assert(run.view.pending + chunks.flatten() =~= run.view.pending);
        } else if nothing_follows_the_end(around, start, whole) {
            if first.len() < whole.len() {
                assert(!after_items(around, start, whole.take(first.len() as int)).view.done);
            }
            assert(whole =~= first);
        }
    } else {
        let rest = chunks.drop_first();
        let fed = Run { view: after_feed(next.view, chunks.first()), ..next };
        let tail = stream_payloads(fed, rest);
        assert(chunks.flatten() == chunks.first() + rest.flatten());
        assert(fed.view.pending + rest.flatten() =~= unread(run.view.pending) + chunks.flatten());
        assert(whole =~= first + tail);
        assert(settled(fed) == after_items(around, start, first));
        streams_give_the_items_of_their_payloads(around, fed, rest);
        let n = choose|n: int|
            0 <= n <= tail.len() && stream_items(around, fed, rest) == items(
                around,
                settled(fed),
                #[trigger] tail.take(n),
            );
        lemma_items_split(around, start, first, tail.take(n));
        assert(whole.take(first.len() + n) =~= first + tail.take(n));
        lemma_items_split(around, start, first, tail);
        if nothing_follows_the_end(around, start, whole) {
            assert forall|k: int| 0 <= k < tail.len() implies !(#[trigger] after_items(
                around,
                settled(fed),
                tail.take(k),
            )).view.done by {
                lemma_items_split(around, start, first, tail.take(k));
                assert(whole.take(first.len() + k) =~= first + tail.take(k));
                assert(!after_items(around, start, whole.take(first.len() + k)).view.done);
            }
        }
    }
}

/// The items of a stream do not depend on how its bytes are cut into chunks, wherever the cuts
/// fall, as long as no payload follows the end.
pub proof fn items_do_not_depend_on_chunks<W>(
    around: Surroundings<W>,
    run: Run<W>,
    a: Seq<Seq<u8>>,
    b: Seq<Seq<u8>>,
)
    requires
        a.flatten() == b.flatten(),
        nothing_follows_the_end(around, settled(run), stream_payloads(run, a)),
    ensures
        stream_items(around, run, a) == stream_items(around, run, b),
{
    streams_give_the_items_of_their_payloads(around, run, a);
    streams_give_the_items_of_their_payloads(around, run, b);
}

/// The place among the payloads that each item comes from.
pub open spec fn item_places<W>(
    around: Surroundings<W>,
    run: Run<W>,
    data: Seq<Seq<char>>,
) -> Seq<int>
    decreases data.len(),
{
    if data.len() == 0 {
        Seq::empty()
    } else {
        let before = item_places(around, run, data.drop_last());
        match payload_item(around, after_items(around, run, data.drop_last()), data.last()) {
            Some(_) => before.push(data.len() - 1),
            None => before,
        }
    }
}

/// No item is empty, each is the whole translation of one payload, the items are in the order of
/// the payloads, and no payload gives two.
pub proof fn each_payload_gives_at_most_one_item<W>(
    around: Surroundings<W>,
    run: Run<W>,
    data: Seq<Seq<char>>,
)
    ensures
        ({
            let places = item_places(around, run, data);
            let out = items(around, run, data);
            &&& out.len() <= data.len()
            &&& places.len() == out.len()
            &&& forall|k: int| 0 <= k < out.len() ==> (#[trigger] out[k]).len() > 0
            &&& forall|k: int| 0 <= k < out.len() ==> 0 <= #[trigger] places[k] < data.len()
            &&& forall|j: int, k: int|
                0 <= j < k < out.len() ==> #[trigger] places[j] < #[trigger] places[k]
            &&& forall|k: int|
                #![trigger out[k]]
                0 <= k < out.len() ==> Some(out[k]) == payload_item(
                    around,
                    after_items(around, run, data.take(places[k])),
                    data[places[k]],
                )
        }),
    decreases data.len(),
{
    if data.len() > 0 {
        let rest = data.drop_last();
        let places = item_places(around, run, data);
        let out = items(around, run, data);
        let few = items(around, run, rest);
        each_payload_gives_at_most_one_item(around, run, rest);
        assert forall|k: int| #![trigger out[k]] 0 <= k < out.len() implies Some(out[k])
            == payload_item(
            around,
            after_items(around, run, data.take(places[k])),
            data[places[k]],
        ) by {
            if k < few.len() {
                assert(few[k] == out[k]);
                assert(item_places(around, run, rest)[k] == places[k]);
                assert(rest.take(places[k]) =~= data.take(places[k]));
                assert(rest[places[k]] == data[places[k]]);
            } else {
                assert(data.take(places[k]) =~= rest);
            }
        }
    }
}

/// A stream gives no more items than it has whole data lines.
pub proof fn streams_give_no_more_items_than_payloads<W>(
    around: Surroundings<W>,
    run: Run<W>,
    chunks: Seq<Seq<u8>>,
)
    ensures
        stream_items(around, run, chunks).len() <= stream_payloads(run, chunks).len(),
        forall|k: int|
            0 <= k < stream_items(around, run, chunks).len() ==> (#[trigger] stream_items(
                around,
                run,
                chunks,
            )[k]).len() > 0,
{
    streams_give_the_items_of_their_payloads(around, run, chunks);
    let whole = stream_payloads(run, chunks);
    let n = choose|n: int|
        0 <= n <= whole.len() && stream_items(around, run, chunks) == items(
            around,
            settled(run),
            #[trigger] whole.take(n),
        );
    each_payload_gives_at_most_one_item(around, settled(run), whole.take(n));
}

/// Whole lines that carry no payload can be inserted between two lines: they change neither the
/// payloads nor what is left unread.
pub proof fn other_lines_are_passed_over(before: Seq<u8>, lines: Seq<u8>, behind: Seq<u8>)
    requires
        unread(before).len() == 0,
        unread(lines).len() == 0,
        payloads(lines).len() == 0,
    ensures
        payloads(before + lines + behind) == payloads(before + behind),
        unread(before + lines + behind) == unread(before + behind),
{
    payloads_do_not_depend_on_a_cut(before, lines + behind);
    payloads_do_not_depend_on_a_cut(before, behind);
    payloads_do_not_depend_on_a_cut(lines, behind);
    assert(before + lines + behind =~= before + (lines + behind));
    assert(unread(before) + (lines + behind) =~= lines + behind);
    assert(unread(before) + behind =~= behind);
    assert(unread(lines) + behind =~= behind);
    assert(payloads(lines) + payloads(behind) =~= payloads(behind));
}

/// Whether two histories cannot be told apart by what is parsed after them.
pub open spec fn parse_alike(a: Seq<Seq<char>>, b: Seq<Seq<char>>) -> bool {
    forall|more: Seq<Seq<char>>, data: Seq<char>|
        #![trigger event_outcome(a + more, data)]
        #![trigger event_outcome(b + more, data)]
        event_outcome(a + more, data) == event_outcome(b + more, data)
}

/// Histories that cannot be told apart cannot be after one more payload either.
proof fn lemma_parse_alike_push(a: Seq<Seq<char>>, b: Seq<Seq<char>>, data: Seq<char>)
    requires
        parse_alike(a, b),
    ensures
        event_outcome(a, data) == event_outcome(b, data),
        parse_alike(a.push(data), b.push(data)),
{
    assert(a + Seq::<Seq<char>>::empty() =~= a);
    assert(b + Seq::<Seq<char>>::empty() =~= b);
    assert(event_outcome(a + Seq::empty(), data) == event_outcome(b + Seq::empty(), data));
    assert forall|more: Seq<Seq<char>>, next: Seq<char>|
        #![trigger event_outcome(a.push(data) + more, next)]
        #![trigger event_outcome(b.push(data) + more, next)]
        event_outcome(a.push(data) + more, next) == event_outcome(b.push(data) + more, next) by {
        let tail = seq![data] + more;
        assert(a.push(data) + more =~= a + tail);
        assert(b.push(data) + more =~= b + tail);
        assert(event_outcome(a + tail, next) == event_outcome(b + tail, next));
    }
}

/// Two runs that differ at most in histories that cannot be told apart.
pub open spec fn runs_alike<W>(a: Run<W>, b: Run<W>) -> bool {
    &&& a.writer == b.writer
    &&& a.view == SseView { history: a.view.history, ..b.view }
    &&& parse_alike(a.view.history, b.view.history)
    &&& counts_of(a.view.history) == counts_of(b.view.history)
}

/// Such runs stay alike, and give the same item, on one payload.
proof fn lemma_item_alike<W>(around: Surroundings<W>, a: Run<W>, b: Run<W>, data: Seq<char>)
    requires
        runs_alike(a, b),
    ensures
        payload_item(around, a, data) == payload_item(around, b, data),
        runs_alike(after_item(around, a, data), after_item(around, b, data)),
{
    let text = run_text(around, a, data);
    lemma_parse_alike_push(a.view.history, b.view.history, text);
    assert(a.view.history.push(text).drop_last() =~= a.view.history);
    assert(b.view.history.push(text).drop_last() =~= b.view.history);
}

/// Whether a payload yields no event and leaves the parser as it is, such as a ping.
pub open spec fn is_idle<W>(around: Surroundings<W>, run: Run<W>, data: Seq<char>) -> bool {
    let text = run_text(around, run, data);
    let history = after_payload(run.view, text).history;
    &&& payload_events(run.view, text).len() == 0
    &&& parse_alike(history, run.view.history)
    &&& counts_of(history) == counts_of(run.view.history)
}

/// A ping is such a payload, whatever came before it.
pub proof fn pings_are_idle<W>(around: Surroundings<W>, run: Run<W>, data: Seq<char>)
    requires
        event_kind(run_text(around, run, data)) is Ping,
    ensures
        is_idle(around, run, data),
{
    assert(parse_alike(run.view.history, run.view.history));
}

/// Such a payload gives no item and leaves a run alike.
proof fn lemma_idle<W>(around: Surroundings<W>, run: Run<W>, data: Seq<char>)
    requires
        is_idle(around, run, data),
    ensures
        payload_item(around, run, data) is None,
        runs_alike(after_item(around, run, data), run),
{
}

/// The whole lines of a stream, each with its line feed.
pub open spec fn lines(bytes: Seq<u8>) -> Seq<Seq<u8>>
    decreases bytes.len(),
{
    if has_line(bytes) {
        seq![first_line(bytes)] + lines(after_line(bytes))
    } else {
        Seq::empty()
    }
}

/// The payloads that lines carry.
pub open spec fn line_payloads(lines: Seq<Seq<u8>>) -> Seq<Seq<char>>
    decreases lines.len(),
{
    if lines.len() == 0 {
        Seq::empty()
    } else {
        match payload(lines.last()) {
            Some(data) => line_payloads(lines.drop_last()).push(data),
            None => line_payloads(lines.drop_last()),
        }
    }
}

/// A line in front carries the first payload.
proof fn lemma_line_payloads_front(line: Seq<u8>, more: Seq<Seq<u8>>)
    ensures
        line_payloads(seq![line] + more) == match payload(line) {
            Some(data) => seq![data] + line_payloads(more),
            None => line_payloads(more),
        },
    decreases more.len(),
{
    let all = seq![line] + more;
    if more.len() == 0 {
        assert(all.drop_last() =~= Seq::empty());
        assert(line_payloads(all.drop_last()) =~= Seq::empty());
    } else {
        assert(all.drop_last() =~= seq![line] + more.drop_last());
        lemma_line_payloads_front(line, more.drop_last());
    }
    assert(line_payloads(all) =~= match payload(line) {
        Some(data) => seq![data] + line_payloads(more),
        None => line_payloads(more),
    });
}

/// The payloads of a stream are those of its lines.
proof fn lemma_line_payloads(bytes: Seq<u8>)
    ensures
        line_payloads(lines(bytes)) == payloads(bytes),
    decreases bytes.len(),
{
    if has_line(bytes) {
        lemma_line_payloads(after_line(bytes));
        lemma_line_payloads_front(first_line(bytes), lines(after_line(bytes)));
    }
}

/// Whether a line carries no payload, or one that yields no event and leaves the parser as it is.
pub open spec fn is_idle_line<W>(around: Surroundings<W>, run: Run<W>, line: Seq<u8>) -> bool {
    payload(line) matches Some(data) ==> is_idle(around, run, data)
}

/// Whether the lines `b` are the lines `a` with any number of idle ones inserted anywhere.
pub open spec fn lines_inserted<W>(
    around: Surroundings<W>,
    run: Run<W>,
    a: Seq<Seq<u8>>,
    b: Seq<Seq<u8>>,
) -> bool
    decreases b.len(),
{
    if b.len() == 0 {
        a.len() == 0
    } else {
        let rest = b.drop_last();
        ||| a.len() > 0 && a.last() == b.last() && lines_inserted(around, run, a.drop_last(), rest)
        ||| lines_inserted(around, run, a, rest) && is_idle_line(
            around,
            after_items(around, run, line_payloads(rest)),
            b.last(),
        )
    }
}

/// Inserted lines give no items and leave a run alike.
pub proof fn inserted_lines_are_passed_over<W>(
    around: Surroundings<W>,
    run: Run<W>,
    a: Seq<Seq<u8>>,
    b: Seq<Seq<u8>>,
)
    requires
        lines_inserted(around, run, a, b),
    ensures
        items(around, run, line_payloads(a)) == items(around, run, line_payloads(b)),
        runs_alike(
            after_items(around, run, line_payloads(b)),
            after_items(around, run, line_payloads(a)),
        ),
    decreases b.len(),
{
    if b.len() > 0 {
        let rest = b.drop_last();
        let before = line_payloads(rest);
        let x = after_items(around, run, before);
        if a.len() > 0 && a.last() == b.last() && lines_inserted(
            around,
            run,
            a.drop_last(),
            rest,
        ) {
            inserted_lines_are_passed_over(around, run, a.drop_last(), rest);
            let few = line_payloads(a.drop_last());
            match payload(b.last()) {
                Some(data) => {
                    assert(before.push(data).drop_last() =~= before);
                    assert(few.push(data).drop_last() =~= few);
                    lemma_item_alike(around, x, after_items(around, run, few), data);
                },
                None => {},
            }
        } else {
            inserted_lines_are_passed_over(around, run, a, rest);
            match payload(b.last()) {
                Some(data) => {
                    assert(before.push(data).drop_last() =~= before);
                    lemma_idle(around, x, data);
                },
                None => {},
            }
        }
    }
}

/// A stream gives the same items with any number of lines inserted between its lines that carry
/// no payload, or one that yields no event and leaves the parser as it is: such lines are passed
/// over and do not end the stream.
pub proof fn inserted_lines_give_no_items<W>(
    around: Surroundings<W>,
    run: Run<W>,
    a: Seq<Seq<u8>>,
    b: Seq<Seq<u8>>,
)
    requires
        lines_inserted(
            around,
            settled(run),
            lines(run.view.pending + a.flatten()),
            lines(run.view.pending + b.flatten()),
        ),
        nothing_follows_the_end(around, settled(run), stream_payloads(run, a)),
        nothing_follows_the_end(around, settled(run), stream_payloads(run, b)),
    ensures
        stream_items(around, run, a) == stream_items(around, run, b),
{
    let x = run.view.pending + a.flatten();
    let y = run.view.pending + b.flatten();
    lemma_line_payloads(x);
    lemma_line_payloads(y);
    inserted_lines_are_passed_over(around, settled(run), lines(x), lines(y));
    streams_give_the_items_of_their_payloads(around, run, a);
    streams_give_the_items_of_their_payloads(around, run, b);
}

/// Whether two payloads mean the same: they are counted alike, and give the same events and leave
/// the parser alike after every history.
pub open spec fn payloads_alike(a: Seq<char>, b: Seq<char>) -> bool {
    &&& event_kind(a) == event_kind(b)
    &&& forall|history: Seq<Seq<char>>| #[trigger]
        event_outcome(history, a) == event_outcome(history, b)
    &&& forall|history: Seq<Seq<char>>| #[trigger]
        parse_alike(history.push(a), history.push(b))
}

/// Whether renaming leaves a payload alone: it cannot be read, or its event is not changed and
/// what it is written as means the same.
pub open spec fn is_left_alone(rename: spec_fn(JsonView) -> JsonView, data: Seq<char>) -> bool {
    str_json(data) matches Ok(event) ==> rename(event) == event && payloads_alike(
        rewritten(event, data),
        data,
    )
}

/// The run with or without renaming.
pub open spec fn with_renaming<W>(run: Run<W>, reverse_tool_names: bool) -> Run<W> {
    Run { view: SseView { reverse_tool_names, ..run.view }, ..run }
}

/// Renaming changes no item of payloads that it leaves alone.
pub proof fn renaming_concerns_tool_names_only<W>(
    around: Surroundings<W>,
    on: Run<W>,
    off: Run<W>,
    data: Seq<Seq<char>>,
)
    requires
        on.view.reverse_tool_names,
        !off.view.reverse_tool_names,
        runs_alike(with_renaming(on, false), off),
        forall|i: int| 0 <= i < data.len() ==> is_left_alone(around.rename, #[trigger] data[i]),
    ensures
        items(around, on, data) == items(around, off, data),
        runs_alike(
            with_renaming(after_items(around, on, data), false),
            after_items(around, off, data),
        ),
    decreases data.len(),
{
    if data.len() > 0 {
        let rest = data.drop_last();
        assert forall|i: int| 0 <= i < rest.len() implies is_left_alone(
            around.rename,
            #[trigger] rest[i],
        ) by {
            assert(rest[i] == data[i]);
        }
        renaming_concerns_tool_names_only(around, on, off, rest);
        assert(is_left_alone(around.rename, data[data.len() - 1]));
        lemma_renaming_is_kept(around, on, rest);
        lemma_renaming_is_kept(around, off, rest);
        let x = after_items(around, on, rest);
        let y = after_items(around, off, rest);
        lemma_left_alone(around, x, y, data.last());
    }
}

/// A payload that renaming leaves alone gives the same item with and without it.
proof fn lemma_left_alone<W>(around: Surroundings<W>, on: Run<W>, off: Run<W>, data: Seq<char>)
    requires
        on.view.reverse_tool_names,
        !off.view.reverse_tool_names,
        runs_alike(with_renaming(on, false), off),
        is_left_alone(around.rename, data),
    ensures
        payload_item(around, on, data) == payload_item(around, off, data),
        runs_alike(
            with_renaming(after_item(around, on, data), false),
            after_item(around, off, data),
        ),
{
    let text = run_text(around, on, data);
    let a = on.view.history;
    let b = off.view.history;
    assert(run_text(around, off, data) == data);
    assert(event_kind(text) == event_kind(data));
    lemma_parse_alike_push(a, b, data);
    assert(event_outcome(a, text) == event_outcome(a, data));
    assert(parse_alike(a.push(text), a.push(data))) by {
        if text == data {
        } else {
            assert(payloads_alike(text, data));
        }
    }
    lemma_parse_alike_trans(a.push(text), a.push(data), b.push(data));
    assert(a.push(text).drop_last() =~= a);
    assert(b.push(data).drop_last() =~= b);
}

/// Histories that cannot be told apart from a third cannot be told apart from each other.
proof fn lemma_parse_alike_trans(a: Seq<Seq<char>>, b: Seq<Seq<char>>, c: Seq<Seq<char>>)
    requires
        parse_alike(a, b),
        parse_alike(b, c),
    ensures
        parse_alike(a, c),
{
    assert forall|more: Seq<Seq<char>>, data: Seq<char>|
        #![trigger event_outcome(a + more, data)]
        #![trigger event_outcome(c + more, data)]
        event_outcome(a + more, data) == event_outcome(c + more, data) by {
        assert(event_outcome(a + more, data) == event_outcome(b + more, data));
        assert(event_outcome(b + more, data) == event_outcome(c + more, data));
    }
}

/// Whether names are renamed back does not change during a run.
proof fn lemma_renaming_is_kept<W>(around: Surroundings<W>, run: Run<W>, data: Seq<Seq<char>>)
    ensures
        after_items(around, run, data).view.reverse_tool_names == run.view.reverse_tool_names,
    decreases data.len(),
{
    if data.len() > 0 {
        lemma_renaming_is_kept(around, run, data.drop_last());
    }
}

/// The bytes with a carriage return before every line feed.
pub open spec fn with_carriage_returns(bytes: Seq<u8>) -> Seq<u8>
    decreases bytes.len(),
{
    if bytes.len() == 0 {
        bytes
    } else if bytes[0] == 0x0a {
        seq![0x0du8, 0x0au8] + with_carriage_returns(bytes.drop_first())
    } else {
        seq![bytes[0]] + with_carriage_returns(bytes.drop_first())
    }
}

/// The first line gets a carriage return, and the others after it.
proof fn lemma_carriage_returns(bytes: Seq<u8>)
    ensures
        has_line(with_carriage_returns(bytes)) == has_line(bytes),
        !has_line(bytes) ==> with_carriage_returns(bytes) == bytes,
        has_line(bytes) ==> {
            let content = bytes.take(line_feed(bytes) as int);
            &&& first_line(with_carriage_returns(bytes)) == content + seq![0x0du8, 0x0au8]
            &&& after_line(with_carriage_returns(bytes)) == with_carriage_returns(
                after_line(bytes),
            )
        },
    decreases bytes.len(),
{
    let more = with_carriage_returns(bytes);
    if bytes.len() > 0 {
        let rest = bytes.drop_first();
        let tail = with_carriage_returns(rest);
        lemma_carriage_returns(rest);
        if bytes[0] == 0x0a {
            assert(more.drop_first() =~= seq![0x0au8] + tail);
            assert(more.drop_first()[0] == 0x0a);
            assert(line_feed(more.drop_first()) == 0);
            assert(line_feed(more) == 1);
            assert(first_line(more) =~= bytes.take(0) + seq![0x0du8, 0x0au8]);
            assert(after_line(more) =~= tail);
            assert(after_line(bytes) =~= rest);
        } else {
            assert(more.drop_first() =~= tail);
            assert(line_feed(more) == 1 + line_feed(tail));
            if has_line(bytes) {
                let content = bytes.take(line_feed(bytes) as int);
                let short = rest.take(line_feed(rest) as int);
                assert(content =~= seq![bytes[0]] + short);
                assert(first_line(more) =~= seq![bytes[0]] + first_line(tail));
                assert(first_line(more) =~= content + seq![0x0du8, 0x0au8]);
                assert(after_line(more) =~= after_line(tail));
                assert(after_line(bytes) =~= after_line(rest));
            } else {
                assert(more =~= bytes);
            }
        }
    }
}

/// ASCII bytes behind others are the last characters of their text.
proof fn lemma_decoded_end(bytes: Seq<u8>)
    ensures
        decoded_text(bytes + seq![0x0au8]) == decoded_text(bytes) + seq!['\n'],
        decoded_text(bytes + seq![0x0du8, 0x0au8]) == decoded_text(bytes) + seq!['\r', '\n'],
{
    let one = bytes + seq![0x0au8];
    let two = bytes + seq![0x0du8, 0x0au8];
    let half = bytes + seq![0x0du8];
    assert(one.drop_last() =~= bytes);
    assert(two.drop_last() =~= half);
    assert(half.drop_last() =~= bytes);
    assert(decoded_text(half) =~= decoded_text(bytes) + seq!['\r']);
    assert(decoded_text(one) =~= decoded_text(bytes) + seq!['\n']);
    assert(decoded_text(two) =~= decoded_text(bytes) + seq!['\r', '\n']);
}

/// Line endings are no part of a payload.
proof fn lemma_line_endings(text: Seq<char>)
    ensures
        text_payload(text + seq!['\n']) == text_payload(text + seq!['\r', '\n']),
{
    let ends = set!['\r', '\n'];
    assert((text + seq!['\n']).drop_last() =~= text);
    assert((text + seq!['\r', '\n']).drop_last() =~= text + seq!['\r']);
    assert((text + seq!['\r']).drop_last() =~= text);
    assert(trim_end(text + seq!['\n'], ends) == trim_end(text, ends));
    assert(trim_end(text + seq!['\r'], ends) == trim_end(text, ends));
    assert(trim_end(text + seq!['\r', '\n'], ends) == trim_end(text + seq!['\r'], ends));
}

/// Carriage returns before its line feeds change none of the payloads of a stream.
pub proof fn carriage_returns_are_no_part_of_payloads(bytes: Seq<u8>)
    ensures
        payloads(with_carriage_returns(bytes)) == payloads(bytes),
        unread(with_carriage_returns(bytes)) == unread(bytes),
    decreases bytes.len(),
{
    lemma_carriage_returns(bytes);
    if has_line(bytes) {
        let content = bytes.take(line_feed(bytes) as int);
        carriage_returns_are_no_part_of_payloads(after_line(bytes));
        lemma_line_feed_is_there(bytes);
        assert(first_line(bytes) =~= content + seq![0x0au8]);
        lemma_decoded_end(content);
        lemma_line_endings(decoded_text(content));
        assert(payload(first_line(with_carriage_returns(bytes))) == payload(first_line(bytes)));
    }
}

/// Bytes without a whole line get no carriage return, and others get theirs behind them.
proof fn lemma_carriage_returns_behind(a: Seq<u8>, b: Seq<u8>)
    requires
        !has_line(a),
    ensures
        with_carriage_returns(a + b) == a + with_carriage_returns(b),
    decreases a.len(),
{
    if a.len() == 0 {
        assert(a + b =~= b);
        assert(a + with_carriage_returns(b) =~= with_carriage_returns(b));
    } else {
        assert((a + b).drop_first() =~= a.drop_first() + b);
        lemma_carriage_returns_behind(a.drop_first(), b);
        assert(with_carriage_returns(a + b) =~= a + with_carriage_returns(b));
    }
}

/// The first line feed is a line feed.
proof fn lemma_line_feed_is_there(bytes: Seq<u8>)
    requires
        has_line(bytes),
    ensures
        bytes[line_feed(bytes) as int] == 0x0a,
    decreases bytes.len(),
{
    if bytes[0] != 0x0a {
        lemma_line_feed_is_there(bytes.drop_first());
    }
}

/// Streams with the same payloads give the same items.
pub proof fn items_depend_on_payloads_only<W>(
    around: Surroundings<W>,
    run: Run<W>,
    a: Seq<Seq<u8>>,
    b: Seq<Seq<u8>>,
)
    requires
        stream_payloads(run, a) == stream_payloads(run, b),
        nothing_follows_the_end(around, settled(run), stream_payloads(run, a)),
    ensures
        stream_items(around, run, a) == stream_items(around, run, b),
{
    streams_give_the_items_of_their_payloads(around, run, a);
    streams_give_the_items_of_their_payloads(around, run, b);
}

/// The chunks of a stream with a carriage return before every line feed.
pub open spec fn returned_chunks(chunks: Seq<Seq<u8>>) -> Seq<Seq<u8>> {
    chunks.map_values(|chunk: Seq<u8>| with_carriage_returns(chunk))
}

/// A stream gives the same items with either line ending.
pub proof fn line_endings_change_no_item<W>(
    around: Surroundings<W>,
    run: Run<W>,
    chunks: Seq<Seq<u8>>,
)
    ensures
        stream_items(around, run, returned_chunks(chunks)) == stream_items(around, run, chunks),
{
    lemma_line_endings_change_no_item(around, run, run, chunks);
}

proof fn lemma_line_endings_change_no_item<W>(
    around: Surroundings<W>,
    a: Run<W>,
    b: Run<W>,
    chunks: Seq<Seq<u8>>,
)
    requires
        settled(a) == settled(b),
        payloads(a.view.pending) == payloads(b.view.pending),
        unread(a.view.pending) == unread(b.view.pending),
    ensures
        stream_items(around, b, returned_chunks(chunks)) == stream_items(around, a, chunks),
    decreases chunks.len(),
{
    let next = drained(around, a);
    assert(drained(around, b) == next);
    if !next.view.done && chunks.len() > 0 {
        let left = unread(a.view.pending);
        let more = returned_chunks(chunks);
        let x = Run { view: after_feed(next.view, chunks.first()), ..next };
        let y = Run { view: after_feed(next.view, more.first()), ..next };
        unread_bytes_hold_no_line(a.view.pending);
        lemma_carriage_returns_behind(left, chunks.first());
        carriage_returns_are_no_part_of_payloads(left + chunks.first());
        assert(more.first() == with_carriage_returns(chunks.first()));
        assert(more.drop_first() =~= returned_chunks(chunks.drop_first()));
        lemma_line_endings_change_no_item(around, x, y, chunks.drop_first());
    }
}

/// A stream whose payloads renaming leaves alone gives the same items with and without it.
pub proof fn renaming_changes_no_other_item<W>(
    around: Surroundings<W>,
    run: Run<W>,
    chunks: Seq<Seq<u8>>,
)
    requires
        forall|i: int|
            0 <= i < stream_payloads(run, chunks).len() ==> is_left_alone(
                around.rename,
                #[trigger] stream_payloads(run, chunks)[i],
            ),
    ensures
        stream_items(around, with_renaming(run, true), chunks) == stream_items(
            around,
            with_renaming(run, false),
            chunks,
        ),
{
    let on = with_renaming(run, true);
    let off = with_renaming(run, false);
    assert(with_renaming(on, false) == off);
    assert(parse_alike(off.view.history, off.view.history));
    assert(stream_payloads(off, chunks) == stream_payloads(run, chunks));
    lemma_renaming_changes_no_other_item(around, on, off, chunks);
}

proof fn lemma_renaming_changes_no_other_item<W>(
    around: Surroundings<W>,
    on: Run<W>,
    off: Run<W>,
    chunks: Seq<Seq<u8>>,
)
    requires
        on.view.reverse_tool_names,
        !off.view.reverse_tool_names,
        runs_alike(with_renaming(on, false), off),
        forall|i: int|
            0 <= i < stream_payloads(off, chunks).len() ==> is_left_alone(
                around.rename,
                #[trigger] stream_payloads(off, chunks)[i],
            ),
    ensures
        stream_items(around, on, chunks) == stream_items(around, off, chunks),
    decreases chunks.len(),
{
    let whole = stream_payloads(off, chunks);
    let first = payloads(off.view.pending);
    payloads_do_not_depend_on_a_cut(off.view.pending, chunks.flatten());
    assert forall|i: int| 0 <= i < first.len() implies is_left_alone(
        around.rename,
        #[trigger] first[i],
    ) by {
        assert(whole[i] == first[i]);
    }
    assert(runs_alike(with_renaming(settled(on), false), settled(off)));
    renaming_concerns_tool_names_only(around, settled(on), settled(off), first);
    lemma_renaming_is_kept(around, settled(on), first);
    lemma_renaming_is_kept(around, settled(off), first);
    let x = drained(around, on);
    let y = drained(around, off);
    assert(x.view.done == y.view.done);
    if !y.view.done && chunks.len() > 0 {
        let rest = chunks.drop_first();
        let a = Run { view: after_feed(x.view, chunks.first()), ..x };
        let b = Run { view: after_feed(y.view, chunks.first()), ..y };
        assert(chunks.flatten() == chunks.first() + rest.flatten());
        assert(b.view.pending + rest.flatten() =~= unread(off.view.pending) + chunks.flatten());
        let tail = stream_payloads(b, rest);
        assert forall|i: int| 0 <= i < tail.len() implies is_left_alone(
            around.rename,
            #[trigger] tail[i],
        ) by {
            assert(whole[first.len() + i] == tail[i]);
        }
        assert(runs_alike(with_renaming(a, false), b));
        lemma_renaming_changes_no_other_item(around, a, b, rest);
    }
}

/// The results of a stream whose chunks may fail: an error is passed on and ends the stream.
pub open spec fn stream_results<W, E>(
    around: Surroundings<W>,
    run: Run<W>,
    chunks: Seq<Result<Seq<u8>, E>>,
) -> Seq<Result<Seq<u8>, E>>
    decreases chunks.len(),
{
    let now = passed(items(around, settled(run), payloads(run.view.pending)));
    let next = drained(around, run);
    if next.view.done || chunks.len() == 0 {
        now
    } else {
        match chunks.first() {
            Ok(bytes) => now + stream_results(
                around,
                Run { view: after_feed(next.view, bytes), ..next },
                chunks.drop_first(),
            ),
            Err(error) => now.push(Err(error)),
        }
    }
}

/// Items as the results that they are.
pub open spec fn passed<E>(items: Seq<Seq<u8>>) -> Seq<Result<Seq<u8>, E>> {
    items.map_values(|item: Seq<u8>| Ok::<Seq<u8>, E>(item))
}

/// The chunks before the first that failed.
pub open spec fn chunks_before_error<E>(chunks: Seq<Result<Seq<u8>, E>>) -> Seq<Seq<u8>>
    decreases chunks.len(),
{
    if chunks.len() == 0 {
        Seq::empty()
    } else {
        match chunks.first() {
            Ok(bytes) => seq![bytes] + chunks_before_error(chunks.drop_first()),
            Err(_) => Seq::empty(),
        }
    }
}

/// The first error among chunks.
pub open spec fn first_error<E>(chunks: Seq<Result<Seq<u8>, E>>) -> Option<E>
    decreases chunks.len(),
{
    if chunks.len() == 0 {
        None
    } else {
        match chunks.first() {
            Ok(_) => first_error(chunks.drop_first()),
            Err(error) => Some(error),
        }
    }
}

/// Whether a stream passes its last event on with these chunks, so that it asks for no other.
pub open spec fn stream_ends<W>(
    around: Surroundings<W>,
    run: Run<W>,
    chunks: Seq<Seq<u8>>,
) -> bool
    decreases chunks.len(),
{
    let next = drained(around, run);
    next.view.done || (chunks.len() > 0 && stream_ends(
        around,
        Run { view: after_feed(next.view, chunks.first()), ..next },
        chunks.drop_first(),
    ))
}

/// The results of a stream are the items of the chunks before the first error, and then that
/// error, unless the stream has ended before it. No other result is an error: a payload that
/// cannot be parsed is passed over.
pub proof fn the_first_error_is_the_last_result<W, E>(
    around: Surroundings<W>,
    run: Run<W>,
    chunks: Seq<Result<Seq<u8>, E>>,
)
    ensures
        ({
            let before = chunks_before_error(chunks);
            let good = passed::<E>(stream_items(around, run, before));
            stream_results(around, run, chunks) == match first_error(chunks) {
                Some(error) if !stream_ends(around, run, before) => good.push(Err(error)),
                _ => good,
            }
        }),
    decreases chunks.len(),
{
    let before = chunks_before_error(chunks);
    let now = items(around, settled(run), payloads(run.view.pending));
    let next = drained(around, run);
    if chunks.len() > 0 {
        match chunks.first() {
            Ok(bytes) => {
                let fed = Run { view: after_feed(next.view, bytes), ..next };
                let rest = chunks.drop_first();
                the_first_error_is_the_last_result(around, fed, rest);
                assert(before.first() == bytes);
                assert(before.drop_first() =~= chunks_before_error(rest));
                if !next.view.done {
                    let tail = stream_items(around, fed, chunks_before_error(rest));
                    assert(passed::<E>(now + tail) =~= passed::<E>(now) + passed::<E>(tail));
                    assert(stream_results(around, run, chunks) =~= match first_error(chunks) {
                        Some(error) if !stream_ends(around, run, before) => passed::<E>(
                            now + tail,
                        ).push(Err(error)),
                        _ => passed::<E>(now + tail),
                    });
                }
            },
            Err(_) => {},
        }
    }
}

} // verus!
