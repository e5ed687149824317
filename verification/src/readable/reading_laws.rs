//! Reads give what was put in.

use super::effect::{cancel_replies, read_replies, wakes, ControllerMsg, ReadableEffect, StreamState};
use super::laws::{law_well_formed, put_in, reads, ReadableEvent};
use super::model::ReadableModel;
use crate::error::StreamResult;
use crate::strategy::{
    lemma_total_size_front, lemma_total_size_nonnegative, lemma_total_size_push, room_fits,
    total_size, QueuingStrategy,
};
use vstd::prelude::*;

verus! {

/// The answers to reads, in order: who is answered what.
pub open spec fn answers<T, Source, R, K, W>(
    effects: Seq<ReadableEffect<T, Source, R, K, W>>,
) -> Seq<(R, StreamResult<Option<T>>)>
    decreases effects.len(),
{
    if effects.len() == 0 {
        Seq::empty()
    } else {
        let before = answers(effects.drop_last());
        match effects.last() {
            ReadableEffect::ReplyRead(read, outcome) => before.push((read, outcome)),
            _ => before,
        }
    }
}

/// Whether the controller closes the stream during these events.
pub open spec fn closes<T, Source, R, K, W>(
    events: Seq<ReadableEvent<T, Source, R, K, W>>,
) -> bool
    decreases events.len(),
{
    events.len() > 0 && (closes(events.drop_last()) || events.last()
        matches ReadableEvent::Controller(ControllerMsg::Close))
}

impl<T, Source, S: QueuingStrategy<T>, R, K, W> ReadableModel<T, Source, S, R, K, W> {
    /// Whether the stream runs its course during these events: each comes in its turn; the start
    /// and every pull succeed; the stream is never errored nor cancelled; and nothing is put in
    /// after it was closed.
    pub open spec fn runs_its_course(
        self,
        events: Seq<ReadableEvent<T, Source, R, K, W>>,
    ) -> bool
        decreases events.len(),
    {
        events.len() > 0 ==> {
            &&& self.runs_its_course(events.drop_last())
            &&& self.run(events.drop_last()).in_turn(events.last())
            &&& match events.last() {
                ReadableEvent::Controller(ControllerMsg::Enqueue { .. }) => !closes(
                    events.drop_last(),
                ),
                ReadableEvent::Controller(ControllerMsg::Error(_)) => false,
                ReadableEvent::Cancel(_, _) => false,
                ReadableEvent::StartFinished(_, outcome) => outcome is Ok,
                ReadableEvent::PullFinished(_, outcome) => outcome is Ok,
                _ => true,
            }
        }
    }
}

/// What the `i`th read gets of these chunks: the `i`th chunk, and the end once there is none left.
pub open spec fn nth<T>(chunks: Seq<T>, i: int) -> StreamResult<Option<T>> {
    if i < chunks.len() {
        Ok(Some(chunks[i]))
    } else {
        Ok(None)
    }
}

/// Reads give what was put in.  In a new stream that runs its course the reads are answered in the
/// order in which they were made: the first gets the first chunk that was put in, the second the
/// second, and so on, none lost, repeated or reordered; and those that come after the last chunk
/// get the end.  The end is given only once the stream was closed; and a read waits only once every
/// chunk was given out, and as long as the stream is not closed.
pub proof fn law_reads_give_what_was_put_in<T, Source, S: QueuingStrategy<T>, R, K, W>(
    source: Source,
    strategy: S,
    events: Seq<ReadableEvent<T, Source, R, K, W>>,
)
    requires
        ReadableModel::<T, Source, S, R, K, W>::initial(source, strategy).allows_all(events),
        ReadableModel::<T, Source, S, R, K, W>::initial(source, strategy).runs_its_course(events),
    ensures
        ({
            let initial = ReadableModel::<T, Source, S, R, K, W>::initial(source, strategy);
            let stream = initial.run(events);
            let given = answers(stream.effects);
            &&& given.len() + stream.pending_reads.len() == reads(events).len()
            &&& forall|i: int|
                0 <= i < given.len() ==> #[trigger] given[i] == (
                    reads(events)[i],
                    nth(put_in(events), i),
                )
            &&& given.len() > put_in(events).len() ==> closes(events)
            &&& stream.pending_reads.len() > 0 ==> given.len() == put_in(events).len() && !closes(
                events,
            )
        }),
{
    lemma_course(source, strategy, events);
}

/// Nothing is turned away for want of numbers.  A new stream that runs its course takes in every
/// chunk and every read, if the sizes of all its chunks together, and the room that they would
/// leave, are numbers that an `isize` holds.
pub proof fn law_what_can_be_counted_is_taken_in<T, Source, S: QueuingStrategy<T>, R, K, W>(
    source: Source,
    strategy: S,
    events: Seq<ReadableEvent<T, Source, R, K, W>>,
)
    requires
        ReadableModel::<T, Source, S, R, K, W>::initial(source, strategy).runs_its_course(events),
        total_size(strategy, put_in(events)) <= isize::MAX,
        room_fits(
            strategy.spec_high_water_mark(),
            total_size(strategy, put_in(events)) as usize,
        ),
    ensures
        ReadableModel::<T, Source, S, R, K, W>::initial(source, strategy).allows_all(events),
    decreases events.len(),
{
    if events.len() > 0 {
        let earlier = events.drop_last();
        let before = ReadableModel::<T, Source, S, R, K, W>::initial(source, strategy).run(earlier);
        lemma_total_size_nonnegative(strategy, put_in(earlier));
        if let ReadableEvent::Controller(ControllerMsg::Enqueue { chunk }) = events.last() {
            lemma_total_size_push(strategy, put_in(earlier), chunk);
            lemma_room_fits(
                strategy.spec_high_water_mark(),
                total_size(strategy, put_in(earlier)),
                total_size(strategy, put_in(events)),
            );
        }
        law_what_can_be_counted_is_taken_in(source, strategy, earlier);
        lemma_course(source, strategy, earlier);
        match events.last() {
            ReadableEvent::Controller(ControllerMsg::Enqueue { chunk }) => {
                lemma_enqueue_fits(before, put_in(earlier), reads(earlier), chunk);
            },
            ReadableEvent::Read(_) => {
                lemma_read_fits(before, put_in(earlier), reads(earlier), closes(earlier));
            },
            _ => {},
        }
    }
}

/// How far a stream that runs its course has come.
spec fn has_come<T, Source, S: QueuingStrategy<T>, R, K, W>(
    stream: ReadableModel<T, Source, S, R, K, W>,
    put: Seq<T>,
    asked: Seq<R>,
    closed: bool,
) -> bool {
    let given = answers(stream.effects);
    &&& stream.wf()
    &&& stream.state == (if closed {
        StreamState::Closed
    } else {
        StreamState::Readable
    })
    &&& !stream.errored
    &&& given.len() + stream.pending_reads.len() == asked.len()
    &&& forall|i: int| 0 <= i < given.len() ==> #[trigger] given[i] == (asked[i], nth(put, i))
    &&& forall|i: int|
        0 <= i < stream.pending_reads.len() ==> #[trigger] stream.pending_reads[i]
            == asked[given.len() + i]
    &&& !closed ==> given.len() <= put.len()
    &&& stream.queue == (if given.len() <= put.len() {
        put.subrange(given.len() as int, put.len() as int)
    } else {
        Seq::empty()
    })
}

proof fn lemma_answers_push<T, Source, R, K, W>(
    effects: Seq<ReadableEffect<T, Source, R, K, W>>,
    effect: ReadableEffect<T, Source, R, K, W>,
)
    ensures
        answers(effects.push(effect)) == (match effect {
            ReadableEffect::ReplyRead(read, outcome) => answers(effects).push((read, outcome)),
            _ => answers(effects),
        }),
{
    assert(effects.push(effect).drop_last() =~= effects);
}

proof fn lemma_answers_append<T, Source, R, K, W>(
    effects: Seq<ReadableEffect<T, Source, R, K, W>>,
    more: Seq<ReadableEffect<T, Source, R, K, W>>,
)
    requires
        forall|i: int| 0 <= i < more.len() ==> (#[trigger] more[i]) !is ReplyRead,
    ensures
        answers(effects + more) == answers(effects),
    decreases more.len(),
{
    if more.len() == 0 {
        assert(effects + more =~= effects);
    } else {
        lemma_answers_append(effects, more.drop_last());
        lemma_answers_push(effects + more.drop_last(), more.last());
        assert(effects + more =~= (effects + more.drop_last()).push(more.last()));
    }
}

proof fn lemma_answers_replies<T, Source, R, K, W>(
    effects: Seq<ReadableEffect<T, Source, R, K, W>>,
    waiting: Seq<R>,
    outcome: StreamResult<Option<T>>,
)
    ensures
        answers(effects + read_replies(waiting, outcome)) == answers(effects) + Seq::new(
            waiting.len(),
            |i: int| (waiting[i], outcome),
        ),
    decreases waiting.len(),
{
    let told = Seq::new(waiting.len(), |i: int| (waiting[i], outcome));
    if waiting.len() == 0 {
        assert(effects + read_replies(waiting, outcome) =~= effects);
        assert(answers(effects) + told =~= answers(effects));
    } else {
        let fewer = waiting.drop_last();
        lemma_answers_replies(effects, fewer, outcome);
        lemma_answers_push(
            effects + read_replies(fewer, outcome),
            ReadableEffect::<T, Source, R, K, W>::ReplyRead(waiting.last(), outcome),
        );
        assert(effects + read_replies(waiting, outcome) =~= (effects + read_replies(
            fewer,
            outcome,
        )).push(ReadableEffect::ReplyRead(waiting.last(), outcome)));
        assert(answers(effects) + told =~= (answers(effects) + Seq::new(
            fewer.len(),
            |i: int| (fewer[i], outcome),
        )).push((waiting.last(), outcome)));
    }
}

/// The sizes of two sequences together.
proof fn lemma_total_size_add<T, S: QueuingStrategy<T>>(strategy: S, a: Seq<T>, b: Seq<T>)
    ensures
        total_size(strategy, a + b) == total_size(strategy, a) + total_size(strategy, b),
    decreases b.len(),
{
    if b.len() == 0 {
        assert(a + b =~= a);
    } else {
        lemma_total_size_add(strategy, a, b.drop_last());
        lemma_total_size_push(strategy, a + b.drop_last(), b.last());
        lemma_total_size_push(strategy, b.drop_last(), b.last());
        assert(a + b =~= (a + b.drop_last()).push(b.last()));
        assert(b =~= b.drop_last().push(b.last()));
    }
}

/// A smaller queue leaves room that can be shown, if a larger one does.
proof fn lemma_room_fits(high_water_mark: usize, size: int, most: int)
    requires
        0 <= size <= most <= isize::MAX,
        room_fits(high_water_mark, most as usize),
    ensures
        room_fits(high_water_mark, size as usize),
{
}

/// The chunks behind a position are no larger than all of them.
proof fn lemma_rest_is_smaller<T, S: QueuingStrategy<T>>(strategy: S, all: Seq<T>, from: int)
    requires
        0 <= from <= all.len(),
    ensures
        0 <= total_size(strategy, all.subrange(from, all.len() as int)) <= total_size(strategy, all),
{
    let head = all.subrange(0, from);
    let rest = all.subrange(from, all.len() as int);
    assert(all =~= head + rest);
    lemma_total_size_add(strategy, head, rest);
    lemma_total_size_nonnegative(strategy, head);
    lemma_total_size_nonnegative(strategy, rest);
}

/// A chunk that arrives fits, if all chunks together do.
proof fn lemma_enqueue_fits<T, Source, S: QueuingStrategy<T>, R, K, W>(
    stream: ReadableModel<T, Source, S, R, K, W>,
    put: Seq<T>,
    asked: Seq<R>,
    chunk: T,
)
    requires
        has_come(stream, put, asked, false),
        total_size(stream.strategy, put.push(chunk)) <= isize::MAX,
        room_fits(
            stream.strategy.spec_high_water_mark(),
            total_size(stream.strategy, put.push(chunk)) as usize,
        ),
    ensures
        stream.can_enqueue(chunk),
{
    let more = put.push(chunk);
    let given = answers(stream.effects);
    lemma_total_size_push(stream.strategy, stream.queue, chunk);
    lemma_total_size_nonnegative(stream.strategy, stream.queue);
    lemma_rest_is_smaller(stream.strategy, more, given.len() as int);
    assert(stream.queue.push(chunk) =~= more.subrange(given.len() as int, more.len() as int));
    lemma_room_fits(
        stream.strategy.spec_high_water_mark(),
        total_size(stream.strategy, stream.queue.push(chunk)),
        total_size(stream.strategy, more),
    );
}

/// What a read leaves fits, if all chunks together do.
proof fn lemma_read_fits<T, Source, S: QueuingStrategy<T>, R, K, W>(
    stream: ReadableModel<T, Source, S, R, K, W>,
    put: Seq<T>,
    asked: Seq<R>,
    closed: bool,
)
    requires
        has_come(stream, put, asked, closed),
        total_size(stream.strategy, put) <= isize::MAX,
        room_fits(
            stream.strategy.spec_high_water_mark(),
            total_size(stream.strategy, put) as usize,
        ),
    ensures
        stream.can_read(),
{
    if stream.queue.len() > 0 {
        let given = answers(stream.effects);
        let rest = stream.queue.subrange(1, stream.queue.len() as int);
        lemma_total_size_front(stream.strategy, stream.queue);
        lemma_rest_is_smaller(stream.strategy, put, given.len() + 1int);
        assert(rest =~= put.subrange(given.len() + 1int, put.len() as int));
        lemma_room_fits(
            stream.strategy.spec_high_water_mark(),
            total_size(stream.strategy, rest),
            total_size(stream.strategy, put),
        );
    }
}

/// A chunk that arrives.
proof fn lemma_enqueue<T, Source, S: QueuingStrategy<T>, R, K, W>(
    stream: ReadableModel<T, Source, S, R, K, W>,
    put: Seq<T>,
    asked: Seq<R>,
    chunk: T,
)
    requires
        has_come(stream, put, asked, false),
        stream.can_enqueue(chunk),
    ensures
        has_come(stream.enqueue(chunk), put.push(chunk), asked, false),
{
    let more = put.push(chunk);
    let given = answers(stream.effects);
    let next = stream.enqueue(chunk);
    law_well_formed(
        stream,
        ReadableEvent::<T, Source, R, K, W>::Controller(ControllerMsg::Enqueue { chunk }),
    );
    if stream.pending_reads.len() > 0 {
        assert(given.len() == put.len());
        lemma_answers_push(
            stream.effects,
            ReadableEffect::ReplyRead(stream.pending_reads[0], Ok(Some(chunk))),
        );
        assert(stream.pending_reads[0] == asked[given.len() as int]);
        assert(next.queue =~= more.subrange(more.len() as int, more.len() as int));
    } else {
        assert(stream.queue.push(chunk) =~= more.subrange(given.len() as int, more.len() as int));
        lemma_answers_append(stream.effects, wakes(stream.ready_wakers));
        assert(next.effects =~= stream.effects + wakes(stream.ready_wakers));
    }
}

/// A read.
proof fn lemma_read<T, Source, S: QueuingStrategy<T>, R, K, W>(
    stream: ReadableModel<T, Source, S, R, K, W>,
    put: Seq<T>,
    asked: Seq<R>,
    closed: bool,
    read: R,
)
    requires
        has_come(stream, put, asked, closed),
        stream.can_read(),
    ensures
        has_come(stream.read(read), put, asked.push(read), closed),
{
    let given = answers(stream.effects);
    let next = stream.read(read);
    let after = answers(next.effects);
    law_well_formed(stream, ReadableEvent::<T, Source, R, K, W>::Read(read));
    if stream.queue.len() > 0 {
        assert(stream.queue[0] == put[given.len() as int]);
        assert(next.queue =~= put.subrange(given.len() + 1int, put.len() as int));
        lemma_answers_push(
            stream.effects,
            ReadableEffect::ReplyRead(read, Ok(Some(stream.queue[0]))),
        );
    } else {
        assert(given.len() >= put.len());
        assert(stream.queue =~= Seq::empty());
        assert(put.subrange(put.len() as int, put.len() as int) =~= Seq::empty());
        lemma_answers_push(stream.effects, ReadableEffect::ReplyRead(read, Ok(None)));
    }
    assert forall|i: int| 0 <= i < after.len() implies #[trigger] after[i] == (
        asked.push(read)[i],
        nth(put, i),
    ) by {
        if i < given.len() {
            assert(given[i] == (asked[i], nth(put, i)));
        }
    }
    assert forall|i: int| 0 <= i < next.pending_reads.len() implies #[trigger] next.pending_reads[i]
        == asked.push(read)[after.len() + i] by {
        if i < stream.pending_reads.len() {
            assert(stream.pending_reads[i] == asked[given.len() + i]);
        }
    }
}

/// The controller closes the stream.
proof fn lemma_close<T, Source, S: QueuingStrategy<T>, R, K, W>(
    stream: ReadableModel<T, Source, S, R, K, W>,
    put: Seq<T>,
    asked: Seq<R>,
    closed: bool,
)
    requires
        has_come(stream, put, asked, closed),
    ensures
        has_come(stream.close(), put, asked, true),
{
    let event = ReadableEvent::<T, Source, R, K, W>::Controller(ControllerMsg::Close);
    law_well_formed(stream, event);
    if !closed {
        let given = answers(stream.effects);
        let waiting = stream.pending_reads;
        let told = stream.answer_reads(Ok(None));
        lemma_answers_replies(stream.effects, waiting, Ok(None));
        lemma_answers_append(told.effects, wakes(stream.closed_wakers));
        lemma_answers_append(told.wake_closed().effects, wakes(stream.ready_wakers));
        let next = stream.close();
        let after = answers(next.effects);
        assert(after == given + Seq::new(
            waiting.len(),
            |i: int| (waiting[i], StreamResult::<Option<T>>::Ok(None)),
        ));
        if waiting.len() > 0 {
            assert(given.len() == put.len());
            assert(stream.queue =~= Seq::empty());
        } else {
            assert(after =~= given);
        }
        assert forall|i: int| 0 <= i < after.len() implies #[trigger] after[i] == (
            asked[i],
            nth(put, i),
        ) by {
            if i >= given.len() {
                assert(waiting[i - given.len()] == asked[given.len() + (i - given.len())]);
            } else {
                assert(given[i] == (asked[i], nth(put, i)));
            }
        }
    }
}

/// Every other event leaves what was given and what is queued as it is.
proof fn lemma_other<T, Source, S: QueuingStrategy<T>, R, K, W>(
    stream: ReadableModel<T, Source, S, R, K, W>,
    put: Seq<T>,
    asked: Seq<R>,
    closed: bool,
    event: ReadableEvent<T, Source, R, K, W>,
)
    requires
        has_come(stream, put, asked, closed),
        stream.in_turn(event),
        !(event is Controller),
        !(event is Read),
        !(event is Cancel),
        event matches ReadableEvent::StartFinished(_, outcome) ==> outcome is Ok,
        event matches ReadableEvent::PullFinished(_, outcome) ==> outcome is Ok,
    ensures
        has_come(stream.step(event), put, asked, closed),
{
    law_well_formed(stream, event);
    match event {
        ReadableEvent::CancelFinished(outcome) => {
            let told = stream.effects + cancel_replies(stream.cancel_completions, outcome);
            lemma_answers_append(
                stream.effects,
                cancel_replies(stream.cancel_completions, outcome),
            );
            lemma_answers_push(told, ReadableEffect::Repoll);
        },
        ReadableEvent::ReadyWaker(set) => {
            lemma_answers_append(stream.effects, wakes(set));
        },
        ReadableEvent::ClosedWaker(set) => {
            lemma_answers_append(stream.effects, wakes(set));
        },
        ReadableEvent::MaybePull => {
            if let Some(source) = stream.source {
                lemma_answers_push(stream.effects, ReadableEffect::StartPull(source));
            }
        },
        ReadableEvent::PullFinished(_, _) => {
            lemma_answers_push(stream.effects, ReadableEffect::Repoll);
        },
        _ => {},
    }
}

proof fn lemma_course<T, Source, S: QueuingStrategy<T>, R, K, W>(
    source: Source,
    strategy: S,
    events: Seq<ReadableEvent<T, Source, R, K, W>>,
)
    requires
        ReadableModel::<T, Source, S, R, K, W>::initial(source, strategy).allows_all(events),
        ReadableModel::<T, Source, S, R, K, W>::initial(source, strategy).runs_its_course(events),
    ensures
        ({
            let initial = ReadableModel::<T, Source, S, R, K, W>::initial(source, strategy);
            &&& initial.run(events).strategy == strategy
            &&& has_come(initial.run(events), put_in(events), reads(events), closes(events))
        }),
    decreases events.len(),
{
    let initial = ReadableModel::<T, Source, S, R, K, W>::initial(source, strategy);
    if events.len() == 0 {
        assert(initial.queue =~= Seq::<T>::empty().subrange(0, 0));
    } else {
        let earlier = events.drop_last();
        let event = events.last();
        let before = initial.run(earlier);
        lemma_course(source, strategy, earlier);
        match event {
            ReadableEvent::Controller(ControllerMsg::Enqueue { chunk }) => {
                lemma_enqueue(before, put_in(earlier), reads(earlier), chunk);
            },
            ReadableEvent::Controller(ControllerMsg::Close) => {
                lemma_close(before, put_in(earlier), reads(earlier), closes(earlier));
            },
            ReadableEvent::Read(read) => {
                lemma_read(before, put_in(earlier), reads(earlier), closes(earlier), read);
            },
            _ => {
                lemma_other(before, put_in(earlier), reads(earlier), closes(earlier), event);
            },
        }
    }
}

} // verus!
