//! What a readable stream owes: when its source is asked, who is answered what, and who is woken.

use super::effect::{
    cancel_replies, read_replies, wakes, ControllerMsg, ReadableEffect, StreamState,
};
use super::laws::{law_well_formed, ReadableEvent};
use super::model::ReadableModel;
use super::source_laws::lemma_has_its_source;
use crate::error::{StreamError, StreamResult};
use crate::start::StartPhase;
use crate::strategy::QueuingStrategy;
use vstd::prelude::*;

verus! {

/// Whether `after` asks for the same as `before`, then gives everyone in `reads` this answer, in
/// order, and then wakes everyone in `wakers`, in order.
pub open spec fn answers_then_wakes<T, Source, R, K, W>(
    before: Seq<ReadableEffect<T, Source, R, K, W>>,
    reads: Seq<R>,
    outcome: StreamResult<Option<T>>,
    wakers: Seq<W>,
    after: Seq<ReadableEffect<T, Source, R, K, W>>,
) -> bool {
    let n = before.len() as int;
    let m = n + reads.len();
    &&& after.len() == m + wakers.len()
    &&& forall|i: int| 0 <= i < n ==> #[trigger] after[i] == before[i]
    &&& forall|i: int|
        n <= i < m ==> #[trigger] after[i] == ReadableEffect::<T, Source, R, K, W>::ReplyRead(
            reads[i - n],
            outcome,
        )
    &&& forall|i: int|
        m <= i < after.len() ==> #[trigger] after[i] == ReadableEffect::<T, Source, R, K, W>::Wake(
            wakers[i - m],
        )
}

/// Everyone is told for themselves: a set of wakers is woken one by one, and everyone who waits for
/// an answer is given it, in order.
pub proof fn law_each_one_is_told<T, Source, R, K, W>(
    wakers: Seq<W>,
    reads: Seq<R>,
    chunk: StreamResult<Option<T>>,
    cancels: Seq<K>,
    outcome: StreamResult<()>,
    i: int,
)
    ensures
        wakes::<T, Source, R, K, W>(wakers).len() == wakers.len(),
        0 <= i < wakers.len() ==> wakes::<T, Source, R, K, W>(wakers)[i] == ReadableEffect::<
            T,
            Source,
            R,
            K,
            W,
        >::Wake(wakers[i]),
        read_replies::<T, Source, R, K, W>(reads, chunk).len() == reads.len(),
        0 <= i < reads.len() ==> read_replies::<T, Source, R, K, W>(reads, chunk)[i]
            == ReadableEffect::<T, Source, R, K, W>::ReplyRead(reads[i], chunk),
        cancel_replies::<T, Source, R, K, W>(cancels, outcome).len() == cancels.len(),
        0 <= i < cancels.len() ==> cancel_replies::<T, Source, R, K, W>(cancels, outcome)[i]
            == ReadableEffect::<T, Source, R, K, W>::ReplyCancel(cancels[i], outcome),
{
}

/// The source is asked for more if and only if it has started and is at hand, the stream is open and
/// not being cancelled, no pull is running, and nothing is queued: then it is taken out for one
/// pull, which runs from then on.  Otherwise nothing changes.
pub proof fn law_a_wanted_pull_begins<T, Source, S: QueuingStrategy<T>, R, K, W>(
    stream: ReadableModel<T, Source, S, R, K, W>,
)
    requires
        stream.wf(),
    ensures
        ({
            let next = stream.maybe_pull();
            let wanted = {
                &&& stream.start == StartPhase::Succeeded
                &&& stream.state == StreamState::Readable
                &&& !stream.pulling
                &&& !stream.cancel_requested
                &&& stream.queue.len() == 0
                &&& stream.source is Some
            };
            &&& !wanted ==> next == stream
            &&& wanted ==> next == (ReadableModel {
                source: None,
                pulling: true,
                effects: stream.effects.push(ReadableEffect::StartPull(stream.source->0)),
                ..stream
            })
        }),
{
}

/// No read waits in vain: whatever happened to a new stream, once it has started, while a read waits
/// its source is being pulled from, or is as soon as the stream is looked after.
pub proof fn law_no_read_waits_in_vain<T, Source, S: QueuingStrategy<T>, R, K, W>(
    source: Source,
    strategy: S,
    events: Seq<ReadableEvent<T, Source, R, K, W>>,
)
    requires
        ReadableModel::<T, Source, S, R, K, W>::initial(source, strategy).allows_all(events),
    ensures
        ({
            let stream = ReadableModel::<T, Source, S, R, K, W>::initial(source, strategy).run(
                events,
            );
            &&& stream.wf()
            &&& stream.start == StartPhase::Succeeded && stream.state == StreamState::Readable
                && stream.queue.len() == 0 ==> stream.maybe_pull().pulling
            &&& stream.start == StartPhase::Succeeded && stream.pending_reads.len() > 0
                ==> stream.maybe_pull().pulling
        }),
{
    lemma_stays_well_formed(source, strategy, events);
    lemma_has_its_source(source, strategy, events);
}

proof fn lemma_stays_well_formed<T, Source, S: QueuingStrategy<T>, R, K, W>(
    source: Source,
    strategy: S,
    events: Seq<ReadableEvent<T, Source, R, K, W>>,
)
    requires
        ReadableModel::<T, Source, S, R, K, W>::initial(source, strategy).allows_all(events),
    ensures
        ReadableModel::<T, Source, S, R, K, W>::initial(source, strategy).run(events).wf(),
    decreases events.len(),
{
    if events.len() > 0 {
        let earlier = events.drop_last();
        lemma_stays_well_formed(source, strategy, earlier);
        law_well_formed(
            ReadableModel::<T, Source, S, R, K, W>::initial(source, strategy).run(earlier),
            events.last(),
        );
    }
}

/// A chunk that arrives while reads wait goes to the one that has waited longest, at once, and to
/// nobody else; otherwise it joins the queue behind all the others and adds its size, and everyone
/// who waits for something to read is woken.
pub proof fn law_what_a_chunk_does<T, Source, S: QueuingStrategy<T>, R, K, W>(
    stream: ReadableModel<T, Source, S, R, K, W>,
    chunk: T,
)
    requires
        stream.can_enqueue(chunk),
    ensures
        ({
            let next = stream.enqueue(chunk);
            &&& stream.pending_reads.len() > 0 ==> next == (ReadableModel {
                pending_reads: stream.pending_reads.drop_first(),
                effects: stream.effects.push(
                    ReadableEffect::ReplyRead(stream.pending_reads[0], Ok(Some(chunk))),
                ),
                ..stream
            })
            &&& stream.pending_reads.len() == 0 ==> {
                &&& next.queue == stream.queue.push(chunk)
                &&& next.queue_total_size == stream.queue_total_size + stream.strategy.spec_size(
                    &chunk,
                )
                &&& next.ready_wakers.len() == 0
                &&& answers_then_wakes(
                    stream.effects,
                    Seq::empty(),
                    Ok(None),
                    stream.ready_wakers,
                    next.effects,
                )
                &&& next == (ReadableModel {
                    queue: next.queue,
                    queue_total_size: next.queue_total_size,
                    desired_size: next.desired_size,
                    ready_wakers: next.ready_wakers,
                    effects: next.effects,
                    ..stream
                })
            }
        }),
{
    assert(stream.pending_reads.len() > 0 ==> stream.pending_reads.drop_first()
        =~= stream.pending_reads.subrange(1, stream.pending_reads.len() as int));
}

/// A read of a stream that has not failed takes the chunk that was queued first, if there is one, and
/// its size off the record; a closed stream that is empty gives the end; an open one makes it wait
/// behind those that wait.  A stream that has failed gives its error.
pub proof fn law_what_a_read_does<T, Source, S: QueuingStrategy<T>, R, K, W>(
    stream: ReadableModel<T, Source, S, R, K, W>,
    read: R,
)
    requires
        stream.wf(),
        stream.can_read(),
    ensures
        ({
            let next = stream.read(read);
            let answer = |outcome: StreamResult<Option<T>>|
                stream.effects.push(ReadableEffect::ReplyRead(read, outcome));
            let failed = stream.state == StreamState::Errored;
            &&& failed ==> {
                &&& next == (ReadableModel { effects: next.effects, ..stream })
                &&& next.effects == answer(Err(stream.error_to_report()))
            }
            &&& !failed && stream.queue.len() > 0 ==> {
                &&& next.effects == answer(Ok(Some(stream.queue[0])))
                &&& next.queue == stream.queue.drop_first()
                &&& next.queue_total_size == (stream.queue_total_size - stream.strategy.spec_size(
                    &stream.queue[0],
                )) as usize
                &&& next == (ReadableModel {
                    queue: next.queue,
                    queue_total_size: next.queue_total_size,
                    desired_size: next.desired_size,
                    effects: next.effects,
                    ..stream
                })
            }
            &&& stream.state == StreamState::Closed && stream.queue.len() == 0 ==> next == (
            ReadableModel { effects: answer(Ok(None)), ..stream })
            &&& stream.state == StreamState::Readable && stream.queue.len() == 0 ==> next == (
            ReadableModel { pending_reads: stream.pending_reads.push(read), ..stream })
        }),
{
    if stream.queue.len() > 0 {
        assert(stream.queue.drop_first() =~= stream.queue.subrange(1, stream.queue.len() as int));
    }
}

/// The error that is reported is the one that was stored; without one, it reads so.
pub proof fn law_the_stored_error_is_reported<T, Source, S: QueuingStrategy<T>, R, K, W>(
    stream: ReadableModel<T, Source, S, R, K, W>,
)
    ensures
        stream.stored_error matches Some(error) ==> stream.error_to_report() == error,
        stream.stored_error is None ==> stream.error_to_report().words() == "Stream is errored"@,
{
}

/// A close of an open stream gives every waiting read the end, in order, wakes everyone, and leaves
/// what is queued to be read; a failure gives every waiting read its error, wakes everyone, and loses
/// what is queued.  A stream that has ended cannot be closed, and one that has closed cannot fail.
pub proof fn law_how_a_stream_ends<T, Source, S: QueuingStrategy<T>, R, K, W>(
    stream: ReadableModel<T, Source, S, R, K, W>,
    error: StreamError,
)
    ensures
        stream.state != StreamState::Readable ==> stream.close() == stream,
        stream.state == StreamState::Readable ==> {
            let next = stream.close();
            &&& answers_then_wakes(
                stream.effects,
                stream.pending_reads,
                Ok(None),
                stream.closed_wakers + stream.ready_wakers,
                next.effects,
            )
            &&& next == (ReadableModel {
                state: StreamState::Closed,
                closed: true,
                desired_size: 0,
                pending_reads: Seq::empty(),
                closed_wakers: Seq::empty(),
                ready_wakers: Seq::empty(),
                effects: next.effects,
                ..stream
            })
        },
        stream.state == StreamState::Closed ==> stream.error(error) == stream,
        stream.state != StreamState::Closed ==> {
            let next = stream.error(error);
            &&& answers_then_wakes(
                stream.effects,
                stream.pending_reads,
                Err(error),
                stream.closed_wakers + stream.ready_wakers,
                next.effects,
            )
            &&& next == (ReadableModel {
                state: StreamState::Errored,
                errored: true,
                stored_error: Some(error),
                desired_size: 0,
                queue: Seq::empty(),
                queue_total_size: 0,
                pending_reads: Seq::empty(),
                closed_wakers: Seq::empty(),
                ready_wakers: Seq::empty(),
                effects: next.effects,
                ..stream
            })
        },
{
}

/// What the controller says is what happens.
pub proof fn law_the_controller_is_heard<T, Source, S: QueuingStrategy<T>, R, K, W>(
    stream: ReadableModel<T, Source, S, R, K, W>,
    chunk: T,
    error: StreamError,
)
    ensures
        stream.controller_msg(ControllerMsg::Enqueue { chunk }) == stream.enqueue(chunk),
        stream.controller_msg(ControllerMsg::Close) == stream.close(),
        stream.controller_msg(ControllerMsg::Error(error)) == stream.error(error),
        stream.can_take(ControllerMsg::Close) && stream.can_take(ControllerMsg::Error(error)),
        stream.can_take(ControllerMsg::Enqueue { chunk }) == stream.can_enqueue(chunk),
{
}

/// A cancellation of a stream that has ended is answered with success and changes nothing.  The first
/// one of an open stream closes it, loses what is queued, fails every waiting read, in order, and
/// wakes everyone; whoever asked for it waits; and the source, if it is at hand, is told the reason.
/// A further one of a stream that is open still waits with the first.
pub proof fn law_what_a_cancellation_does<T, Source, S: QueuingStrategy<T>, R, K, W>(
    stream: ReadableModel<T, Source, S, R, K, W>,
    reason: Option<String>,
    completion: K,
)
    ensures
        ({
            let next = stream.cancel(reason, completion);
            &&& stream.state != StreamState::Readable ==> next == (ReadableModel {
                effects: stream.effects.push(ReadableEffect::ReplyCancel(completion, Ok(()))),
                ..stream
            })
            &&& stream.state == StreamState::Readable && stream.cancel_requested ==> next == (
            ReadableModel {
                cancel_completions: stream.cancel_completions.push(completion),
                ..stream
            })
            &&& stream.state == StreamState::Readable && !stream.cancel_requested ==> {
                &&& answers_then_wakes(
                    stream.effects,
                    stream.pending_reads,
                    Err(StreamError::Canceled),
                    stream.closed_wakers + stream.ready_wakers,
                    if stream.source is Some {
                        next.effects.drop_last()
                    } else {
                        next.effects
                    },
                )
                &&& stream.source matches Some(source) ==> next.effects.len() > 0
                    && next.effects.last() == ReadableEffect::<T, Source, R, K, W>::StartCancel(
                    source,
                    reason,
                )
                &&& next == (ReadableModel {
                    state: StreamState::Closed,
                    closed: true,
                    queue: Seq::empty(),
                    queue_total_size: 0,
                    source: None,
                    cancel_requested: true,
                    cancel_reason: reason,
                    cancel_completions: stream.cancel_completions.push(completion),
                    pending_reads: Seq::empty(),
                    closed_wakers: Seq::empty(),
                    ready_wakers: Seq::empty(),
                    effects: next.effects,
                    ..stream
                })
            }
        }),
{
}

/// Everyone who asked for a cancellation is told what the source answered, in order, and nobody waits
/// for one any more.
pub proof fn law_the_end_of_a_cancellation<T, Source, S: QueuingStrategy<T>, R, K, W>(
    stream: ReadableModel<T, Source, S, R, K, W>,
    outcome: StreamResult<()>,
)
    ensures
        ({
            let next = stream.cancel_finished(outcome);
            let n = stream.effects.len() as int;
            &&& next.effects.len() == n + stream.cancel_completions.len() + 1
            &&& next.effects.last() is Repoll
            &&& forall|i: int| 0 <= i < n ==> #[trigger] next.effects[i] == stream.effects[i]
            &&& forall|i: int|
                0 <= i < stream.cancel_completions.len() ==> #[trigger] next.effects[n + i]
                    == ReadableEffect::<T, Source, R, K, W>::ReplyCancel(
                    stream.cancel_completions[i],
                    outcome,
                )
            &&& next == (ReadableModel {
                cancel_requested: false,
                cancel_completions: Seq::empty(),
                effects: next.effects,
                ..stream
            })
        }),
{
}

/// Whoever waits for something to read is woken at once if something is queued or the stream has
/// ended, and waits otherwise; whoever waits for the end is woken at once if it has come.
pub proof fn law_who_has_to_wait<T, Source, S: QueuingStrategy<T>, R, K, W>(
    stream: ReadableModel<T, Source, S, R, K, W>,
    set: Seq<W>,
)
    ensures
        ({
            let next = stream.ready_waker_registered(set);
            let now = stream.queue.len() > 0 || stream.state != StreamState::Readable;
            &&& !now ==> next == (ReadableModel { ready_wakers: set, ..stream })
            &&& now ==> next == (ReadableModel {
                ready_wakers: Seq::empty(),
                effects: next.effects,
                ..stream
            }) && answers_then_wakes(stream.effects, Seq::empty(), Ok(None), set, next.effects)
        }),
        ({
            let next = stream.closed_waker_registered(set);
            let now = stream.state != StreamState::Readable;
            &&& !now ==> next == (ReadableModel { closed_wakers: set, ..stream })
            &&& now ==> next == (ReadableModel {
                closed_wakers: Seq::empty(),
                effects: next.effects,
                ..stream
            }) && answers_then_wakes(stream.effects, Seq::empty(), Ok(None), set, next.effects)
        }),
{
}

/// The source is taken out to be started, once, and comes back from a start that succeeded; one that
/// failed fails the stream with its error, wakes everyone, and the source is gone.
pub proof fn law_what_a_start_does<T, Source, S: QueuingStrategy<T>, R, K, W>(
    stream: ReadableModel<T, Source, S, R, K, W>,
    source: Source,
    outcome: StreamResult<()>,
)
    ensures
        stream.start == StartPhase::NotBegun ==> stream.to_be_started() == stream.source
            && stream.start_begun() == (ReadableModel {
            source: None,
            start: StartPhase::Running,
            ..stream
        }),
        stream.start != StartPhase::NotBegun ==> stream.to_be_started() is None
            && stream.start_begun() == stream,
        outcome is Ok ==> stream.start_finished(source, outcome) == (ReadableModel {
            source: Some(source),
            start: StartPhase::Succeeded,
            ..stream
        }),
        outcome matches Err(error) ==> {
            let next = stream.start_finished(source, outcome);
            &&& answers_then_wakes(
                stream.effects,
                Seq::empty(),
                Ok(None),
                stream.closed_wakers + stream.ready_wakers,
                next.effects,
            )
            &&& next == (ReadableModel {
                state: StreamState::Errored,
                start: StartPhase::Failed,
                errored: true,
                stored_error: Some(error),
                desired_size: 0,
                closed_wakers: Seq::empty(),
                ready_wakers: Seq::empty(),
                effects: next.effects,
                ..stream
            })
        },
{
}

/// A pull that succeeded gives the source back; one that failed fails the stream and every waiting
/// read with its error, in order, and wakes everyone, and the source is gone.  Either way no pull is
/// running any more, and the stream is looked after once more.
pub proof fn law_the_end_of_a_pull<T, Source, S: QueuingStrategy<T>, R, K, W>(
    stream: ReadableModel<T, Source, S, R, K, W>,
    source: Source,
    outcome: StreamResult<()>,
)
    ensures
        ({
            let next = stream.pull_finished(source, outcome);
            &&& next.effects.len() > 0 && next.effects.last() is Repoll
            &&& outcome is Ok ==> next == (ReadableModel {
                source: Some(source),
                pulling: false,
                effects: stream.effects.push(ReadableEffect::Repoll),
                ..stream
            })
            &&& outcome matches Err(error) ==> {
                &&& answers_then_wakes(
                    stream.effects,
                    stream.pending_reads,
                    Err(error),
                    stream.closed_wakers + stream.ready_wakers,
                    next.effects.drop_last(),
                )
                &&& next == (ReadableModel {
                    state: StreamState::Errored,
                    errored: true,
                    stored_error: Some(error),
                    pulling: false,
                    pending_reads: Seq::empty(),
                    closed_wakers: Seq::empty(),
                    ready_wakers: Seq::empty(),
                    effects: next.effects,
                    ..stream
                })
            }
        }),
{
}

/// A new stream is open and empty, has its source, which has not been started, and shows all the
/// room there is; nothing is asked for, waited for or stored.
pub proof fn law_a_new_stream_is_open_and_empty<T, Source, S: QueuingStrategy<T>, R, K, W>(
    source: Source,
    strategy: S,
)
    ensures
        ({
            let stream = ReadableModel::<T, Source, S, R, K, W>::initial(source, strategy);
            &&& stream.state == StreamState::Readable && !stream.closed && !stream.errored
            &&& stream.queue.len() == 0 && stream.queue_total_size == 0
            &&& stream.strategy == strategy
            &&& stream.source == Some(source) && stream.start == StartPhase::NotBegun
            &&& !stream.cancel_requested && stream.cancel_completions.len() == 0
            &&& !stream.pulling && stream.pending_reads.len() == 0 && stream.stored_error is None
            &&& stream.ready_wakers.len() == 0 && stream.closed_wakers.len() == 0
            &&& strategy.spec_high_water_mark() <= isize::MAX ==> stream.desired_size
                == strategy.spec_high_water_mark()
            &&& stream.effects.len() == 0
        }),
{
}

/// While it can be counted, the room that an open stream shows is its mark less the sizes of what is
/// queued; a chunk or a read is turned away only where that room, or the size, could not be written.
pub proof fn law_room_is_mark_less_size<T, Source, S: QueuingStrategy<T>, R, K, W>(
    stream: ReadableModel<T, Source, S, R, K, W>,
    chunk: T,
)
    requires
        stream.state == StreamState::Readable,
        stream.wf(),
        stream.strategy.spec_high_water_mark() <= isize::MAX,
    ensures
        stream.queue_total_size <= isize::MAX ==> stream.publish_room().desired_size
            == stream.strategy.spec_high_water_mark() - stream.queue_total_size,
        stream.queue_total_size + stream.strategy.spec_size(&chunk) <= isize::MAX
            ==> stream.can_enqueue(chunk),
        stream.queue_total_size <= isize::MAX && (stream.queue.len() > 0 ==> stream.strategy.spec_size(
            &stream.queue[0],
        ) <= stream.queue_total_size) ==> stream.can_read(),
        !stream.can_enqueue(chunk) ==> stream.pending_reads.len() == 0 && stream.queue_total_size
            + stream.strategy.spec_size(&chunk) > isize::MAX,
        stream.publish_room() == (ReadableModel {
            desired_size: stream.publish_room().desired_size,
            ..stream
        }),
{
}

/// Taking over what is asked for changes nothing else, and no event changes the strategy, starts a
/// source but the start, or reports a pull over but its end.
pub proof fn law_an_event_is_what_it_says<T, Source, S: QueuingStrategy<T>, R, K, W>(
    stream: ReadableModel<T, Source, S, R, K, W>,
    event: ReadableEvent<T, Source, R, K, W>,
)
    ensures
        stream.effects_taken() == (ReadableModel { effects: Seq::empty(), ..stream }),
        stream.step(event).strategy == stream.strategy,
        stream.step(event).start != stream.start ==> event is StartBegun || event is StartFinished,
        stream.step(event).pulling != stream.pulling ==> event is MaybePull || event
            is PullFinished,
        stream.step(event).closed == stream.closed || event is Cancel || event is Controller,
        stream.closed ==> stream.step(event).closed,
        stream.errored ==> stream.step(event).errored,
{
}

} // verus!
