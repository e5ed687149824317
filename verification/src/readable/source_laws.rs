//! What a readable stream asks of its source, and when.

use super::effect::{cancel_replies, read_replies, wakes, ControllerMsg, ReadableEffect, StreamState};
use super::laws::ReadableEvent;
use super::model::ReadableModel;
use crate::error::{StreamError, StreamResult};
use crate::start::StartPhase;
use crate::strategy::QueuingStrategy;
use vstd::prelude::*;

verus! {

/// What the source is asked for once it has started.
pub enum SourceCall {
    Pull,
    Cancel(Option<String>),
}

/// What an effect asks of the source, if anything.
pub open spec fn source_call<T, Source, R, K, W>(
    effect: ReadableEffect<T, Source, R, K, W>,
) -> Option<SourceCall> {
    match effect {
        ReadableEffect::StartPull(_) => Some(SourceCall::Pull),
        ReadableEffect::StartCancel(_, reason) => Some(SourceCall::Cancel(reason)),
        _ => None,
    }
}

/// What the source was asked for, in order.
pub open spec fn source_calls<T, Source, R, K, W>(
    effects: Seq<ReadableEffect<T, Source, R, K, W>>,
) -> Seq<SourceCall>
    decreases effects.len(),
{
    if effects.len() == 0 {
        Seq::empty()
    } else {
        let before = source_calls(effects.drop_last());
        match source_call(effects.last()) {
            Some(call) => before.push(call),
            None => before,
        }
    }
}

proof fn lemma_calls_push<T, Source, R, K, W>(
    effects: Seq<ReadableEffect<T, Source, R, K, W>>,
    effect: ReadableEffect<T, Source, R, K, W>,
)
    ensures
        source_calls(effects.push(effect)) == (match source_call(effect) {
            Some(call) => source_calls(effects).push(call),
            None => source_calls(effects),
        }),
{
    assert(effects.push(effect).drop_last() =~= effects);
}

proof fn lemma_calls_append<T, Source, R, K, W>(
    effects: Seq<ReadableEffect<T, Source, R, K, W>>,
    more: Seq<ReadableEffect<T, Source, R, K, W>>,
)
    requires
        forall|i: int| 0 <= i < more.len() ==> source_call(#[trigger] more[i]) is None,
    ensures
        source_calls(effects + more) == source_calls(effects),
    decreases more.len(),
{
    if more.len() == 0 {
        assert(effects + more =~= effects);
    } else {
        lemma_calls_append(effects, more.drop_last());
        lemma_calls_push(effects + more.drop_last(), more.last());
        assert(effects + more =~= (effects + more.drop_last()).push(more.last()));
    }
}

impl<T, Source, S: QueuingStrategy<T>, R, K, W> ReadableModel<T, Source, S, R, K, W> {
    /// What an event asks of the source: a pull that is wanted, or the first cancellation of an open
    /// stream, if the source is at hand.
    pub open spec fn asked_of_source(self, event: ReadableEvent<T, Source, R, K, W>) -> Seq<
        SourceCall,
    > {
        match event {
            ReadableEvent::MaybePull => if self.wants_pull() && self.source is Some {
                seq![SourceCall::Pull]
            } else {
                Seq::empty()
            },
            ReadableEvent::Cancel(reason, _) => if self.is_open() && !self.cancel_requested
                && self.source is Some {
                seq![SourceCall::Cancel(reason)]
            } else {
                Seq::empty()
            },
            _ => Seq::empty(),
        }
    }
}

/// Waking and answering ask nothing of the source.
proof fn lemma_quiet<T, Source, S: QueuingStrategy<T>, R, K, W>(
    stream: ReadableModel<T, Source, S, R, K, W>,
    outcome: StreamResult<Option<T>>,
)
    ensures
        source_calls(stream.wake_ready().effects) == source_calls(stream.effects),
        source_calls(stream.wake_closed().effects) == source_calls(stream.effects),
        source_calls(stream.wake_closed().wake_ready().effects) == source_calls(stream.effects),
        source_calls(stream.answer_reads(outcome).effects) == source_calls(stream.effects),
        source_calls(stream.answer_reads(outcome).wake_closed().wake_ready().effects) == source_calls(
            stream.effects,
        ),
{
    lemma_calls_append(stream.effects, wakes(stream.ready_wakers));
    lemma_calls_append(stream.effects, wakes(stream.closed_wakers));
    lemma_calls_append(stream.wake_closed().effects, wakes(stream.ready_wakers));
    let answered = stream.answer_reads(outcome);
    lemma_calls_append(stream.effects, read_replies(stream.pending_reads, outcome));
    lemma_calls_append(answered.effects, wakes(stream.closed_wakers));
    lemma_calls_append(answered.wake_closed().effects, wakes(stream.ready_wakers));
}

proof fn lemma_enqueue<T, Source, S: QueuingStrategy<T>, R, K, W>(
    stream: ReadableModel<T, Source, S, R, K, W>,
    chunk: T,
)
    ensures
        source_calls(stream.enqueue(chunk).effects) == source_calls(stream.effects),
{
    if stream.pending_reads.len() > 0 {
        lemma_calls_push(
            stream.effects,
            ReadableEffect::ReplyRead(stream.pending_reads[0], Ok(Some(chunk))),
        );
    } else {
        lemma_calls_append(stream.effects, wakes(stream.ready_wakers));
    }
}

proof fn lemma_ending<T, Source, S: QueuingStrategy<T>, R, K, W>(
    stream: ReadableModel<T, Source, S, R, K, W>,
    error: StreamError,
    reason: Option<String>,
    completion: K,
)
    ensures
        source_calls(stream.close().effects) == source_calls(stream.effects),
        source_calls(stream.error(error).effects) == source_calls(stream.effects),
        source_calls(stream.cancel(reason, completion).effects) == source_calls(stream.effects)
            + stream.asked_of_source(ReadableEvent::Cancel(reason, completion)),
{
    lemma_quiet(stream, Ok(None));
    lemma_quiet(stream, Err(error));
    lemma_quiet(stream, Err(StreamError::Canceled));
    lemma_calls_push(stream.effects, ReadableEffect::ReplyCancel(completion, Ok(())));
    let told = stream.answer_reads(Err(StreamError::Canceled)).wake_closed().wake_ready();
    if let Some(source) = stream.source {
        lemma_calls_push(told.effects, ReadableEffect::StartCancel(source, reason));
    }
}

proof fn lemma_read<T, Source, S: QueuingStrategy<T>, R, K, W>(
    stream: ReadableModel<T, Source, S, R, K, W>,
    read: R,
)
    ensures
        source_calls(stream.read(read).effects) == source_calls(stream.effects),
{
    let next = stream.read(read);
    if next.effects.len() > stream.effects.len() {
        lemma_calls_push(stream.effects, next.effects.last());
        assert(next.effects =~= stream.effects.push(next.effects.last()));
    }
}

proof fn lemma_finished<T, Source, S: QueuingStrategy<T>, R, K, W>(
    stream: ReadableModel<T, Source, S, R, K, W>,
    source: Source,
    outcome: StreamResult<()>,
)
    ensures
        source_calls(stream.start_finished(source, outcome).effects) == source_calls(stream.effects),
        source_calls(stream.pull_finished(source, outcome).effects) == source_calls(stream.effects),
        source_calls(stream.cancel_finished(outcome).effects) == source_calls(stream.effects),
{
    if let Err(error) = outcome {
        lemma_quiet(stream, Err(error));
        lemma_calls_push(
            stream.answer_reads(Err(error)).wake_closed().wake_ready().effects,
            ReadableEffect::Repoll,
        );
    }
    lemma_calls_push(stream.effects, ReadableEffect::Repoll);
    let told = stream.effects + cancel_replies(stream.cancel_completions, outcome);
    lemma_calls_append(stream.effects, cancel_replies(stream.cancel_completions, outcome));
    lemma_calls_push(told, ReadableEffect::Repoll);
}

/// One event.
proof fn lemma_step<T, Source, S: QueuingStrategy<T>, R, K, W>(
    stream: ReadableModel<T, Source, S, R, K, W>,
    event: ReadableEvent<T, Source, R, K, W>,
)
    ensures
        source_calls(stream.step(event).effects) == source_calls(stream.effects)
            + stream.asked_of_source(event),
{
    assert(source_calls(stream.effects) + Seq::<SourceCall>::empty() =~= source_calls(
        stream.effects,
    ));
    match event {
        ReadableEvent::Controller(ControllerMsg::Enqueue { chunk }) => {
            lemma_enqueue(stream, chunk);
        },
        ReadableEvent::Controller(ControllerMsg::Close) => {
            lemma_ending(stream, StreamError::Canceled, None, arbitrary());
        },
        ReadableEvent::Controller(ControllerMsg::Error(error)) => {
            lemma_ending(stream, error, None, arbitrary());
        },
        ReadableEvent::Read(read) => {
            lemma_read(stream, read);
        },
        ReadableEvent::Cancel(reason, completion) => {
            lemma_ending(stream, StreamError::Canceled, reason, completion);
        },
        ReadableEvent::CancelFinished(outcome) => {
            lemma_finished(stream, arbitrary(), outcome);
        },
        ReadableEvent::ReadyWaker(set) => {
            lemma_quiet(ReadableModel { ready_wakers: set, ..stream }, Ok(None));
        },
        ReadableEvent::ClosedWaker(set) => {
            lemma_quiet(ReadableModel { closed_wakers: set, ..stream }, Ok(None));
        },
        ReadableEvent::StartBegun => {},
        ReadableEvent::StartFinished(source, outcome) => {
            lemma_finished(stream, source, outcome);
        },
        ReadableEvent::MaybePull => {
            if let Some(source) = stream.source {
                lemma_calls_push(stream.effects, ReadableEffect::StartPull(source));
                assert(source_calls(stream.effects).push(SourceCall::Pull) =~= source_calls(
                    stream.effects,
                ) + seq![SourceCall::Pull]);
            }
        },
        ReadableEvent::PullFinished(source, outcome) => {
            lemma_finished(stream, source, outcome);
        },
    }
}

/// The source is asked for one thing at a time.  Where an event asks it for more, it has started,
/// the stream is open, nothing is queued, and no pull is running; and from then on one is, until
/// the source has answered.  Where an event cancels it, that is a cancellation of the open stream,
/// and the source is told its reason.  No other event asks it for anything.
pub proof fn law_one_pull_at_a_time<T, Source, S: QueuingStrategy<T>, R, K, W>(
    stream: ReadableModel<T, Source, S, R, K, W>,
    event: ReadableEvent<T, Source, R, K, W>,
)
    requires
        stream.wf(),
        stream.allows(event),
    ensures
        ({
            let next = stream.step(event);
            let asked = stream.asked_of_source(event);
            &&& source_calls(next.effects) == source_calls(stream.effects) + asked
            &&& asked == seq![SourceCall::Pull] ==> {
                &&& event is MaybePull
                &&& stream.start == StartPhase::Succeeded
                &&& stream.is_open()
                &&& stream.queue.len() == 0
                &&& !stream.pulling
                &&& next.pulling
            }
            &&& stream.pulling ==> next.pulling || event is PullFinished
        }),
{
    lemma_step(stream, event);
    if stream.asked_of_source(event) == seq![SourceCall::Pull] {
        assert(stream.asked_of_source(event)[0] == SourceCall::Pull);
    }
}

/// The source of a new stream is there to be started; once its start has begun it is not given out
/// for that again; and it is not pulled from before its start has succeeded.
pub proof fn law_the_source_starts_once_and_first<T, Source, S: QueuingStrategy<T>, R, K, W>(
    source: Source,
    strategy: S,
    events: Seq<ReadableEvent<T, Source, R, K, W>>,
    i: int,
)
    requires
        ReadableModel::<T, Source, S, R, K, W>::initial(source, strategy).allows_all(events),
    ensures
        ({
            let initial = ReadableModel::<T, Source, S, R, K, W>::initial(source, strategy);
            let stream = initial.run(events);
            &&& initial.to_be_started() == Some(source)
            &&& 0 <= i < events.len() && events[i] is StartBegun ==> stream.to_be_started() is None
            &&& source_calls(stream.effects).contains(SourceCall::Pull) ==> stream.start
                == StartPhase::Succeeded
        }),
{
    lemma_run(source, strategy, events, i);
}

proof fn lemma_run<T, Source, S: QueuingStrategy<T>, R, K, W>(
    source: Source,
    strategy: S,
    events: Seq<ReadableEvent<T, Source, R, K, W>>,
    i: int,
)
    requires
        ReadableModel::<T, Source, S, R, K, W>::initial(source, strategy).allows_all(events),
    ensures
        ({
            let stream = ReadableModel::<T, Source, S, R, K, W>::initial(source, strategy).run(
                events,
            );
            &&& 0 <= i < events.len() && events[i] is StartBegun ==> stream.start
                != StartPhase::NotBegun
            &&& source_calls(stream.effects).contains(SourceCall::Pull) ==> stream.start
                == StartPhase::Succeeded
        }),
    decreases events.len(),
{
    if events.len() > 0 {
        let initial = ReadableModel::<T, Source, S, R, K, W>::initial(source, strategy);
        let earlier = events.drop_last();
        let before = initial.run(earlier);
        let stream = initial.run(events);
        lemma_run(source, strategy, earlier, i);
        lemma_step(before, events.last());
        let calls = source_calls(before.effects);
        let asked = before.asked_of_source(events.last());
        if (calls + asked).contains(SourceCall::Pull) {
            let k = choose|k: int|
                0 <= k < (calls + asked).len() && (calls + asked)[k] == SourceCall::Pull;
            if k < calls.len() {
                assert(calls[k] == SourceCall::Pull);
            } else {
                assert(asked[k - calls.len()] == SourceCall::Pull);
            }
        }
    }
}

/// While a stream is open nobody waits for a cancellation; and once it has started, its source is
/// at hand unless it is being pulled from.
pub open spec fn has_its_source<T, Source, S: QueuingStrategy<T>, R, K, W>(
    stream: ReadableModel<T, Source, S, R, K, W>,
) -> bool {
    stream.is_open() ==> {
        &&& !stream.cancel_requested
        &&& stream.cancel_completions.len() == 0
        &&& stream.start == StartPhase::Succeeded && !stream.pulling ==> stream.source is Some
    }
}

/// Whatever happens to a new stream, it keeps its source.
pub proof fn lemma_has_its_source<T, Source, S: QueuingStrategy<T>, R, K, W>(
    source: Source,
    strategy: S,
    events: Seq<ReadableEvent<T, Source, R, K, W>>,
)
    requires
        ReadableModel::<T, Source, S, R, K, W>::initial(source, strategy).allows_all(events),
    ensures
        has_its_source(
            ReadableModel::<T, Source, S, R, K, W>::initial(source, strategy).run(events),
        ),
    decreases events.len(),
{
    if events.len() > 0 {
        lemma_has_its_source(source, strategy, events.drop_last());
    }
}

/// Whether nothing is put in by these events.
pub open spec fn puts_nothing_in<T, Source, R, K, W>(
    events: Seq<ReadableEvent<T, Source, R, K, W>>,
) -> bool {
    forall|i: int|
        0 <= i < events.len() ==> !((#[trigger] events[i]) matches ReadableEvent::Controller(
            ControllerMsg::Enqueue { .. },
        ))
}

/// A stream that was cancelled, with nothing left of it.
spec fn is_cancelled<T, Source, S: QueuingStrategy<T>, R, K, W>(
    stream: ReadableModel<T, Source, S, R, K, W>,
) -> bool {
    &&& stream.state == StreamState::Closed
    &&& stream.closed
    &&& stream.queue.len() == 0
    &&& stream.queue_total_size == 0
    &&& stream.pending_reads.len() == 0
    &&& !stream.pulling
    &&& stream.start == StartPhase::Succeeded
}

proof fn lemma_stays_cancelled<T, Source, S: QueuingStrategy<T>, R, K, W>(
    stream: ReadableModel<T, Source, S, R, K, W>,
    events: Seq<ReadableEvent<T, Source, R, K, W>>,
)
    requires
        is_cancelled(stream),
        stream.allows_all(events),
        puts_nothing_in(events),
    ensures
        is_cancelled(stream.run(events)),
        source_calls(stream.run(events).effects) == source_calls(stream.effects),
        (forall|i: int| 0 <= i < events.len() ==> !((#[trigger] events[i]) is CancelFinished))
            ==> stream.run(events).cancel_completions == stream.cancel_completions,
    decreases events.len(),
{
    if events.len() > 0 {
        let earlier = events.drop_last();
        assert forall|i: int| 0 <= i < earlier.len() implies !((#[trigger] earlier[i])
            matches ReadableEvent::Controller(ControllerMsg::Enqueue { .. })) by {
            assert(earlier[i] == events[i]);
        }
        lemma_stays_cancelled(stream, earlier);
        let before = stream.run(earlier);
        let event = events.last();
        assert(event == events[events.len() - 1]);
        lemma_step(before, event);
        assert(source_calls(before.effects) + Seq::<SourceCall>::empty() =~= source_calls(
            before.effects,
        ));
        if forall|i: int| 0 <= i < events.len() ==> !((#[trigger] events[i]) is CancelFinished) {
            assert forall|i: int| 0 <= i < earlier.len() implies !((
            #[trigger] earlier[i]) is CancelFinished) by {
                assert(earlier[i] == events[i]);
            }
        }
    }
}

/// A cancellation is for good.  Of a stream that has started, is open and is not being pulled from,
/// it fails the reads that wait, closes the stream with nothing queued, and tells the source its
/// reason.  From then on, whatever happens, as long as nothing is put in: the source is asked for
/// nothing more; every read gets the end; every further cancellation is answered at once with
/// success; and what the source answers is what the cancellation is answered.
pub proof fn law_a_cancellation_is_for_good<T, Source, S: QueuingStrategy<T>, R, K, W>(
    source: Source,
    strategy: S,
    events: Seq<ReadableEvent<T, Source, R, K, W>>,
    reason: Option<String>,
    completion: K,
    later: Seq<ReadableEvent<T, Source, R, K, W>>,
    outcome: StreamResult<()>,
    read: R,
    again: Option<String>,
    another: K,
)
    requires
        ({
            let initial = ReadableModel::<T, Source, S, R, K, W>::initial(source, strategy);
            let stream = initial.run(events);
            &&& initial.allows_all(events)
            &&& stream.start == StartPhase::Succeeded
            &&& stream.is_open()
            &&& !stream.pulling
            &&& stream.cancel(reason, completion).allows_all(later)
            &&& puts_nothing_in(later)
        }),
    ensures
        ({
            let stream = ReadableModel::<T, Source, S, R, K, W>::initial(source, strategy).run(
                events,
            );
            let cancelled = stream.cancel(reason, completion);
            let failed = stream.answer_reads(Err(StreamError::Canceled)).effects;
            let now = cancelled.run(later);
            &&& stream.source is Some
            &&& failed.len() < cancelled.effects.len()
            &&& cancelled.effects.subrange(0, failed.len() as int) == failed
            &&& cancelled.effects.last() == ReadableEffect::<T, Source, R, K, W>::StartCancel(
                stream.source->0,
                reason,
            )
            &&& now.closed && now.state == StreamState::Closed
            &&& now.queue.len() == 0 && now.queue_total_size == 0
            &&& now.pending_reads.len() == 0
            &&& source_calls(now.effects) == source_calls(stream.effects).push(
                SourceCall::Cancel(reason),
            )
            &&& now.maybe_pull() == now
            &&& now.read(read) == now.emit(ReadableEffect::ReplyRead(read, Ok(None)))
            &&& now.cancel(again, another) == now.emit(
                ReadableEffect::ReplyCancel(another, Ok(())),
            )
            &&& (forall|i: int| 0 <= i < later.len() ==> !((#[trigger] later[i]) is CancelFinished))
                ==> now.cancel_finished(outcome).effects == now.effects.push(
                ReadableEffect::ReplyCancel(completion, outcome),
            ).push(ReadableEffect::Repoll)
        }),
{
    let stream = ReadableModel::<T, Source, S, R, K, W>::initial(source, strategy).run(events);
    let cancelled = stream.cancel(reason, completion);
    lemma_has_its_source(source, strategy, events);
    lemma_step(stream, ReadableEvent::Cancel(reason, completion));
    assert(source_calls(stream.effects).push(SourceCall::Cancel(reason)) =~= source_calls(
        stream.effects,
    ) + seq![SourceCall::Cancel(reason)]);
    lemma_stays_cancelled(cancelled, later);
    let failed = stream.answer_reads(Err(StreamError::Canceled)).effects;
    assert(cancelled.effects.subrange(0, failed.len() as int) =~= failed);
    assert(cancelled.cancel_completions =~= seq![completion]);
    let now = cancelled.run(later);
    if forall|i: int| 0 <= i < later.len() ==> !((#[trigger] later[i]) is CancelFinished) {
        assert(now.cancel_finished(outcome).effects =~= now.effects.push(
            ReadableEffect::ReplyCancel(completion, outcome),
        ).push(ReadableEffect::Repoll));
    }
}

} // verus!
