//! What holds of a readable stream whatever happens to it, and in whatever order.

use super::effect::{cancel_replies, read_replies, wakes, ControllerMsg, ReadableEffect, StreamState};
use super::model::ReadableModel;
use crate::error::{StreamError, StreamResult};
use crate::start::StartPhase;
use crate::strategy::{
    lemma_total_size_front, lemma_total_size_nonnegative, lemma_total_size_push, room, room_fits,
    QueuingStrategy,
};
use vstd::prelude::*;

verus! {

/// Everything that can happen to a readable stream.
pub enum ReadableEvent<T, Source, R, K, W> {
    Controller(ControllerMsg<T>),
    Read(R),
    Cancel(Option<String>, K),
    CancelFinished(StreamResult<()>),
    /// A waker was registered; the set is now this one.
    ReadyWaker(Seq<W>),
    ClosedWaker(Seq<W>),
    StartBegun,
    StartFinished(Source, StreamResult<()>),
    MaybePull,
    PullFinished(Source, StreamResult<()>),
}

impl<T, Source, S: QueuingStrategy<T>, R, K, W> ReadableModel<T, Source, S, R, K, W> {
    /// Whether it can be an event's turn: only a start that has begun can finish, and it does so
    /// before the first read; and only a pull that is running can finish.
    pub open spec fn in_turn(self, event: ReadableEvent<T, Source, R, K, W>) -> bool {
        match event {
            ReadableEvent::StartFinished(_, _) => self.start == StartPhase::Running
                && self.pending_reads.len() == 0,
            ReadableEvent::PullFinished(_, _) => self.pulling,
            _ => true,
        }
    }

    /// Whether the size of the queue and the room it leaves stay numbers that can be written.
    pub open spec fn fits(self, event: ReadableEvent<T, Source, R, K, W>) -> bool {
        match event {
            ReadableEvent::Controller(msg) => self.can_take(msg),
            ReadableEvent::Read(_) => self.can_read(),
            _ => true,
        }
    }

    /// Whether an event can happen.
    pub open spec fn allows(self, event: ReadableEvent<T, Source, R, K, W>) -> bool {
        self.in_turn(event) && self.fits(event)
    }

    /// What an event makes of the stream.
    pub open spec fn step(self, event: ReadableEvent<T, Source, R, K, W>) -> Self {
        match event {
            ReadableEvent::Controller(msg) => self.controller_msg(msg),
            ReadableEvent::Read(completion) => self.read(completion),
            ReadableEvent::Cancel(reason, completion) => self.cancel(reason, completion),
            ReadableEvent::CancelFinished(outcome) => self.cancel_finished(outcome),
            ReadableEvent::ReadyWaker(set) => self.ready_waker_registered(set),
            ReadableEvent::ClosedWaker(set) => self.closed_waker_registered(set),
            ReadableEvent::StartBegun => self.start_begun(),
            ReadableEvent::StartFinished(source, outcome) => self.start_finished(source, outcome),
            ReadableEvent::MaybePull => self.maybe_pull(),
            ReadableEvent::PullFinished(source, outcome) => self.pull_finished(source, outcome),
        }
    }

    /// What events, one after the other, make of the stream.
    pub open spec fn run(self, events: Seq<ReadableEvent<T, Source, R, K, W>>) -> Self
        decreases events.len(),
    {
        if events.len() == 0 {
            self
        } else {
            self.run(events.drop_last()).step(events.last())
        }
    }

    /// Whether each of the events can happen when its turn comes.
    pub open spec fn allows_all(self, events: Seq<ReadableEvent<T, Source, R, K, W>>) -> bool
        decreases events.len(),
    {
        events.len() > 0 ==> self.allows_all(events.drop_last()) && self.run(
            events.drop_last(),
        ).allows(events.last())
    }

    /// While the stream is open, the room that its handles see is the room that its queue leaves.
    pub open spec fn shows_its_room(self) -> bool {
        self.is_open() ==> {
            &&& room_fits(self.strategy.spec_high_water_mark(), self.queue_total_size)
            &&& self.desired_size == room(
                self.strategy.spec_high_water_mark(),
                self.queue_total_size,
                false,
                false,
            )
        }
    }

    /// The chunks that were handed out, and then those that are queued.
    pub open spec fn passed(self) -> Seq<T> {
        delivered(self.effects) + self.queue
    }

    /// The reads that were answered, and then those that wait.
    pub open spec fn asked(self) -> Seq<R> {
        answered(self.effects) + self.pending_reads
    }
}

/// The chunks that were handed to readers, in order.
pub open spec fn delivered<T, Source, R, K, W>(
    effects: Seq<ReadableEffect<T, Source, R, K, W>>,
) -> Seq<T>
    decreases effects.len(),
{
    if effects.len() == 0 {
        Seq::empty()
    } else {
        let before = delivered(effects.drop_last());
        match effects.last() {
            ReadableEffect::ReplyRead(_, Ok(Some(chunk))) => before.push(chunk),
            _ => before,
        }
    }
}

/// The reads that were answered, in order.
pub open spec fn answered<T, Source, R, K, W>(
    effects: Seq<ReadableEffect<T, Source, R, K, W>>,
) -> Seq<R>
    decreases effects.len(),
{
    if effects.len() == 0 {
        Seq::empty()
    } else {
        let before = answered(effects.drop_last());
        match effects.last() {
            ReadableEffect::ReplyRead(read, _) => before.push(read),
            _ => before,
        }
    }
}

/// The chunks that were put into a stream by a sequence of events, in order.
pub open spec fn put_in<T, Source, R, K, W>(
    events: Seq<ReadableEvent<T, Source, R, K, W>>,
) -> Seq<T>
    decreases events.len(),
{
    if events.len() == 0 {
        Seq::empty()
    } else {
        let before = put_in(events.drop_last());
        match events.last() {
            ReadableEvent::Controller(ControllerMsg::Enqueue { chunk }) => before.push(chunk),
            _ => before,
        }
    }
}

/// The reads among a sequence of events, in order.
pub open spec fn reads<T, Source, R, K, W>(
    events: Seq<ReadableEvent<T, Source, R, K, W>>,
) -> Seq<R>
    decreases events.len(),
{
    if events.len() == 0 {
        Seq::empty()
    } else {
        let before = reads(events.drop_last());
        match events.last() {
            ReadableEvent::Read(read) => before.push(read),
            _ => before,
        }
    }
}

/// One more effect.
proof fn lemma_push<T, Source, R, K, W>(
    effects: Seq<ReadableEffect<T, Source, R, K, W>>,
    effect: ReadableEffect<T, Source, R, K, W>,
)
    ensures
        delivered(effects.push(effect)) == (match effect {
            ReadableEffect::ReplyRead(_, Ok(Some(chunk))) => delivered(effects).push(chunk),
            _ => delivered(effects),
        }),
        answered(effects.push(effect)) == (match effect {
            ReadableEffect::ReplyRead(read, _) => answered(effects).push(read),
            _ => answered(effects),
        }),
{
    assert(effects.push(effect).drop_last() =~= effects);
}

/// Wakes hand out nothing and answer nothing.
proof fn lemma_wakes<T, Source, R, K, W>(
    effects: Seq<ReadableEffect<T, Source, R, K, W>>,
    wakers: Seq<W>,
)
    ensures
        delivered(effects + wakes(wakers)) == delivered(effects),
        answered(effects + wakes(wakers)) == answered(effects),
    decreases wakers.len(),
{
    if wakers.len() == 0 {
        assert(effects + wakes(wakers) =~= effects);
    } else {
        lemma_wakes(effects, wakers.drop_last());
        lemma_push(
            effects + wakes(wakers.drop_last()),
            ReadableEffect::<T, Source, R, K, W>::Wake(wakers.last()),
        );
        assert(effects + wakes(wakers) =~= (effects + wakes(wakers.drop_last())).push(
            ReadableEffect::Wake(wakers.last()),
        ));
    }
}

/// Answers to cancellations hand out nothing and answer no read.
proof fn lemma_cancel_replies<T, Source, R, K, W>(
    effects: Seq<ReadableEffect<T, Source, R, K, W>>,
    cancels: Seq<K>,
    outcome: StreamResult<()>,
)
    ensures
        delivered(effects + cancel_replies(cancels, outcome)) == delivered(effects),
        answered(effects + cancel_replies(cancels, outcome)) == answered(effects),
    decreases cancels.len(),
{
    if cancels.len() == 0 {
        assert(effects + cancel_replies(cancels, outcome) =~= effects);
    } else {
        lemma_cancel_replies(effects, cancels.drop_last(), outcome);
        lemma_push(
            effects + cancel_replies(cancels.drop_last(), outcome),
            ReadableEffect::<T, Source, R, K, W>::ReplyCancel(cancels.last(), outcome),
        );
        assert(effects + cancel_replies(cancels, outcome) =~= (effects + cancel_replies(
            cancels.drop_last(),
            outcome,
        )).push(ReadableEffect::ReplyCancel(cancels.last(), outcome)));
    }
}

/// Answers without a chunk hand out nothing, and answer each read once.
proof fn lemma_read_replies<T, Source, R, K, W>(
    effects: Seq<ReadableEffect<T, Source, R, K, W>>,
    waiting: Seq<R>,
    outcome: StreamResult<Option<T>>,
)
    requires
        outcome matches Ok(chunk) ==> chunk is None,
    ensures
        delivered(effects + read_replies(waiting, outcome)) == delivered(effects),
        answered(effects + read_replies(waiting, outcome)) == answered(effects) + waiting,
    decreases waiting.len(),
{
    if waiting.len() == 0 {
        assert(effects + read_replies(waiting, outcome) =~= effects);
        assert(answered(effects) + waiting =~= answered(effects));
    } else {
        lemma_read_replies(effects, waiting.drop_last(), outcome);
        lemma_push(
            effects + read_replies(waiting.drop_last(), outcome),
            ReadableEffect::<T, Source, R, K, W>::ReplyRead(waiting.last(), outcome),
        );
        assert(effects + read_replies(waiting, outcome) =~= (effects + read_replies(
            waiting.drop_last(),
            outcome,
        )).push(ReadableEffect::ReplyRead(waiting.last(), outcome)));
        assert(answered(effects) + waiting =~= (answered(effects) + waiting.drop_last()).push(
            waiting.last(),
        ));
    }
}

/// Answering every waiting read and then waking everyone: nothing is handed out, and everyone who
/// waited is answered.
proof fn lemma_ending<T, Source, S: QueuingStrategy<T>, R, K, W>(
    stream: ReadableModel<T, Source, S, R, K, W>,
    outcome: StreamResult<Option<T>>,
)
    requires
        outcome matches Ok(chunk) ==> chunk is None,
    ensures
        ({
            let ended = stream.answer_reads(outcome).wake_closed().wake_ready();
            &&& delivered(ended.effects) == delivered(stream.effects)
            &&& answered(ended.effects) == answered(stream.effects) + stream.pending_reads
        }),
{
    let replied = stream.answer_reads(outcome);
    lemma_read_replies(stream.effects, stream.pending_reads, outcome);
    lemma_wakes(replied.effects, replied.closed_wakers);
    lemma_wakes(replied.wake_closed().effects, replied.ready_wakers);
}

/// Every event leaves a well-formed stream well formed.
pub proof fn law_well_formed<T, Source, S: QueuingStrategy<T>, R, K, W>(
    stream: ReadableModel<T, Source, S, R, K, W>,
    event: ReadableEvent<T, Source, R, K, W>,
)
    requires
        stream.wf(),
        stream.allows(event),
    ensures
        stream.step(event).wf(),
{
    match event {
        ReadableEvent::Controller(ControllerMsg::Enqueue { chunk }) => {
            lemma_total_size_push(stream.strategy, stream.queue, chunk);
        },
        ReadableEvent::Read(_) => {
            if stream.queue.len() > 0 {
                lemma_total_size_front(stream.strategy, stream.queue);
                lemma_total_size_nonnegative(
                    stream.strategy,
                    stream.queue.subrange(1, stream.queue.len() as int),
                );
            }
        },
        _ => {},
    }
}

/// Chunks come out in the order in which they went in, and none twice: an event that puts a chunk
/// in puts it behind all the others; a failure or a cancellation loses what is queued; and no
/// other event changes what came out followed by what is still to come.
pub proof fn law_chunks_keep_their_order<T, Source, S: QueuingStrategy<T>, R, K, W>(
    stream: ReadableModel<T, Source, S, R, K, W>,
    event: ReadableEvent<T, Source, R, K, W>,
)
    requires
        stream.wf(),
    ensures
        stream.step(event).passed() == (match event {
            ReadableEvent::Controller(ControllerMsg::Enqueue { chunk }) => stream.passed().push(
                chunk,
            ),
            ReadableEvent::Controller(ControllerMsg::Error(_)) => if stream.state
                == StreamState::Closed {
                stream.passed()
            } else {
                delivered(stream.effects)
            },
            ReadableEvent::Cancel(_, _) => if stream.is_open() && !stream.cancel_requested {
                delivered(stream.effects)
            } else {
                stream.passed()
            },
            _ => stream.passed(),
        }),
{
    lemma_event_effects(stream, event);
    let next = stream.step(event);
    match event {
        ReadableEvent::Controller(ControllerMsg::Enqueue { chunk }) => {
            assert(next.passed() =~= stream.passed().push(chunk));
        },
        _ => {
            assert(delivered(stream.effects) + Seq::<T>::empty() =~= delivered(stream.effects));
            if stream.queue.len() > 0 {
                assert(delivered(stream.effects).push(stream.queue[0]) + stream.queue.subrange(
                    1,
                    stream.queue.len() as int,
                ) =~= stream.passed());
            }
        },
    }
}

/// Every read is answered once, in the order in which the reads were made, or still waits.
pub proof fn law_every_read_is_answered_once<T, Source, S: QueuingStrategy<T>, R, K, W>(
    stream: ReadableModel<T, Source, S, R, K, W>,
    event: ReadableEvent<T, Source, R, K, W>,
)
    requires
        stream.wf(),
    ensures
        stream.step(event).asked() == (match event {
            ReadableEvent::Read(read) => stream.asked().push(read),
            _ => stream.asked(),
        }),
{
    lemma_event_effects(stream, event);
    let next = stream.step(event);
    match event {
        ReadableEvent::Read(read) => {
            assert(next.asked() =~= stream.asked().push(read));
        },
        _ => {
            assert(next.asked() =~= stream.asked());
        },
    }
}

/// What an event hands out and answers.
proof fn lemma_event_effects<T, Source, S: QueuingStrategy<T>, R, K, W>(
    stream: ReadableModel<T, Source, S, R, K, W>,
    event: ReadableEvent<T, Source, R, K, W>,
)
    requires
        stream.wf(),
    ensures
        delivered(stream.step(event).effects) == (match event {
            ReadableEvent::Controller(ControllerMsg::Enqueue { chunk }) => if stream.pending_reads.len()
                > 0 {
                delivered(stream.effects).push(chunk)
            } else {
                delivered(stream.effects)
            },
            ReadableEvent::Read(_) => if stream.state != StreamState::Errored && stream.queue.len()
                > 0 {
                delivered(stream.effects).push(stream.queue[0])
            } else {
                delivered(stream.effects)
            },
            _ => delivered(stream.effects),
        }),
        answered(stream.step(event).effects) + stream.step(event).pending_reads == (match event {
            ReadableEvent::Read(read) => (answered(stream.effects) + stream.pending_reads).push(
                read,
            ),
            _ => answered(stream.effects) + stream.pending_reads,
        }),
{
    let effects = stream.effects;
    let asked = answered(effects) + stream.pending_reads;
    let next = stream.step(event);
    match event {
        ReadableEvent::Controller(ControllerMsg::Enqueue { chunk }) => {
            if stream.pending_reads.len() > 0 {
                lemma_push(
                    effects,
                    ReadableEffect::ReplyRead(stream.pending_reads[0], Ok(Some(chunk))),
                );
                assert(answered(effects).push(stream.pending_reads[0])
                    + stream.pending_reads.subrange(1, stream.pending_reads.len() as int)
                    =~= asked);
            } else {
                lemma_wakes(effects, stream.ready_wakers);
            }
        },
        ReadableEvent::Controller(ControllerMsg::Close) => {
            if stream.is_open() {
                lemma_ending(
                    ReadableModel {
                        state: StreamState::Closed,
                        closed: true,
                        desired_size: 0,
                        ..stream
                    },
                    Ok(None),
                );
                assert(next.pending_reads =~= Seq::empty());
                assert(asked + Seq::<R>::empty() =~= asked);
            }
        },
        ReadableEvent::Controller(ControllerMsg::Error(error)) => {
            if stream.state != StreamState::Closed {
                lemma_ending(
                    ReadableModel {
                        state: StreamState::Errored,
                        errored: true,
                        stored_error: Some(error),
                        desired_size: 0,
                        queue: Seq::empty(),
                        queue_total_size: 0,
                        ..stream
                    },
                    Err(error),
                );
                assert(asked + Seq::<R>::empty() =~= asked);
            }
        },
        ReadableEvent::Read(read) => {
            if stream.state == StreamState::Errored {
                lemma_push(
                    effects,
                    ReadableEffect::ReplyRead(read, Err(stream.error_to_report())),
                );
            } else if stream.queue.len() > 0 {
                lemma_push(effects, ReadableEffect::ReplyRead(read, Ok(Some(stream.queue[0]))));
            } else if stream.state == StreamState::Closed {
                lemma_push(effects, ReadableEffect::ReplyRead(read, Ok(None)));
            }
            assert(next.asked() =~= asked.push(read));
        },
        ReadableEvent::Cancel(reason, completion) => {
            if !stream.is_open() {
                lemma_push(effects, ReadableEffect::ReplyCancel(completion, Ok(())));
            } else if !stream.cancel_requested {
                let canceled = ReadableModel {
                    cancel_requested: true,
                    cancel_reason: reason,
                    cancel_completions: stream.cancel_completions.push(completion),
                    state: StreamState::Closed,
                    closed: true,
                    queue: Seq::empty(),
                    queue_total_size: 0,
                    ..stream
                };
                lemma_ending(canceled, Err(StreamError::Canceled));
                let ended = canceled.answer_reads(
                    Err(StreamError::Canceled),
                ).wake_closed().wake_ready();
                match stream.source {
                    Some(source) => {
                        lemma_push(ended.effects, ReadableEffect::StartCancel(source, reason));
                    },
                    None => {},
                }
                assert(asked + Seq::<R>::empty() =~= asked);
            }
        },
        ReadableEvent::CancelFinished(outcome) => {
            lemma_cancel_replies(effects, stream.cancel_completions, outcome);
            lemma_push(
                effects + cancel_replies(stream.cancel_completions, outcome),
                ReadableEffect::Repoll,
            );
        },
        ReadableEvent::ReadyWaker(set) => {
            lemma_wakes(effects, set);
        },
        ReadableEvent::ClosedWaker(set) => {
            lemma_wakes(effects, set);
        },
        ReadableEvent::StartBegun => {},
        ReadableEvent::StartFinished(source, outcome) => {
            lemma_wakes(effects, stream.closed_wakers);
            lemma_wakes(effects + wakes(stream.closed_wakers), stream.ready_wakers);
        },
        ReadableEvent::MaybePull => {
            if stream.source is Some {
                lemma_push(effects, ReadableEffect::StartPull(stream.source->0));
            }
        },
        ReadableEvent::PullFinished(source, outcome) => {
            match outcome {
                Ok(_) => {
                    lemma_push(effects, ReadableEffect::Repoll);
                },
                Err(error) => {
                    let failed = ReadableModel {
                        state: StreamState::Errored,
                        errored: true,
                        stored_error: Some(error),
                        pulling: false,
                        ..stream
                    };
                    lemma_ending(failed, Err(error));
                    lemma_push(
                        failed.answer_reads(Err(error)).wake_closed().wake_ready().effects,
                        ReadableEffect::Repoll,
                    );
                    assert(asked + Seq::<R>::empty() =~= asked);
                },
            }
        },
    }
}

impl<T, Source, S: QueuingStrategy<T>, R, K, W> ReadableModel<T, Source, S, R, K, W> {
    /// Whether one of the events was a cancellation that discarded queued chunks.
    pub open spec fn discarded(self, events: Seq<ReadableEvent<T, Source, R, K, W>>) -> bool
        decreases events.len(),
    {
        events.len() > 0 && (self.discarded(events.drop_last()) || {
            let before = self.run(events.drop_last());
            events.last() is Cancel && before.is_open() && !before.cancel_requested
                && before.queue.len() > 0
        })
    }

    /// No chunk is put in after a cancellation that discarded queued chunks.
    pub open spec fn nothing_after_discard(
        self,
        events: Seq<ReadableEvent<T, Source, R, K, W>>,
    ) -> bool
        decreases events.len(),
    {
        events.len() > 0 ==> self.nothing_after_discard(events.drop_last()) && (events.last()
            matches ReadableEvent::Controller(ControllerMsg::Enqueue { .. }) ==> !self.discarded(
            events.drop_last(),
        ))
    }
}

/// Whatever happens to a new stream, what readers are handed is the beginning of what was put in,
/// as long as nothing is put in after a cancellation that discarded something; and as many reads
/// have been answered, or wait, as were made, in their order.
pub proof fn law_readers_get_what_was_put_in<T, Source, S: QueuingStrategy<T>, R, K, W>(
    source: Source,
    strategy: S,
    events: Seq<ReadableEvent<T, Source, R, K, W>>,
)
    requires
        ReadableModel::<T, Source, S, R, K, W>::initial(source, strategy).allows_all(events),
        ReadableModel::<T, Source, S, R, K, W>::initial(source, strategy).nothing_after_discard(
            events,
        ),
    ensures
        ({
            let stream = ReadableModel::<T, Source, S, R, K, W>::initial(source, strategy).run(
                events,
            );
            &&& stream.wf()
            &&& delivered(stream.effects).len() <= put_in(events).len()
            &&& delivered(stream.effects) == put_in(events).subrange(
                0,
                delivered(stream.effects).len() as int,
            )
            &&& stream.asked() == reads(events)
        }),
{
    let initial = ReadableModel::<T, Source, S, R, K, W>::initial(source, strategy);
    lemma_behind(source, strategy, events);
    let stream = initial.run(events);
    let lost = choose|lost: Seq<T>|
        #[trigger] behind(put_in(events), stream, initial.discarded(events), lost);
    assert(put_in(events).subrange(0, delivered(stream.effects).len() as int) =~= delivered(
        stream.effects,
    ));
}

/// What was put in is what came out, and behind that what is queued, or what was lost for good.
spec fn behind<T, Source, S: QueuingStrategy<T>, R, K, W>(
    put: Seq<T>,
    stream: ReadableModel<T, Source, S, R, K, W>,
    discarded: bool,
    rest: Seq<T>,
) -> bool {
    &&& put == delivered(stream.effects) + rest
    &&& {
        ||| stream.state == StreamState::Errored
        ||| (discarded && stream.state == StreamState::Closed && stream.queue.len() == 0)
        ||| (!discarded && rest == stream.queue)
    }
}

proof fn lemma_behind<T, Source, S: QueuingStrategy<T>, R, K, W>(
    source: Source,
    strategy: S,
    events: Seq<ReadableEvent<T, Source, R, K, W>>,
)
    requires
        ReadableModel::<T, Source, S, R, K, W>::initial(source, strategy).allows_all(events),
        ReadableModel::<T, Source, S, R, K, W>::initial(source, strategy).nothing_after_discard(
            events,
        ),
    ensures
        ({
            let initial = ReadableModel::<T, Source, S, R, K, W>::initial(source, strategy);
            let stream = initial.run(events);
            &&& stream.wf()
            &&& exists|rest: Seq<T>|
                #[trigger] behind(put_in(events), stream, initial.discarded(events), rest)
            &&& stream.asked() == reads(events)
        }),
    decreases events.len(),
{
    let initial = ReadableModel::<T, Source, S, R, K, W>::initial(source, strategy);
    let discarded = initial.discarded(events);
    if events.len() == 0 {
        assert(put_in(events) =~= delivered(initial.effects) + Seq::<T>::empty());
        assert(behind(put_in(events), initial, discarded, Seq::empty()));
        assert(initial.asked() =~= reads(events));
    } else {
        let earlier = events.drop_last();
        let event = events.last();
        lemma_behind(source, strategy, earlier);
        let before = initial.run(earlier);
        let after = initial.run(events);
        law_well_formed(before, event);
        law_every_read_is_answered_once(before, event);
        lemma_event_effects(before, event);
        let rest = choose|rest: Seq<T>|
            #[trigger] behind(put_in(earlier), before, initial.discarded(earlier), rest);
        match event {
            ReadableEvent::Controller(ControllerMsg::Enqueue { chunk }) => {
                if before.pending_reads.len() > 0 {
                    assert(put_in(events) =~= delivered(after.effects) + rest);
                    assert(behind(put_in(events), after, discarded, rest));
                } else {
                    assert(put_in(events) =~= delivered(after.effects) + rest.push(chunk));
                    assert(behind(put_in(events), after, discarded, rest.push(chunk)));
                }
            },
            ReadableEvent::Read(_) => {
                if before.state != StreamState::Errored && before.queue.len() > 0 {
                    assert(put_in(events) =~= delivered(after.effects) + after.queue);
                    assert(behind(put_in(events), after, discarded, after.queue));
                } else {
                    assert(behind(put_in(events), after, discarded, rest));
                }
            },
            _ => {
                if before.queue.len() == 0 {
                    assert(before.queue =~= Seq::empty());
                }
                assert(behind(put_in(events), after, discarded, rest));
            },
        }
    }
}

/// Whether none of the events is an error of the source or a cancellation, which discard what is
/// queued.
pub open spec fn discards_nothing<T, Source, R, K, W>(
    events: Seq<ReadableEvent<T, Source, R, K, W>>,
) -> bool
    decreases events.len(),
{
    events.len() > 0 ==> discards_nothing(events.drop_last()) && match events.last() {
        ReadableEvent::Controller(ControllerMsg::Error(_)) => false,
        ReadableEvent::Cancel(_, _) => false,
        _ => true,
    }
}

/// Nothing is lost: what readers were handed, followed by what is queued, is everything that was
/// put in, unless an error or a cancellation discarded something.  So a reader that is told of the
/// end, at once or after waiting for it, knows that everything was handed out.
pub proof fn law_the_end_comes_after_everything<T, Source, S: QueuingStrategy<T>, R, K, W>(
    source: Source,
    strategy: S,
    events: Seq<ReadableEvent<T, Source, R, K, W>>,
    read: R,
)
    requires
        ReadableModel::<T, Source, S, R, K, W>::initial(source, strategy).allows_all(events),
        discards_nothing(events),
    ensures
        ({
            let stream = ReadableModel::<T, Source, S, R, K, W>::initial(source, strategy).run(
                events,
            );
            &&& stream.passed() == put_in(events)
            &&& stream.read(read) == stream.emit(ReadableEffect::ReplyRead(read, Ok(None)))
                ==> delivered(stream.effects) == put_in(events)
            &&& stream.pending_reads.len() > 0 ==> delivered(stream.effects) == put_in(events)
        }),
{
    lemma_nothing_is_lost(source, strategy, events);
    let stream = ReadableModel::<T, Source, S, R, K, W>::initial(source, strategy).run(events);
    if stream.queue.len() == 0 {
        assert(stream.passed() =~= delivered(stream.effects));
    } else {
        assert(stream.read(read).effects.last() == ReadableEffect::<T, Source, R, K, W>::ReplyRead(
            read,
            if stream.state == StreamState::Errored {
                Err(stream.error_to_report())
            } else {
                Ok(Some(stream.queue[0]))
            },
        ));
        assert(stream.emit(ReadableEffect::ReplyRead(read, Ok(None))).effects.last()
            == ReadableEffect::<T, Source, R, K, W>::ReplyRead(read, Ok(None)));
    }
}

proof fn lemma_nothing_is_lost<T, Source, S: QueuingStrategy<T>, R, K, W>(
    source: Source,
    strategy: S,
    events: Seq<ReadableEvent<T, Source, R, K, W>>,
)
    requires
        ReadableModel::<T, Source, S, R, K, W>::initial(source, strategy).allows_all(events),
        discards_nothing(events),
    ensures
        ({
            let stream = ReadableModel::<T, Source, S, R, K, W>::initial(source, strategy).run(
                events,
            );
            &&& stream.wf()
            &&& stream.passed() == put_in(events)
        }),
    decreases events.len(),
{
    let initial = ReadableModel::<T, Source, S, R, K, W>::initial(source, strategy);
    if events.len() == 0 {
        assert(initial.passed() =~= Seq::empty());
    } else {
        lemma_nothing_is_lost(source, strategy, events.drop_last());
        let before = initial.run(events.drop_last());
        law_well_formed(before, events.last());
        law_chunks_keep_their_order(before, events.last());
    }
}

/// A stream that has ended never opens again.
pub proof fn law_ended_stays_ended<T, Source, S: QueuingStrategy<T>, R, K, W>(
    stream: ReadableModel<T, Source, S, R, K, W>,
    event: ReadableEvent<T, Source, R, K, W>,
)
    requires
        !stream.is_open(),
    ensures
        !stream.step(event).is_open(),
{
}

/// Reads from a closed stream get what is queued, in order, and then the end.
pub proof fn law_closed_stream_drains<T, Source, S: QueuingStrategy<T>, R, K, W>(
    stream: ReadableModel<T, Source, S, R, K, W>,
    reads: Seq<R>,
)
    requires
        stream.state == StreamState::Closed,
    ensures
        ({
            let events = reads.map_values(
                |read: R| ReadableEvent::<T, Source, R, K, W>::Read(read),
            );
            stream.run(events).effects == stream.effects + Seq::new(
                reads.len(),
                |i: int|
                    ReadableEffect::<T, Source, R, K, W>::ReplyRead(
                        reads[i],
                        if i < stream.queue.len() {
                            Ok(Some(stream.queue[i]))
                        } else {
                            Ok(None)
                        },
                    ),
            )
        }),
{
    lemma_drain(stream, reads);
}

proof fn lemma_drain<T, Source, S: QueuingStrategy<T>, R, K, W>(
    stream: ReadableModel<T, Source, S, R, K, W>,
    reads: Seq<R>,
)
    requires
        stream.state == StreamState::Closed,
    ensures
        ({
            let events = reads.map_values(
                |read: R| ReadableEvent::<T, Source, R, K, W>::Read(read),
            );
            let after = stream.run(events);
            &&& after.state == StreamState::Closed
            &&& after.effects == stream.effects + Seq::new(
                reads.len(),
                |i: int|
                    ReadableEffect::<T, Source, R, K, W>::ReplyRead(
                        reads[i],
                        if i < stream.queue.len() {
                            Ok(Some(stream.queue[i]))
                        } else {
                            Ok(None)
                        },
                    ),
            )
            &&& after.queue == (if reads.len() <= stream.queue.len() {
                stream.queue.subrange(reads.len() as int, stream.queue.len() as int)
            } else {
                Seq::empty()
            })
        }),
    decreases reads.len(),
{
    let read_event = |read: R| ReadableEvent::<T, Source, R, K, W>::Read(read);
    let events = reads.map_values(read_event);
    if reads.len() == 0 {
        assert(stream.run(events) == stream);
        assert(stream.queue.subrange(0, stream.queue.len() as int) =~= stream.queue);
        assert(stream.effects + Seq::<ReadableEffect<T, Source, R, K, W>>::new(
            0,
            |i: int| ReadableEffect::ReplyRead(reads[i], Ok(None)),
        ) =~= stream.effects);
        assert(stream.run(events).effects =~= stream.effects + Seq::new(
            reads.len(),
            |i: int|
                ReadableEffect::<T, Source, R, K, W>::ReplyRead(
                    reads[i],
                    if i < stream.queue.len() {
                        Ok(Some(stream.queue[i]))
                    } else {
                        Ok(None)
                    },
                ),
        ));
    } else {
        lemma_drain(stream, reads.drop_last());
        assert(events.drop_last() =~= reads.drop_last().map_values(read_event));
        let before = stream.run(events.drop_last());
        let after = stream.run(events);
        assert(after == before.read(reads.last()));
        assert(after.effects =~= stream.effects + Seq::new(
            reads.len(),
            |i: int|
                ReadableEffect::<T, Source, R, K, W>::ReplyRead(
                    reads[i],
                    if i < stream.queue.len() {
                        Ok(Some(stream.queue[i]))
                    } else {
                        Ok(None)
                    },
                ),
        ));
        if reads.len() <= stream.queue.len() {
            assert(after.queue =~= stream.queue.subrange(
                reads.len() as int,
                stream.queue.len() as int,
            ));
        } else {
            assert(after.queue =~= Seq::empty());
        }
    }
}

/// Reads from an errored stream fail with its error and change nothing else.
pub proof fn law_errored_stream_fails_reads<T, Source, S: QueuingStrategy<T>, R, K, W>(
    stream: ReadableModel<T, Source, S, R, K, W>,
    error: StreamError,
    read: R,
)
    requires
        stream.state != StreamState::Closed,
    ensures
        stream.error(error).read(read) == stream.error(error).emit(
            ReadableEffect::ReplyRead(read, Err(error)),
        ),
{
}

/// Cancelling discards what is queued, fails the reads that wait, and closes the stream; a second
/// cancellation is answered at once and changes nothing else; a read afterwards gets the end.
pub proof fn law_cancel_ends_the_stream<T, Source, S: QueuingStrategy<T>, R, K, W>(
    stream: ReadableModel<T, Source, S, R, K, W>,
    reason: Option<String>,
    first: K,
    second: K,
    read: R,
)
    requires
        stream.is_open(),
        !stream.cancel_requested,
    ensures
        ({
            let canceled = stream.cancel(reason, first);
            &&& canceled.state == StreamState::Closed
            &&& canceled.closed
            &&& canceled.queue.len() == 0
            &&& canceled.pending_reads.len() == 0
            &&& canceled.cancel(reason, second) == canceled.emit(
                ReadableEffect::ReplyCancel(second, Ok(())),
            )
            &&& canceled.read(read) == canceled.emit(ReadableEffect::ReplyRead(read, Ok(None)))
        }),
{
}

/// An open stream shows the room that its queue leaves: a new one does, and every event keeps it so.
pub proof fn law_room_is_shown<T, Source, S: QueuingStrategy<T>, R, K, W>(
    stream: ReadableModel<T, Source, S, R, K, W>,
    event: ReadableEvent<T, Source, R, K, W>,
    source: Source,
    strategy: S,
)
    requires
        stream.wf(),
        stream.allows(event),
        stream.shows_its_room(),
    ensures
        stream.step(event).shows_its_room(),
        ReadableModel::<T, Source, S, R, K, W>::initial(source, strategy).shows_its_room(),
{
}

/// The source is never asked for more before it has started, nor while it is being asked, nor once
/// the stream has ended, nor while chunks are queued and nobody waits.
pub proof fn law_pulls_are_wanted<T, Source, S: QueuingStrategy<T>, R, K, W>(
    stream: ReadableModel<T, Source, S, R, K, W>,
)
    requires
        stream.wf(),
    ensures
        stream.maybe_pull() != stream ==> {
            &&& stream.start == StartPhase::Succeeded
            &&& stream.is_open() && !stream.pulling && !stream.cancel_requested
            &&& stream.queue.len() == 0
            &&& stream.maybe_pull().pulling
            &&& stream.maybe_pull().maybe_pull() == stream.maybe_pull()
        },
{
}

} // verus!
