//! What holds of a writable stream whatever happens to it, and in whatever order.

use super::effect::{
    chunks, completions, wakes, writers, InFlightModel, PendingWrite, StreamCommand, StreamState,
    WritableEffect,
};
use super::model::{count_down, WritableModel};
use crate::error::{Notice, StreamError, StreamResult};
use crate::start::StartPhase;
use crate::strategy::{
    lemma_total_size_front, lemma_total_size_nonnegative, lemma_total_size_push, QueuingStrategy,
};
use vstd::prelude::*;

verus! {

/// Everything that can happen to a writable stream.
pub enum WritableEvent<T, Sink, C, W> {
    Command(StreamCommand<T, C, W>),
    /// A waker was registered; the set is now this one.
    ReadyWaker(Seq<W>),
    ClosedWaker(Seq<W>),
    ControllerError(String),
    Publish,
    StartBegun,
    StartFinished(Sink, StreamResult<()>),
    Advance,
    WriteFinished(Sink, StreamResult<()>),
    CloseFinished(StreamResult<()>),
    AbortFinished(StreamResult<()>),
}

impl<T, Sink, S: QueuingStrategy<T>, C, W> WritableModel<T, Sink, S, C, W> {
    /// Whether an event can happen: a chunk has to fit, and only what the sink is busy with can
    /// finish.
    pub open spec fn allows(self, event: WritableEvent<T, Sink, C, W>) -> bool {
        match event {
            WritableEvent::Command(command) => self.can_take(command),
            WritableEvent::StartFinished(_, _) => self.start == StartPhase::Running,
            WritableEvent::WriteFinished(_, _) => self.inflight is Some
                && self.inflight->0 is Write,
            WritableEvent::CloseFinished(_) => self.inflight is Some && self.inflight->0 is Close,
            WritableEvent::AbortFinished(_) => self.inflight is Some && self.inflight->0 is Abort,
            _ => true,
        }
    }

    /// What an event makes of the stream.
    pub open spec fn step(self, event: WritableEvent<T, Sink, C, W>) -> Self {
        match event {
            WritableEvent::Command(command) => self.command(command),
            WritableEvent::ReadyWaker(set) => self.ready_waker_registered(set).settle_flushes(),
            WritableEvent::ClosedWaker(set) => self.closed_waker_registered(set).settle_flushes(),
            WritableEvent::ControllerError(reason) => self.controller_error(reason),
            WritableEvent::Publish => self.publish(),
            WritableEvent::StartBegun => self.start_begun(),
            WritableEvent::StartFinished(sink, outcome) => self.start_finished(sink, outcome),
            WritableEvent::Advance => self.advance(),
            WritableEvent::WriteFinished(sink, outcome) => self.write_finished(sink, outcome),
            WritableEvent::CloseFinished(outcome) => self.close_finished(outcome),
            WritableEvent::AbortFinished(outcome) => self.abort_finished(outcome),
        }
    }

    /// What events, one after the other, make of the stream.
    pub open spec fn run(self, events: Seq<WritableEvent<T, Sink, C, W>>) -> Self
        decreases events.len(),
    {
        if events.len() == 0 {
            self
        } else {
            self.run(events.drop_last()).step(events.last())
        }
    }

    /// Whether each of the events can happen when its turn comes.
    pub open spec fn allows_all(self, events: Seq<WritableEvent<T, Sink, C, W>>) -> bool
        decreases events.len(),
    {
        events.len() > 0 ==> self.allows_all(events.drop_last()) && self.run(
            events.drop_last(),
        ).allows(events.last())
    }

    /// The chunks that were taken in by a sequence of events, in order.
    pub open spec fn accepted(self, events: Seq<WritableEvent<T, Sink, C, W>>) -> Seq<T>
        decreases events.len(),
    {
        if events.len() == 0 {
            Seq::empty()
        } else {
            let before = self.accepted(events.drop_last());
            let stream = self.run(events.drop_last());
            match events.last() {
                WritableEvent::Command(
                    StreamCommand::Write { chunk, .. },
                ) => if stream.is_open() && !stream.close_requested {
                    before.push(chunk)
                } else {
                    before
                },
                _ => before,
            }
        }
    }

    /// An open stream has backpressure exactly while its queue has reached the high water mark,
    /// and its handles see that and the size of the queue.
    pub open spec fn shows_load(self) -> bool {
        self.is_open() ==> {
            &&& self.backpressure <==> self.queue_total_size
                >= self.strategy.spec_high_water_mark()
            &&& self.published.backpressure == self.backpressure
            &&& self.published.queue_total_size == self.queue_total_size
        }
    }

    /// Handles see whether the stream has ended.
    pub open spec fn shows_end(self) -> bool {
        &&& self.published.closed <==> self.state == StreamState::Closed
        &&& self.published.errored <==> self.state == StreamState::Errored
    }
}

/// The chunks that the sink was given, in order.
pub open spec fn given<T, Sink, C, W>(effects: Seq<WritableEffect<T, Sink, C, W>>) -> Seq<T>
    decreases effects.len(),
{
    if effects.len() == 0 {
        Seq::empty()
    } else {
        let before = given(effects.drop_last());
        match effects.last() {
            WritableEffect::StartWrite(_, chunk) => before.push(chunk),
            _ => before,
        }
    }
}

proof fn lemma_push<T, Sink, C, W>(
    effects: Seq<WritableEffect<T, Sink, C, W>>,
    effect: WritableEffect<T, Sink, C, W>,
)
    ensures
        given(effects.push(effect)) == (match effect {
            WritableEffect::StartWrite(_, chunk) => given(effects).push(chunk),
            _ => given(effects),
        }),
{
    assert(effects.push(effect).drop_last() =~= effects);
}

proof fn lemma_append<T, Sink, C, W>(
    effects: Seq<WritableEffect<T, Sink, C, W>>,
    more: Seq<WritableEffect<T, Sink, C, W>>,
)
    requires
        forall|i: int| 0 <= i < more.len() ==> (#[trigger] more[i]) !is StartWrite,
    ensures
        given(effects + more) == given(effects),
    decreases more.len(),
{
    if more.len() == 0 {
        assert(effects + more =~= effects);
    } else {
        lemma_append(effects, more.drop_last());
        lemma_push(effects + more.drop_last(), more.last());
        assert(effects + more =~= (effects + more.drop_last()).push(more.last()));
    }
}

/// Publishing, waking and answering give the sink nothing.
proof fn lemma_quiet<T, Sink, S: QueuingStrategy<T>, C, W>(
    stream: WritableModel<T, Sink, S, C, W>,
    waiting: Seq<C>,
    outcome: StreamResult<()>,
)
    ensures
        given(stream.wake_closed().effects) == given(stream.effects),
        given(stream.wake_ready().effects) == given(stream.effects),
        given(stream.update_backpressure().effects) == given(stream.effects),
        given(stream.update_flags().effects) == given(stream.effects),
        given(stream.publish().effects) == given(stream.effects),
        given(stream.answer(waiting, outcome).effects) == given(stream.effects),
{
    lemma_append(stream.effects, wakes(stream.closed_wakers));
    lemma_append(stream.effects, wakes(stream.ready_wakers));
    lemma_append(stream.effects, completions(waiting, outcome));
    lemma_append(stream.wake_closed().effects, wakes(stream.ready_wakers));
}

/// Settling flushes touches flushes and answers only.
proof fn lemma_settle<T, Sink, S: QueuingStrategy<T>, C, W>(
    stream: WritableModel<T, Sink, S, C, W>,
)
    ensures
        ({
            let settled = stream.settle_flushes();
            &&& settled == (WritableModel {
                flush_completions: settled.flush_completions,
                pending_flush_commands: settled.pending_flush_commands,
                effects: settled.effects,
                ..stream
            })
            &&& given(settled.effects) == given(stream.effects)
        }),
    decreases stream.pending_flush_commands.len(),
{
    if stream.pending_flush_commands.len() > 0 {
        let rest = WritableModel {
            pending_flush_commands: stream.pending_flush_commands.drop_last(),
            ..stream
        };
        let completion = stream.pending_flush_commands.last();
        let next = rest.process_flush(completion);
        lemma_push(
            stream.effects,
            WritableEffect::Complete(completion, Err(stream.error_to_report())),
        );
        lemma_push(stream.effects, WritableEffect::Complete(completion, Ok(())));
        lemma_settle(next);
    }
}

/// Every event leaves a well-formed stream well formed.
pub proof fn law_well_formed<T, Sink, S: QueuingStrategy<T>, C, W>(
    stream: WritableModel<T, Sink, S, C, W>,
    event: WritableEvent<T, Sink, C, W>,
)
    requires
        stream.wf(),
        stream.allows(event),
    ensures
        stream.step(event).wf(),
{
    match event {
        WritableEvent::Command(StreamCommand::Write { chunk, completion }) => {
            lemma_total_size_push(stream.strategy, chunks(stream.queue), chunk);
            assert(chunks(stream.queue.push(PendingWrite { chunk, completion })) =~= chunks(
                stream.queue,
            ).push(chunk));
            lemma_settle_wf(stream.write(chunk, completion));
        },
        WritableEvent::Command(StreamCommand::Close { completion }) => {
            lemma_settle_wf(stream.close(completion));
        },
        WritableEvent::Command(StreamCommand::Abort { reason, completion }) => {
            lemma_settle_wf(stream.abort(reason, completion));
        },
        WritableEvent::Command(StreamCommand::Flush { completion }) => {
            lemma_settle_wf(stream.flush(completion));
        },
        WritableEvent::Command(_) => {
            lemma_settle_wf(stream);
        },
        WritableEvent::ReadyWaker(set) => {
            lemma_settle_wf(stream.ready_waker_registered(set));
        },
        WritableEvent::ClosedWaker(set) => {
            lemma_settle_wf(stream.closed_waker_registered(set));
        },
        WritableEvent::Advance => {
            lemma_advance_wf(stream);
        },
        WritableEvent::WriteFinished(_, _) => {
            law_each_write_counts_once(stream.flush_completions);
        },
        _ => {},
    }
}

proof fn lemma_advance_wf<T, Sink, S: QueuingStrategy<T>, C, W>(
    stream: WritableModel<T, Sink, S, C, W>,
)
    requires
        stream.wf(),
    ensures
        stream.advance().wf(),
{
    let ending = stream.signal_abort().start_ending();
    assert(ending.wf());
    if ending.queue.len() > 0 {
        let tail = ending.queue.subrange(1, ending.queue.len() as int);
        lemma_total_size_front(ending.strategy, chunks(ending.queue));
        assert(chunks(ending.queue).subrange(1, ending.queue.len() as int) =~= chunks(tail));
        lemma_total_size_nonnegative(ending.strategy, chunks(tail));
    }
}

proof fn lemma_settle_wf<T, Sink, S: QueuingStrategy<T>, C, W>(
    stream: WritableModel<T, Sink, S, C, W>,
)
    requires
        stream.wf(),
    ensures
        stream.settle_flushes().wf(),
    decreases stream.pending_flush_commands.len(),
{
    if stream.pending_flush_commands.len() > 0 {
        let rest = WritableModel {
            pending_flush_commands: stream.pending_flush_commands.drop_last(),
            ..stream
        };
        lemma_settle_wf(rest.process_flush(stream.pending_flush_commands.last()));
    }
}

/// A stream that has ended never takes writes again.
pub proof fn law_ended_stays_ended<T, Sink, S: QueuingStrategy<T>, C, W>(
    stream: WritableModel<T, Sink, S, C, W>,
    event: WritableEvent<T, Sink, C, W>,
)
    requires
        !stream.is_open(),
    ensures
        !stream.step(event).is_open(),
{
    match event {
        WritableEvent::Command(StreamCommand::Write { chunk, completion }) => {
            lemma_settle(stream.write(chunk, completion));
        },
        WritableEvent::Command(StreamCommand::Close { completion }) => {
            lemma_settle(stream.close(completion));
        },
        WritableEvent::Command(StreamCommand::Abort { reason, completion }) => {
            lemma_settle(stream.abort(reason, completion));
        },
        WritableEvent::Command(StreamCommand::Flush { completion }) => {
            lemma_settle(stream.flush(completion));
        },
        WritableEvent::Command(_) => {
            lemma_settle(stream);
        },
        WritableEvent::ReadyWaker(set) => {
            lemma_settle(stream.ready_waker_registered(set));
        },
        WritableEvent::ClosedWaker(set) => {
            lemma_settle(stream.closed_waker_registered(set));
        },
        _ => {},
    }
}

/// What begins by itself gives the sink the first queued chunk, if anything.
proof fn lemma_advance<T, Sink, S: QueuingStrategy<T>, C, W>(
    stream: WritableModel<T, Sink, S, C, W>,
)
    ensures
        ({
            let next = stream.advance();
            &&& next.is_open() ==> stream.is_open() && given(next.effects) + chunks(next.queue)
                == given(stream.effects) + chunks(stream.queue)
            &&& !next.is_open() ==> given(next.effects) == given(stream.effects)
        }),
{
    let told = stream.emit(WritableEffect::RequestAbort);
    lemma_push(stream.effects, WritableEffect::RequestAbort);
    let signaled = stream.signal_abort();
    match stream.inflight {
        Some(InFlightModel::Write { completion: Some(completion) }) => {
            lemma_push(
                told.effects,
                WritableEffect::Complete(completion, Err(StreamError::Aborted(None))),
            );
        },
        Some(InFlightModel::Close { completions: waiting }) => {
            lemma_append(told.effects, completions(waiting, Err(StreamError::Aborted(None))));
        },
        _ => {},
    }
    assert(given(signaled.effects) == given(stream.effects));
    assert(signaled.queue == stream.queue && signaled.state == stream.state);
    let ending = signaled.start_ending();
    lemma_start_ending(signaled);
    let next = ending.start_write();
    if !(ending.inflight is Some || !ending.is_open() || ending.queue.len() == 0) {
        let write = ending.queue[0];
        let taken = WritableModel {
            queue: ending.queue.subrange(1, ending.queue.len() as int),
            queue_total_size: (ending.queue_total_size - ending.strategy.spec_size(
                &write.chunk,
            )) as usize,
            ..ending
        };
        lemma_quiet(taken, Seq::empty(), Ok(()));
        lemma_quiet(taken.update_backpressure(), Seq::empty(), Ok(()));
        let published = taken.update_backpressure().publish();
        match ending.sink {
            Some(sink) => {
                lemma_push(published.effects, WritableEffect::StartWrite(sink, write.chunk));
                assert(given(next.effects) + chunks(next.queue) =~= given(stream.effects) + chunks(
                    stream.queue,
                ));
            },
            None => {
                lemma_push(
                    published.effects,
                    WritableEffect::Complete(
                        write.completion,
                        Err(StreamError::notice(Notice::SinkMissing)),
                    ),
                );
            },
        }
    }
}

proof fn lemma_start_ending<T, Sink, S: QueuingStrategy<T>, C, W>(
    stream: WritableModel<T, Sink, S, C, W>,
)
    ensures
        ({
            let next = stream.start_ending();
            &&& given(next.effects) == given(stream.effects)
            &&& next.queue == stream.queue
            &&& next.is_open() ==> stream.is_open()
            &&& next.is_open() && next.inflight is None ==> next.sink == stream.sink
            &&& stream.inflight is Some ==> next == stream
        }),
{
    if stream.inflight is None {
        if stream.close_requested {
            if stream.queue.len() == 0 {
                match stream.sink {
                    Some(sink) => {
                        lemma_push(stream.effects, WritableEffect::StartClose(sink));
                    },
                    None => {
                        let closed = WritableModel {
                            state: StreamState::Closed,
                            close_requested: false,
                            ..stream
                        };
                        lemma_quiet(closed, Seq::empty(), Ok(()));
                        lemma_quiet(closed.update_flags(), stream.close_completions, Ok(()));
                    },
                }
            }
        } else if stream.abort_requested {
            match stream.sink {
                Some(sink) => {
                    lemma_push(
                        stream.effects,
                        WritableEffect::StartAbort(sink, stream.abort_reason),
                    );
                },
                None => {
                    let done = WritableModel { abort_requested: false, ..stream };
                    lemma_quiet(done, Seq::empty(), Ok(()));
                    lemma_quiet(done.update_flags(), stream.abort_completions, Ok(()));
                },
            }
        }
    }
}

/// The sink is given the chunks in the order in which they were written: a write that is taken in
/// goes behind all the others, and as long as the stream stays open no other event changes what
/// the sink was given followed by what is still queued.  An event that ends the stream gives the
/// sink nothing.
pub proof fn law_writes_keep_their_order<T, Sink, S: QueuingStrategy<T>, C, W>(
    stream: WritableModel<T, Sink, S, C, W>,
    event: WritableEvent<T, Sink, C, W>,
)
    requires
        stream.allows(event),
        stream.inflight is Some && stream.inflight->0 is Abort ==> !stream.is_open(),
    ensures
        ({
            let next = stream.step(event);
            &&& next.is_open() ==> stream.is_open() && given(next.effects) + chunks(next.queue) == (
            match event {
                WritableEvent::Command(
                    StreamCommand::Write { chunk, .. },
                ) => if stream.close_requested {
                    given(stream.effects) + chunks(stream.queue)
                } else {
                    (given(stream.effects) + chunks(stream.queue)).push(chunk)
                },
                _ => given(stream.effects) + chunks(stream.queue),
            })
            &&& !next.is_open() ==> given(next.effects) == given(stream.effects)
        }),
{
    if !stream.is_open() {
        law_ended_stays_ended(stream, event);
    }
    match event {
        WritableEvent::Command(StreamCommand::Write { chunk, completion }) => {
            lemma_settle(stream.write(chunk, completion));
            if stream.is_open() && !stream.close_requested {
                let queued = WritableModel {
                    queue: stream.queue.push(PendingWrite { chunk, completion }),
                    queue_total_size: (stream.queue_total_size + stream.strategy.spec_size(
                        &chunk,
                    )) as usize,
                    ..stream
                };
                lemma_quiet(queued, Seq::empty(), Ok(()));
                lemma_quiet(queued.update_backpressure(), Seq::empty(), Ok(()));
                assert(given(stream.effects) + chunks(queued.queue) =~= (given(stream.effects)
                    + chunks(stream.queue)).push(chunk));
            } else {
                lemma_push(
                    stream.effects,
                    WritableEffect::Complete(completion, Err(stream.error_to_report())),
                );
                lemma_push(
                    stream.effects,
                    WritableEffect::Complete(completion, Err(StreamError::Closed)),
                );
                lemma_push(
                    stream.effects,
                    WritableEffect::Complete(completion, Err(StreamError::Closing)),
                );
            }
        },
        WritableEvent::Command(StreamCommand::Close { completion }) => {
            lemma_settle(stream.close(completion));
            lemma_push(
                stream.effects,
                WritableEffect::Complete(completion, Err(stream.error_to_report())),
            );
            lemma_push(stream.effects, WritableEffect::Complete(completion, Ok(())));
            lemma_quiet(
                WritableModel {
                    close_requested: true,
                    close_completions: stream.close_completions.push(completion),
                    ..stream
                },
                Seq::empty(),
                Ok(()),
            );
        },
        WritableEvent::Command(StreamCommand::Abort { reason, completion }) => {
            lemma_settle(stream.abort(reason, completion));
            lemma_push(stream.effects, WritableEffect::Complete(completion, Ok(())));
            lemma_quiet(
                WritableModel {
                    abort_completions: stream.abort_completions.push(completion),
                    ..stream
                },
                Seq::empty(),
                Ok(()),
            );
            let aborted = WritableModel {
                state: StreamState::Errored,
                stored_error: Some(StreamError::Aborted(reason)),
                abort_requested: true,
                abort_completions: stream.abort_completions.push(completion),
                abort_reason: reason,
                queue: Seq::empty(),
                ..stream
            };
            let refused = aborted.answer(
                writers(stream.queue),
                Err(StreamError::Aborted(reason)),
            );
            lemma_quiet(aborted, writers(stream.queue), Err(StreamError::Aborted(reason)));
            lemma_quiet(refused, Seq::empty(), Ok(()));
        },
        WritableEvent::Command(StreamCommand::Flush { completion }) => {
            lemma_settle(stream.flush(completion));
            lemma_push(
                stream.effects,
                WritableEffect::Complete(completion, Err(stream.error_to_report())),
            );
        },
        WritableEvent::Command(_) => {
            lemma_settle(stream);
        },
        WritableEvent::ReadyWaker(set) => {
            lemma_settle(stream.ready_waker_registered(set));
            lemma_quiet(WritableModel { ready_wakers: set, ..stream }, Seq::empty(), Ok(()));
        },
        WritableEvent::ClosedWaker(set) => {
            lemma_settle(stream.closed_waker_registered(set));
            lemma_quiet(WritableModel { closed_wakers: set, ..stream }, Seq::empty(), Ok(()));
        },
        WritableEvent::ControllerError(reason) => {
            let failed = WritableModel {
                state: StreamState::Errored,
                abort_reason: Some(reason),
                queue: Seq::empty(),
                queue_total_size: 0,
                ..stream
            };
            lemma_quiet(failed, Seq::empty(), Ok(()));
            lemma_quiet(failed.wake_ready(), Seq::empty(), Ok(()));
        },
        WritableEvent::Publish => {
            lemma_quiet(stream, Seq::empty(), Ok(()));
        },
        WritableEvent::StartBegun => {},
        WritableEvent::StartFinished(sink, outcome) => {
            match outcome {
                Ok(_) => {},
                Err(error) => {
                    lemma_quiet(
                        WritableModel {
                            state: StreamState::Errored,
                            stored_error: Some(error),
                            sink: None,
                            ..stream
                        },
                        Seq::empty(),
                        Ok(()),
                    );
                },
            }
        },
        WritableEvent::Advance => {
            lemma_advance(stream);
        },
        WritableEvent::WriteFinished(sink, outcome) => {
            lemma_write_finished(stream, sink, outcome);
        },
        WritableEvent::CloseFinished(outcome) => {
            let ended = WritableModel {
                close_requested: false,
                ..match outcome {
                    Ok(()) => WritableModel { state: StreamState::Closed, ..stream },
                    Err(error) => WritableModel {
                        state: StreamState::Errored,
                        stored_error: Some(error),
                        ..stream
                    },
                }
            }.drained();
            lemma_finishing(ended, waiting_for(stream), outcome);
        },
        WritableEvent::AbortFinished(outcome) => {
            let ended = WritableModel {
                abort_requested: false,
                ..match outcome {
                    Ok(()) => stream,
                    Err(error) => WritableModel { stored_error: Some(error), ..stream },
                }
            }.drained();
            lemma_finishing(ended, waiting_for(stream), outcome);
        },
    }
}

/// Who waits for what the sink is busy with.
spec fn waiting_for<T, Sink, S: QueuingStrategy<T>, C, W>(
    stream: WritableModel<T, Sink, S, C, W>,
) -> Seq<C> {
    match stream.inflight {
        Some(InFlightModel::Write { completion: Some(completion) }) => seq![completion],
        Some(InFlightModel::Close { completions }) => completions,
        Some(InFlightModel::Abort { completions }) => completions,
        _ => Seq::empty(),
    }
}

proof fn lemma_finishing<T, Sink, S: QueuingStrategy<T>, C, W>(
    stream: WritableModel<T, Sink, S, C, W>,
    waiting: Seq<C>,
    outcome: StreamResult<()>,
)
    ensures
        given(stream.publish().answer(waiting, outcome).effects) == given(stream.effects),
        given(
            stream.publish().answer(waiting, outcome).effects.push(WritableEffect::Repoll),
        ) == given(stream.effects),
{
    lemma_quiet(stream, Seq::empty(), Ok(()));
    lemma_quiet(stream.publish(), waiting, outcome);
    lemma_push(stream.publish().answer(waiting, outcome).effects, WritableEffect::Repoll);
}

proof fn lemma_write_finished<T, Sink, S: QueuingStrategy<T>, C, W>(
    stream: WritableModel<T, Sink, S, C, W>,
    sink: Sink,
    outcome: StreamResult<()>,
)
    requires
        stream.allows(WritableEvent::WriteFinished(sink, outcome)),
    ensures
        ({
            let next = stream.write_finished(sink, outcome);
            &&& given(next.effects) == given(stream.effects)
            &&& next.queue == stream.queue
        }),
{
    let counted = stream.count_write();
    lemma_append(
        stream.effects,
        completions(count_down(stream.flush_completions, 0).1, Ok(())),
    );
    let waiting = waiting_for(stream);
    if stream.abort_requested {
        lemma_quiet(counted, waiting, Err(StreamError::Aborted(None)));
        lemma_push(
            counted.answer(waiting, Err(StreamError::Aborted(None))).effects,
            WritableEffect::StartAbort(sink, stream.abort_reason),
        );
    } else {
        let kept = match outcome {
            Ok(()) => WritableModel { sink: Some(sink), ..counted },
            Err(error) => WritableModel {
                stored_error: Some(error),
                state: StreamState::Errored,
                ..counted
            },
        };
        lemma_quiet(kept, Seq::empty(), Ok(()));
        lemma_finishing(kept.update_backpressure(), waiting, outcome);
    }
}

/// Whatever happens to a new stream, the sink is given the beginning of what was taken in, in the
/// same order; and while the stream is open the rest is queued.
pub proof fn law_the_sink_gets_what_was_written<T, Sink, S: QueuingStrategy<T>, C, W>(
    sink: Sink,
    strategy: S,
    events: Seq<WritableEvent<T, Sink, C, W>>,
)
    requires
        WritableModel::<T, Sink, S, C, W>::initial(sink, strategy).allows_all(events),
    ensures
        ({
            let initial = WritableModel::<T, Sink, S, C, W>::initial(sink, strategy);
            let stream = initial.run(events);
            let accepted = initial.accepted(events);
            &&& given(stream.effects).len() <= accepted.len()
            &&& given(stream.effects) == accepted.subrange(0, given(stream.effects).len() as int)
            &&& stream.is_open() ==> accepted == given(stream.effects) + chunks(stream.queue)
            &&& stream.inflight is Some && stream.inflight->0 is Abort ==> !stream.is_open()
            &&& stream.abort_requested ==> !stream.is_open()
        }),
    decreases events.len(),
{
    let initial = WritableModel::<T, Sink, S, C, W>::initial(sink, strategy);
    let stream = initial.run(events);
    let accepted = initial.accepted(events);
    if events.len() == 0 {
        assert(accepted =~= given(stream.effects) + chunks(stream.queue));
        assert(accepted.subrange(0, 0) =~= given(stream.effects));
    } else {
        let earlier = events.drop_last();
        let event = events.last();
        let before = initial.run(earlier);
        law_the_sink_gets_what_was_written(sink, strategy, earlier);
        law_writes_keep_their_order(before, event);
        lemma_abort_flags(before, event);
        if stream.is_open() {
            assert(accepted.subrange(0, given(stream.effects).len() as int) =~= given(
                stream.effects,
            ));
        } else {
            assert(accepted.subrange(0, given(stream.effects).len() as int)
                =~= initial.accepted(earlier).subrange(0, given(before.effects).len() as int));
        }
    }
}

/// An abort waits or runs only once the stream has ended.
proof fn lemma_abort_flags<T, Sink, S: QueuingStrategy<T>, C, W>(
    stream: WritableModel<T, Sink, S, C, W>,
    event: WritableEvent<T, Sink, C, W>,
)
    requires
        stream.inflight is Some && stream.inflight->0 is Abort ==> !stream.is_open(),
        stream.abort_requested ==> !stream.is_open(),
    ensures
        ({
            let next = stream.step(event);
            &&& next.inflight is Some && next.inflight->0 is Abort ==> !next.is_open()
            &&& next.abort_requested ==> !next.is_open()
        }),
{
    match event {
        WritableEvent::Command(StreamCommand::Write { chunk, completion }) => {
            lemma_settle(stream.write(chunk, completion));
        },
        WritableEvent::Command(StreamCommand::Close { completion }) => {
            lemma_settle(stream.close(completion));
        },
        WritableEvent::Command(StreamCommand::Abort { reason, completion }) => {
            lemma_settle(stream.abort(reason, completion));
        },
        WritableEvent::Command(StreamCommand::Flush { completion }) => {
            lemma_settle(stream.flush(completion));
        },
        WritableEvent::Command(_) => {
            lemma_settle(stream);
        },
        WritableEvent::ReadyWaker(set) => {
            lemma_settle(stream.ready_waker_registered(set));
        },
        WritableEvent::ClosedWaker(set) => {
            lemma_settle(stream.closed_waker_registered(set));
        },
        _ => {},
    }
}

/// An open stream begins to close its sink only when the sink is idle and has been given everything
/// that was taken in; and from the request to close on nothing more is taken in.
pub proof fn law_a_close_comes_after_the_writes<T, Sink, S: QueuingStrategy<T>, C, W>(
    sink: Sink,
    strategy: S,
    events: Seq<WritableEvent<T, Sink, C, W>>,
    more: WritableEvent<T, Sink, C, W>,
)
    requires
        WritableModel::<T, Sink, S, C, W>::initial(sink, strategy).allows_all(events),
    ensures
        ({
            let initial = WritableModel::<T, Sink, S, C, W>::initial(sink, strategy);
            let stream = initial.run(events);
            let next = stream.advance();
            &&& stream.is_open() && next.inflight != stream.inflight && next.inflight->0 is Close
                ==> {
                &&& stream.inflight is None
                &&& given(stream.effects) == initial.accepted(events)
            }
            &&& stream.close_requested ==> initial.accepted(events.push(more))
                == initial.accepted(events)
        }),
{
    let initial = WritableModel::<T, Sink, S, C, W>::initial(sink, strategy);
    let stream = initial.run(events);
    law_the_sink_gets_what_was_written(sink, strategy, events);
    if stream.queue.len() == 0 {
        assert(given(stream.effects) + chunks(stream.queue) =~= given(stream.effects));
    }
    assert(events.push(more).drop_last() =~= events);
}

/// Backpressure and the size of the queue are shown truthfully after every event, if they were
/// before; a new stream with a high water mark above zero shows them truthfully.
pub proof fn law_load_is_shown<T, Sink, S: QueuingStrategy<T>, C, W>(
    stream: WritableModel<T, Sink, S, C, W>,
    event: WritableEvent<T, Sink, C, W>,
    sink: Sink,
    strategy: S,
)
    requires
        stream.allows(event),
        stream.inflight is Some && stream.inflight->0 is Abort ==> !stream.is_open(),
        stream.shows_load(),
    ensures
        stream.step(event).shows_load(),
        strategy.spec_high_water_mark() > 0 ==> WritableModel::<T, Sink, S, C, W>::initial(
            sink,
            strategy,
        ).shows_load(),
{
    if !stream.is_open() {
        law_ended_stays_ended(stream, event);
    }
    match event {
        WritableEvent::Command(StreamCommand::Write { chunk, completion }) => {
            lemma_settle(stream.write(chunk, completion));
        },
        WritableEvent::Command(StreamCommand::Close { completion }) => {
            lemma_settle(stream.close(completion));
        },
        WritableEvent::Command(StreamCommand::Abort { reason, completion }) => {
            lemma_settle(stream.abort(reason, completion));
        },
        WritableEvent::Command(StreamCommand::Flush { completion }) => {
            lemma_settle(stream.flush(completion));
        },
        WritableEvent::Command(_) => {
            lemma_settle(stream);
        },
        WritableEvent::ReadyWaker(set) => {
            lemma_settle(stream.ready_waker_registered(set));
        },
        WritableEvent::ClosedWaker(set) => {
            lemma_settle(stream.closed_waker_registered(set));
        },
        _ => {},
    }
}

/// Handles see how the stream has ended after every event, if they did before, but for two: an error
/// of the controller, and a write whose turn comes without a sink, which are shown when the stream
/// is next published.  A new stream shows that it is open.
pub proof fn law_the_end_is_shown<T, Sink, S: QueuingStrategy<T>, C, W>(
    stream: WritableModel<T, Sink, S, C, W>,
    event: WritableEvent<T, Sink, C, W>,
    sink: Sink,
    strategy: S,
)
    requires
        stream.allows(event),
        stream.shows_end(),
        !(event is ControllerError),
        event is Advance ==> stream.sink is Some || stream.queue.len() == 0 || stream.inflight
            is Some,
    ensures
        stream.step(event).shows_end(),
        WritableModel::<T, Sink, S, C, W>::initial(sink, strategy).shows_end(),
{
    match event {
        WritableEvent::Command(StreamCommand::Write { chunk, completion }) => {
            lemma_settle(stream.write(chunk, completion));
        },
        WritableEvent::Command(StreamCommand::Close { completion }) => {
            lemma_settle(stream.close(completion));
        },
        WritableEvent::Command(StreamCommand::Abort { reason, completion }) => {
            lemma_settle(stream.abort(reason, completion));
        },
        WritableEvent::Command(StreamCommand::Flush { completion }) => {
            lemma_settle(stream.flush(completion));
        },
        WritableEvent::Command(_) => {
            lemma_settle(stream);
        },
        WritableEvent::ReadyWaker(set) => {
            lemma_settle(stream.ready_waker_registered(set));
        },
        WritableEvent::ClosedWaker(set) => {
            lemma_settle(stream.closed_waker_registered(set));
        },
        _ => {},
    }
}

/// Publishing shows handles whether the stream has ended, whether there is backpressure and how much
/// is queued; nobody who waited for what is shown is left waiting; and publishing again changes
/// nothing.
pub proof fn law_publishing_shows_everything<T, Sink, S: QueuingStrategy<T>, C, W>(
    stream: WritableModel<T, Sink, S, C, W>,
)
    ensures
        ({
            let shown = stream.publish();
            &&& shown.shows_end()
            &&& shown.published.backpressure == stream.backpressure
            &&& shown.published.queue_total_size == stream.queue_total_size
            &&& !stream.is_open() ==> shown.closed_wakers.len() == 0
            &&& !stream.backpressure ==> shown.ready_wakers.len() == 0
            &&& shown.publish() == shown
        }),
{
    let shown = stream.publish();
    assert(shown.publish() =~= shown);
}

/// A write that is refused is answered at once, with the error of an errored stream, with
/// `Closed` by a closed one and with `Closing` by one that is about to close; nothing else
/// changes.
pub proof fn law_refused_writes_are_answered<T, Sink, S: QueuingStrategy<T>, C, W>(
    stream: WritableModel<T, Sink, S, C, W>,
    chunk: T,
    completion: C,
)
    requires
        !stream.is_open() || stream.close_requested,
    ensures
        stream.write(chunk, completion) == stream.emit(
            WritableEffect::Complete(
                completion,
                Err(
                    if stream.state == StreamState::Errored {
                        stream.error_to_report()
                    } else if stream.state == StreamState::Closed {
                        StreamError::Closed
                    } else {
                        StreamError::Closing
                    },
                ),
            ),
        ),
{
}

/// Closing a stream that has closed, or aborting one that has ended, is answered with success and
/// changes nothing else.
pub proof fn law_ending_twice_is_harmless<T, Sink, S: QueuingStrategy<T>, C, W>(
    stream: WritableModel<T, Sink, S, C, W>,
    outcome: StreamResult<()>,
    reason: Option<String>,
    completion: C,
)
    requires
        stream.inflight is Some,
        stream.inflight->0 is Close,
    ensures
        outcome is Ok ==> stream.close_finished(outcome).close(completion)
            == stream.close_finished(outcome).emit(WritableEffect::Complete(completion, Ok(()))),
        stream.close_finished(outcome).abort(reason, completion) == stream.close_finished(
            outcome,
        ).emit(WritableEffect::Complete(completion, Ok(()))),
{
}

/// Aborting an open stream refuses every queued write with the reason, in order, and ends the
/// stream at once.
pub proof fn law_abort_refuses_queued_writes<T, Sink, S: QueuingStrategy<T>, C, W>(
    stream: WritableModel<T, Sink, S, C, W>,
    reason: Option<String>,
    completion: C,
)
    requires
        stream.is_open(),
        !stream.abort_requested,
    ensures
        ({
            let aborted = stream.abort(reason, completion);
            &&& aborted.state == StreamState::Errored
            &&& aborted.published.errored
            &&& aborted.queue.len() == 0
            &&& aborted.abort_completions == stream.abort_completions.push(completion)
            &&& aborted.effects.len() >= stream.effects.len() + stream.queue.len()
            &&& forall|i: int|
                0 <= i < stream.queue.len() ==> #[trigger] aborted.effects[stream.effects.len() + i]
                    == WritableEffect::<T, Sink, C, W>::Complete(
                    stream.queue[i].completion,
                    Err(StreamError::Aborted(reason)),
                )
        }),
{
}

/// A flush waits for exactly the writes that are under way; with none under way it is done.
pub proof fn law_flush_waits_for_the_writes_under_way<T, Sink, S: QueuingStrategy<T>, C, W>(
    stream: WritableModel<T, Sink, S, C, W>,
    completion: C,
)
    requires
        stream.wf(),
        stream.state != StreamState::Errored,
        stream.pending_flush_commands.len() == 0,
    ensures
        stream.command(StreamCommand::Flush { completion }) == (if stream.writes_under_way() == 0 {
            stream.emit(WritableEffect::Complete(completion, Ok(())))
        } else {
            WritableModel {
                flush_completions: stream.flush_completions.push(
                    (completion, stream.writes_under_way() as usize),
                ),
                ..stream
            }
        }),
{
    let noted = stream.flush(completion);
    assert(noted.pending_flush_commands.drop_last() =~= stream.pending_flush_commands);
    let rest = WritableModel {
        pending_flush_commands: noted.pending_flush_commands.drop_last(),
        ..noted
    };
    assert(rest == stream);
    reveal_with_fuel(WritableModel::settle_flushes, 2);
}

/// When a write finishes, each waiting flush waits for one write less, and exactly those that
/// waited for the last one are answered.
pub proof fn law_each_write_counts_once<C>(flushes: Seq<(C, usize)>)
    requires
        forall|i: int| 0 <= i < flushes.len() ==> (#[trigger] flushes[i]).1 >= 1,
    ensures
        ({
            let (left, done) = count_down(flushes, 0);
            &&& left.len() + done.len() == flushes.len()
            &&& forall|i: int|
                0 <= i < flushes.len() ==> {
                    let flush = #[trigger] flushes[i];
                    if flush.1 == 1 {
                        done.contains(flush.0)
                    } else {
                        left.contains((flush.0, (flush.1 - 1) as usize))
                    }
                }
            &&& forall|i: int|
                0 <= i < left.len() ==> flushes.contains(
                    ((#[trigger] left[i]).0, (left[i].1 + 1) as usize),
                ) && left[i].1 >= 1
            &&& forall|i: int|
                0 <= i < done.len() ==> flushes.contains((#[trigger] done[i], 1usize))
        }),
{
    lemma_count_down(flushes, 0);
    let (left, done) = count_down(flushes, 0);
    assert forall|i: int| 0 <= i < flushes.len() implies ({
        let flush = #[trigger] flushes[i];
        if flush.1 == 1 {
            done.contains(flush.0)
        } else {
            left.contains((flush.0, (flush.1 - 1) as usize))
        }
    }) by {}
}

proof fn lemma_count_down<C>(flushes: Seq<(C, usize)>, from: int)
    requires
        0 <= from <= flushes.len(),
        forall|i: int| 0 <= i < flushes.len() ==> (#[trigger] flushes[i]).1 >= 1,
    ensures
        ({
            let (left, done) = count_down(flushes, from);
            &&& left.len() + done.len() == flushes.len()
            &&& from <= left.len()
            &&& forall|i: int| 0 <= i < from ==> #[trigger] left[i] == flushes[i]
            &&& forall|i: int|
                from <= i < flushes.len() && (#[trigger] flushes[i]).1 == 1 ==> done.contains(
                    flushes[i].0,
                )
            &&& forall|i: int|
                from <= i < flushes.len() && (#[trigger] flushes[i]).1 != 1 ==> left.contains(
                    (flushes[i].0, (flushes[i].1 - 1) as usize),
                )
            &&& forall|i: int|
                from <= i < left.len() ==> (#[trigger] left[i]).1 >= 1 && exists|j: int|
                    from <= j < flushes.len() && #[trigger] flushes[j] == (
                        left[i].0,
                        (left[i].1 + 1) as usize,
                    )
            &&& forall|i: int|
                0 <= i < done.len() ==> exists|j: int|
                    from <= j < flushes.len() && #[trigger] flushes[j] == (
                        #[trigger] done[i],
                        1usize,
                    )
        }),
    decreases flushes.len() - from,
{
    let (left, done) = count_down(flushes, from);
    if from < flushes.len() {
        if flushes[from].1 == 1 {
            let shorter = flushes.update(from, flushes.last()).drop_last();
            lemma_count_down(shorter, from);
            let (left1, done1) = count_down(shorter, from);
            assert(done[0] == flushes[from].0);
            assert forall|i: int|
                from <= i < flushes.len() && (#[trigger] flushes[i]).1 == 1 implies done.contains(
                flushes[i].0,
            ) by {
                if i == from {
                } else if i < flushes.len() - 1 {
                    assert(shorter[i] == flushes[i]);
                    let k = done1.index_of(flushes[i].0);
                    assert(done[k + 1] == flushes[i].0);
                } else {
                    assert(shorter[from] == flushes[i]);
                    let k = done1.index_of(flushes[i].0);
                    assert(done[k + 1] == flushes[i].0);
                }
            }
            assert forall|i: int|
                from <= i < flushes.len() && (#[trigger] flushes[i]).1 != 1 implies left.contains(
                (flushes[i].0, (flushes[i].1 - 1) as usize),
            ) by {
                if i < flushes.len() - 1 {
                    assert(shorter[i] == flushes[i]);
                } else {
                    assert(shorter[from] == flushes[i]);
                }
            }
            assert forall|i: int| from <= i < left.len() implies (#[trigger] left[i]).1 >= 1
                && exists|j: int|
                from <= j < flushes.len() && #[trigger] flushes[j] == (
                    left[i].0,
                    (left[i].1 + 1) as usize,
                ) by {
                let j = choose|j: int|
                    from <= j < shorter.len() && #[trigger] shorter[j] == (
                        left[i].0,
                        (left[i].1 + 1) as usize,
                    );
                if j == from {
                    assert(flushes[flushes.len() - 1] == shorter[j]);
                } else {
                    assert(flushes[j] == shorter[j]);
                }
            }
            assert forall|i: int| 0 <= i < done.len() implies exists|j: int|
                from <= j < flushes.len() && #[trigger] flushes[j] == (#[trigger] done[i], 1usize) by {
                if i == 0 {
                    assert(flushes[from] == (done[i], 1usize));
                } else {
                    assert(done1[i - 1] == done[i]);
                    let j = choose|j: int|
                        from <= j < shorter.len() && #[trigger] shorter[j] == (done1[i - 1], 1usize);
                    if j == from {
                        assert(flushes[flushes.len() - 1] == shorter[j]);
                    } else {
                        assert(flushes[j] == shorter[j]);
                    }
                }
            }
        } else {
            let counted = flushes.update(from, (flushes[from].0, (flushes[from].1 - 1) as usize));
            lemma_count_down(counted, from + 1);
            assert(left[from] == counted[from]);
            assert forall|i: int|
                from <= i < flushes.len() && (#[trigger] flushes[i]).1 == 1 implies done.contains(
                flushes[i].0,
            ) by {
                assert(counted[i] == flushes[i]);
            }
            assert forall|i: int|
                from <= i < flushes.len() && (#[trigger] flushes[i]).1 != 1 implies left.contains(
                (flushes[i].0, (flushes[i].1 - 1) as usize),
            ) by {
                if i > from {
                    assert(counted[i] == flushes[i]);
                }
            }
            assert forall|i: int| from <= i < left.len() implies (#[trigger] left[i]).1 >= 1
                && exists|j: int|
                from <= j < flushes.len() && #[trigger] flushes[j] == (
                    left[i].0,
                    (left[i].1 + 1) as usize,
                ) by {
                if i == from {
                    assert(flushes[from] == (left[i].0, (left[i].1 + 1) as usize));
                } else {
                    let j = choose|j: int|
                        from + 1 <= j < counted.len() && #[trigger] counted[j] == (
                            left[i].0,
                            (left[i].1 + 1) as usize,
                        );
                    assert(flushes[j] == counted[j]);
                }
            }
            assert forall|i: int| 0 <= i < done.len() implies exists|j: int|
                from <= j < flushes.len() && #[trigger] flushes[j] == (#[trigger] done[i], 1usize) by {
                let j = choose|j: int|
                    from + 1 <= j < counted.len() && #[trigger] counted[j] == (done[i], 1usize);
                assert(flushes[j] == counted[j]);
            }
        }
    }
}

} // verus!
