//! A write succeeds only when the sink has done it.

use super::answers::{asks, flushers, lemma_count_down_keeps};
use super::effect::{
    completions, wakes, writers, InFlightModel, PendingWrite, StreamCommand, StreamState,
    WritableEffect,
};
use super::laws::WritableEvent;
use super::model::{count_down, WritableModel};
use crate::error::{Notice, StreamError, StreamResult};
use crate::occurrences::{lemma_times_one, lemma_times_push, times};
use crate::strategy::QueuingStrategy;
use vstd::prelude::*;

verus! {

/// How often someone was told of a success.
pub open spec fn successes<T, Sink, C, W>(effects: Seq<WritableEffect<T, Sink, C, W>>, c: C) -> nat
    decreases effects.len(),
{
    if effects.len() == 0 {
        0
    } else {
        successes(effects.drop_last(), c) + match effects.last() {
            WritableEffect::Complete(completion, Ok(_)) => if completion == c {
                1nat
            } else {
                0nat
            },
            _ => 0nat,
        }
    }
}

/// Who waits for the close or the abort that the sink is busy with.
pub open spec fn waiting_for_the_end<C>(inflight: Option<InFlightModel<C>>) -> Seq<C> {
    match inflight {
        Some(InFlightModel::Close { completions }) => completions,
        Some(InFlightModel::Abort { completions }) => completions,
        _ => Seq::empty(),
    }
}

impl<T, Sink, S: QueuingStrategy<T>, C, W> WritableModel<T, Sink, S, C, W> {
    /// How often someone waits for something other than a write.
    spec fn others(self, c: C) -> nat {
        times(waiting_for_the_end(self.inflight), c) + times(self.close_completions, c) + times(
            self.abort_completions,
            c,
        ) + times(flushers(self.flush_completions), c) + times(self.pending_flush_commands, c)
    }

    /// How often someone was told of a success or waits for something other than a write.
    spec fn credits(self, c: C) -> nat {
        successes(self.effects, c) + self.others(c)
    }

    /// How often an event reports that the sink has done the write of `c`, while no abort waits.
    pub open spec fn does(self, event: WritableEvent<T, Sink, C, W>, c: C) -> nat {
        if event is WriteFinished && event->WriteFinished_1 is Ok && !self.abort_requested
            && self.inflight == Some(InFlightModel::Write { completion: Some(c) }) {
            1
        } else {
            0
        }
    }

    /// How often, during a sequence of events, the sink has done a write of `c`.
    pub open spec fn done(self, events: Seq<WritableEvent<T, Sink, C, W>>, c: C) -> nat
        decreases events.len(),
    {
        if events.len() == 0 {
            0
        } else {
            self.done(events.drop_last(), c) + self.run(events.drop_last()).does(events.last(), c)
        }
    }
}

/// How often an event asks for something other than a write, to be answered to `c`.
pub open spec fn asks_otherwise<T, Sink, C, W>(event: WritableEvent<T, Sink, C, W>, c: C) -> nat {
    match event {
        WritableEvent::Command(StreamCommand::Write { .. }) => 0,
        WritableEvent::Command(command) => asks(command, c),
        _ => 0,
    }
}

proof fn lemma_successes_push<T, Sink, C, W>(
    effects: Seq<WritableEffect<T, Sink, C, W>>,
    effect: WritableEffect<T, Sink, C, W>,
    c: C,
)
    ensures
        successes(effects.push(effect), c) == successes(effects, c) + match effect {
            WritableEffect::Complete(completion, Ok(_)) => if completion == c {
                1nat
            } else {
                0nat
            },
            _ => 0nat,
        },
{
    assert(effects.push(effect).drop_last() =~= effects);
}

proof fn lemma_successes_wakes<T, Sink, C, W>(
    effects: Seq<WritableEffect<T, Sink, C, W>>,
    wakers: Seq<W>,
    c: C,
)
    ensures
        successes(effects + wakes(wakers), c) == successes(effects, c),
    decreases wakers.len(),
{
    if wakers.len() == 0 {
        assert(effects + wakes(wakers) =~= effects);
    } else {
        lemma_successes_wakes(effects, wakers.drop_last(), c);
        lemma_successes_push(
            effects + wakes(wakers.drop_last()),
            WritableEffect::<T, Sink, C, W>::Wake(wakers.last()),
            c,
        );
        assert(effects + wakes(wakers) =~= (effects + wakes(wakers.drop_last())).push(
            WritableEffect::Wake(wakers.last()),
        ));
    }
}

proof fn lemma_successes_completions<T, Sink, C, W>(
    effects: Seq<WritableEffect<T, Sink, C, W>>,
    waiting: Seq<C>,
    outcome: StreamResult<()>,
    c: C,
)
    ensures
        successes(effects + completions(waiting, outcome), c) == successes(effects, c) + (
        if outcome is Ok {
            times(waiting, c)
        } else {
            0
        }),
    decreases waiting.len(),
{
    if waiting.len() == 0 {
        assert(effects + completions(waiting, outcome) =~= effects);
    } else {
        lemma_successes_completions(effects, waiting.drop_last(), outcome, c);
        lemma_successes_push(
            effects + completions(waiting.drop_last(), outcome),
            WritableEffect::<T, Sink, C, W>::Complete(waiting.last(), outcome),
            c,
        );
        assert(effects + completions(waiting, outcome) =~= (effects + completions(
            waiting.drop_last(),
            outcome,
        )).push(WritableEffect::Complete(waiting.last(), outcome)));
    }
}

/// Waking and publishing answer nobody.
proof fn lemma_quiet<T, Sink, S: QueuingStrategy<T>, C, W>(
    stream: WritableModel<T, Sink, S, C, W>,
    c: C,
)
    ensures
        successes(stream.wake_closed().effects, c) == successes(stream.effects, c),
        successes(stream.wake_ready().effects, c) == successes(stream.effects, c),
        successes(stream.update_backpressure().effects, c) == successes(stream.effects, c),
        successes(stream.update_flags().effects, c) == successes(stream.effects, c),
        successes(stream.publish().effects, c) == successes(stream.effects, c),
        successes(stream.update_backpressure().publish().effects, c) == successes(stream.effects, c),
{
    lemma_successes_wakes(stream.effects, stream.closed_wakers, c);
    lemma_successes_wakes(stream.effects, stream.ready_wakers, c);
    lemma_successes_wakes(stream.wake_closed().effects, stream.ready_wakers, c);
    let updated = stream.update_backpressure();
    lemma_successes_wakes(updated.effects, updated.closed_wakers, c);
    lemma_successes_wakes(updated.effects, updated.ready_wakers, c);
    lemma_successes_wakes(updated.wake_closed().effects, updated.ready_wakers, c);
}

proof fn lemma_settle<T, Sink, S: QueuingStrategy<T>, C, W>(
    stream: WritableModel<T, Sink, S, C, W>,
    c: C,
)
    ensures
        stream.settle_flushes().credits(c) <= stream.credits(c),
    decreases stream.pending_flush_commands.len(),
{
    if stream.pending_flush_commands.len() > 0 {
        let completion = stream.pending_flush_commands.last();
        let rest = WritableModel {
            pending_flush_commands: stream.pending_flush_commands.drop_last(),
            ..stream
        };
        let next = rest.process_flush(completion);
        lemma_successes_push(
            stream.effects,
            WritableEffect::Complete(completion, Err(stream.error_to_report())),
            c,
        );
        lemma_successes_push(stream.effects, WritableEffect::Complete(completion, Ok(())), c);
        let flush = (completion, rest.writes_under_way() as usize);
        assert(flushers(stream.flush_completions.push(flush)) =~= flushers(
            stream.flush_completions,
        ).push(completion));
        lemma_times_push(flushers(stream.flush_completions), completion, c);
        lemma_settle(next, c);
    }
}

proof fn lemma_signal_abort<T, Sink, S: QueuingStrategy<T>, C, W>(
    stream: WritableModel<T, Sink, S, C, W>,
    c: C,
)
    ensures
        stream.signal_abort().credits(c) <= stream.credits(c),
{
    if stream.abort_requested {
        let told = stream.emit(WritableEffect::RequestAbort);
        lemma_successes_push(stream.effects, WritableEffect::RequestAbort, c);
        assert(times(Seq::<C>::empty(), c) == 0);
        match stream.inflight {
            Some(InFlightModel::Write { completion: Some(completion) }) => {
                lemma_times_one(completion, c);
                lemma_successes_push(
                    told.effects,
                    WritableEffect::Complete(completion, Err(StreamError::Aborted(None))),
                    c,
                );
            },
            Some(InFlightModel::Close { completions: waiting }) => {
                lemma_successes_completions(
                    told.effects,
                    waiting,
                    Err(StreamError::Aborted(None)),
                    c,
                );
            },
            _ => {},
        }
    }
}

proof fn lemma_start_ending<T, Sink, S: QueuingStrategy<T>, C, W>(
    stream: WritableModel<T, Sink, S, C, W>,
    c: C,
)
    ensures
        stream.start_ending().credits(c) <= stream.credits(c),
{
    assert(times(Seq::<C>::empty(), c) == 0);
    if stream.inflight is None {
        if stream.close_requested {
            match stream.sink {
                Some(sink) => {
                    lemma_successes_push(stream.effects, WritableEffect::StartClose(sink), c);
                },
                None => {
                    let closed = WritableModel {
                        state: StreamState::Closed,
                        close_requested: false,
                        ..stream
                    };
                    lemma_quiet(closed, c);
                    lemma_successes_completions(
                        closed.update_flags().effects,
                        stream.close_completions,
                        Ok(()),
                        c,
                    );
                },
            }
        } else if stream.abort_requested {
            match stream.sink {
                Some(sink) => {
                    lemma_successes_push(
                        stream.effects,
                        WritableEffect::StartAbort(sink, stream.abort_reason),
                        c,
                    );
                },
                None => {
                    let done = WritableModel { abort_requested: false, ..stream };
                    lemma_quiet(done, c);
                    lemma_successes_completions(
                        done.update_flags().effects,
                        stream.abort_completions,
                        Ok(()),
                        c,
                    );
                },
            }
        }
    }
}

proof fn lemma_start_write<T, Sink, S: QueuingStrategy<T>, C, W>(
    stream: WritableModel<T, Sink, S, C, W>,
    c: C,
)
    ensures
        stream.start_write().credits(c) <= stream.credits(c),
{
    if stream.inflight is None && stream.is_open() && stream.queue.len() > 0 {
        let write = stream.queue[0];
        let taken = WritableModel {
            queue: stream.queue.subrange(1, stream.queue.len() as int),
            queue_total_size: (stream.queue_total_size - stream.strategy.spec_size(
                &write.chunk,
            )) as usize,
            ..stream
        };
        lemma_quiet(taken, c);
        let published = taken.update_backpressure().publish();
        assert(times(Seq::<C>::empty(), c) == 0);
        match stream.sink {
            Some(sink) => {
                lemma_successes_push(
                    published.effects,
                    WritableEffect::StartWrite(sink, write.chunk),
                    c,
                );
            },
            None => {
                lemma_successes_push(
                    published.effects,
                    WritableEffect::Complete(
                        write.completion,
                        Err(StreamError::notice(Notice::SinkMissing)),
                    ),
                    c,
                );
            },
        }
    }
}

proof fn lemma_write_finished<T, Sink, S: QueuingStrategy<T>, C, W>(
    stream: WritableModel<T, Sink, S, C, W>,
    sink: Sink,
    outcome: StreamResult<()>,
    c: C,
)
    requires
        stream.inflight is Some,
        stream.inflight->0 is Write,
    ensures
        stream.write_finished(sink, outcome).credits(c) <= stream.credits(c) + stream.does(
            WritableEvent::WriteFinished(sink, outcome),
            c,
        ),
{
    let counted = stream.count_write();
    let done = count_down(stream.flush_completions, 0).1;
    let waiting = match stream.inflight {
        Some(InFlightModel::Write { completion: Some(completion) }) => seq![completion],
        _ => Seq::empty(),
    };
    if let Some(InFlightModel::Write { completion: Some(completion) }) = stream.inflight {
        lemma_times_one(completion, c);
    }
    lemma_count_down_keeps(stream.flush_completions, 0, c);
    lemma_successes_completions(stream.effects, done, Ok(()), c);
    assert(times(Seq::<C>::empty(), c) == 0);
    if stream.abort_requested {
        lemma_successes_completions(counted.effects, waiting, Err(StreamError::Aborted(None)), c);
        lemma_successes_push(
            counted.answer(waiting, Err(StreamError::Aborted(None))).effects,
            WritableEffect::StartAbort(sink, stream.abort_reason),
            c,
        );
    } else {
        let kept = match outcome {
            Ok(()) => WritableModel { sink: Some(sink), ..counted },
            Err(error) => WritableModel {
                stored_error: Some(error),
                state: StreamState::Errored,
                ..counted
            },
        };
        lemma_quiet(kept, c);
        let published = kept.update_backpressure().publish();
        lemma_successes_completions(published.effects, waiting, outcome, c);
        lemma_successes_push(
            published.answer(waiting, outcome).effects,
            WritableEffect::Repoll,
            c,
        );
    }
}

proof fn lemma_ended<T, Sink, S: QueuingStrategy<T>, C, W>(
    stream: WritableModel<T, Sink, S, C, W>,
    waiting: Seq<C>,
    outcome: StreamResult<()>,
    c: C,
)
    ensures
        successes(
            stream.publish().answer(waiting, outcome).effects.push(WritableEffect::Repoll),
            c,
        ) <= successes(stream.effects, c) + times(waiting, c),
{
    lemma_quiet(stream, c);
    lemma_successes_completions(stream.publish().effects, waiting, outcome, c);
    lemma_successes_push(
        stream.publish().answer(waiting, outcome).effects,
        WritableEffect::Repoll,
        c,
    );
}

proof fn lemma_write<T, Sink, S: QueuingStrategy<T>, C, W>(
    stream: WritableModel<T, Sink, S, C, W>,
    chunk: T,
    completion: C,
    c: C,
)
    ensures
        stream.write(chunk, completion).credits(c) <= stream.credits(c),
{
    let queued = WritableModel {
        queue: stream.queue.push(PendingWrite { chunk, completion }),
        queue_total_size: (stream.queue_total_size + stream.strategy.spec_size(&chunk)) as usize,
        ..stream
    };
    lemma_quiet(queued, c);
    lemma_successes_push(
        stream.effects,
        WritableEffect::Complete(completion, Err(stream.error_to_report())),
        c,
    );
    lemma_successes_push(
        stream.effects,
        WritableEffect::Complete(completion, Err(StreamError::Closed)),
        c,
    );
    lemma_successes_push(
        stream.effects,
        WritableEffect::Complete(completion, Err(StreamError::Closing)),
        c,
    );
}

proof fn lemma_close<T, Sink, S: QueuingStrategy<T>, C, W>(
    stream: WritableModel<T, Sink, S, C, W>,
    completion: C,
    c: C,
)
    ensures
        stream.close(completion).credits(c) <= stream.credits(c) + if completion == c {
            1nat
        } else {
            0nat
        },
{
    let noted = WritableModel {
        close_requested: true,
        close_completions: stream.close_completions.push(completion),
        ..stream
    };
    lemma_quiet(noted, c);
    lemma_times_push(stream.close_completions, completion, c);
    lemma_successes_push(
        stream.effects,
        WritableEffect::Complete(completion, Err(stream.error_to_report())),
        c,
    );
    lemma_successes_push(stream.effects, WritableEffect::Complete(completion, Ok(())), c);
}

proof fn lemma_abort<T, Sink, S: QueuingStrategy<T>, C, W>(
    stream: WritableModel<T, Sink, S, C, W>,
    reason: Option<String>,
    completion: C,
    c: C,
)
    ensures
        stream.abort(reason, completion).credits(c) <= stream.credits(c) + if completion == c {
            1nat
        } else {
            0nat
        },
{
    lemma_times_push(stream.abort_completions, completion, c);
    if !stream.is_open() {
        lemma_successes_push(stream.effects, WritableEffect::Complete(completion, Ok(())), c);
    } else if stream.abort_requested {
        lemma_quiet(
            WritableModel {
                abort_completions: stream.abort_completions.push(completion),
                ..stream
            },
            c,
        );
    } else {
        let aborted = WritableModel {
            state: StreamState::Errored,
            stored_error: Some(StreamError::Aborted(reason)),
            abort_requested: true,
            abort_completions: stream.abort_completions.push(completion),
            abort_reason: reason,
            queue: Seq::empty(),
            ..stream
        };
        lemma_successes_completions(
            stream.effects,
            writers(stream.queue),
            Err(StreamError::Aborted(reason)),
            c,
        );
        lemma_quiet(
            aborted.answer(writers(stream.queue), Err(StreamError::Aborted(reason))),
            c,
        );
        assert(times(Seq::<C>::empty(), c) == 0);
    }
}

proof fn lemma_flush<T, Sink, S: QueuingStrategy<T>, C, W>(
    stream: WritableModel<T, Sink, S, C, W>,
    completion: C,
    c: C,
)
    ensures
        stream.flush(completion).credits(c) <= stream.credits(c) + if completion == c {
            1nat
        } else {
            0nat
        },
{
    lemma_times_push(stream.pending_flush_commands, completion, c);
    lemma_successes_push(
        stream.effects,
        WritableEffect::Complete(completion, Err(stream.error_to_report())),
        c,
    );
}

proof fn lemma_controller_error<T, Sink, S: QueuingStrategy<T>, C, W>(
    stream: WritableModel<T, Sink, S, C, W>,
    reason: String,
    c: C,
)
    ensures
        stream.controller_error(reason).credits(c) <= stream.credits(c),
{
    let failed = WritableModel {
        state: StreamState::Errored,
        abort_reason: Some(reason),
        queue: Seq::empty(),
        queue_total_size: 0,
        ..stream
    };
    lemma_quiet(failed, c);
    lemma_quiet(failed.wake_ready(), c);
    assert(times(Seq::<C>::empty(), c) == 0);
}

proof fn lemma_close_finished<T, Sink, S: QueuingStrategy<T>, C, W>(
    stream: WritableModel<T, Sink, S, C, W>,
    outcome: StreamResult<()>,
    c: C,
)
    requires
        stream.inflight is Some,
        stream.inflight->0 is Close,
    ensures
        stream.close_finished(outcome).credits(c) <= stream.credits(c),
{
    let ended = WritableModel {
        close_requested: false,
        ..match outcome {
            Ok(()) => WritableModel { state: StreamState::Closed, ..stream },
            Err(error) => WritableModel {
                state: StreamState::Errored,
                stored_error: Some(error),
                ..stream
            },
        }
    }.drained();
    lemma_ended(ended, waiting_for_the_end(stream.inflight), outcome, c);
    assert(times(Seq::<C>::empty(), c) == 0);
}

proof fn lemma_abort_finished<T, Sink, S: QueuingStrategy<T>, C, W>(
    stream: WritableModel<T, Sink, S, C, W>,
    outcome: StreamResult<()>,
    c: C,
)
    requires
        stream.inflight is Some,
        stream.inflight->0 is Abort,
    ensures
        stream.abort_finished(outcome).credits(c) <= stream.credits(c),
{
    let ended = WritableModel {
        abort_requested: false,
        ..match outcome {
            Ok(()) => stream,
            Err(error) => WritableModel { stored_error: Some(error), ..stream },
        }
    }.drained();
    lemma_ended(ended, waiting_for_the_end(stream.inflight), outcome, c);
    assert(times(Seq::<C>::empty(), c) == 0);
}

proof fn lemma_start_finished<T, Sink, S: QueuingStrategy<T>, C, W>(
    stream: WritableModel<T, Sink, S, C, W>,
    sink: Sink,
    outcome: StreamResult<()>,
    c: C,
)
    ensures
        stream.start_finished(sink, outcome).credits(c) <= stream.credits(c),
{
    if let Err(error) = outcome {
        lemma_quiet(
            WritableModel {
                state: StreamState::Errored,
                stored_error: Some(error),
                sink: None,
                ..stream
            },
            c,
        );
    }
}

/// One event: a success is told to whoever waits for something other than a write, to whoever asks
/// for it now, or to whoever's write the sink has done.
proof fn lemma_step<T, Sink, S: QueuingStrategy<T>, C, W>(
    stream: WritableModel<T, Sink, S, C, W>,
    event: WritableEvent<T, Sink, C, W>,
    c: C,
)
    requires
        stream.allows(event),
    ensures
        stream.step(event).credits(c) <= stream.credits(c) + asks_otherwise(event, c)
            + stream.does(event, c),
{
    match event {
        WritableEvent::Command(command) => {
            match command {
                StreamCommand::Write { chunk, completion } => {
                    lemma_write(stream, chunk, completion, c);
                    lemma_settle(stream.write(chunk, completion), c);
                },
                StreamCommand::Close { completion } => {
                    lemma_close(stream, completion, c);
                    lemma_settle(stream.close(completion), c);
                },
                StreamCommand::Abort { reason, completion } => {
                    lemma_abort(stream, reason, completion, c);
                    lemma_settle(stream.abort(reason, completion), c);
                },
                StreamCommand::Flush { completion } => {
                    lemma_flush(stream, completion, c);
                    lemma_settle(stream.flush(completion), c);
                },
                _ => {
                    lemma_settle(stream, c);
                },
            }
        },
        WritableEvent::ReadyWaker(set) => {
            lemma_quiet(WritableModel { ready_wakers: set, ..stream }, c);
            lemma_settle(stream.ready_waker_registered(set), c);
        },
        WritableEvent::ClosedWaker(set) => {
            lemma_quiet(WritableModel { closed_wakers: set, ..stream }, c);
            lemma_settle(stream.closed_waker_registered(set), c);
        },
        WritableEvent::ControllerError(reason) => {
            lemma_controller_error(stream, reason, c);
        },
        WritableEvent::Publish => {
            lemma_quiet(stream, c);
        },
        WritableEvent::StartBegun => {},
        WritableEvent::StartFinished(sink, outcome) => {
            lemma_start_finished(stream, sink, outcome, c);
        },
        WritableEvent::Advance => {
            lemma_signal_abort(stream, c);
            lemma_start_ending(stream.signal_abort(), c);
            lemma_start_write(stream.signal_abort().start_ending(), c);
        },
        WritableEvent::WriteFinished(sink, outcome) => {
            lemma_write_finished(stream, sink, outcome, c);
        },
        WritableEvent::CloseFinished(outcome) => {
            lemma_close_finished(stream, outcome, c);
        },
        WritableEvent::AbortFinished(outcome) => {
            lemma_abort_finished(stream, outcome, c);
        },
    }
}

/// A write succeeds only when the sink has done it: whoever asked for nothing but writes is told of
/// a success no more often than the sink reported a write of theirs done.
pub proof fn law_a_write_succeeds_when_the_sink_has_done_it<
    T,
    Sink,
    S: QueuingStrategy<T>,
    C,
    W,
>(sink: Sink, strategy: S, events: Seq<WritableEvent<T, Sink, C, W>>, c: C)
    requires
        WritableModel::<T, Sink, S, C, W>::initial(sink, strategy).allows_all(events),
        forall|i: int| 0 <= i < events.len() ==> asks_otherwise(#[trigger] events[i], c) == 0,
    ensures
        ({
            let initial = WritableModel::<T, Sink, S, C, W>::initial(sink, strategy);
            successes(initial.run(events).effects, c) <= initial.done(events, c)
        }),
{
    lemma_run(sink, strategy, events, c);
}

proof fn lemma_run<T, Sink, S: QueuingStrategy<T>, C, W>(
    sink: Sink,
    strategy: S,
    events: Seq<WritableEvent<T, Sink, C, W>>,
    c: C,
)
    requires
        WritableModel::<T, Sink, S, C, W>::initial(sink, strategy).allows_all(events),
        forall|i: int| 0 <= i < events.len() ==> asks_otherwise(#[trigger] events[i], c) == 0,
    ensures
        ({
            let initial = WritableModel::<T, Sink, S, C, W>::initial(sink, strategy);
            initial.run(events).credits(c) <= initial.done(events, c)
        }),
    decreases events.len(),
{
    let initial = WritableModel::<T, Sink, S, C, W>::initial(sink, strategy);
    if events.len() == 0 {
        assert(flushers(initial.flush_completions) =~= Seq::empty());
        assert(times(Seq::<C>::empty(), c) == 0);
    } else {
        let earlier = events.drop_last();
        lemma_run(sink, strategy, earlier, c);
        lemma_step(initial.run(earlier), events.last(), c);
        assert(asks_otherwise(events[events.len() - 1], c) == 0);
    }
}

} // verus!
