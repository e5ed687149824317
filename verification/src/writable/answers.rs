//! Whoever asks something of a writable stream is answered once.

use super::effect::{
    completions, wakes, writers, InFlightModel, PendingWrite, StreamCommand, StreamState,
    WritableEffect,
};
use super::laws::WritableEvent;
use super::model::{count_down, WritableModel};
use crate::error::{Notice, StreamError, StreamResult};
use crate::occurrences::{
    lemma_times_add, lemma_times_front, lemma_times_one, lemma_times_push, lemma_times_swap_remove,
    times,
};
use crate::strategy::QueuingStrategy;
use vstd::prelude::*;

verus! {

/// How often someone was answered.
pub open spec fn answers<T, Sink, C, W>(effects: Seq<WritableEffect<T, Sink, C, W>>, c: C) -> nat
    decreases effects.len(),
{
    if effects.len() == 0 {
        0
    } else {
        answers(effects.drop_last(), c) + match effects.last() {
            WritableEffect::Complete(completion, _) => if completion == c {
                1nat
            } else {
                0nat
            },
            _ => 0nat,
        }
    }
}

/// Who waits for what the sink is busy with.
pub open spec fn waiting_for<C>(inflight: Option<InFlightModel<C>>) -> Seq<C> {
    match inflight {
        Some(InFlightModel::Write { completion: Some(completion) }) => seq![completion],
        Some(InFlightModel::Close { completions }) => completions,
        Some(InFlightModel::Abort { completions }) => completions,
        _ => Seq::empty(),
    }
}

/// Who waits for a flush.
pub open spec fn flushers<C>(flushes: Seq<(C, usize)>) -> Seq<C> {
    flushes.map_values(|flush: (C, usize)| flush.0)
}

impl<T, Sink, S: QueuingStrategy<T>, C, W> WritableModel<T, Sink, S, C, W> {
    /// How often someone is owed an answer.
    pub open spec fn owes(self, c: C) -> nat {
        times(writers(self.queue), c) + times(waiting_for(self.inflight), c) + times(
            self.close_completions,
            c,
        ) + times(self.abort_completions, c) + times(flushers(self.flush_completions), c) + times(
            self.pending_flush_commands,
            c,
        )
    }

    /// How often someone was answered or is owed an answer.
    pub open spec fn accounts(self, c: C) -> nat {
        answers(self.effects, c) + self.owes(c)
    }
}

/// How often a command asks for an answer to `c`.
pub open spec fn asks<T, C, W>(command: StreamCommand<T, C, W>, c: C) -> nat {
    let asked = match command {
        StreamCommand::Write { completion, .. } => completion == c,
        StreamCommand::Close { completion } => completion == c,
        StreamCommand::Abort { completion, .. } => completion == c,
        StreamCommand::Flush { completion } => completion == c,
        _ => false,
    };
    if asked {
        1
    } else {
        0
    }
}

/// Who waits for a flush before a write is counted is answered or waits afterwards.
pub proof fn lemma_count_down_keeps<C>(flushes: Seq<(C, usize)>, from: int, c: C)
    requires
        0 <= from,
    ensures
        ({
            let (left, done) = count_down(flushes, from);
            times(flushers(left), c) + times(done, c) == times(flushers(flushes), c)
        }),
    decreases flushes.len() - from,
{
    if from < flushes.len() {
        if flushes[from].1 == 1 {
            let shorter = flushes.update(from, flushes.last()).drop_last();
            lemma_count_down_keeps(shorter, from, c);
            let rest = count_down(shorter, from);
            assert(flushers(shorter) =~= flushers(flushes).update(
                from,
                flushers(flushes).last(),
            ).drop_last());
            lemma_times_swap_remove(flushers(flushes), from, c);
            lemma_times_add(seq![flushes[from].0], rest.1, c);
            lemma_times_one(flushes[from].0, c);
        } else {
            let counted = flushes.update(from, (flushes[from].0, (flushes[from].1 - 1) as usize));
            lemma_count_down_keeps(counted, from + 1, c);
            assert(flushers(counted) =~= flushers(flushes));
        }
    } else {
        assert(times(Seq::<C>::empty(), c) == 0);
    }
}

proof fn lemma_answers_push<T, Sink, C, W>(
    effects: Seq<WritableEffect<T, Sink, C, W>>,
    effect: WritableEffect<T, Sink, C, W>,
    c: C,
)
    ensures
        answers(effects.push(effect), c) == answers(effects, c) + match effect {
            WritableEffect::Complete(completion, _) => if completion == c {
                1nat
            } else {
                0nat
            },
            _ => 0nat,
        },
{
    assert(effects.push(effect).drop_last() =~= effects);
}

proof fn lemma_answers_wakes<T, Sink, C, W>(
    effects: Seq<WritableEffect<T, Sink, C, W>>,
    wakers: Seq<W>,
    c: C,
)
    ensures
        answers(effects + wakes(wakers), c) == answers(effects, c),
    decreases wakers.len(),
{
    if wakers.len() == 0 {
        assert(effects + wakes(wakers) =~= effects);
    } else {
        lemma_answers_wakes(effects, wakers.drop_last(), c);
        lemma_answers_push(
            effects + wakes(wakers.drop_last()),
            WritableEffect::<T, Sink, C, W>::Wake(wakers.last()),
            c,
        );
        assert(effects + wakes(wakers) =~= (effects + wakes(wakers.drop_last())).push(
            WritableEffect::Wake(wakers.last()),
        ));
    }
}

proof fn lemma_answers_completions<T, Sink, C, W>(
    effects: Seq<WritableEffect<T, Sink, C, W>>,
    waiting: Seq<C>,
    outcome: StreamResult<()>,
    c: C,
)
    ensures
        answers(effects + completions(waiting, outcome), c) == answers(effects, c) + times(
            waiting,
            c,
        ),
    decreases waiting.len(),
{
    if waiting.len() == 0 {
        assert(effects + completions(waiting, outcome) =~= effects);
    } else {
        lemma_answers_completions(effects, waiting.drop_last(), outcome, c);
        lemma_answers_push(
            effects + completions(waiting.drop_last(), outcome),
            WritableEffect::<T, Sink, C, W>::Complete(waiting.last(), outcome),
            c,
        );
        assert(effects + completions(waiting, outcome) =~= (effects + completions(
            waiting.drop_last(),
            outcome,
        )).push(WritableEffect::Complete(waiting.last(), outcome)));
    }
}

/// Waking and publishing answer nobody.
proof fn lemma_quiet<T, Sink, S: QueuingStrategy<T>, C, W>(
    stream: WritableModel<T, Sink, S, C, W>,
    c: C,
)
    ensures
        answers(stream.wake_closed().effects, c) == answers(stream.effects, c),
        answers(stream.wake_ready().effects, c) == answers(stream.effects, c),
        answers(stream.update_backpressure().effects, c) == answers(stream.effects, c),
        answers(stream.update_flags().effects, c) == answers(stream.effects, c),
        answers(stream.publish().effects, c) == answers(stream.effects, c),
        answers(stream.update_backpressure().publish().effects, c) == answers(stream.effects, c),
{
    lemma_answers_wakes(stream.effects, stream.closed_wakers, c);
    lemma_answers_wakes(stream.effects, stream.ready_wakers, c);
    lemma_answers_wakes(stream.wake_closed().effects, stream.ready_wakers, c);
    let updated = stream.update_backpressure();
    lemma_answers_wakes(updated.effects, updated.closed_wakers, c);
    lemma_answers_wakes(updated.effects, updated.ready_wakers, c);
    lemma_answers_wakes(updated.wake_closed().effects, updated.ready_wakers, c);
}

proof fn lemma_settle<T, Sink, S: QueuingStrategy<T>, C, W>(
    stream: WritableModel<T, Sink, S, C, W>,
    c: C,
)
    ensures
        stream.settle_flushes().accounts(c) == stream.accounts(c),
    decreases stream.pending_flush_commands.len(),
{
    if stream.pending_flush_commands.len() > 0 {
        let completion = stream.pending_flush_commands.last();
        let rest = WritableModel {
            pending_flush_commands: stream.pending_flush_commands.drop_last(),
            ..stream
        };
        let next = rest.process_flush(completion);
        lemma_answers_push(
            stream.effects,
            WritableEffect::Complete(completion, Err(stream.error_to_report())),
            c,
        );
        lemma_answers_push(stream.effects, WritableEffect::Complete(completion, Ok(())), c);
        let flush = (completion, rest.writes_under_way() as usize);
        assert(flushers(stream.flush_completions.push(flush)) =~= flushers(
            stream.flush_completions,
        ).push(completion));
        lemma_times_push(flushers(stream.flush_completions), completion, c);
        lemma_settle(next, c);
    }
}

proof fn lemma_signal_abort<T, Sink, S: QueuingStrategy<T>, C, W>(
    stream: WritableModel<T, Sink, S, C, W>,
    c: C,
)
    ensures
        stream.signal_abort().accounts(c) == stream.accounts(c),
{
    if stream.abort_requested {
        let told = stream.emit(WritableEffect::RequestAbort);
        lemma_answers_push(stream.effects, WritableEffect::RequestAbort, c);
        assert(times(Seq::<C>::empty(), c) == 0);
        match stream.inflight {
            Some(InFlightModel::Write { completion: Some(completion) }) => {
                lemma_times_one(completion, c);
                lemma_answers_push(
                    told.effects,
                    WritableEffect::Complete(completion, Err(StreamError::Aborted(None))),
                    c,
                );
            },
            Some(InFlightModel::Close { completions: waiting }) => {
                lemma_answers_completions(
                    told.effects,
                    waiting,
                    Err(StreamError::Aborted(None)),
                    c,
                );
            },
            _ => {},
        }
    }
}

proof fn lemma_start_ending<T, Sink, S: QueuingStrategy<T>, C, W>(
    stream: WritableModel<T, Sink, S, C, W>,
    c: C,
)
    ensures
        stream.start_ending().accounts(c) == stream.accounts(c),
{
    assert(times(Seq::<C>::empty(), c) == 0);
    if stream.inflight is None {
        if stream.close_requested {
            match stream.sink {
                Some(sink) => {
                    lemma_answers_push(stream.effects, WritableEffect::StartClose(sink), c);
                },
                None => {
                    let closed = WritableModel {
                        state: StreamState::Closed,
                        close_requested: false,
                        ..stream
                    };
                    lemma_quiet(closed, c);
                    lemma_answers_completions(
                        closed.update_flags().effects,
                        stream.close_completions,
                        Ok(()),
                        c,
                    );
                },
            }
        } else if stream.abort_requested {
            match stream.sink {
                Some(sink) => {
                    lemma_answers_push(
                        stream.effects,
                        WritableEffect::StartAbort(sink, stream.abort_reason),
                        c,
                    );
                },
                None => {
                    let done = WritableModel { abort_requested: false, ..stream };
                    lemma_quiet(done, c);
                    lemma_answers_completions(
                        done.update_flags().effects,
                        stream.abort_completions,
                        Ok(()),
                        c,
                    );
                },
            }
        }
    }
}

proof fn lemma_start_write<T, Sink, S: QueuingStrategy<T>, C, W>(
    stream: WritableModel<T, Sink, S, C, W>,
    c: C,
)
    ensures
        stream.start_write().accounts(c) == stream.accounts(c),
{
    if stream.inflight is None && stream.is_open() && stream.queue.len() > 0 {
        let write = stream.queue[0];
        let taken = WritableModel {
            queue: stream.queue.subrange(1, stream.queue.len() as int),
            queue_total_size: (stream.queue_total_size - stream.strategy.spec_size(
                &write.chunk,
            )) as usize,
            ..stream
        };
        lemma_quiet(taken, c);
        let published = taken.update_backpressure().publish();
        lemma_times_front(writers(stream.queue), c);
        assert(writers(stream.queue).subrange(1, stream.queue.len() as int) =~= writers(
            taken.queue,
        ));
        lemma_times_one(write.completion, c);
        assert(times(Seq::<C>::empty(), c) == 0);
        match stream.sink {
            Some(sink) => {
                lemma_answers_push(
                    published.effects,
                    WritableEffect::StartWrite(sink, write.chunk),
                    c,
                );
            },
            None => {
                lemma_answers_push(
                    published.effects,
                    WritableEffect::Complete(
                        write.completion,
                        Err(StreamError::notice(Notice::SinkMissing)),
                    ),
                    c,
                );
            },
        }
    }
}

proof fn lemma_write_finished<T, Sink, S: QueuingStrategy<T>, C, W>(
    stream: WritableModel<T, Sink, S, C, W>,
    sink: Sink,
    outcome: StreamResult<()>,
    c: C,
)
    requires
        stream.inflight is Some,
        stream.inflight->0 is Write,
    ensures
        stream.write_finished(sink, outcome).accounts(c) == stream.accounts(c),
{
    let counted = stream.count_write();
    let done = count_down(stream.flush_completions, 0).1;
    let waiting = waiting_for(stream.inflight);
    lemma_count_down_keeps(stream.flush_completions, 0, c);
    lemma_answers_completions(stream.effects, done, Ok(()), c);
    assert(times(Seq::<C>::empty(), c) == 0);
    if stream.abort_requested {
        lemma_answers_completions(counted.effects, waiting, Err(StreamError::Aborted(None)), c);
        lemma_answers_push(
            counted.answer(waiting, Err(StreamError::Aborted(None))).effects,
            WritableEffect::StartAbort(sink, stream.abort_reason),
            c,
        );
    } else {
        let kept = match outcome {
            Ok(()) => WritableModel { sink: Some(sink), ..counted },
            Err(error) => WritableModel {
                stored_error: Some(error),
                state: StreamState::Errored,
                ..counted
            },
        };
        lemma_quiet(kept, c);
        let published = kept.update_backpressure().publish();
        lemma_answers_completions(published.effects, waiting, outcome, c);
        lemma_answers_push(
            published.answer(waiting, outcome).effects,
            WritableEffect::Repoll,
            c,
        );
    }
}

proof fn lemma_ended<T, Sink, S: QueuingStrategy<T>, C, W>(
    stream: WritableModel<T, Sink, S, C, W>,
    waiting: Seq<C>,
    outcome: StreamResult<()>,
    c: C,
)
    ensures
        answers(
            stream.publish().answer(waiting, outcome).effects.push(WritableEffect::Repoll),
            c,
        ) == answers(stream.effects, c) + times(waiting, c),
{
    lemma_quiet(stream, c);
    lemma_answers_completions(stream.publish().effects, waiting, outcome, c);
    lemma_answers_push(
        stream.publish().answer(waiting, outcome).effects,
        WritableEffect::Repoll,
        c,
    );
}

proof fn lemma_write<T, Sink, S: QueuingStrategy<T>, C, W>(
    stream: WritableModel<T, Sink, S, C, W>,
    chunk: T,
    completion: C,
    c: C,
)
    ensures
        stream.write(chunk, completion).accounts(c) == stream.accounts(c) + if completion == c {
            1nat
        } else {
            0nat
        },
{
    let queued = WritableModel {
        queue: stream.queue.push(PendingWrite { chunk, completion }),
        queue_total_size: (stream.queue_total_size + stream.strategy.spec_size(&chunk)) as usize,
        ..stream
    };
    lemma_quiet(queued, c);
    assert(writers(queued.queue) =~= writers(stream.queue).push(completion));
    lemma_times_push(writers(stream.queue), completion, c);
    lemma_answers_push(
        stream.effects,
        WritableEffect::Complete(completion, Err(stream.error_to_report())),
        c,
    );
    lemma_answers_push(
        stream.effects,
        WritableEffect::Complete(completion, Err(StreamError::Closed)),
        c,
    );
    lemma_answers_push(
        stream.effects,
        WritableEffect::Complete(completion, Err(StreamError::Closing)),
        c,
    );
}

proof fn lemma_close<T, Sink, S: QueuingStrategy<T>, C, W>(
    stream: WritableModel<T, Sink, S, C, W>,
    completion: C,
    c: C,
)
    ensures
        stream.close(completion).accounts(c) == stream.accounts(c) + if completion == c {
            1nat
        } else {
            0nat
        },
{
    let noted = WritableModel {
        close_requested: true,
        close_completions: stream.close_completions.push(completion),
        ..stream
    };
    lemma_quiet(noted, c);
    lemma_times_push(stream.close_completions, completion, c);
    lemma_answers_push(
        stream.effects,
        WritableEffect::Complete(completion, Err(stream.error_to_report())),
        c,
    );
    lemma_answers_push(stream.effects, WritableEffect::Complete(completion, Ok(())), c);
}

proof fn lemma_abort<T, Sink, S: QueuingStrategy<T>, C, W>(
    stream: WritableModel<T, Sink, S, C, W>,
    reason: Option<String>,
    completion: C,
    c: C,
)
    ensures
        stream.abort(reason, completion).accounts(c) == stream.accounts(c) + if completion == c {
            1nat
        } else {
            0nat
        },
{
    lemma_times_push(stream.abort_completions, completion, c);
    if !stream.is_open() {
        lemma_answers_push(stream.effects, WritableEffect::Complete(completion, Ok(())), c);
    } else if stream.abort_requested {
        lemma_quiet(
            WritableModel {
                abort_completions: stream.abort_completions.push(completion),
                ..stream
            },
            c,
        );
    } else {
        let aborted = WritableModel {
            state: StreamState::Errored,
            stored_error: Some(StreamError::Aborted(reason)),
            abort_requested: true,
            abort_completions: stream.abort_completions.push(completion),
            abort_reason: reason,
            queue: Seq::empty(),
            ..stream
        };
        lemma_answers_completions(
            stream.effects,
            writers(stream.queue),
            Err(StreamError::Aborted(reason)),
            c,
        );
        lemma_quiet(
            aborted.answer(writers(stream.queue), Err(StreamError::Aborted(reason))),
            c,
        );
        assert(writers(aborted.queue) =~= Seq::empty());
        assert(times(Seq::<C>::empty(), c) == 0);
    }
}

proof fn lemma_flush<T, Sink, S: QueuingStrategy<T>, C, W>(
    stream: WritableModel<T, Sink, S, C, W>,
    completion: C,
    c: C,
)
    ensures
        stream.flush(completion).accounts(c) == stream.accounts(c) + if completion == c {
            1nat
        } else {
            0nat
        },
{
    lemma_times_push(stream.pending_flush_commands, completion, c);
    lemma_answers_push(
        stream.effects,
        WritableEffect::Complete(completion, Err(stream.error_to_report())),
        c,
    );
}

proof fn lemma_controller_error<T, Sink, S: QueuingStrategy<T>, C, W>(
    stream: WritableModel<T, Sink, S, C, W>,
    reason: String,
    c: C,
)
    ensures
        stream.controller_error(reason).accounts(c) + times(writers(stream.queue), c)
            == stream.accounts(c),
{
    let failed = WritableModel {
        state: StreamState::Errored,
        abort_reason: Some(reason),
        queue: Seq::empty(),
        queue_total_size: 0,
        ..stream
    };
    lemma_quiet(failed, c);
    lemma_quiet(failed.wake_ready(), c);
    assert(writers(failed.queue) =~= Seq::empty());
    assert(times(Seq::<C>::empty(), c) == 0);
}

proof fn lemma_close_finished<T, Sink, S: QueuingStrategy<T>, C, W>(
    stream: WritableModel<T, Sink, S, C, W>,
    outcome: StreamResult<()>,
    c: C,
)
    requires
        stream.inflight is Some,
        stream.inflight->0 is Close,
    ensures
        stream.close_finished(outcome).accounts(c) + times(writers(stream.queue), c)
            == stream.accounts(c),
{
    let ended = WritableModel {
        close_requested: false,
        ..match outcome {
            Ok(()) => WritableModel { state: StreamState::Closed, ..stream },
            Err(error) => WritableModel {
                state: StreamState::Errored,
                stored_error: Some(error),
                ..stream
            },
        }
    }.drained();
    lemma_ended(ended, waiting_for(stream.inflight), outcome, c);
    assert(writers(ended.queue) =~= Seq::empty());
    assert(times(Seq::<C>::empty(), c) == 0);
}

proof fn lemma_abort_finished<T, Sink, S: QueuingStrategy<T>, C, W>(
    stream: WritableModel<T, Sink, S, C, W>,
    outcome: StreamResult<()>,
    c: C,
)
    requires
        stream.inflight is Some,
        stream.inflight->0 is Abort,
    ensures
        stream.abort_finished(outcome).accounts(c) + times(writers(stream.queue), c)
            == stream.accounts(c),
{
    let ended = WritableModel {
        abort_requested: false,
        ..match outcome {
            Ok(()) => stream,
            Err(error) => WritableModel { stored_error: Some(error), ..stream },
        }
    }.drained();
    lemma_ended(ended, waiting_for(stream.inflight), outcome, c);
    assert(writers(ended.queue) =~= Seq::empty());
    assert(times(Seq::<C>::empty(), c) == 0);
}

proof fn lemma_start_finished<T, Sink, S: QueuingStrategy<T>, C, W>(
    stream: WritableModel<T, Sink, S, C, W>,
    sink: Sink,
    outcome: StreamResult<()>,
    c: C,
)
    ensures
        stream.start_finished(sink, outcome).accounts(c) == stream.accounts(c),
{
    if let Err(error) = outcome {
        lemma_quiet(
            WritableModel {
                state: StreamState::Errored,
                stored_error: Some(error),
                sink: None,
                ..stream
            },
            c,
        );
    }
}

/// How often an event drops a write without an answer to `c`.
pub open spec fn dropped<T, Sink, S: QueuingStrategy<T>, C, W>(
    stream: WritableModel<T, Sink, S, C, W>,
    event: WritableEvent<T, Sink, C, W>,
    c: C,
) -> nat {
    match event {
        WritableEvent::ControllerError(_)
        | WritableEvent::CloseFinished(_)
        | WritableEvent::AbortFinished(_) => times(writers(stream.queue), c),
        _ => 0,
    }
}

/// Whoever asks for a write, a flush, a close or an abort is answered once or still waits; the one
/// exception are writes that are still queued when the controller reports an error, or when a close
/// or an abort is over: they are dropped without an answer.
pub proof fn law_every_operation_is_answered_once<T, Sink, S: QueuingStrategy<T>, C, W>(
    stream: WritableModel<T, Sink, S, C, W>,
    event: WritableEvent<T, Sink, C, W>,
    c: C,
)
    requires
        stream.allows(event),
    ensures
        stream.step(event).accounts(c) + dropped(stream, event, c) == stream.accounts(c) + (
        match event {
            WritableEvent::Command(command) => asks(command, c),
            _ => 0,
        }),
{
    match event {
        WritableEvent::Command(command) => {
            match command {
                StreamCommand::Write { chunk, completion } => {
                    lemma_write(stream, chunk, completion, c);
                    lemma_settle(stream.write(chunk, completion), c);
                },
                StreamCommand::Close { completion } => {
                    lemma_close(stream, completion, c);
                    lemma_settle(stream.close(completion), c);
                },
                StreamCommand::Abort { reason, completion } => {
                    lemma_abort(stream, reason, completion, c);
                    lemma_settle(stream.abort(reason, completion), c);
                },
                StreamCommand::Flush { completion } => {
                    lemma_flush(stream, completion, c);
                    lemma_settle(stream.flush(completion), c);
                },
                _ => {
                    lemma_settle(stream, c);
                },
            }
        },
        WritableEvent::ReadyWaker(set) => {
            lemma_quiet(WritableModel { ready_wakers: set, ..stream }, c);
            lemma_settle(stream.ready_waker_registered(set), c);
        },
        WritableEvent::ClosedWaker(set) => {
            lemma_quiet(WritableModel { closed_wakers: set, ..stream }, c);
            lemma_settle(stream.closed_waker_registered(set), c);
        },
        WritableEvent::ControllerError(reason) => {
            lemma_controller_error(stream, reason, c);
        },
        WritableEvent::Publish => {
            lemma_quiet(stream, c);
        },
        WritableEvent::StartBegun => {},
        WritableEvent::StartFinished(sink, outcome) => {
            lemma_start_finished(stream, sink, outcome, c);
        },
        WritableEvent::Advance => {
            lemma_signal_abort(stream, c);
            lemma_start_ending(stream.signal_abort(), c);
            lemma_start_write(stream.signal_abort().start_ending(), c);
        },
        WritableEvent::WriteFinished(sink, outcome) => {
            lemma_write_finished(stream, sink, outcome, c);
        },
        WritableEvent::CloseFinished(outcome) => {
            lemma_close_finished(stream, outcome, c);
        },
        WritableEvent::AbortFinished(outcome) => {
            lemma_abort_finished(stream, outcome, c);
        },
    }
}

} // verus!
