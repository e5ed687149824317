//! A writable stream as a mathematical value, and what each event makes of it.

use super::effect::{
    chunks, completions, wakes, writers, InFlightModel, PendingWrite, Published, StreamCommand,
    StreamState, WritableEffect,
};
use crate::error::{Notice, StreamError, StreamResult};
use crate::start::StartPhase;
use crate::strategy::{total_size, QueuingStrategy};
use vstd::prelude::*;

verus! {

/// A writable stream: its state and queue, the sink or what the sink is busy with, who waits for
/// what, the flags that its handles see, and what it has asked to be done.
#[verifier::ext_equal]
pub struct WritableModel<T, Sink, S: QueuingStrategy<T>, C, W> {
    pub state: StreamState,
    pub queue: Seq<PendingWrite<T, C>>,
    pub queue_total_size: usize,
    pub strategy: S,
    /// The sink, unless it is busy or gone.
    pub sink: Option<Sink>,
    pub start: StartPhase,
    pub backpressure: bool,
    pub close_requested: bool,
    pub close_completions: Seq<C>,
    pub abort_reason: Option<String>,
    pub abort_requested: bool,
    pub abort_completions: Seq<C>,
    pub stored_error: Option<StreamError>,
    pub ready_wakers: Seq<W>,
    pub closed_wakers: Seq<W>,
    /// Flushes, each with the number of writes that it still waits for.
    pub flush_completions: Seq<(C, usize)>,
    pub pending_flush_commands: Seq<C>,
    pub inflight: Option<InFlightModel<C>>,
    pub published: Published,
    pub effects: Seq<WritableEffect<T, Sink, C, W>>,
}

/// One write is done: every flush from position `i` on waits for one write less, and one that
/// waits for none any more is answered and its place taken by the last.  What stays, and who is
/// answered, in order.
pub open spec fn count_down<C>(flushes: Seq<(C, usize)>, i: int) -> (Seq<(C, usize)>, Seq<C>)
    decreases flushes.len() - i,
{
    if i < 0 || i >= flushes.len() {
        (flushes, Seq::empty())
    } else if flushes[i].1 == 1 {
        let rest = count_down(flushes.update(i, flushes.last()).drop_last(), i);
        (rest.0, seq![flushes[i].0] + rest.1)
    } else {
        count_down(flushes.update(i, (flushes[i].0, (flushes[i].1 - 1) as usize)), i + 1)
    }
}

impl<T, Sink, S: QueuingStrategy<T>, C, W> WritableModel<T, Sink, S, C, W> {
    /// While the stream takes writes, the queue's size is the sum of its chunks' sizes; every
    /// flush that waits, waits for a write; the queue is countable with one write more.
    pub open spec fn wf(self) -> bool {
        &&& self.state == StreamState::Writable ==> self.queue_total_size == total_size(
            self.strategy,
            chunks(self.queue),
        )
        &&& forall|i: int|
            0 <= i < self.flush_completions.len() ==> (#[trigger] self.flush_completions[i]).1 >= 1
        &&& self.queue.len() < usize::MAX
    }

    /// A new stream over a sink.
    pub open spec fn initial(sink: Sink, strategy: S) -> Self {
        WritableModel {
            state: StreamState::Writable,
            queue: Seq::empty(),
            queue_total_size: 0,
            strategy,
            sink: Some(sink),
            start: StartPhase::NotBegun,
            backpressure: false,
            close_requested: false,
            close_completions: Seq::empty(),
            abort_reason: None,
            abort_requested: false,
            abort_completions: Seq::empty(),
            stored_error: None,
            ready_wakers: Seq::empty(),
            closed_wakers: Seq::empty(),
            flush_completions: Seq::empty(),
            pending_flush_commands: Seq::empty(),
            inflight: None,
            published: Published {
                backpressure: false,
                closed: false,
                errored: false,
                queue_total_size: 0,
            },
            effects: Seq::empty(),
        }
    }

    /// Neither closed nor errored.
    pub open spec fn is_open(self) -> bool {
        self.state == StreamState::Writable
    }

    /// The error that an operation is given on an errored stream.
    pub open spec fn error_to_report(self) -> StreamError {
        match self.stored_error {
            Some(error) => error,
            None => StreamError::notice(Notice::StreamIsErrored),
        }
    }

    pub open spec fn emit(self, effect: WritableEffect<T, Sink, C, W>) -> Self {
        WritableModel { effects: self.effects.push(effect), ..self }
    }

    /// Answer several operations alike.
    pub open spec fn answer(self, waiting: Seq<C>, outcome: StreamResult<()>) -> Self {
        WritableModel { effects: self.effects + completions(waiting, outcome), ..self }
    }

    /// Wake everyone who waits for the stream to end.
    pub open spec fn wake_closed(self) -> Self {
        WritableModel {
            closed_wakers: Seq::empty(),
            effects: self.effects + wakes(self.closed_wakers),
            ..self
        }
    }

    /// Wake everyone who waits for room.
    pub open spec fn wake_ready(self) -> Self {
        WritableModel {
            ready_wakers: Seq::empty(),
            effects: self.effects + wakes(self.ready_wakers),
            ..self
        }
    }

    /// There is backpressure while the queue has reached the high water mark; those who wait for
    /// room are woken when it ends.
    pub open spec fn update_backpressure(self) -> Self {
        let updated = WritableModel {
            backpressure: self.queue_total_size >= self.strategy.spec_high_water_mark(),
            ..self
        };
        if self.backpressure && !updated.backpressure {
            updated.wake_ready()
        } else {
            updated
        }
    }

    /// Show handles the size of the queue.
    pub open spec fn update_counters(self) -> Self {
        WritableModel {
            published: Published { queue_total_size: self.queue_total_size, ..self.published },
            ..self
        }
    }

    /// Show handles the flags, and wake whoever waited for what they now say.
    pub open spec fn update_flags(self) -> Self {
        let shown = WritableModel {
            published: Published {
                backpressure: self.backpressure,
                closed: self.state == StreamState::Closed,
                errored: self.state == StreamState::Errored,
                ..self.published
            },
            ..self
        };
        let ended = if self.is_open() {
            shown
        } else {
            shown.wake_closed()
        };
        if self.backpressure {
            ended
        } else {
            ended.wake_ready()
        }
    }

    /// Show handles everything.
    pub open spec fn publish(self) -> Self {
        self.update_counters().update_flags()
    }

    /// Whether a write can be taken in: it is refused, or its size fits on top of the queue's.
    pub open spec fn can_write(self, chunk: T) -> bool {
        !self.is_open() || self.close_requested || {
            &&& self.queue_total_size + self.strategy.spec_size(&chunk) <= usize::MAX
            &&& self.queue.len() + 1 < usize::MAX
        }
    }

    /// A write: an ended or closing stream refuses it, an open one queues it.
    pub open spec fn write(self, chunk: T, completion: C) -> Self {
        if self.state == StreamState::Errored {
            self.emit(WritableEffect::Complete(completion, Err(self.error_to_report())))
        } else if self.state == StreamState::Closed {
            self.emit(WritableEffect::Complete(completion, Err(StreamError::Closed)))
        } else if self.close_requested {
            self.emit(WritableEffect::Complete(completion, Err(StreamError::Closing)))
        } else {
            WritableModel {
                queue: self.queue.push(PendingWrite { chunk, completion }),
                queue_total_size: (self.queue_total_size + self.strategy.spec_size(
                    &chunk,
                )) as usize,
                ..self
            }.update_backpressure().publish()
        }
    }

    /// A close: an errored stream refuses it, a closed one has done it already, an open one notes
    /// it and answers when it is done.
    pub open spec fn close(self, completion: C) -> Self {
        if self.state == StreamState::Errored {
            self.emit(WritableEffect::Complete(completion, Err(self.error_to_report())))
        } else if self.state == StreamState::Closed {
            self.emit(WritableEffect::Complete(completion, Ok(())))
        } else {
            WritableModel {
                close_requested: true,
                close_completions: self.close_completions.push(completion),
                ..self
            }.publish()
        }
    }

    /// An abort: an ended stream has nothing to abort.  An open one is errored at once, with the
    /// reason that is given, and refuses every queued write with it.
    pub open spec fn abort(self, reason: Option<String>, completion: C) -> Self {
        if !self.is_open() {
            self.emit(WritableEffect::Complete(completion, Ok(())))
        } else if self.abort_requested {
            WritableModel {
                abort_completions: self.abort_completions.push(completion),
                ..self
            }.publish()
        } else {
            WritableModel {
                state: StreamState::Errored,
                stored_error: Some(StreamError::Aborted(reason)),
                abort_requested: true,
                abort_completions: self.abort_completions.push(completion),
                abort_reason: reason,
                queue: Seq::empty(),
                ..self
            }.answer(writers(self.queue), Err(StreamError::Aborted(reason))).publish()
        }
    }

    /// A flush: an errored stream refuses it, any other notes it.
    pub open spec fn flush(self, completion: C) -> Self {
        if self.state == StreamState::Errored {
            self.emit(WritableEffect::Complete(completion, Err(self.error_to_report())))
        } else {
            WritableModel {
                pending_flush_commands: self.pending_flush_commands.push(completion),
                ..self
            }
        }
    }

    /// The writes that are queued or under way.
    pub open spec fn writes_under_way(self) -> nat {
        self.queue.len() + if self.inflight is Some && self.inflight->0 is Write {
            1nat
        } else {
            0nat
        }
    }

    /// A noted flush: with no write under way it is done, otherwise it waits for as many writes as
    /// are.
    pub open spec fn process_flush(self, completion: C) -> Self {
        if self.state == StreamState::Errored {
            self.emit(WritableEffect::Complete(completion, Err(self.error_to_report())))
        } else if self.writes_under_way() == 0 {
            self.emit(WritableEffect::Complete(completion, Ok(())))
        } else {
            WritableModel {
                flush_completions: self.flush_completions.push(
                    (completion, self.writes_under_way() as usize),
                ),
                ..self
            }
        }
    }

    /// All noted flushes, the latest first.
    pub open spec fn settle_flushes(self) -> Self
        decreases self.pending_flush_commands.len(),
    {
        if self.pending_flush_commands.len() == 0 {
            self
        } else {
            let rest = WritableModel {
                pending_flush_commands: self.pending_flush_commands.drop_last(),
                ..self
            };
            let next = rest.process_flush(self.pending_flush_commands.last());
            if next.pending_flush_commands.len() < self.pending_flush_commands.len() {
                next.settle_flushes()
            } else {
                next
            }
        }
    }

    /// What a command makes of the stream, wakers aside.
    pub open spec fn command(self, command: StreamCommand<T, C, W>) -> Self {
        match command {
            StreamCommand::Write { chunk, completion } => self.write(chunk, completion),
            StreamCommand::Close { completion } => self.close(completion),
            StreamCommand::Abort { reason, completion } => self.abort(reason, completion),
            StreamCommand::Flush { completion } => self.flush(completion),
            _ => self,
        }.settle_flushes()
    }

    /// Whether a command can be taken in.
    pub open spec fn can_take(self, command: StreamCommand<T, C, W>) -> bool {
        command matches StreamCommand::Write { chunk, .. } ==> self.can_write(chunk)
    }

    /// A waker waits for room; the set it is in becomes `ready_wakers`.
    pub open spec fn ready_waker_registered(self, ready_wakers: Seq<W>) -> Self {
        let registered = WritableModel { ready_wakers, ..self };
        if self.backpressure {
            registered
        } else {
            registered.wake_ready()
        }
    }

    /// A waker waits for the end; the set it is in becomes `closed_wakers`.
    pub open spec fn closed_waker_registered(self, closed_wakers: Seq<W>) -> Self {
        let registered = WritableModel { closed_wakers, ..self };
        if self.is_open() {
            registered
        } else {
            registered.wake_closed()
        }
    }

    /// The controller reports an error: the stream fails, and what is queued is dropped.
    pub open spec fn controller_error(self, reason: String) -> Self {
        WritableModel {
            state: StreamState::Errored,
            abort_reason: Some(reason),
            queue: Seq::empty(),
            queue_total_size: 0,
            ..self
        }.wake_ready().wake_closed()
    }

    /// The sink that is to be started: there is one until it is taken out for that.
    pub open spec fn to_be_started(self) -> Option<Sink> {
        if self.start == StartPhase::NotBegun {
            self.sink
        } else {
            None
        }
    }

    /// The sink is taken out to be started.
    pub open spec fn start_begun(self) -> Self {
        if self.start == StartPhase::NotBegun {
            WritableModel { sink: None, start: StartPhase::Running, ..self }
        } else {
            self
        }
    }

    /// The sink has started, or could not: then the stream fails, and the sink is gone.
    pub open spec fn start_finished(self, sink: Sink, outcome: StreamResult<()>) -> Self {
        let over = WritableModel { start: StartPhase::after(outcome), ..self };
        match outcome {
            Ok(()) => WritableModel { sink: Some(sink), ..over },
            Err(error) => WritableModel {
                state: StreamState::Errored,
                stored_error: Some(error),
                sink: None,
                ..over
            }.update_flags(),
        }
    }

    /// While an abort waits, a running operation is told, and whoever waits for it is answered.
    pub open spec fn signal_abort(self) -> Self {
        if !self.abort_requested {
            self
        } else {
            let told = self.emit(WritableEffect::RequestAbort);
            match self.inflight {
                Some(InFlightModel::Write { completion: Some(completion) }) => WritableModel {
                    inflight: Some(InFlightModel::Write { completion: None }),
                    ..told
                }.emit(WritableEffect::Complete(completion, Err(StreamError::Aborted(None)))),
                Some(InFlightModel::Close { completions }) => WritableModel {
                    inflight: Some(InFlightModel::Close { completions: Seq::empty() }),
                    ..told
                }.answer(completions, Err(StreamError::Aborted(None))),
                _ => told,
            }
        }
    }

    /// With the sink idle, a requested close begins once the queue is empty; failing that, a
    /// requested abort begins.  Without a sink there is nothing to wait for.
    pub open spec fn start_ending(self) -> Self {
        if self.inflight is Some {
            self
        } else if self.close_requested {
            if self.queue.len() > 0 {
                self
            } else {
                match self.sink {
                    Some(sink) => WritableModel {
                        sink: None,
                        close_completions: Seq::empty(),
                        inflight: Some(
                            InFlightModel::Close { completions: self.close_completions },
                        ),
                        ..self
                    }.emit(WritableEffect::StartClose(sink)),
                    None => WritableModel {
                        close_completions: Seq::empty(),
                        ..WritableModel {
                            state: StreamState::Closed,
                            close_requested: false,
                            ..self
                        }.update_flags().answer(self.close_completions, Ok(()))
                    },
                }
            }
        } else if self.abort_requested {
            match self.sink {
                Some(sink) => WritableModel {
                    sink: None,
                    abort_reason: None,
                    abort_completions: Seq::empty(),
                    inflight: Some(InFlightModel::Abort { completions: self.abort_completions }),
                    ..self
                }.emit(WritableEffect::StartAbort(sink, self.abort_reason)),
                None => WritableModel {
                    abort_completions: Seq::empty(),
                    ..WritableModel { abort_requested: false, ..self }.update_flags().answer(
                        self.abort_completions,
                        Ok(()),
                    )
                },
            }
        } else {
            self
        }
    }

    /// With the sink idle and the stream open, the next write begins.
    pub open spec fn start_write(self) -> Self {
        if self.inflight is Some || !self.is_open() || self.queue.len() == 0 {
            self
        } else {
            let write = self.queue[0];
            let taken = WritableModel {
                queue: self.queue.subrange(1, self.queue.len() as int),
                queue_total_size: (self.queue_total_size - self.strategy.spec_size(
                    &write.chunk,
                )) as usize,
                ..self
            }.update_backpressure().publish();
            match self.sink {
                Some(sink) => WritableModel {
                    sink: None,
                    inflight: Some(InFlightModel::Write { completion: Some(write.completion) }),
                    ..taken
                }.emit(WritableEffect::StartWrite(sink, write.chunk)),
                None => WritableModel { state: StreamState::Errored, ..taken }.emit(
                    WritableEffect::Complete(
                        write.completion,
                        Err(StreamError::notice(Notice::SinkMissing)),
                    ),
                ),
            }
        }
    }

    /// Everything that the stream can begin by itself; nothing begins before the start of the sink
    /// is over.
    pub open spec fn advance(self) -> Self {
        if self.start.is_over() {
            self.signal_abort().start_ending().start_write()
        } else {
            self
        }
    }

    /// One write is done: flushes wait for one write less.
    pub open spec fn count_write(self) -> Self {
        let counted = count_down(self.flush_completions, 0);
        WritableModel { flush_completions: counted.0, ..self }.answer(counted.1, Ok(()))
    }

    /// The sink has answered a write.  If an abort waits it begins now; otherwise a failed write
    /// fails the stream, and the sink is gone.
    pub open spec fn write_finished(self, sink: Sink, outcome: StreamResult<()>) -> Self {
        let counted = self.count_write();
        let waiting = match self.inflight {
            Some(InFlightModel::Write { completion: Some(completion) }) => seq![completion],
            _ => Seq::empty(),
        };
        if self.abort_requested {
            WritableModel {
                abort_reason: None,
                abort_completions: Seq::empty(),
                inflight: Some(InFlightModel::Abort { completions: self.abort_completions }),
                ..counted
            }.answer(waiting, Err(StreamError::Aborted(None))).emit(
                WritableEffect::StartAbort(sink, self.abort_reason),
            )
        } else {
            WritableModel {
                inflight: None,
                ..match outcome {
                    Ok(()) => WritableModel { sink: Some(sink), ..counted },
                    Err(error) => WritableModel {
                        stored_error: Some(error),
                        state: StreamState::Errored,
                        ..counted
                    },
                }.update_backpressure().publish().answer(waiting, outcome)
            }.emit(WritableEffect::Repoll)
        }
    }

    /// Nothing is queued any more, and there is no backpressure.
    pub open spec fn drained(self) -> Self {
        WritableModel { queue: Seq::empty(), queue_total_size: 0, backpressure: false, ..self }
    }

    /// The sink has closed, or could not: then the stream fails.
    pub open spec fn close_finished(self, outcome: StreamResult<()>) -> Self {
        let waiting = match self.inflight {
            Some(InFlightModel::Close { completions }) => completions,
            _ => Seq::empty(),
        };
        WritableModel {
            inflight: None,
            ..WritableModel {
                close_requested: false,
                ..match outcome {
                    Ok(()) => WritableModel { state: StreamState::Closed, ..self },
                    Err(error) => WritableModel {
                        state: StreamState::Errored,
                        stored_error: Some(error),
                        ..self
                    },
                }
            }.drained().publish().answer(waiting, outcome)
        }.emit(WritableEffect::Repoll)
    }

    /// The sink has aborted, or could not: then that is the error to report.
    pub open spec fn abort_finished(self, outcome: StreamResult<()>) -> Self {
        let waiting = match self.inflight {
            Some(InFlightModel::Abort { completions }) => completions,
            _ => Seq::empty(),
        };
        WritableModel {
            inflight: None,
            ..WritableModel {
                abort_requested: false,
                ..match outcome {
                    Ok(()) => self,
                    Err(error) => WritableModel { stored_error: Some(error), ..self },
                }
            }.drained().publish().answer(waiting, outcome)
        }.emit(WritableEffect::Repoll)
    }

    /// What was asked for has been taken over by whoever carries it out.
    pub open spec fn effects_taken(self) -> Self {
        WritableModel { effects: Seq::empty(), ..self }
    }
}

} // verus!
