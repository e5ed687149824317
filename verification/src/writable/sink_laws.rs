//! What a writable stream asks of its sink, and when.

use super::effect::{
    completions, wakes, writers, InFlightModel, StreamCommand, StreamState, WritableEffect,
};
use super::laws::WritableEvent;
use super::model::{count_down, WritableModel};
use crate::error::{StreamError, StreamResult};
use crate::start::StartPhase;
use crate::strategy::QueuingStrategy;
use vstd::prelude::*;

verus! {

/// What the sink is asked for once it has started.
pub enum SinkCall {
    Write,
    Close,
    Abort,
}

/// What an effect asks of the sink, if anything.
pub open spec fn sink_call<T, Sink, C, W>(effect: WritableEffect<T, Sink, C, W>) -> Option<SinkCall> {
    match effect {
        WritableEffect::StartWrite(_, _) => Some(SinkCall::Write),
        WritableEffect::StartClose(_) => Some(SinkCall::Close),
        WritableEffect::StartAbort(_, _) => Some(SinkCall::Abort),
        _ => None,
    }
}

/// What the sink was asked for, in order.
pub open spec fn sink_calls<T, Sink, C, W>(effects: Seq<WritableEffect<T, Sink, C, W>>) -> Seq<
    SinkCall,
>
    decreases effects.len(),
{
    if effects.len() == 0 {
        Seq::empty()
    } else {
        let before = sink_calls(effects.drop_last());
        match sink_call(effects.last()) {
            Some(call) => before.push(call),
            None => before,
        }
    }
}

impl<T, Sink, S: QueuingStrategy<T>, C, W> WritableModel<T, Sink, S, C, W> {
    /// Once the start is over, an open stream whose sink is idle has its sink at hand.
    pub open spec fn has_its_sink(self) -> bool {
        self.start.is_over() && self.is_open() && self.inflight is None ==> self.sink is Some
    }

    /// Nothing is asked of the sink before its start is over, nor after a start that failed; a
    /// close or an abort is the last thing that is asked of it; the sink is not at hand while it
    /// is busy or once it is gone, and otherwise it is, as long as the stream is open.
    pub open spec fn keeps_its_sink(self) -> bool {
        let calls = sink_calls(self.effects);
        &&& self.start == StartPhase::NotBegun || self.start == StartPhase::Running || self.start
            == StartPhase::Failed ==> calls.len() == 0 && self.inflight is None
        &&& self.start == StartPhase::Running || self.start == StartPhase::Failed ==> self.sink
            is None
        &&& self.start == StartPhase::Failed ==> !self.is_open()
        &&& forall|i: int| 0 <= i < calls.len() - 1 ==> (#[trigger] calls[i]) is Write
        &&& calls.len() > 0 && !(calls.last() is Write) ==> self.sink is None && !(self.inflight
            is Some && self.inflight->0 is Write)
        &&& self.inflight is Some ==> self.sink is None
        &&& self.inflight is Some && self.inflight->0 is Abort ==> !self.is_open()
        &&& self.abort_requested ==> !self.is_open()
        &&& self.has_its_sink()
    }
}

/// Whether `after` asks nothing more of the sink than `before`, and has the sink where it was.
spec fn leaves_sink<T, Sink, S: QueuingStrategy<T>, C, W>(
    before: WritableModel<T, Sink, S, C, W>,
    after: WritableModel<T, Sink, S, C, W>,
) -> bool {
    &&& sink_calls(after.effects) == sink_calls(before.effects)
    &&& after.sink == before.sink
    &&& after.start == before.start
    &&& after.inflight == before.inflight
    &&& after.is_open() ==> before.is_open()
    &&& after.abort_requested ==> before.abort_requested || !after.is_open()
}

/// Whether `after` asks at most one thing more of the sink than `before`; if it does, the sink is
/// busy with it, and a write is the one that has waited longest.
pub open spec fn begins_at_most_one<T, Sink, S: QueuingStrategy<T>, C, W>(
    before: WritableModel<T, Sink, S, C, W>,
    after: WritableModel<T, Sink, S, C, W>,
) -> bool {
    let calls = sink_calls(after.effects);
    calls != sink_calls(before.effects) ==> {
        &&& calls == sink_calls(before.effects).push(calls.last())
        &&& after.inflight is Some
        &&& calls.last() is Write ==> {
            &&& before.inflight is None
            &&& before.is_open()
            &&& before.queue.len() > 0
            &&& after.inflight == Some(
                InFlightModel::Write { completion: Some(before.queue[0].completion) },
            )
        }
    }
}

proof fn lemma_calls_push<T, Sink, C, W>(
    effects: Seq<WritableEffect<T, Sink, C, W>>,
    effect: WritableEffect<T, Sink, C, W>,
)
    ensures
        sink_calls(effects.push(effect)) == (match sink_call(effect) {
            Some(call) => sink_calls(effects).push(call),
            None => sink_calls(effects),
        }),
{
    assert(effects.push(effect).drop_last() =~= effects);
}

proof fn lemma_calls_append<T, Sink, C, W>(
    effects: Seq<WritableEffect<T, Sink, C, W>>,
    more: Seq<WritableEffect<T, Sink, C, W>>,
)
    requires
        forall|i: int| 0 <= i < more.len() ==> sink_call(#[trigger] more[i]) is None,
    ensures
        sink_calls(effects + more) == sink_calls(effects),
    decreases more.len(),
{
    if more.len() == 0 {
        assert(effects + more =~= effects);
    } else {
        lemma_calls_append(effects, more.drop_last());
        lemma_calls_push(effects + more.drop_last(), more.last());
        assert(effects + more =~= (effects + more.drop_last()).push(more.last()));
    }
}

/// Waking and publishing ask nothing of the sink, nor do answers.
proof fn lemma_quiet<T, Sink, S: QueuingStrategy<T>, C, W>(
    stream: WritableModel<T, Sink, S, C, W>,
    waiting: Seq<C>,
    outcome: StreamResult<()>,
)
    ensures
        leaves_sink(stream, stream.wake_closed()),
        leaves_sink(stream, stream.wake_ready()),
        leaves_sink(stream, stream.update_backpressure()),
        leaves_sink(stream, stream.update_flags()),
        leaves_sink(stream, stream.publish()),
        leaves_sink(stream, stream.answer(waiting, outcome)),
{
    lemma_calls_append(stream.effects, wakes(stream.closed_wakers));
    lemma_calls_append(stream.effects, wakes(stream.ready_wakers));
    lemma_calls_append(stream.wake_closed().effects, wakes(stream.ready_wakers));
    lemma_calls_append(stream.effects, completions(waiting, outcome));
}

proof fn lemma_settle<T, Sink, S: QueuingStrategy<T>, C, W>(
    stream: WritableModel<T, Sink, S, C, W>,
)
    ensures
        leaves_sink(stream, stream.settle_flushes()),
    decreases stream.pending_flush_commands.len(),
{
    if stream.pending_flush_commands.len() > 0 {
        let completion = stream.pending_flush_commands.last();
        let rest = WritableModel {
            pending_flush_commands: stream.pending_flush_commands.drop_last(),
            ..stream
        };
        lemma_calls_push(
            stream.effects,
            WritableEffect::Complete(completion, Err(stream.error_to_report())),
        );
        lemma_calls_push(stream.effects, WritableEffect::Complete(completion, Ok(())));
        lemma_settle(rest.process_flush(completion));
    }
}

proof fn lemma_command<T, Sink, S: QueuingStrategy<T>, C, W>(
    stream: WritableModel<T, Sink, S, C, W>,
    command: StreamCommand<T, C, W>,
)
    ensures
        leaves_sink(stream, stream.command(command)),
{
    match command {
        StreamCommand::Write { chunk, completion } => {
            let next = stream.write(chunk, completion);
            if stream.is_open() && !stream.close_requested {
                let queued = WritableModel {
                    queue: stream.queue.push(super::effect::PendingWrite { chunk, completion }),
                    queue_total_size: (stream.queue_total_size + stream.strategy.spec_size(
                        &chunk,
                    )) as usize,
                    ..stream
                };
                lemma_quiet(queued, Seq::empty(), Ok(()));
                lemma_quiet(queued.update_backpressure(), Seq::empty(), Ok(()));
            } else {
                lemma_calls_push(stream.effects, next.effects.last());
                assert(next.effects =~= stream.effects.push(next.effects.last()));
            }
            lemma_settle(next);
        },
        StreamCommand::Close { completion } => {
            let next = stream.close(completion);
            if stream.is_open() {
                lemma_quiet(
                    WritableModel {
                        close_requested: true,
                        close_completions: stream.close_completions.push(completion),
                        ..stream
                    },
                    Seq::empty(),
                    Ok(()),
                );
            } else {
                lemma_calls_push(stream.effects, next.effects.last());
                assert(next.effects =~= stream.effects.push(next.effects.last()));
            }
            lemma_settle(next);
        },
        StreamCommand::Abort { reason, completion } => {
            let next = stream.abort(reason, completion);
            if !stream.is_open() {
                lemma_calls_push(stream.effects, WritableEffect::Complete(completion, Ok(())));
            } else if stream.abort_requested {
                lemma_quiet(
                    WritableModel {
                        abort_completions: stream.abort_completions.push(completion),
                        ..stream
                    },
                    Seq::empty(),
                    Ok(()),
                );
            } else {
                let aborted = WritableModel {
                    state: StreamState::Errored,
                    stored_error: Some(StreamError::Aborted(reason)),
                    abort_requested: true,
                    abort_completions: stream.abort_completions.push(completion),
                    abort_reason: reason,
                    queue: Seq::empty(),
                    ..stream
                };
                let refusal = StreamResult::<()>::Err(StreamError::Aborted(reason));
                lemma_quiet(aborted, writers(stream.queue), refusal);
                lemma_quiet(
                    aborted.answer(writers(stream.queue), refusal),
                    Seq::empty(),
                    Ok(()),
                );
            }
            lemma_settle(next);
        },
        StreamCommand::Flush { completion } => {
            lemma_calls_push(
                stream.effects,
                WritableEffect::Complete(completion, Err(stream.error_to_report())),
            );
            lemma_settle(stream.flush(completion));
        },
        _ => {
            lemma_settle(stream);
        },
    }
}

proof fn lemma_signal_abort<T, Sink, S: QueuingStrategy<T>, C, W>(
    stream: WritableModel<T, Sink, S, C, W>,
)
    requires
        stream.keeps_its_sink(),
    ensures
        stream.signal_abort().keeps_its_sink(),
        stream.signal_abort().start == stream.start,
        sink_calls(stream.signal_abort().effects) == sink_calls(stream.effects),
        stream.signal_abort().inflight is None <==> stream.inflight is None,
        stream.signal_abort().queue == stream.queue,
        stream.signal_abort().is_open() == stream.is_open(),
{
    if stream.abort_requested {
        let told = stream.emit(WritableEffect::RequestAbort);
        lemma_calls_push(stream.effects, WritableEffect::RequestAbort);
        match stream.inflight {
            Some(InFlightModel::Write { completion: Some(completion) }) => {
                lemma_calls_push(
                    told.effects,
                    WritableEffect::Complete(completion, Err(StreamError::Aborted(None))),
                );
            },
            Some(InFlightModel::Close { completions: waiting }) => {
                lemma_calls_append(
                    told.effects,
                    completions(waiting, Err(StreamError::Aborted(None))),
                );
            },
            _ => {},
        }
    }
}

proof fn lemma_start_ending<T, Sink, S: QueuingStrategy<T>, C, W>(
    stream: WritableModel<T, Sink, S, C, W>,
)
    requires
        stream.keeps_its_sink(),
        stream.start.is_over(),
    ensures
        ({
            let next = stream.start_ending();
            &&& next.keeps_its_sink()
            &&& next.start == stream.start
            &&& next.is_open() ==> stream.is_open() && next.queue == stream.queue
            &&& begins_at_most_one(stream, next)
            &&& sink_calls(next.effects) != sink_calls(stream.effects) ==> stream.inflight is None
            &&& stream.inflight is Some ==> next.inflight is Some
        }),
{
    let calls = sink_calls(stream.effects);
    if stream.inflight is None {
        if stream.close_requested {
            if stream.queue.len() == 0 {
                match stream.sink {
                    Some(sink) => {
                        lemma_calls_push(stream.effects, WritableEffect::StartClose(sink));
                    },
                    None => {
                        let closed = WritableModel {
                            state: StreamState::Closed,
                            close_requested: false,
                            ..stream
                        };
                        lemma_quiet(closed, Seq::empty(), Ok(()));
                        lemma_quiet(closed.update_flags(), stream.close_completions, Ok(()));
                    },
                }
            }
        } else if stream.abort_requested {
            match stream.sink {
                Some(sink) => {
                    lemma_calls_push(
                        stream.effects,
                        WritableEffect::StartAbort(sink, stream.abort_reason),
                    );
                },
                None => {
                    let done = WritableModel { abort_requested: false, ..stream };
                    lemma_quiet(done, Seq::empty(), Ok(()));
                    lemma_quiet(done.update_flags(), stream.abort_completions, Ok(()));
                },
            }
        }
    }
}

proof fn lemma_start_write<T, Sink, S: QueuingStrategy<T>, C, W>(
    stream: WritableModel<T, Sink, S, C, W>,
)
    requires
        stream.keeps_its_sink(),
        stream.start.is_over(),
    ensures
        ({
            let next = stream.start_write();
            &&& next.keeps_its_sink()
            &&& next.start == stream.start
            &&& begins_at_most_one(stream, next)
            &&& sink_calls(next.effects) != sink_calls(stream.effects) ==> stream.inflight is None
            &&& stream.inflight is Some ==> next == stream
        }),
{
    if stream.inflight is None && stream.is_open() && stream.queue.len() > 0 {
        let write = stream.queue[0];
        let taken = WritableModel {
            queue: stream.queue.subrange(1, stream.queue.len() as int),
            queue_total_size: (stream.queue_total_size - stream.strategy.spec_size(
                &write.chunk,
            )) as usize,
            ..stream
        };
        lemma_quiet(taken, Seq::empty(), Ok(()));
        lemma_quiet(taken.update_backpressure(), Seq::empty(), Ok(()));
        let published = taken.update_backpressure().publish();
        let sink = stream.sink->0;
        lemma_calls_push(published.effects, WritableEffect::StartWrite(sink, write.chunk));
    }
}

proof fn lemma_write_finished<T, Sink, S: QueuingStrategy<T>, C, W>(
    stream: WritableModel<T, Sink, S, C, W>,
    sink: Sink,
    outcome: StreamResult<()>,
)
    requires
        stream.keeps_its_sink(),
        stream.inflight is Some,
        stream.inflight->0 is Write,
    ensures
        stream.write_finished(sink, outcome).keeps_its_sink(),
        stream.write_finished(sink, outcome).start == stream.start,
        begins_at_most_one(stream, stream.write_finished(sink, outcome)),
        ({
            let calls = sink_calls(stream.write_finished(sink, outcome).effects);
            calls != sink_calls(stream.effects) ==> calls.last() is Abort
        }),
{
    let counted = stream.count_write();
    let done = count_down(stream.flush_completions, 0).1;
    lemma_calls_append(stream.effects, completions(done, Ok(())));
    let waiting = match stream.inflight {
        Some(InFlightModel::Write { completion: Some(completion) }) => seq![completion],
        _ => Seq::empty(),
    };
    if stream.abort_requested {
        let aborting = WritableModel {
            abort_reason: None,
            abort_completions: Seq::empty(),
            inflight: Some(InFlightModel::Abort { completions: stream.abort_completions }),
            ..counted
        };
        lemma_quiet(aborting, waiting, Err(StreamError::Aborted(None)));
        lemma_calls_push(
            aborting.answer(waiting, Err(StreamError::Aborted(None))).effects,
            WritableEffect::StartAbort(sink, stream.abort_reason),
        );
    } else {
        let kept = match outcome {
            Ok(()) => WritableModel { sink: Some(sink), ..counted },
            Err(error) => WritableModel {
                stored_error: Some(error),
                state: StreamState::Errored,
                ..counted
            },
        };
        lemma_quiet(kept, Seq::empty(), Ok(()));
        lemma_quiet(kept.update_backpressure(), Seq::empty(), Ok(()));
        let published = kept.update_backpressure().publish();
        lemma_quiet(published, waiting, outcome);
        lemma_calls_push(published.answer(waiting, outcome).effects, WritableEffect::Repoll);
    }
}

proof fn lemma_ended<T, Sink, S: QueuingStrategy<T>, C, W>(
    ended: WritableModel<T, Sink, S, C, W>,
    waiting: Seq<C>,
    outcome: StreamResult<()>,
)
    ensures
        leaves_sink(
            ended,
            ended.publish().answer(waiting, outcome).emit(WritableEffect::Repoll),
        ),
{
    lemma_quiet(ended, Seq::empty(), Ok(()));
    lemma_quiet(ended.publish(), waiting, outcome);
    lemma_calls_push(
        ended.publish().answer(waiting, outcome).effects,
        WritableEffect::Repoll,
    );
}

/// The sink is kept where nothing is asked of it and it stays where it was.
proof fn lemma_kept<T, Sink, S: QueuingStrategy<T>, C, W>(
    before: WritableModel<T, Sink, S, C, W>,
    after: WritableModel<T, Sink, S, C, W>,
)
    requires
        before.keeps_its_sink(),
        leaves_sink(before, after),
    ensures
        after.keeps_its_sink(),
{
}

/// What a handle's registration or the controller's error makes of the stream.
proof fn lemma_notified<T, Sink, S: QueuingStrategy<T>, C, W>(
    stream: WritableModel<T, Sink, S, C, W>,
    set: Seq<W>,
    reason: String,
)
    ensures
        leaves_sink(stream, stream.ready_waker_registered(set).settle_flushes()),
        leaves_sink(stream, stream.closed_waker_registered(set).settle_flushes()),
        leaves_sink(stream, stream.controller_error(reason)),
{
    lemma_quiet(WritableModel { ready_wakers: set, ..stream }, Seq::empty(), Ok(()));
    lemma_settle(stream.ready_waker_registered(set));
    lemma_quiet(WritableModel { closed_wakers: set, ..stream }, Seq::empty(), Ok(()));
    lemma_settle(stream.closed_waker_registered(set));
    let failed = WritableModel {
        state: StreamState::Errored,
        abort_reason: Some(reason),
        queue: Seq::empty(),
        queue_total_size: 0,
        ..stream
    };
    lemma_quiet(failed, Seq::empty(), Ok(()));
    lemma_quiet(failed.wake_ready(), Seq::empty(), Ok(()));
}

proof fn lemma_start_finished<T, Sink, S: QueuingStrategy<T>, C, W>(
    stream: WritableModel<T, Sink, S, C, W>,
    sink: Sink,
    outcome: StreamResult<()>,
)
    requires
        stream.keeps_its_sink(),
        stream.start == StartPhase::Running,
    ensures
        stream.start_finished(sink, outcome).keeps_its_sink(),
        stream.start_finished(sink, outcome).start.is_over(),
        sink_calls(stream.start_finished(sink, outcome).effects) == sink_calls(stream.effects),
{
    if let Err(error) = outcome {
        let failed = WritableModel {
            state: StreamState::Errored,
            stored_error: Some(error),
            sink: None,
            start: StartPhase::Failed,
            ..stream
        };
        lemma_quiet(failed, Seq::empty(), Ok(()));
    }
}

proof fn lemma_close_finished<T, Sink, S: QueuingStrategy<T>, C, W>(
    stream: WritableModel<T, Sink, S, C, W>,
    outcome: StreamResult<()>,
)
    requires
        stream.keeps_its_sink(),
        stream.inflight is Some,
        stream.inflight->0 is Close,
    ensures
        stream.close_finished(outcome).keeps_its_sink(),
        stream.close_finished(outcome).start == stream.start,
        sink_calls(stream.close_finished(outcome).effects) == sink_calls(stream.effects),
{
    let ended = WritableModel {
        close_requested: false,
        ..match outcome {
            Ok(()) => WritableModel { state: StreamState::Closed, ..stream },
            Err(error) => WritableModel {
                state: StreamState::Errored,
                stored_error: Some(error),
                ..stream
            },
        }
    }.drained();
    lemma_ended(ended, stream.inflight->0->Close_completions, outcome);
}

proof fn lemma_abort_finished<T, Sink, S: QueuingStrategy<T>, C, W>(
    stream: WritableModel<T, Sink, S, C, W>,
    outcome: StreamResult<()>,
)
    requires
        stream.keeps_its_sink(),
        stream.inflight is Some,
        stream.inflight->0 is Abort,
    ensures
        stream.abort_finished(outcome).keeps_its_sink(),
        stream.abort_finished(outcome).start == stream.start,
        sink_calls(stream.abort_finished(outcome).effects) == sink_calls(stream.effects),
{
    let ended = WritableModel {
        abort_requested: false,
        ..match outcome {
            Ok(()) => stream,
            Err(error) => WritableModel { stored_error: Some(error), ..stream },
        }
    }.drained();
    lemma_ended(ended, stream.inflight->0->Abort_completions, outcome);
}

proof fn lemma_advance<T, Sink, S: QueuingStrategy<T>, C, W>(
    stream: WritableModel<T, Sink, S, C, W>,
)
    requires
        stream.keeps_its_sink(),
    ensures
        stream.advance().keeps_its_sink(),
        stream.advance().start == stream.start,
        begins_at_most_one(stream, stream.advance()),
        sink_calls(stream.advance().effects) != sink_calls(stream.effects) ==> stream.inflight
            is None,
{
    if stream.start.is_over() {
        lemma_signal_abort(stream);
        lemma_start_ending(stream.signal_abort());
        lemma_start_write(stream.signal_abort().start_ending());
    }
}

/// One event.
proof fn lemma_step<T, Sink, S: QueuingStrategy<T>, C, W>(
    stream: WritableModel<T, Sink, S, C, W>,
    event: WritableEvent<T, Sink, C, W>,
)
    requires
        stream.keeps_its_sink(),
        stream.allows(event),
    ensures
        stream.step(event).keeps_its_sink(),
        stream.start != StartPhase::NotBegun ==> stream.step(event).start != StartPhase::NotBegun,
        stream.start.is_over() ==> stream.step(event).start == stream.start,
        begins_at_most_one(stream, stream.step(event)),
        ({
            let calls = sink_calls(stream.step(event).effects);
            calls != sink_calls(stream.effects) && stream.inflight is Some ==> event
                is WriteFinished && calls.last() is Abort
        }),
        sink_calls(stream.step(event).effects) != sink_calls(stream.effects) ==> stream.start
            == StartPhase::Succeeded,
{
    match event {
        WritableEvent::Command(command) => {
            lemma_command(stream, command);
            lemma_kept(stream, stream.step(event));
        },
        WritableEvent::ReadyWaker(set) => {
            lemma_notified(stream, set, arbitrary());
            lemma_kept(stream, stream.step(event));
        },
        WritableEvent::ClosedWaker(set) => {
            lemma_notified(stream, set, arbitrary());
            lemma_kept(stream, stream.step(event));
        },
        WritableEvent::ControllerError(reason) => {
            lemma_notified(stream, Seq::empty(), reason);
            lemma_kept(stream, stream.step(event));
        },
        WritableEvent::Publish => {
            lemma_quiet(stream, Seq::empty(), Ok(()));
            lemma_kept(stream, stream.step(event));
        },
        WritableEvent::StartBegun => {},
        WritableEvent::StartFinished(sink, outcome) => {
            lemma_start_finished(stream, sink, outcome);
        },
        WritableEvent::Advance => {
            lemma_advance(stream);
        },
        WritableEvent::WriteFinished(sink, outcome) => {
            lemma_write_finished(stream, sink, outcome);
        },
        WritableEvent::CloseFinished(outcome) => {
            lemma_close_finished(stream, outcome);
        },
        WritableEvent::AbortFinished(outcome) => {
            lemma_abort_finished(stream, outcome);
        },
    }
}

/// Whatever happens to a new stream, the sink is asked for nothing before its start is over, and
/// for nothing ever if its start failed; a close or an abort is the last thing it is asked for, so
/// each of them begins at most once; it is not at hand while it is busy; and once started, an open
/// stream whose sink is idle has it at hand.
pub proof fn law_the_sink_is_asked_in_turn<T, Sink, S: QueuingStrategy<T>, C, W>(
    sink: Sink,
    strategy: S,
    events: Seq<WritableEvent<T, Sink, C, W>>,
)
    requires
        WritableModel::<T, Sink, S, C, W>::initial(sink, strategy).allows_all(events),
    ensures
        WritableModel::<T, Sink, S, C, W>::initial(sink, strategy).run(events).keeps_its_sink(),
    decreases events.len(),
{
    if events.len() > 0 {
        let earlier = events.drop_last();
        law_the_sink_is_asked_in_turn(sink, strategy, earlier);
        lemma_step(
            WritableModel::<T, Sink, S, C, W>::initial(sink, strategy).run(earlier),
            events.last(),
        );
    }
}

/// The sink of a new stream is there to be started, and once its start has begun it is not given
/// out for that again, whatever happens.
pub proof fn law_the_sink_starts_once<T, Sink, S: QueuingStrategy<T>, C, W>(
    sink: Sink,
    strategy: S,
    events: Seq<WritableEvent<T, Sink, C, W>>,
    i: int,
)
    requires
        WritableModel::<T, Sink, S, C, W>::initial(sink, strategy).allows_all(events),
        0 <= i < events.len(),
        events[i] is StartBegun,
    ensures
        ({
            let initial = WritableModel::<T, Sink, S, C, W>::initial(sink, strategy);
            &&& initial.to_be_started() == Some(sink)
            &&& initial.run(events).to_be_started() is None
        }),
{
    lemma_started(sink, strategy, events, i);
}

proof fn lemma_started<T, Sink, S: QueuingStrategy<T>, C, W>(
    sink: Sink,
    strategy: S,
    events: Seq<WritableEvent<T, Sink, C, W>>,
    i: int,
)
    requires
        WritableModel::<T, Sink, S, C, W>::initial(sink, strategy).allows_all(events),
        0 <= i < events.len(),
        events[i] is StartBegun,
    ensures
        WritableModel::<T, Sink, S, C, W>::initial(sink, strategy).run(events).start
            != StartPhase::NotBegun,
    decreases events.len(),
{
    let initial = WritableModel::<T, Sink, S, C, W>::initial(sink, strategy);
    let earlier = events.drop_last();
    law_the_sink_is_asked_in_turn(sink, strategy, earlier);
    lemma_step(initial.run(earlier), events.last());
    if i < events.len() - 1 {
        lemma_started(sink, strategy, earlier, i);
    }
}

/// The sink is asked for one thing at a time: where an event asks it for something, it is one
/// thing, the sink was idle or has just finished a write, and from then on it is busy; and a write
/// begins only on an open stream with an idle sink, with the write that has waited longest.
pub proof fn law_the_sink_does_one_thing_at_a_time<T, Sink, S: QueuingStrategy<T>, C, W>(
    sink: Sink,
    strategy: S,
    events: Seq<WritableEvent<T, Sink, C, W>>,
    event: WritableEvent<T, Sink, C, W>,
)
    requires
        WritableModel::<T, Sink, S, C, W>::initial(sink, strategy).allows_all(events),
        WritableModel::<T, Sink, S, C, W>::initial(sink, strategy).run(events).allows(event),
    ensures
        ({
            let stream = WritableModel::<T, Sink, S, C, W>::initial(sink, strategy).run(events);
            let next = stream.step(event);
            let calls = sink_calls(next.effects);
            &&& begins_at_most_one(stream, next)
            &&& calls != sink_calls(stream.effects) ==> {
                &&& stream.start == StartPhase::Succeeded
                &&& stream.inflight is Some ==> event is WriteFinished && calls.last() is Abort
            }
        }),
{
    let initial = WritableModel::<T, Sink, S, C, W>::initial(sink, strategy);
    law_the_sink_is_asked_in_turn(sink, strategy, events);
    lemma_step(initial.run(events), event);
}

/// Settling flushes leaves none noted, and changes nothing but flushes and answers.
proof fn lemma_settled<T, Sink, S: QueuingStrategy<T>, C, W>(
    stream: WritableModel<T, Sink, S, C, W>,
)
    ensures
        ({
            let settled = stream.settle_flushes();
            &&& settled.pending_flush_commands.len() == 0
            &&& settled.state == stream.state
            &&& settled.stored_error == stream.stored_error
            &&& settled.close_requested == stream.close_requested
            &&& settled.abort_requested == stream.abort_requested
        }),
    decreases stream.pending_flush_commands.len(),
{
    if stream.pending_flush_commands.len() > 0 {
        let rest = WritableModel {
            pending_flush_commands: stream.pending_flush_commands.drop_last(),
            ..stream
        };
        lemma_settled(rest.process_flush(stream.pending_flush_commands.last()));
    }
}

/// No event leaves a flush noted.
proof fn lemma_nothing_noted<T, Sink, S: QueuingStrategy<T>, C, W>(
    stream: WritableModel<T, Sink, S, C, W>,
    event: WritableEvent<T, Sink, C, W>,
)
    requires
        stream.pending_flush_commands.len() == 0,
    ensures
        stream.step(event).pending_flush_commands.len() == 0,
{
    match event {
        WritableEvent::Command(StreamCommand::Write { chunk, completion }) => {
            lemma_settled(stream.write(chunk, completion));
        },
        WritableEvent::Command(StreamCommand::Close { completion }) => {
            lemma_settled(stream.close(completion));
        },
        WritableEvent::Command(StreamCommand::Abort { reason, completion }) => {
            lemma_settled(stream.abort(reason, completion));
        },
        WritableEvent::Command(StreamCommand::Flush { completion }) => {
            lemma_settled(stream.flush(completion));
        },
        WritableEvent::Command(_) => {
            lemma_settled(stream);
        },
        WritableEvent::ReadyWaker(set) => {
            lemma_settled(stream.ready_waker_registered(set));
        },
        WritableEvent::ClosedWaker(set) => {
            lemma_settled(stream.closed_waker_registered(set));
        },
        _ => {},
    }
}

proof fn lemma_nothing_noted_ever<T, Sink, S: QueuingStrategy<T>, C, W>(
    stream: WritableModel<T, Sink, S, C, W>,
    events: Seq<WritableEvent<T, Sink, C, W>>,
)
    requires
        stream.pending_flush_commands.len() == 0,
    ensures
        stream.run(events).pending_flush_commands.len() == 0,
    decreases events.len(),
{
    if events.len() > 0 {
        lemma_nothing_noted_ever(stream, events.drop_last());
        lemma_nothing_noted(stream.run(events.drop_last()), events.last());
    }
}

/// A stream that has ended and whose sink is gone.
spec fn is_left<T, Sink, S: QueuingStrategy<T>, C, W>(
    stream: WritableModel<T, Sink, S, C, W>,
) -> bool {
    &&& stream.keeps_its_sink()
    &&& stream.start.is_over()
    &&& !stream.is_open()
    &&& stream.sink is None
    &&& stream.inflight is None
    &&& !stream.abort_requested
    &&& stream.pending_flush_commands.len() == 0
}

/// A stream that failed with this error, with nobody waiting for a close.
spec fn has_failed<T, Sink, S: QueuingStrategy<T>, C, W>(
    stream: WritableModel<T, Sink, S, C, W>,
    error: StreamError,
) -> bool {
    &&& stream.state == StreamState::Errored
    &&& stream.stored_error == Some(error)
    &&& !stream.close_requested
}

/// A command to a stream that has ended changes nothing but flushes and answers.
proof fn lemma_command_to_ended<T, Sink, S: QueuingStrategy<T>, C, W>(
    stream: WritableModel<T, Sink, S, C, W>,
    command: StreamCommand<T, C, W>,
)
    requires
        !stream.is_open(),
    ensures
        ({
            let next = stream.command(command);
            &&& next.state == stream.state
            &&& next.stored_error == stream.stored_error
            &&& next.close_requested == stream.close_requested
            &&& next.abort_requested == stream.abort_requested
        }),
{
    match command {
        StreamCommand::Write { chunk, completion } => {
            lemma_settled(stream.write(chunk, completion));
        },
        StreamCommand::Close { completion } => {
            lemma_settled(stream.close(completion));
        },
        StreamCommand::Abort { reason, completion } => {
            lemma_settled(stream.abort(reason, completion));
        },
        StreamCommand::Flush { completion } => {
            lemma_settled(stream.flush(completion));
        },
        _ => {
            lemma_settled(stream);
        },
    }
}

/// A stream whose sink is gone stays so, and asks for nothing more.
proof fn lemma_left<T, Sink, S: QueuingStrategy<T>, C, W>(
    stream: WritableModel<T, Sink, S, C, W>,
    event: WritableEvent<T, Sink, C, W>,
    error: StreamError,
)
    requires
        is_left(stream),
        stream.allows(event),
    ensures
        is_left(stream.step(event)),
        sink_calls(stream.step(event).effects) == sink_calls(stream.effects),
        has_failed(stream, error) ==> has_failed(stream.step(event), error),
{
    lemma_step(stream, event);
    lemma_nothing_noted(stream, event);
    match event {
        WritableEvent::Command(command) => {
            lemma_command(stream, command);
            lemma_command_to_ended(stream, command);
        },
        WritableEvent::ReadyWaker(set) => {
            lemma_notified(stream, set, arbitrary());
            lemma_settled(stream.ready_waker_registered(set));
        },
        WritableEvent::ClosedWaker(set) => {
            lemma_notified(stream, set, arbitrary());
            lemma_settled(stream.closed_waker_registered(set));
        },
        WritableEvent::ControllerError(reason) => {
            lemma_notified(stream, Seq::empty(), reason);
        },
        WritableEvent::Publish => {
            lemma_quiet(stream, Seq::empty(), Ok(()));
        },
        _ => {},
    }
}

/// How a stream whose sink is gone answers.
proof fn lemma_left_answers<T, Sink, S: QueuingStrategy<T>, C, W>(
    stream: WritableModel<T, Sink, S, C, W>,
    error: StreamError,
    chunk: T,
    reason: Option<String>,
    c: C,
)
    requires
        is_left(stream),
    ensures
        ({
            let refused = stream.emit(WritableEffect::Complete(c, Err(error)));
            &&& stream.command(StreamCommand::Abort { reason, completion: c }) == stream.emit(
                WritableEffect::Complete(c, Ok(())),
            )
            &&& has_failed(stream, error) ==> {
                &&& stream.command(StreamCommand::Write { chunk, completion: c }) == refused
                &&& stream.command(StreamCommand::Close { completion: c }) == refused
                &&& stream.command(StreamCommand::Flush { completion: c }) == refused
            }
        }),
{
}

/// What a failed write makes of the stream, while no abort waits.
proof fn lemma_failed<T, Sink, S: QueuingStrategy<T>, C, W>(
    stream: WritableModel<T, Sink, S, C, W>,
    returned: Sink,
    error: StreamError,
)
    requires
        stream.keeps_its_sink(),
        stream.pending_flush_commands.len() == 0,
        stream.inflight is Some,
        stream.inflight->0 is Write,
        !stream.abort_requested,
    ensures
        ({
            let failed = stream.write_finished(returned, Err(error));
            &&& is_left(failed)
            &&& sink_calls(failed.effects) == sink_calls(stream.effects)
            &&& !stream.close_requested ==> has_failed(failed, error)
        }),
{
    lemma_write_finished(stream, returned, Err(error));
    lemma_nothing_noted(stream, WritableEvent::WriteFinished(returned, Err(error)));
}

proof fn lemma_left_for_good<T, Sink, S: QueuingStrategy<T>, C, W>(
    stream: WritableModel<T, Sink, S, C, W>,
    events: Seq<WritableEvent<T, Sink, C, W>>,
    error: StreamError,
)
    requires
        is_left(stream),
        stream.allows_all(events),
    ensures
        is_left(stream.run(events)),
        sink_calls(stream.run(events).effects) == sink_calls(stream.effects),
        has_failed(stream, error) ==> has_failed(stream.run(events), error),
    decreases events.len(),
{
    if events.len() > 0 {
        lemma_left_for_good(stream, events.drop_last(), error);
        lemma_left(stream.run(events.drop_last()), events.last(), error);
    }
}

/// After a write that failed, while no abort waits, the sink is asked for nothing more, whatever
/// happens; an abort is answered at once with success; and every later write, close and flush is
/// answered with the error of that write, unless a close was already waiting when it failed.
pub proof fn law_a_failed_write_is_the_end<T, Sink, S: QueuingStrategy<T>, C, W>(
    sink: Sink,
    strategy: S,
    events: Seq<WritableEvent<T, Sink, C, W>>,
    returned: Sink,
    error: StreamError,
    later: Seq<WritableEvent<T, Sink, C, W>>,
    chunk: T,
    reason: Option<String>,
    c: C,
)
    requires
        ({
            let initial = WritableModel::<T, Sink, S, C, W>::initial(sink, strategy);
            let stream = initial.run(events);
            &&& initial.allows_all(events)
            &&& stream.inflight is Some && stream.inflight->0 is Write
            &&& !stream.abort_requested
            &&& stream.write_finished(returned, Err(error)).allows_all(later)
        }),
    ensures
        ({
            let stream = WritableModel::<T, Sink, S, C, W>::initial(sink, strategy).run(events);
            let now = stream.write_finished(returned, Err(error)).run(later);
            let refused = now.emit(WritableEffect::Complete(c, Err(error)));
            &&& sink_calls(now.effects) == sink_calls(stream.effects)
            &&& now.command(StreamCommand::Abort { reason, completion: c }) == now.emit(
                WritableEffect::Complete(c, Ok(())),
            )
            &&& !stream.close_requested ==> {
                &&& now.command(StreamCommand::Write { chunk, completion: c }) == refused
                &&& now.command(StreamCommand::Close { completion: c }) == refused
                &&& now.command(StreamCommand::Flush { completion: c }) == refused
            }
        }),
{
    let initial = WritableModel::<T, Sink, S, C, W>::initial(sink, strategy);
    let stream = initial.run(events);
    let failed = stream.write_finished(returned, Err(error));
    law_the_sink_is_asked_in_turn(sink, strategy, events);
    lemma_nothing_noted_ever(initial, events);
    lemma_failed(stream, returned, error);
    lemma_left_for_good(failed, later, error);
    lemma_left_answers(failed.run(later), error, chunk, reason, c);
}

} // verus!
