//! What a writable stream owes: what begins and when, who is answered what, and who is woken.

use super::effect::{
    chunks, completions, wakes, writers, InFlightModel, PendingWrite, StreamCommand, StreamState,
    WritableEffect,
};
use super::laws::{given, WritableEvent};
use super::model::{count_down, WritableModel};
use super::sink_laws::law_the_sink_is_asked_in_turn;
use crate::error::{StreamError, StreamResult};
use crate::start::StartPhase;
use crate::strategy::QueuingStrategy;
use vstd::prelude::*;

verus! {

/// Whether `after` asks for the same as `before` and then for nothing but some wakes.
pub open spec fn only_wakes<T, Sink, C, W>(
    before: Seq<WritableEffect<T, Sink, C, W>>,
    after: Seq<WritableEffect<T, Sink, C, W>>,
) -> bool {
    &&& before.len() <= after.len()
    &&& forall|i: int| 0 <= i < before.len() ==> #[trigger] after[i] == before[i]
    &&& forall|i: int| before.len() <= i < after.len() ==> (#[trigger] after[i]) is Wake
}

/// Whether everyone in `waiting` is given this answer by the last effects, in order.
pub open spec fn answers_last<T, Sink, C, W>(
    effects: Seq<WritableEffect<T, Sink, C, W>>,
    waiting: Seq<C>,
    outcome: StreamResult<()>,
) -> bool {
    &&& waiting.len() <= effects.len()
    &&& forall|i: int|
        0 <= i < waiting.len() ==> #[trigger] effects[effects.len() - waiting.len() + i]
            == WritableEffect::<T, Sink, C, W>::Complete(waiting[i], outcome)
}

impl<T, Sink, S: QueuingStrategy<T>, C, W> WritableModel<T, Sink, S, C, W> {
    /// The start of the sink is over, and the sink is not busy.
    pub open spec fn is_idle(self) -> bool {
        &&& self.start == StartPhase::Succeeded || self.start == StartPhase::Failed
        &&& self.inflight is None
    }
}

/// Everyone is told for themselves: a set of wakers is woken one by one, and everyone who waits for
/// an answer is given it, in order; and a queue of writes is its chunks and their writers.
pub proof fn law_each_one_is_told<T, Sink, C, W>(
    wakers: Seq<W>,
    waiting: Seq<C>,
    outcome: StreamResult<()>,
    queue: Seq<PendingWrite<T, C>>,
    i: int,
)
    ensures
        wakes::<T, Sink, C, W>(wakers).len() == wakers.len(),
        0 <= i < wakers.len() ==> wakes::<T, Sink, C, W>(wakers)[i] == WritableEffect::<
            T,
            Sink,
            C,
            W,
        >::Wake(wakers[i]),
        completions::<T, Sink, C, W>(waiting, outcome).len() == waiting.len(),
        0 <= i < waiting.len() ==> completions::<T, Sink, C, W>(waiting, outcome)[i]
            == WritableEffect::<T, Sink, C, W>::Complete(waiting[i], outcome),
        chunks(queue).len() == queue.len() && writers(queue).len() == queue.len(),
        0 <= i < queue.len() ==> chunks(queue)[i] == queue[i].chunk && writers(queue)[i]
            == queue[i].completion,
{
}

/// Whenever the start is over, the stream is open, its sink is at hand and idle, and writes are
/// queued, advancing it begins the write that has waited longest, whether or not a close was
/// requested: the sink is given its chunk, and is busy with it.  Nothing else begins, nobody is
/// answered, and what else is queued, requested and waited for stays.
pub proof fn law_the_longest_waiting_write_begins<T, Sink, S: QueuingStrategy<T>, C, W>(
    stream: WritableModel<T, Sink, S, C, W>,
    sink: Sink,
)
    requires
        stream.is_idle(),
        stream.state == StreamState::Writable,
        stream.sink == Some(sink),
        stream.queue.len() > 0,
        !stream.abort_requested,
    ensures
        ({
            let next = stream.advance();
            &&& next.inflight == Some(
                InFlightModel::Write { completion: Some(stream.queue[0].completion) },
            )
            &&& next.sink is None
            &&& next.queue == stream.queue.drop_first()
            &&& next.effects.last() == WritableEffect::<T, Sink, C, W>::StartWrite(
                sink,
                stream.queue[0].chunk,
            )
            &&& only_wakes(stream.effects, next.effects.drop_last())
            &&& next.state == StreamState::Writable
            &&& next == (WritableModel {
                queue: next.queue,
                queue_total_size: next.queue_total_size,
                sink: None,
                backpressure: next.backpressure,
                ready_wakers: next.ready_wakers,
                inflight: next.inflight,
                published: next.published,
                effects: next.effects,
                ..stream
            })
        }),
{
    let next = stream.advance();
    assert(stream.queue.subrange(1, stream.queue.len() as int) =~= stream.queue.drop_first());
    assert(stream.signal_abort().start_ending() == stream);
}

impl<T, Sink, S: QueuingStrategy<T>, C, W> WritableModel<T, Sink, S, C, W> {
    /// The stream after everything that is queued was begun in turn, and done by the sink.
    pub open spec fn carried_out(self, sink: Sink) -> Self
        decreases self.queue.len(),
    {
        if self.queue.len() == 0 {
            self
        } else {
            let next = self.advance().write_finished(sink, Ok(()));
            if next.queue.len() < self.queue.len() {
                next.carried_out(sink)
            } else {
                next
            }
        }
    }
}

/// Everything that was taken in before a close reaches the sink before the sink is closed.  As long
/// as the sink does what it is asked, an open stream gives it every queued chunk, in order, and
/// tells each writer of the success; nothing of it depends on whether a close was requested.  If one
/// was, the sink is closed next, and everyone who asked for the close is told what came of it.
pub proof fn law_every_write_reaches_the_sink_before_the_close<
    T,
    Sink,
    S: QueuingStrategy<T>,
    C,
    W,
>(stream: WritableModel<T, Sink, S, C, W>, sink: Sink, outcome: StreamResult<()>)
    requires
        stream.is_idle(),
        stream.state == StreamState::Writable,
        stream.sink == Some(sink),
        !stream.abort_requested,
    ensures
        ({
            let done = stream.carried_out(sink);
            &&& done.queue.len() == 0
            &&& done.state == StreamState::Writable
            &&& given(done.effects) == given(stream.effects) + chunks(stream.queue)
            &&& forall|i: int|
                0 <= i < stream.queue.len() ==> done.effects.contains(
                    WritableEffect::Complete((#[trigger] stream.queue[i]).completion, Ok(())),
                )
            &&& done.close_requested == stream.close_requested
            &&& stream.close_requested ==> {
                let closing = done.advance();
                let closed = closing.close_finished(outcome);
                &&& closing.effects == done.effects.push(WritableEffect::StartClose(sink))
                &&& closing.inflight == Some(
                    InFlightModel::Close { completions: stream.close_completions },
                )
                &&& answers_last(closed.effects.drop_last(), stream.close_completions, outcome)
                &&& closed.state == (if outcome is Ok {
                    StreamState::Closed
                } else {
                    StreamState::Errored
                })
            }
        }),
{
    lemma_carried_out(stream, sink);
    let done = stream.carried_out(sink);
    if stream.close_requested {
        let closing = done.advance();
        let closed = closing.close_finished(outcome);
        law_the_end_of_a_close(closing, outcome);
    }
}

proof fn lemma_carried_out<T, Sink, S: QueuingStrategy<T>, C, W>(
    stream: WritableModel<T, Sink, S, C, W>,
    sink: Sink,
)
    requires
        stream.is_idle(),
        stream.state == StreamState::Writable,
        stream.sink == Some(sink),
        !stream.abort_requested,
    ensures
        ({
            let done = stream.carried_out(sink);
            &&& done.is_idle()
            &&& done.state == StreamState::Writable
            &&& done.sink == Some(sink)
            &&& !done.abort_requested
            &&& done.queue.len() == 0
            &&& done.close_requested == stream.close_requested
            &&& done.close_completions == stream.close_completions
            &&& given(done.effects) == given(stream.effects) + chunks(stream.queue)
            &&& stream.effects.len() <= done.effects.len()
            &&& forall|i: int|
                0 <= i < stream.effects.len() ==> #[trigger] done.effects[i] == stream.effects[i]
            &&& forall|i: int|
                0 <= i < stream.queue.len() ==> done.effects.contains(
                    WritableEffect::Complete((#[trigger] stream.queue[i]).completion, Ok(())),
                )
        }),
    decreases stream.queue.len(),
{
    let done = stream.carried_out(sink);
    if stream.queue.len() == 0 {
        assert(given(stream.effects) + chunks(stream.queue) =~= given(stream.effects));
    } else {
        let write = stream.queue[0];
        let begun = stream.advance();
        let next = begun.write_finished(sink, Ok(()));
        law_the_longest_waiting_write_begins(stream, sink);
        law_the_end_of_a_write(begun, sink, Ok(()));
        lemma_carried_out(next, sink);
        let before = begun.effects.drop_last();
        lemma_given_unchanged(stream.effects, before);
        assert(begun.effects =~= before.push(WritableEffect::StartWrite(sink, write.chunk)));
        assert(given(begun.effects) == given(before).push(write.chunk)) by {
            assert(begun.effects.drop_last() == before);
        }
        lemma_given_unchanged(begun.effects, next.effects);
        assert(given(done.effects) =~= given(stream.effects) + chunks(stream.queue)) by {
            assert(chunks(stream.queue.drop_first()) =~= chunks(stream.queue).drop_first());
        }
        assert forall|i: int| 0 <= i < stream.effects.len() implies #[trigger] done.effects[i]
            == stream.effects[i] by {
            assert(before[i] == stream.effects[i]);
            assert(begun.effects[i] == before[i]);
            assert(next.effects[i] == begun.effects[i]);
        }
        assert forall|i: int| 0 <= i < stream.queue.len() implies done.effects.contains(
            WritableEffect::Complete((#[trigger] stream.queue[i]).completion, Ok(())),
        ) by {
            if i == 0 {
                let k = next.effects.len() - 2;
                assert(next.effects[k] == WritableEffect::<T, Sink, C, W>::Complete(
                    write.completion,
                    Ok(()),
                ));
                assert(done.effects[k] == next.effects[k]);
            } else {
                assert(next.queue[i - 1] == stream.queue[i]);
            }
        }
    }
}

/// Whatever happened to a new stream, it gets on: once its start is over, an open stream that is not
/// busy and has writes queued begins the one that has waited longest as soon as it is advanced.
pub proof fn law_an_open_stream_gets_on<T, Sink, S: QueuingStrategy<T>, C, W>(
    sink: Sink,
    strategy: S,
    events: Seq<WritableEvent<T, Sink, C, W>>,
)
    requires
        WritableModel::<T, Sink, S, C, W>::initial(sink, strategy).allows_all(events),
    ensures
        ({
            let stream = WritableModel::<T, Sink, S, C, W>::initial(sink, strategy).run(events);
            let next = stream.advance();
            stream.is_idle() && stream.state == StreamState::Writable && stream.queue.len() > 0
                ==> {
                &&& stream.sink is Some
                &&& next.effects.last() == WritableEffect::<T, Sink, C, W>::StartWrite(
                    stream.sink->0,
                    stream.queue[0].chunk,
                )
                &&& next.inflight == Some(
                    InFlightModel::Write { completion: Some(stream.queue[0].completion) },
                )
                &&& next.queue.len() == stream.queue.len() - 1
            }
        }),
{
    let stream = WritableModel::<T, Sink, S, C, W>::initial(sink, strategy).run(events);
    law_the_sink_is_asked_in_turn(sink, strategy, events);
    if stream.is_idle() && stream.state == StreamState::Writable && stream.queue.len() > 0 {
        law_the_longest_waiting_write_begins(stream, stream.sink->0);
    }
}

/// Effects that give the sink nothing leave what it was given.
proof fn lemma_given_unchanged<T, Sink, C, W>(
    before: Seq<WritableEffect<T, Sink, C, W>>,
    after: Seq<WritableEffect<T, Sink, C, W>>,
)
    requires
        before.len() <= after.len(),
        forall|i: int| 0 <= i < before.len() ==> #[trigger] after[i] == before[i],
        forall|i: int| before.len() <= i < after.len() ==> (#[trigger] after[i]) !is StartWrite,
    ensures
        given(after) == given(before),
    decreases after.len(),
{
    if after.len() == before.len() {
        assert(after =~= before);
    } else {
        lemma_given_unchanged(before, after.drop_last());
    }
}

/// A close begins as soon as the sink is idle and nothing is queued: the sink is asked to close, and
/// everyone who asked for the close waits for it.  Without a sink the stream is closed at once, and
/// they are all told so.
pub proof fn law_a_requested_close_begins<T, Sink, S: QueuingStrategy<T>, C, W>(
    stream: WritableModel<T, Sink, S, C, W>,
)
    requires
        stream.is_idle(),
        stream.close_requested,
        stream.queue.len() == 0,
    ensures
        ({
            let next = stream.advance();
            &&& stream.sink matches Some(sink) ==> {
                &&& next.effects.last() == WritableEffect::<T, Sink, C, W>::StartClose(sink)
                &&& next.inflight == Some(
                    InFlightModel::Close { completions: stream.close_completions },
                )
                &&& next.effects.len() == stream.effects.len() + if stream.abort_requested {
                    2int
                } else {
                    1int
                }
                &&& next == (WritableModel {
                    sink: None,
                    close_completions: Seq::empty(),
                    inflight: next.inflight,
                    effects: next.effects,
                    ..stream
                })
            }
            &&& stream.sink is None ==> {
                &&& next.state == StreamState::Closed
                &&& next.published.closed && !next.published.errored
                &&& !next.close_requested
                &&& next.inflight is None
                &&& next.close_completions.len() == 0
                &&& answers_last(next.effects, stream.close_completions, Ok(()))
                &&& next.closed_wakers.len() == 0
                &&& next.abort_requested == stream.abort_requested && next.stored_error
                    == stream.stored_error && next.abort_completions == stream.abort_completions
                    && next.flush_completions == stream.flush_completions
            }
        }),
{
}

/// An abort begins as soon as the sink is idle, unless a close is to come first: the sink is asked to
/// abort, with the reason that was given, and everyone who asked for the abort waits for it.
/// Without a sink it is done, and they are all told so.
pub proof fn law_a_requested_abort_begins<T, Sink, S: QueuingStrategy<T>, C, W>(
    stream: WritableModel<T, Sink, S, C, W>,
)
    requires
        stream.is_idle(),
        stream.abort_requested,
        !stream.close_requested,
        stream.state != StreamState::Writable,
    ensures
        ({
            let next = stream.advance();
            let told = stream.effects.push(WritableEffect::RequestAbort);
            &&& stream.sink matches Some(sink) ==> next == (WritableModel {
                sink: None,
                abort_reason: None,
                abort_completions: Seq::empty(),
                inflight: Some(InFlightModel::Abort { completions: stream.abort_completions }),
                effects: told.push(WritableEffect::StartAbort(sink, stream.abort_reason)),
                ..stream
            })
            &&& stream.sink is None ==> {
                &&& !next.abort_requested
                &&& next.state == stream.state && next.stored_error == stream.stored_error
                &&& next.inflight is None
                &&& next.abort_completions.len() == 0
                &&& answers_last(next.effects, stream.abort_completions, Ok(()))
                &&& next.close_completions == stream.close_completions && next.flush_completions
                    == stream.flush_completions && next.queue == stream.queue
            }
        }),
{
}

/// While an abort waits for the sink, what the sink is busy with is told of it, and whoever waits
/// for that learns of the abort at once; the sink itself is asked for nothing, and nothing else
/// changes.
pub proof fn law_an_abort_overtakes_what_is_running<T, Sink, S: QueuingStrategy<T>, C, W>(
    stream: WritableModel<T, Sink, S, C, W>,
)
    requires
        stream.start == StartPhase::Succeeded || stream.start == StartPhase::Failed,
        stream.inflight is Some,
    ensures
        ({
            let next = stream.advance();
            let told = stream.effects.push(WritableEffect::RequestAbort);
            let waiting = match stream.inflight->0 {
                InFlightModel::Write { completion: Some(completion) } => seq![completion],
                InFlightModel::Close { completions } => completions,
                _ => Seq::empty(),
            };
            &&& !stream.abort_requested ==> next == stream
            &&& stream.abort_requested ==> {
                &&& next.effects.len() == told.len() + waiting.len()
                &&& next.effects.subrange(0, told.len() as int) == told
                &&& answers_last(next.effects, waiting, Err(StreamError::Aborted(None)))
                &&& next.inflight == Some(
                    match stream.inflight->0 {
                        InFlightModel::Write { .. } => InFlightModel::Write { completion: None },
                        InFlightModel::Close { .. } => InFlightModel::Close {
                            completions: Seq::empty(),
                        },
                        InFlightModel::Abort { completions } => InFlightModel::Abort {
                            completions,
                        },
                    },
                )
                &&& next == (WritableModel {
                    inflight: next.inflight,
                    effects: next.effects,
                    ..stream
                })
            }
        }),
{
    let next = stream.advance();
    let told = stream.effects.push(WritableEffect::RequestAbort);
    if stream.abort_requested {
        assert(next.effects.subrange(0, told.len() as int) =~= told);
    }
}

/// Nothing begins where there is nothing to begin: before the start is over; while the sink is busy
/// and no abort waits; where neither a close nor an abort is requested and nothing is queued or the
/// stream has ended; and where writes that were queued when it ended keep a close from beginning, but
/// that an abort is announced.
pub proof fn law_nothing_begins_without_cause<T, Sink, S: QueuingStrategy<T>, C, W>(
    stream: WritableModel<T, Sink, S, C, W>,
)
    ensures
        stream.start == StartPhase::NotBegun || stream.start == StartPhase::Running
            ==> stream.advance() == stream,
        stream.inflight is Some && !stream.abort_requested ==> stream.advance() == stream,
        !stream.close_requested && !stream.abort_requested && (stream.queue.len() == 0
            || stream.state != StreamState::Writable) ==> stream.advance() == stream,
        stream.is_idle() && stream.close_requested && stream.queue.len() > 0 && stream.state
            != StreamState::Writable ==> stream.advance() == (WritableModel {
            effects: if stream.abort_requested {
                stream.effects.push(WritableEffect::RequestAbort)
            } else {
                stream.effects
            },
            ..stream
        }),
{
}

/// A stream without its sink refuses the write whose turn it is, and fails.
pub proof fn law_a_write_needs_a_sink<T, Sink, S: QueuingStrategy<T>, C, W>(
    stream: WritableModel<T, Sink, S, C, W>,
)
    requires
        stream.is_idle(),
        stream.state == StreamState::Writable,
        stream.sink is None,
        stream.queue.len() > 0,
        !stream.abort_requested,
    ensures
        ({
            let next = stream.advance();
            &&& next.state == StreamState::Errored
            &&& next.queue == stream.queue.drop_first()
            &&& next.inflight is None
            &&& next.effects.last() matches WritableEffect::Complete(completion, Err(error))
            &&& completion == stream.queue[0].completion
            &&& error.words() == "Sink missing"@
            &&& only_wakes(stream.effects, next.effects.drop_last())
        }),
{
    assert(stream.queue.subrange(1, stream.queue.len() as int) =~= stream.queue.drop_first());
    assert(stream.signal_abort().start_ending() == stream);
}

/// A write that is taken in goes behind all the others and adds its size; the stream has
/// backpressure if and only if it now holds as much as its mark, and shows that and its size.
/// Nobody is answered yet, and nothing else changes but that those who wait for room are woken if
/// there is some.
pub proof fn law_what_a_write_does<T, Sink, S: QueuingStrategy<T>, C, W>(
    stream: WritableModel<T, Sink, S, C, W>,
    chunk: T,
    completion: C,
)
    requires
        stream.state == StreamState::Writable,
        !stream.close_requested,
        stream.can_write(chunk),
    ensures
        ({
            let next = stream.write(chunk, completion);
            &&& next.queue == stream.queue.push(PendingWrite { chunk, completion })
            &&& next.queue_total_size == stream.queue_total_size + stream.strategy.spec_size(&chunk)
            &&& next.backpressure <==> next.queue_total_size
                >= stream.strategy.spec_high_water_mark()
            &&& next.published.backpressure == next.backpressure
            &&& next.published.queue_total_size == next.queue_total_size
            &&& only_wakes(stream.effects, next.effects)
            &&& next == (WritableModel {
                queue: next.queue,
                queue_total_size: next.queue_total_size,
                backpressure: next.backpressure,
                ready_wakers: next.ready_wakers,
                published: next.published,
                effects: next.effects,
                ..stream
            })
        }),
{
}

/// A write is always taken in or refused, unless its size, or the number of writes, would outgrow
/// what can be counted.
pub proof fn law_which_writes_can_be_taken_in<T, Sink, S: QueuingStrategy<T>, C, W>(
    stream: WritableModel<T, Sink, S, C, W>,
    chunk: T,
    command: StreamCommand<T, C, W>,
)
    ensures
        !stream.can_write(chunk) <==> {
            &&& stream.state == StreamState::Writable
            &&& !stream.close_requested
            &&& stream.queue_total_size + stream.strategy.spec_size(&chunk) > usize::MAX
                || stream.queue.len() + 1 >= usize::MAX
        },
        stream.can_take(command) <==> (command matches StreamCommand::Write { chunk, .. }
            ==> stream.can_write(chunk)),
{
}

/// The error that is reported is the one that was stored; without one, it reads so.
pub proof fn law_the_stored_error_is_reported<T, Sink, S: QueuingStrategy<T>, C, W>(
    stream: WritableModel<T, Sink, S, C, W>,
)
    ensures
        stream.stored_error matches Some(error) ==> stream.error_to_report() == error,
        stream.stored_error is None ==> stream.error_to_report().words() == "Stream is errored"@,
{
}

/// A close is refused by an errored stream, with its error; one that has closed has done it.  An
/// open stream takes it in: from then on a close is requested, whoever asked waits behind those who
/// asked before, and nobody is answered.
pub proof fn law_what_a_close_does<T, Sink, S: QueuingStrategy<T>, C, W>(
    stream: WritableModel<T, Sink, S, C, W>,
    completion: C,
)
    ensures
        ({
            let next = stream.close(completion);
            &&& stream.state == StreamState::Errored ==> next == (WritableModel {
                effects: stream.effects.push(
                    WritableEffect::Complete(completion, Err(stream.error_to_report())),
                ),
                ..stream
            })
            &&& stream.state == StreamState::Closed ==> next == (WritableModel {
                effects: stream.effects.push(WritableEffect::Complete(completion, Ok(()))),
                ..stream
            })
            &&& stream.state == StreamState::Writable ==> {
                &&& next.close_requested
                &&& next.close_completions == stream.close_completions.push(completion)
                &&& only_wakes(stream.effects, next.effects)
                &&& next == (WritableModel {
                    close_requested: true,
                    close_completions: next.close_completions,
                    ready_wakers: next.ready_wakers,
                    published: next.published,
                    effects: next.effects,
                    ..stream
                })
            }
        }),
{
}

/// An abort of a stream that has ended, by an abort that still waits or otherwise, is answered with
/// success and changes nothing.  The first one of an open stream ends it at once, with the reason as its error and as what the sink will be told; every
/// queued write is refused with it, in order; what the sink is busy with goes on; and a close that
/// was requested stays requested.
pub proof fn law_what_an_abort_does<T, Sink, S: QueuingStrategy<T>, C, W>(
    stream: WritableModel<T, Sink, S, C, W>,
    reason: Option<String>,
    completion: C,
)
    ensures
        ({
            let next = stream.abort(reason, completion);
            &&& stream.state != StreamState::Writable ==> next == (WritableModel {
                effects: stream.effects.push(WritableEffect::Complete(completion, Ok(()))),
                ..stream
            })
            &&& stream.state == StreamState::Writable && !stream.abort_requested ==> {
                &&& next.state == StreamState::Errored
                &&& next.stored_error == Some(StreamError::Aborted(reason))
                &&& next.abort_requested
                &&& next.abort_reason == reason
                &&& next.abort_completions == stream.abort_completions.push(completion)
                &&& next.queue.len() == 0
                &&& next.published.errored && !next.published.closed
                &&& next.closed_wakers.len() == 0
                &&& only_wakes(
                    stream.effects + completions(
                        writers(stream.queue),
                        Err(StreamError::Aborted(reason)),
                    ),
                    next.effects,
                )
                &&& next == (WritableModel {
                    state: next.state,
                    stored_error: next.stored_error,
                    abort_requested: true,
                    abort_reason: reason,
                    abort_completions: next.abort_completions,
                    queue: next.queue,
                    ready_wakers: next.ready_wakers,
                    closed_wakers: next.closed_wakers,
                    published: next.published,
                    effects: next.effects,
                    ..stream
                })
            }
        }),
{
}

/// A second abort waits with the first.
pub proof fn law_a_second_abort_waits_with_the_first<T, Sink, S: QueuingStrategy<T>, C, W>(
    stream: WritableModel<T, Sink, S, C, W>,
    reason: Option<String>,
    completion: C,
)
    requires
        stream.abort_requested,
        stream.state == StreamState::Writable,
    ensures
        ({
            let next = stream.abort(reason, completion);
            &&& next.abort_completions == stream.abort_completions.push(completion)
            &&& next.abort_reason == stream.abort_reason
            &&& next.stored_error == stream.stored_error
            &&& next.queue == stream.queue
            &&& only_wakes(stream.effects, next.effects)
        }),
{
}

/// No flush is left unsettled.  Of an errored stream every flush is refused with its error; with no
/// write queued or under way it is done; otherwise it waits for exactly as many writes as are, and
/// nobody is answered.
pub proof fn law_flushes_are_settled<T, Sink, S: QueuingStrategy<T>, C, W>(
    stream: WritableModel<T, Sink, S, C, W>,
)
    requires
        stream.queue.len() < usize::MAX,
    ensures
        ({
            let next = stream.settle_flushes();
            let under_way = stream.queue.len() + if stream.inflight matches Some(
                InFlightModel::Write { .. },
            ) {
                1int
            } else {
                0int
            };
            let pending = stream.pending_flush_commands;
            let count = pending.len() as int;
            &&& next.pending_flush_commands.len() == 0
            &&& stream.state == StreamState::Errored || under_way == 0 ==> {
                &&& next.flush_completions == stream.flush_completions
                &&& next.effects.len() == stream.effects.len() + count
                &&& forall|i: int|
                    0 <= i < count ==> #[trigger] next.effects[stream.effects.len() + i]
                        == WritableEffect::<T, Sink, C, W>::Complete(
                        pending[count - 1 - i],
                        if stream.state == StreamState::Errored {
                            Err(stream.error_to_report())
                        } else {
                            Ok(())
                        },
                    )
                &&& forall|i: int|
                    0 <= i < stream.effects.len() ==> #[trigger] next.effects[i]
                        == stream.effects[i]
            }
            &&& stream.state != StreamState::Errored && under_way > 0 ==> {
                &&& next.effects == stream.effects
                &&& next.flush_completions.len() == stream.flush_completions.len() + count
                &&& forall|i: int|
                    0 <= i < count
                        ==> #[trigger] next.flush_completions[stream.flush_completions.len() + i]
                        == (pending[count - 1 - i], under_way as usize)
                &&& forall|i: int|
                    0 <= i < stream.flush_completions.len() ==> #[trigger] next.flush_completions[i]
                        == stream.flush_completions[i]
            }
            &&& next == (WritableModel {
                pending_flush_commands: next.pending_flush_commands,
                flush_completions: next.flush_completions,
                effects: next.effects,
                ..stream
            })
        }),
    decreases stream.pending_flush_commands.len(),
{
    if stream.pending_flush_commands.len() > 0 {
        let rest = WritableModel {
            pending_flush_commands: stream.pending_flush_commands.drop_last(),
            ..stream
        };
        let next = rest.process_flush(stream.pending_flush_commands.last());
        law_flushes_are_settled(next);
        let settled = stream.settle_flushes();
        let under_way = stream.queue.len() + if stream.inflight matches Some(
            InFlightModel::Write { .. },
        ) {
            1int
        } else {
            0int
        };
        if stream.state == StreamState::Errored || under_way == 0 {
            assert forall|i: int| 0 <= i < stream.pending_flush_commands.len() implies #[trigger] settled.effects[stream.effects.len()
                + i] == WritableEffect::<T, Sink, C, W>::Complete(
                stream.pending_flush_commands[stream.pending_flush_commands.len() - 1 - i],
                if stream.state == StreamState::Errored {
                    Err(stream.error_to_report())
                } else {
                    Ok(())
                },
            ) by {
                if i > 0 {
                    assert(settled.effects[next.effects.len() + (i - 1)]
                        == settled.effects[stream.effects.len() + i]);
                } else {
                    assert(settled.effects[stream.effects.len() as int]
                        == next.effects[stream.effects.len() as int]);
                }
            }
            assert forall|i: int| 0 <= i < stream.effects.len() implies #[trigger] settled.effects[i]
                == stream.effects[i] by {
                assert(next.effects[i] == stream.effects[i]);
            }
        } else {
            assert forall|i: int| 0 <= i < stream.pending_flush_commands.len() implies #[trigger] settled.flush_completions[stream.flush_completions.len()
                + i] == (
                stream.pending_flush_commands[stream.pending_flush_commands.len() - 1 - i],
                under_way as usize,
            ) by {
                if i > 0 {
                    assert(settled.flush_completions[next.flush_completions.len() + (i - 1)]
                        == settled.flush_completions[stream.flush_completions.len() + i]);
                } else {
                    assert(settled.flush_completions[stream.flush_completions.len() as int]
                        == next.flush_completions[stream.flush_completions.len() as int]);
                }
            }
            assert forall|i: int| 0 <= i < stream.flush_completions.len() implies #[trigger] settled.flush_completions[i]
                == stream.flush_completions[i] by {
                assert(next.flush_completions[i] == stream.flush_completions[i]);
            }
        }
    }
}

/// A command does what it asks for and nothing else; a flush of an errored stream is refused with
/// its error.
pub proof fn law_a_command_does_what_it_asks_for<T, Sink, S: QueuingStrategy<T>, C, W>(
    stream: WritableModel<T, Sink, S, C, W>,
    chunk: T,
    reason: Option<String>,
    completion: C,
)
    requires
        stream.pending_flush_commands.len() == 0,
    ensures
        stream.command(StreamCommand::Write { chunk, completion }) == stream.write(
            chunk,
            completion,
        ),
        stream.command(StreamCommand::Close { completion }) == stream.close(completion),
        stream.command(StreamCommand::Abort { reason, completion }) == stream.abort(
            reason,
            completion,
        ),
        stream.state == StreamState::Errored ==> stream.command(StreamCommand::Flush { completion })
            == (WritableModel {
            effects: stream.effects.push(
                WritableEffect::Complete(completion, Err(stream.error_to_report())),
            ),
            ..stream
        }),
        stream.state != StreamState::Errored ==> stream.flush(completion) == (WritableModel {
            pending_flush_commands: seq![completion],
            ..stream
        }),
{
    assert(stream.pending_flush_commands.push(completion) =~= seq![completion]);
}

/// When the sink has answered a write, the writer is told exactly that, and every flush that waited
/// for this write alone is done.  A write that was done gives the sink back to an idle stream, open
/// as before; one that failed fails the stream with its error, and the sink is gone.
pub proof fn law_the_end_of_a_write<T, Sink, S: QueuingStrategy<T>, C, W>(
    stream: WritableModel<T, Sink, S, C, W>,
    sink: Sink,
    outcome: StreamResult<()>,
)
    requires
        stream.inflight matches Some(InFlightModel::Write { .. }),
        !stream.abort_requested,
    ensures
        ({
            let next = stream.write_finished(sink, outcome);
            let flushed = count_down(stream.flush_completions, 0);
            let n = stream.effects.len();
            &&& next.inflight is None
            &&& next.effects.last() is Repoll
            &&& stream.inflight->0->Write_completion matches Some(completion)
                ==> next.effects.len() >= n + 2 && next.effects[next.effects.len() - 2]
                == WritableEffect::<T, Sink, C, W>::Complete(completion, outcome)
            &&& n + flushed.1.len() <= next.effects.len()
            &&& forall|i: int| 0 <= i < n ==> #[trigger] next.effects[i] == stream.effects[i]
            &&& forall|i: int|
                0 <= i < flushed.1.len() ==> #[trigger] next.effects[n + i]
                    == WritableEffect::<T, Sink, C, W>::Complete(flushed.1[i], Ok(()))
            &&& forall|i: int|
                n <= i < next.effects.len() ==> (#[trigger] next.effects[i]) is Complete
                    || next.effects[i] is Wake || next.effects[i] is Repoll
            &&& next.flush_completions == flushed.0
            &&& outcome is Ok ==> next.sink == Some(sink) && next.state == stream.state
                && next.stored_error == stream.stored_error
            &&& outcome matches Err(error) ==> next.sink == stream.sink && next.state
                == StreamState::Errored && next.stored_error == Some(error)
                && next.published.errored && next.closed_wakers.len() == 0
            &&& next.backpressure <==> stream.queue_total_size
                >= stream.strategy.spec_high_water_mark()
            &&& next == (WritableModel {
                state: next.state,
                sink: next.sink,
                backpressure: next.backpressure,
                stored_error: next.stored_error,
                ready_wakers: next.ready_wakers,
                closed_wakers: next.closed_wakers,
                flush_completions: next.flush_completions,
                inflight: next.inflight,
                published: next.published,
                effects: next.effects,
                ..stream
            })
        }),
{
}

/// When the sink has answered a write and an abort waits, the abort begins, with the reason that was
/// given, whatever came of the write; whoever still waits for the write learns of the abort, and every
/// flush that waited for this write alone is done.
pub proof fn law_a_waiting_abort_follows_the_write<T, Sink, S: QueuingStrategy<T>, C, W>(
    stream: WritableModel<T, Sink, S, C, W>,
    sink: Sink,
    outcome: StreamResult<()>,
)
    requires
        stream.inflight matches Some(InFlightModel::Write { .. }),
        stream.abort_requested,
    ensures
        ({
            let next = stream.write_finished(sink, outcome);
            let flushed = count_down(stream.flush_completions, 0);
            &&& next.inflight == Some(
                InFlightModel::Abort { completions: stream.abort_completions },
            )
            &&& next.effects.last() == WritableEffect::<T, Sink, C, W>::StartAbort(
                sink,
                stream.abort_reason,
            )
            &&& stream.inflight->0->Write_completion matches Some(completion)
                ==> next.effects.len() >= 2 && next.effects[next.effects.len() - 2]
                == WritableEffect::<T, Sink, C, W>::Complete(
                completion,
                Err(StreamError::Aborted(None)),
            )
            &&& forall|i: int|
                0 <= i < stream.effects.len() ==> #[trigger] next.effects[i] == stream.effects[i]
            &&& forall|i: int|
                0 <= i < flushed.1.len() ==> #[trigger] next.effects[stream.effects.len() + i]
                    == WritableEffect::<T, Sink, C, W>::Complete(flushed.1[i], Ok(()))
            &&& next.effects.len() == stream.effects.len() + flushed.1.len() + 1 + (
            if stream.inflight->0->Write_completion is Some {
                1int
            } else {
                0int
            })
            &&& next == (WritableModel {
                abort_reason: None,
                abort_completions: Seq::empty(),
                flush_completions: flushed.0,
                inflight: next.inflight,
                effects: next.effects,
                ..stream
            })
        }),
{
}

/// When the sink has answered a close, everyone who asked for it is told exactly that, in order, and
/// the stream is closed, or has failed with that error; either way it shows so, and whoever waited
/// for its end is woken.
pub proof fn law_the_end_of_a_close<T, Sink, S: QueuingStrategy<T>, C, W>(
    stream: WritableModel<T, Sink, S, C, W>,
    outcome: StreamResult<()>,
)
    requires
        stream.inflight matches Some(InFlightModel::Close { .. }),
    ensures
        ({
            let next = stream.close_finished(outcome);
            let waiting = stream.inflight->0->Close_completions;
            &&& next.effects.last() is Repoll
            &&& answers_last(next.effects.drop_last(), waiting, outcome)
            &&& only_wakes(
                stream.effects,
                next.effects.subrange(0, next.effects.len() - 1 - waiting.len()),
            )
            &&& next.inflight is None
            &&& !next.close_requested
            &&& next.queue.len() == 0 && next.queue_total_size == 0 && !next.backpressure
            &&& next.closed_wakers.len() == 0 && next.ready_wakers.len() == 0
            &&& outcome is Ok ==> next.state == StreamState::Closed && next.stored_error
                == stream.stored_error && next.published.closed && !next.published.errored
            &&& outcome matches Err(error) ==> next.state == StreamState::Errored
                && next.stored_error == Some(error) && next.published.errored
                && !next.published.closed
            &&& next == (WritableModel {
                state: next.state,
                queue: next.queue,
                queue_total_size: 0,
                backpressure: false,
                close_requested: false,
                stored_error: next.stored_error,
                ready_wakers: next.ready_wakers,
                closed_wakers: next.closed_wakers,
                inflight: None,
                published: next.published,
                effects: next.effects,
                ..stream
            })
        }),
{
    let next = stream.close_finished(outcome);
    let waiting = stream.inflight->0->Close_completions;
    let before = next.effects.subrange(0, next.effects.len() - 1 - waiting.len());
    let shown = stream.effects + wakes(stream.closed_wakers) + wakes(stream.ready_wakers);
    assert(before =~= shown);
}

/// When the sink has answered an abort, everyone who asked for it is told exactly that, in order; the
/// stream stays as it ended, but for an abort that failed, which is then the error to report.
pub proof fn law_the_end_of_an_abort<T, Sink, S: QueuingStrategy<T>, C, W>(
    stream: WritableModel<T, Sink, S, C, W>,
    outcome: StreamResult<()>,
)
    requires
        stream.inflight matches Some(InFlightModel::Abort { .. }),
    ensures
        ({
            let next = stream.abort_finished(outcome);
            let waiting = stream.inflight->0->Abort_completions;
            &&& next.effects.last() is Repoll
            &&& answers_last(next.effects.drop_last(), waiting, outcome)
            &&& next.effects.len() >= stream.effects.len() + waiting.len() + 1
            &&& only_wakes(
                stream.effects,
                next.effects.subrange(0, next.effects.len() - 1 - waiting.len()),
            )
            &&& next.inflight is None
            &&& !next.abort_requested
            &&& next.queue.len() == 0 && next.queue_total_size == 0 && !next.backpressure
            &&& next.stored_error == (match outcome {
                Ok(_) => stream.stored_error,
                Err(error) => Some(error),
            })
            &&& next == (WritableModel {
                queue: next.queue,
                queue_total_size: 0,
                backpressure: false,
                abort_requested: false,
                stored_error: next.stored_error,
                ready_wakers: next.ready_wakers,
                closed_wakers: next.closed_wakers,
                inflight: None,
                published: next.published,
                effects: next.effects,
                ..stream
            })
        }),
{
    let next = stream.abort_finished(outcome);
    let waiting = stream.inflight->0->Abort_completions;
    let before = next.effects.subrange(0, next.effects.len() - 1 - waiting.len());
    let ended = if stream.state == StreamState::Writable {
        stream.effects
    } else {
        stream.effects + wakes(stream.closed_wakers)
    };
    assert(before =~= ended + wakes(stream.ready_wakers));
}

/// The sink is taken out to be started, once, and comes back from a start that succeeded; one that
/// failed fails the stream with its error, and the sink is gone.  Nobody is answered.
pub proof fn law_what_a_start_does<T, Sink, S: QueuingStrategy<T>, C, W>(
    stream: WritableModel<T, Sink, S, C, W>,
    sink: Sink,
    outcome: StreamResult<()>,
)
    ensures
        stream.start == StartPhase::NotBegun ==> stream.to_be_started() == stream.sink
            && stream.start_begun() == (WritableModel {
            sink: None,
            start: StartPhase::Running,
            ..stream
        }),
        stream.start != StartPhase::NotBegun ==> stream.to_be_started() is None
            && stream.start_begun() == stream,
        outcome is Ok ==> stream.start_finished(sink, outcome) == (WritableModel {
            sink: Some(sink),
            start: StartPhase::Succeeded,
            ..stream
        }),
        outcome matches Err(error) ==> {
            let next = stream.start_finished(sink, outcome);
            &&& next.start == StartPhase::Failed
            &&& next.state == StreamState::Errored
            &&& next.stored_error == Some(error)
            &&& next.sink is None
            &&& next.published.errored && !next.published.closed
            &&& next.closed_wakers.len() == 0
            &&& only_wakes(stream.effects, next.effects)
            &&& next == (WritableModel {
                state: next.state,
                sink: None,
                start: next.start,
                stored_error: next.stored_error,
                ready_wakers: next.ready_wakers,
                closed_wakers: next.closed_wakers,
                published: next.published,
                effects: next.effects,
                ..stream
            })
        },
{
}

/// An error of the controller fails the stream and drops what is queued; what the sink is busy with
/// and what was requested stays; and everyone who waits for room or for the end is woken.
pub proof fn law_what_a_controller_error_does<T, Sink, S: QueuingStrategy<T>, C, W>(
    stream: WritableModel<T, Sink, S, C, W>,
    reason: String,
)
    ensures
        stream.controller_error(reason) == (WritableModel {
            state: StreamState::Errored,
            abort_reason: Some(reason),
            queue: Seq::empty(),
            queue_total_size: 0,
            ready_wakers: Seq::empty(),
            closed_wakers: Seq::empty(),
            effects: stream.effects + (stream.ready_wakers + stream.closed_wakers).map_values(
                |waker: W| WritableEffect::<T, Sink, C, W>::Wake(waker),
            ),
            ..stream
        }),
{
    assert(stream.controller_error(reason).effects =~= stream.effects + (stream.ready_wakers
        + stream.closed_wakers).map_values(
        |waker: W| WritableEffect::<T, Sink, C, W>::Wake(waker),
    ));
}

/// Whether a waker still waits in `after`, or was woken on the way from `before` to `after`.
pub open spec fn waits_or_was_woken<T, Sink, C, W>(
    waker: W,
    set: Seq<W>,
    before: Seq<WritableEffect<T, Sink, C, W>>,
    after: Seq<WritableEffect<T, Sink, C, W>>,
) -> bool {
    set.contains(waker) || exists|i: int|
        before.len() <= i < after.len() && #[trigger] after[i] == WritableEffect::<
            T,
            Sink,
            C,
            W,
        >::Wake(waker)
}

/// Nobody who waits for room or for the end is forgotten: showing the stream's state, changing its
/// backpressure and registering leave everyone waiting or woken.  Those who wait for room are woken
/// exactly when there is no backpressure, and those who wait for the end exactly when the stream has
/// ended.
pub proof fn law_nobody_who_waits_is_forgotten<T, Sink, S: QueuingStrategy<T>, C, W>(
    stream: WritableModel<T, Sink, S, C, W>,
    set: Seq<W>,
    waker: W,
)
    ensures
        ({
            let next = stream.publish();
            &&& stream.ready_wakers.contains(waker) ==> waits_or_was_woken(
                waker,
                next.ready_wakers,
                stream.effects,
                next.effects,
            )
            &&& stream.closed_wakers.contains(waker) ==> waits_or_was_woken(
                waker,
                next.closed_wakers,
                stream.effects,
                next.effects,
            )
            &&& stream.backpressure ==> next.ready_wakers == stream.ready_wakers
            &&& !stream.backpressure ==> next.ready_wakers.len() == 0
            &&& stream.state == StreamState::Writable ==> next.closed_wakers
                == stream.closed_wakers
            &&& stream.state != StreamState::Writable ==> next.closed_wakers.len() == 0
            &&& only_wakes(stream.effects, next.effects)
            &&& next == (WritableModel {
                ready_wakers: next.ready_wakers,
                closed_wakers: next.closed_wakers,
                published: next.published,
                effects: next.effects,
                ..stream
            })
        }),
        ({
            let next = stream.update_backpressure();
            &&& stream.ready_wakers.contains(waker) ==> waits_or_was_woken(
                waker,
                next.ready_wakers,
                stream.effects,
                next.effects,
            )
            &&& next.backpressure <==> stream.queue_total_size
                >= stream.strategy.spec_high_water_mark()
            &&& stream.backpressure && !next.backpressure ==> next.ready_wakers.len() == 0
            &&& only_wakes(stream.effects, next.effects)
        }),
        ({
            let next = stream.ready_waker_registered(set);
            &&& set.contains(waker) ==> waits_or_was_woken(
                waker,
                next.ready_wakers,
                stream.effects,
                next.effects,
            )
            &&& stream.backpressure ==> next == (WritableModel { ready_wakers: set, ..stream })
            &&& !stream.backpressure ==> next == (WritableModel {
                ready_wakers: Seq::empty(),
                effects: stream.effects + wakes(set),
                ..stream
            })
        }),
        ({
            let next = stream.closed_waker_registered(set);
            &&& set.contains(waker) ==> waits_or_was_woken(
                waker,
                next.closed_wakers,
                stream.effects,
                next.effects,
            )
            &&& stream.state == StreamState::Writable ==> next == (WritableModel {
                closed_wakers: set,
                ..stream
            })
            &&& stream.state != StreamState::Writable ==> next == (WritableModel {
                closed_wakers: Seq::empty(),
                effects: stream.effects + wakes(set),
                ..stream
            })
        }),
{
    let n = stream.effects.len() as int;
    let shown = stream.publish();
    let updated = stream.update_backpressure();
    if stream.ready_wakers.contains(waker) {
        let i = stream.ready_wakers.index_of(waker);
        if !stream.backpressure {
            let m = if stream.state == StreamState::Writable {
                n
            } else {
                n + stream.closed_wakers.len()
            };
            assert(shown.effects[m + i] == WritableEffect::<T, Sink, C, W>::Wake(waker));
        }
        if stream.backpressure && !updated.backpressure {
            assert(updated.effects[n + i] == WritableEffect::<T, Sink, C, W>::Wake(waker));
        }
    }
    if stream.closed_wakers.contains(waker) && stream.state != StreamState::Writable {
        let i = stream.closed_wakers.index_of(waker);
        assert(shown.effects[n + i] == WritableEffect::<T, Sink, C, W>::Wake(waker));
    }
    if set.contains(waker) {
        let i = set.index_of(waker);
        if !stream.backpressure {
            assert(stream.ready_waker_registered(set).effects[n + i] == WritableEffect::<
                T,
                Sink,
                C,
                W,
            >::Wake(waker));
        }
        if stream.state != StreamState::Writable {
            assert(stream.closed_waker_registered(set).effects[n + i] == WritableEffect::<
                T,
                Sink,
                C,
                W,
            >::Wake(waker));
        }
    }
}

/// A new stream is open and empty, has its sink, which has not been started, and shows no
/// backpressure; nothing is asked for, waited for or stored.
pub proof fn law_a_new_stream_is_open_and_empty<T, Sink, S: QueuingStrategy<T>, C, W>(
    sink: Sink,
    strategy: S,
)
    ensures
        ({
            let stream = WritableModel::<T, Sink, S, C, W>::initial(sink, strategy);
            &&& stream.state == StreamState::Writable
            &&& stream.queue.len() == 0 && stream.queue_total_size == 0
            &&& stream.strategy == strategy
            &&& stream.sink == Some(sink) && stream.start == StartPhase::NotBegun
            &&& !stream.backpressure && !stream.close_requested && !stream.abort_requested
            &&& stream.stored_error is None && stream.inflight is None && stream.abort_reason
                is None
            &&& stream.close_completions.len() == 0 && stream.abort_completions.len() == 0
            &&& stream.flush_completions.len() == 0 && stream.pending_flush_commands.len() == 0
            &&& stream.ready_wakers.len() == 0 && stream.closed_wakers.len() == 0
            &&& stream.effects.len() == 0
            &&& !stream.published.backpressure && !stream.published.closed
                && !stream.published.errored && stream.published.queue_total_size == 0
        }),
{
}

/// Each event is what it says: stepping by it does what the stream does about it, wakers are
/// registered and then flushes settled, and taking over what is asked for changes nothing else.
pub proof fn law_an_event_is_what_it_says<T, Sink, S: QueuingStrategy<T>, C, W>(
    stream: WritableModel<T, Sink, S, C, W>,
    event: WritableEvent<T, Sink, C, W>,
)
    ensures
        stream.effects_taken() == (WritableModel { effects: Seq::empty(), ..stream }),
        stream.step(event).strategy == stream.strategy,
        stream.step(event).start != stream.start ==> event is StartBegun || event is StartFinished,
        stream.step(event).close_requested && !stream.close_requested ==> (event matches
            WritableEvent::Command(command) && command is Close),
        stream.step(event).abort_requested && !stream.abort_requested ==> (event matches
            WritableEvent::Command(command) && command is Abort),
{
    match event {
        WritableEvent::Command(StreamCommand::Write { chunk, completion }) => {
            lemma_settling_keeps(stream.write(chunk, completion));
        },
        WritableEvent::Command(StreamCommand::Close { completion }) => {
            lemma_settling_keeps(stream.close(completion));
        },
        WritableEvent::Command(StreamCommand::Abort { reason, completion }) => {
            lemma_settling_keeps(stream.abort(reason, completion));
        },
        WritableEvent::Command(StreamCommand::Flush { completion }) => {
            lemma_settling_keeps(stream.flush(completion));
        },
        WritableEvent::Command(_) => {
            lemma_settling_keeps(stream);
        },
        WritableEvent::ReadyWaker(set) => {
            lemma_settling_keeps(stream.ready_waker_registered(set));
        },
        WritableEvent::ClosedWaker(set) => {
            lemma_settling_keeps(stream.closed_waker_registered(set));
        },
        _ => {},
    }
}

proof fn lemma_settling_keeps<T, Sink, S: QueuingStrategy<T>, C, W>(
    stream: WritableModel<T, Sink, S, C, W>,
)
    ensures
        ({
            let next = stream.settle_flushes();
            &&& next.strategy == stream.strategy
            &&& next.start == stream.start
            &&& next.close_requested == stream.close_requested
            &&& next.abort_requested == stream.abort_requested
        }),
    decreases stream.pending_flush_commands.len(),
{
    if stream.pending_flush_commands.len() > 0 {
        let rest = WritableModel {
            pending_flush_commands: stream.pending_flush_commands.drop_last(),
            ..stream
        };
        lemma_settling_keeps(rest.process_flush(stream.pending_flush_commands.last()));
    }
}

} // verus!
