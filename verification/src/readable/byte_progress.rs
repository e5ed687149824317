//! What a byte stream owes: when it is pulled from, what a read gets, and who is woken.

use super::byte_laws::ByteEvent;
use super::byte_state::{waits, ByteModel, Polled};
use super::byte_task::{
    pull_over, pulled, read_command, serve, ByteReplyModel, ByteTaskModel, CHUNK_SIZE,
};
use crate::error::{StreamError, StreamResult};
use crate::wakers::registered;
use vstd::prelude::*;

verus! {

impl<Source, W> ByteModel<Source, W> {
    /// Neither closed nor errored, and holding less than its mark.
    pub open spec fn has_room(self) -> bool {
        !self.closed && !self.errored && self.queue_total_size < self.high_water_mark
    }
}

/// When a pull is over and the stream is open and holds less than its mark, a pull is wanted, and
/// whoever waits for that is woken; otherwise nobody is asked for anything and nobody is woken.
/// Either way no pull is running any more, and nothing else changes.
pub proof fn law_the_end_of_a_pull_asks_for_the_next<Source, W>(stream: ByteModel<Source, W>)
    ensures
        ({
            let next = stream.mark_pull_completed();
            &&& !next.pull_in_progress
            &&& stream.has_room() ==> {
                &&& next.needs_pull
                &&& next.pull_waker is None
                &&& next.woken == (match stream.pull_waker {
                    Some(waker) => stream.woken.push(waker),
                    None => stream.woken,
                })
            }
            &&& !stream.has_room() ==> {
                &&& next.needs_pull == stream.needs_pull
                &&& next.pull_waker == stream.pull_waker
                &&& next.woken == stream.woken
            }
            &&& next == (ByteModel {
                pull_in_progress: next.pull_in_progress,
                needs_pull: next.needs_pull,
                pull_waker: next.pull_waker,
                woken: next.woken,
                ..stream
            })
        }),
{
    match stream.pull_waker {
        Some(waker) => {
            assert(stream.woken + seq![waker] =~= stream.woken.push(waker));
        },
        None => {
            assert(stream.woken + Seq::<W>::empty() =~= stream.woken);
        },
    }
}

/// A pull that is wanted is asked for once: whoever looks for it takes it, and is told to come back
/// when there is none.  A pull that begins is running until it is over.
pub proof fn law_a_wanted_pull_is_taken_once<Source, W>(stream: ByteModel<Source, W>, waker: W)
    ensures
        ({
            let next = stream.pull_polled(waker);
            &&& !next.needs_pull
            &&& stream.needs_pull ==> next == (ByteModel { needs_pull: false, ..stream })
            &&& !stream.needs_pull ==> next == (ByteModel { pull_waker: Some(waker), ..stream })
        }),
        stream.mark_pull_started() == (ByteModel { pull_in_progress: true, ..stream }),
{
}

/// A read that is given a turn leaves the stream asking for more: if it then is open, holds less
/// than its mark, and no pull is running, a pull is wanted and whoever waits for that is woken.
pub proof fn law_a_read_asks_for_more<Source, W>(
    stream: ByteModel<Source, W>,
    len: nat,
    waiting: Seq<W>,
)
    requires
        stream.start_completed,
        len > 0,
        stream.wf(),
    ensures
        ({
            let next = stream.read_into(len, waiting);
            &&& next.has_room() && !next.pull_in_progress ==> next.needs_pull && next.pull_waker
                is None
            &&& next.has_room() && !next.pull_in_progress && stream.pull_waker is Some
                ==> next.woken == stream.woken.push(stream.pull_waker->0)
            &&& stream.needs_pull ==> next.needs_pull
            &&& next.pull_in_progress == stream.pull_in_progress
        }),
{
    match stream.pull_waker {
        Some(waker) => {
            assert(stream.woken + seq![waker] =~= stream.woken.push(waker));
        },
        None => {},
    }
}

/// What a read comes to, of a stream that holds `buffer`.  It waits before the start is over, and
/// while an open stream has nothing; otherwise it gets as much as is asked for or as there is,
/// whichever is less, from the front; an errored stream gives its error, and a closed one that is
/// empty the end.
pub proof fn law_what_a_read_gets<Source, W>(stream: ByteModel<Source, W>, len: nat)
    requires
        stream.wf(),
    ensures
        ({
            let outcome = stream.read_outcome(len);
            let bytes = stream.read_bytes(len);
            let usable = stream.start_completed && !stream.errored;
            &&& outcome is Pending <==> !stream.start_completed || (len > 0 && !stream.errored
                && !stream.closed && stream.buffer.len() == 0)
            &&& outcome matches Polled::Ready(Err(error)) ==> {
                &&& stream.start_completed && stream.errored && len > 0
                &&& stream.error matches Some(stored) ==> error == stored
                &&& stream.error is None ==> error.words() == "Stream errored"@
            }
            &&& stream.start_completed && stream.errored && len > 0 ==> (outcome
                matches Polled::Ready(Err(_)))
            &&& usable ==> bytes.len() <= len && bytes.len() <= stream.buffer.len() && (bytes.len()
                == len || bytes.len() == stream.buffer.len())
            &&& !usable ==> bytes.len() == 0
            &&& forall|i: int| 0 <= i < bytes.len() ==> #[trigger] bytes[i] == stream.buffer[i]
            &&& outcome matches Polled::Ready(Ok(n)) ==> n as nat == bytes.len()
        }),
{
}

/// What a read leaves.  What it got is off the front of the buffer, and its size off the record; a
/// read that waits is noted where it will be woken: with those who wait for the start before that is
/// over, with those who wait for bytes afterwards.  A read that fails, or finds the end, or asks for
/// nothing, changes nothing.
pub proof fn law_what_a_read_leaves<Source, W>(
    stream: ByteModel<Source, W>,
    len: nat,
    waiting: Seq<W>,
)
    requires
        stream.wf(),
    ensures
        ({
            let next = stream.read_into(len, waiting);
            let n = stream.read_bytes(len).len();
            &&& next.buffer == stream.buffer.subrange(n as int, stream.buffer.len() as int)
            &&& next.queue_total_size == stream.queue_total_size - n
            &&& next.start_wakers == (if !stream.start_completed {
                waiting
            } else {
                stream.start_wakers
            })
            &&& next.read_wakers == (if stream.start_completed && stream.read_outcome(len)
                is Pending {
                waiting
            } else {
                stream.read_wakers
            })
            &&& stream.waiting_readers() == (if stream.start_completed {
                stream.read_wakers
            } else {
                stream.start_wakers
            })
            &&& stream.read_outcome(len) matches Polled::Ready(outcome) ==> (outcome is Err || (
            outcome matches Ok(n) && n == 0)) ==> next == stream
            &&& next.closed == stream.closed && next.errored == stream.errored && next.error
                == stream.error && next.source == stream.source && next.start_completed
                == stream.start_completed && next.high_water_mark == stream.high_water_mark
        }),
{
    let n = stream.read_bytes(len).len();
    assert(stream.buffer.subrange(0, stream.buffer.len() as int) =~= stream.buffer);
    if stream.start_completed && !stream.errored && stream.buffer.len() == 0 {
        assert(stream.buffer.subrange(n as int, stream.buffer.len() as int) =~= stream.buffer);
    }
}

/// Bytes that arrive go behind those that are buffered, and everyone who waits for bytes is woken,
/// in order; where there are none, nothing happens.
pub proof fn law_bytes_that_arrive_wake_readers<Source, W>(
    stream: ByteModel<Source, W>,
    data: Seq<u8>,
)
    requires
        stream.wf(),
        stream.can_enqueue(data),
    ensures
        ({
            let next = stream.enqueue_data(data);
            &&& next.buffer == stream.buffer + data
            &&& next.queue_total_size == stream.queue_total_size + data.len()
            &&& data.len() == 0 ==> next == stream
            &&& data.len() > 0 ==> next.read_wakers.len() == 0 && next.woken == stream.woken
                + stream.read_wakers
            &&& next == (ByteModel {
                buffer: next.buffer,
                queue_total_size: next.queue_total_size,
                desired_size: next.desired_size,
                read_wakers: next.read_wakers,
                woken: next.woken,
                ..stream
            })
        }),
{
    if data.len() == 0 {
        assert(stream.buffer + data =~= stream.buffer);
    }
}

/// The end of a stream, by a close or by a failure, wakes everyone who waits for bytes and whoever
/// waits for a pull, and leaves no room; what is buffered stays.
pub proof fn law_an_end_wakes_everyone<Source, W>(stream: ByteModel<Source, W>, error: StreamError)
    ensures
        ({
            let woken = match stream.pull_waker {
                Some(waker) => (stream.woken + stream.read_wakers).push(waker),
                None => stream.woken + stream.read_wakers,
            };
            &&& stream.close() == (ByteModel {
                closed: true,
                desired_size: 0,
                read_wakers: Seq::empty(),
                pull_waker: None,
                woken,
                ..stream
            })
            &&& stream.fail(error) == (ByteModel {
                errored: true,
                error: Some(error),
                desired_size: 0,
                read_wakers: Seq::empty(),
                pull_waker: None,
                woken,
                ..stream
            })
        }),
{
    let all = stream.woken + stream.read_wakers;
    match stream.pull_waker {
        Some(waker) => {
            assert(all + seq![waker] =~= all.push(waker));
        },
        None => {
            assert(all + Seq::<W>::empty() =~= all);
        },
    }
}

/// A start that is over wakes everyone who waited for it, once.  One that succeeded gives the source
/// back and leaves the stream as it was; one that failed fails the stream with its error.
pub proof fn law_what_a_start_leaves<Source, W>(
    stream: ByteModel<Source, W>,
    source: Source,
    outcome: StreamResult<()>,
)
    ensures
        stream.start_completed && outcome is Ok ==> stream.start_finished(source, outcome) == (
        ByteModel { source: Some(source), ..stream }),
        stream.start_completed ==> stream.mark_start_completed() == stream,
        !stream.start_completed ==> ({
            let next = stream.start_finished(source, outcome);
            &&& next.start_completed
            &&& next.start_wakers.len() == 0
            &&& outcome is Ok ==> next == (ByteModel {
                source: Some(source),
                start_completed: true,
                start_wakers: Seq::empty(),
                woken: stream.woken + stream.start_wakers,
                ..stream
            })
            &&& outcome matches Err(error) ==> {
                &&& next.errored && next.error == Some(error) && next.closed == stream.closed
                &&& next.source == stream.source
                &&& next.read_wakers.len() == 0 && next.pull_waker is None
                &&& next.buffer == stream.buffer
            }
            &&& forall|i: int|
                0 <= i < stream.start_wakers.len() ==> next.woken.contains(
                    #[trigger] stream.start_wakers[i],
                )
            &&& stream.mark_start_completed().start_completed
            &&& stream.mark_start_completed().mark_start_completed()
                == stream.mark_start_completed()
        }),
{
    let next = stream.start_finished(source, outcome);
    let before = match outcome {
        Ok(_) => stream.woken,
        Err(error) => stream.fail(error).woken,
    };
    if !stream.start_completed {
        assert(next.woken == before + stream.start_wakers);
        assert forall|i: int| 0 <= i < stream.start_wakers.len() implies next.woken.contains(
            #[trigger] stream.start_wakers[i],
        ) by {
            assert(next.woken[before.len() + i] == stream.start_wakers[i]);
        }
    }
}

/// A new stream is open, empty and not started, has its source, and shows all the room there is.
pub proof fn law_a_new_stream_is_empty<Source, W>(source: Source, high_water_mark: usize)
    ensures
        ({
            let stream = ByteModel::<Source, W>::initial(source, high_water_mark);
            &&& stream.buffer.len() == 0 && stream.queue_total_size == 0
            &&& stream.source == Some(source)
            &&& !stream.closed && !stream.errored && stream.error is None
            &&& !stream.start_completed && !stream.pull_in_progress && !stream.needs_pull
            &&& stream.high_water_mark == high_water_mark
            &&& high_water_mark <= isize::MAX ==> stream.desired_size == high_water_mark
            &&& stream.read_wakers.len() == 0 && stream.start_wakers.len() == 0
            &&& stream.pull_waker is None && stream.woken.len() == 0
        }),
{
}

/// Waiting for the end comes to the error of a stream that failed, to success for one that closed,
/// and to a wait otherwise.
pub proof fn law_what_waiting_for_the_end_comes_to<Source, W>(stream: ByteModel<Source, W>)
    ensures
        stream.closed_outcome() is Pending <==> !stream.closed && !stream.errored,
        stream.closed_outcome() == Polled::Ready(StreamResult::<()>::Ok(())) <==> stream.closed
            && !stream.errored,
        stream.errored && stream.error is Some ==> stream.closed_outcome() == Polled::Ready(
            StreamResult::<()>::Err(stream.error->0),
        ),
{
}

/// A read is answered at once if and only if the stream has an answer for it: its error, the end of
/// a closed stream that is empty, or, once started, as much of what is buffered as an answer
/// carries.  Otherwise it waits behind all the others, and a pull is wanted or running as long as
/// there is room.
pub proof fn law_what_a_reader_is_answered<Source, W, R>(
    task: ByteTaskModel<R>,
    state: ByteModel<Source, W>,
    read: R,
)
    requires
        state.wf(),
        state.start_completed,
    ensures
        ({
            let (next, after) = read_command(task, state, read);
            let waits = !state.errored && !state.closed && state.buffer.len() == 0;
            &&& waits ==> {
                &&& next.pending_reads == task.pending_reads.push(read)
                &&& next.replies == task.replies
                &&& after.has_room() ==> after.needs_pull || after.pull_in_progress
            }
            &&& !waits ==> {
                &&& next.pending_reads == task.pending_reads
                &&& next.replies.len() == task.replies.len() + 1
                &&& next.replies.drop_last() == task.replies
                &&& next.replies.last() == (if state.errored {
                    ByteReplyModel::Failed(read, state.error_to_report())
                } else if state.buffer.len() == 0 {
                    ByteReplyModel::End(read)
                } else if state.buffer.len() <= 8192 {
                    ByteReplyModel::Data(read, state.buffer)
                } else {
                    ByteReplyModel::Data(read, state.buffer.subrange(0, 8192))
                })
            }
            &&& after.closed == state.closed && after.errored == state.errored
        }),
{
    let (next, after) = read_command(task, state, read);
    assert(state.buffer.subrange(0, state.buffer.len() as int) =~= state.buffer);
    assert(next.replies.len() > task.replies.len() ==> next.replies.drop_last() =~= task.replies);
}

/// A pull that brought bytes serves the read that has waited longest, and that one only: it gets as
/// much as an answer carries, from the front; the others wait on; but where the stream has failed,
/// every waiting read gets its error, in order.  A pull that brought nothing ends
/// the stream and tells every waiting read so, in order; one that failed fails the stream and every
/// waiting read with its error, in order.
pub proof fn law_what_a_pull_brings<Source, W, R>(
    task: ByteTaskModel<R>,
    state: ByteModel<Source, W>,
    size_before: usize,
    outcome: StreamResult<usize>,
    data: Seq<u8>,
)
    requires
        state.wf(),
        state.start_completed,
        outcome matches Ok(n) ==> n <= data.len() && state.can_enqueue(data.subrange(0, n as int)),
    ensures
        ({
            let (next, after) = pulled(task, state, size_before, outcome, data);
            match outcome {
                Ok(n) => {
                    let held = state.buffer + data.subrange(0, n as int);
                    let brought = n > 0 || state.queue_total_size > size_before;
                    &&& brought && !state.errored && held.len() > 0 && task.pending_reads.len() > 0
                        ==> {
                        &&& next.pending_reads == task.pending_reads.drop_first()
                        &&& next.replies == task.replies.push(
                            ByteReplyModel::Data(
                                task.pending_reads[0],
                                if held.len() <= 8192 {
                                    held
                                } else {
                                    held.subrange(0, 8192)
                                },
                            ),
                        )
                        &&& after.closed == state.closed
                    }
                    &&& brought && state.errored ==> {
                        &&& next.pending_reads.len() == 0
                        &&& next.replies.len() == task.replies.len() + task.pending_reads.len()
                        &&& forall|i: int|
                            0 <= i < task.pending_reads.len()
                                ==> #[trigger] next.replies[task.replies.len() + i]
                                == ByteReplyModel::Failed(
                                task.pending_reads[i],
                                state.error_to_report(),
                            )
                    }
                    &&& brought && task.pending_reads.len() == 0 ==> next == task && after.buffer
                        == held && after.closed == state.closed && after.errored == state.errored
                    &&& !brought ==> {
                        &&& after.closed
                        &&& next.pending_reads.len() == 0
                        &&& next.replies.len() == task.replies.len() + task.pending_reads.len()
                        &&& forall|i: int|
                            0 <= i < task.pending_reads.len()
                                ==> #[trigger] next.replies[task.replies.len() + i]
                                == ByteReplyModel::End(task.pending_reads[i])
                        &&& forall|i: int|
                            0 <= i < task.replies.len() ==> #[trigger] next.replies[i]
                                == task.replies[i]
                    }
                },
                Err(error) => {
                    &&& after.errored && after.error == Some(error)
                    &&& next.pending_reads.len() == 0
                    &&& next.replies.len() == task.replies.len() + task.pending_reads.len()
                    &&& forall|i: int|
                        0 <= i < task.pending_reads.len()
                            ==> #[trigger] next.replies[task.replies.len() + i]
                            == ByteReplyModel::Failed(task.pending_reads[i], error)
                    &&& forall|i: int|
                        0 <= i < task.replies.len() ==> #[trigger] next.replies[i]
                            == task.replies[i]
                },
            }
        }),
{
    let (next, after) = pulled(task, state, size_before, outcome, data);
    if let Ok(n) = outcome {
        let part = data.subrange(0, n as int);
        let filled = state.enqueue_data(part);
        let held = state.buffer + part;
        assert(filled.buffer =~= held);
        assert(held.subrange(0, held.len() as int) =~= held);
        if state.errored {
            law_reads_of_a_failed_stream_fail(task, filled);
        }
        assert(task.pending_reads.len() > 0 ==> task.pending_reads.drop_first()
            =~= task.pending_reads.subrange(1, task.pending_reads.len() as int));
    }
}

/// The end of a pull gives the source back while the stream is open, and only then; and asks for the
/// next pull as `law_the_end_of_a_pull_asks_for_the_next` says.
pub proof fn law_the_source_comes_back<Source, W>(state: ByteModel<Source, W>, source: Source)
    ensures
        ({
            let next = pull_over(state, source);
            &&& next.source == (if state.closed || state.errored {
                state.source
            } else {
                Some(source)
            })
            &&& next == (ByteModel { source: next.source, ..state.mark_pull_completed() })
        }),
{
}

/// Whether reads that wait are pulled for: on a started stream that is open and has room, a pull is
/// wanted or running while a read waits; and while none runs, the source is at hand.
pub open spec fn waiting_reads_are_pulled_for<Source, W, R>(
    task: ByteTaskModel<R>,
    state: ByteModel<Source, W>,
) -> bool {
    state.start_completed && !state.closed && !state.errored ==> {
        &&& state.source is Some || state.pull_in_progress
        &&& task.pending_reads.len() > 0 && state.queue_total_size < state.high_water_mark
            ==> state.needs_pull || state.pull_in_progress
    }
}

/// What becomes of a byte stream and its task: someone reads, or brings a buffer to read into; a
/// wanted pull begins; the source puts bytes in, closes or fails the stream; a pull is over.
pub enum ByteTurn<Source, W, R> {
    Read(R),
    ReadInto(nat, Seq<W>),
    PullBegins(W),
    Enqueue(Seq<u8>),
    Close,
    Fail(StreamError),
    PullOver(Source, usize, StreamResult<usize>, Seq<u8>),
}

/// What a turn makes of the task and of the stream.  A wanted pull begins if the stream is open and
/// the source at hand, which is then taken out.
pub open spec fn after_turn<Source, W, R>(
    task: ByteTaskModel<R>,
    state: ByteModel<Source, W>,
    turn: ByteTurn<Source, W, R>,
) -> (ByteTaskModel<R>, ByteModel<Source, W>) {
    match turn {
        ByteTurn::Read(read) => read_command(task, state, read),
        ByteTurn::ReadInto(len, waiting) => (task, state.read_into(len, waiting)),
        ByteTurn::PullBegins(waker) => {
            let polled = state.pull_polled(waker);
            (
                task,
                if state.needs_pull && polled.start_completed && !polled.closed && !polled.errored
                    && polled.source is Some {
                    ByteModel { source: None, ..polled }.mark_pull_started()
                } else {
                    polled
                },
            )
        },
        ByteTurn::Enqueue(data) => (task, state.enqueue_data(data)),
        ByteTurn::Close => (task, state.close()),
        ByteTurn::Fail(error) => (task, state.fail(error)),
        ByteTurn::PullOver(source, size_before, outcome, data) => {
            let (next, after) = pulled(task, state, size_before, outcome, data);
            (next, pull_over(after, source))
        },
    }
}

/// Whether a turn can be taken: what it brings has to fit, and only a running pull can be over.
pub open spec fn can_take_turn<Source, W, R>(
    state: ByteModel<Source, W>,
    turn: ByteTurn<Source, W, R>,
) -> bool {
    match turn {
        ByteTurn::Enqueue(data) => state.can_enqueue(data),
        ByteTurn::PullOver(_, _, outcome, data) => state.pull_in_progress && (outcome matches Ok(n)
            ==> n <= data.len() && state.can_enqueue(data.subrange(0, n as int))),
        _ => true,
    }
}

/// No read waits in vain: once a stream has started, whatever happens, while a read waits on an open
/// stream that has room a pull is wanted or running; so pull after pull is made until every read is
/// answered or the stream ends.  A stream that has just started has it so, and every turn keeps it.
pub proof fn law_no_read_waits_in_vain<Source, W, R>(
    task: ByteTaskModel<R>,
    state: ByteModel<Source, W>,
    turn: ByteTurn<Source, W, R>,
    source: Source,
    high_water_mark: usize,
)
    requires
        state.wf(),
        state.start_completed,
        waiting_reads_are_pulled_for(task, state),
        can_take_turn(state, turn),
    ensures
        ({
            let (next, after) = after_turn(task, state, turn);
            &&& after.start_completed
            &&& waiting_reads_are_pulled_for(next, after)
        }),
        waiting_reads_are_pulled_for(
            ByteTaskModel::<R> { pending_reads: Seq::empty(), replies: Seq::empty() },
            ByteModel::<Source, W>::initial(source, high_water_mark).start_finished(source, Ok(())),
        ),
{
    match turn {
        ByteTurn::PullOver(_, _, outcome, data) => {
            if let Ok(n) = outcome {
                lemma_serving_keeps(task, state.enqueue_data(data.subrange(0, n as int)));
            }
        },
        _ => {},
    }
}

proof fn lemma_serving_keeps<Source, W, R>(task: ByteTaskModel<R>, state: ByteModel<Source, W>)
    ensures
        ({
            let (next, after) = serve(task, state);
            &&& after.start_completed == state.start_completed
            &&& after.closed == state.closed
            &&& after.errored == state.errored
            &&& after.source == state.source
            &&& after.pull_in_progress == state.pull_in_progress
        }),
    decreases task.pending_reads.len(),
{
    if task.pending_reads.len() > 0 {
        let read = task.pending_reads[0];
        let next = state.read_into(CHUNK_SIZE as nat, state.waiting_readers());
        match state.read_outcome(CHUNK_SIZE as nat) {
            Polled::Ready(Ok(n)) => {
                if n == 0 {
                    lemma_serving_keeps(task.first_answered(ByteReplyModel::End(read)), next);
                }
            },
            Polled::Ready(Err(error)) => {
                lemma_serving_keeps(task.first_answered(ByteReplyModel::Failed(read, error)), next);
            },
            Polled::Pending => {},
        }
    }
}

/// Nothing but the source's own events changes what is buffered or ends the stream, and no event
/// moves the mark.
pub proof fn law_only_the_source_ends_a_stream<Source, W>(
    stream: ByteModel<Source, W>,
    event: ByteEvent<Source, W>,
)
    ensures
        ({
            let next = stream.step(event);
            &&& next.high_water_mark == stream.high_water_mark
            &&& next.closed <==> stream.closed || event is Close
            &&& next.errored <==> stream.errored || event is Fail || (event matches
                ByteEvent::StartFinished(_, outcome) && outcome is Err)
            &&& next.start_completed <==> stream.start_completed || event is StartFinished
            &&& next.pull_in_progress == (match event {
                ByteEvent::PullStarted => true,
                ByteEvent::PullCompleted => false,
                _ => stream.pull_in_progress,
            })
            &&& !(event is Enqueue) && !(event is Read) ==> next.buffer == stream.buffer
        }),
{
}

/// A pull is asked for, on its own account, if and only if the stream is open, holds less than its
/// mark, and none is running; then whoever waits for it is woken.  Otherwise nothing changes.
pub proof fn law_when_a_pull_is_asked_for<Source, W>(stream: ByteModel<Source, W>)
    ensures
        ({
            let next = stream.maybe_trigger_pull();
            let wanted = stream.has_room() && !stream.pull_in_progress;
            &&& !wanted ==> next == stream
            &&& wanted ==> {
                &&& next.needs_pull
                &&& next.pull_waker is None
                &&& next.woken == (match stream.pull_waker {
                    Some(waker) => stream.woken.push(waker),
                    None => stream.woken,
                })
                &&& next == (ByteModel {
                    needs_pull: true,
                    pull_waker: None,
                    woken: next.woken,
                    ..stream
                })
            }
        }),
{
    match stream.pull_waker {
        Some(waker) => {
            assert(stream.woken + seq![waker] =~= stream.woken.push(waker));
        },
        None => {
            assert(stream.woken + Seq::<W>::empty() =~= stream.woken);
        },
    }
}

/// Bytes can be taken in as long as an `isize` holds the size of the buffer and the room that it
/// leaves under the mark; the room that is shown is then the mark less the size.
pub proof fn law_which_bytes_can_be_taken_in<Source, W>(
    stream: ByteModel<Source, W>,
    data: Seq<u8>,
)
    requires
        stream.wf(),
        stream.high_water_mark <= isize::MAX,
    ensures
        stream.can_enqueue(data) <==> stream.queue_total_size + data.len() <= isize::MAX,
        stream.can_enqueue(data) && !stream.closed && !stream.errored && data.len() > 0
            ==> stream.enqueue_data(data).desired_size == stream.high_water_mark
            - stream.queue_total_size - data.len(),
        stream.publish_room() == (ByteModel {
            desired_size: stream.publish_room().desired_size,
            ..stream
        }),
{
    assert(isize::MIN == -isize::MAX - 1) by {
        assert(usize::BITS == 32 || usize::BITS == 64);
    }
}

/// A read before the start is over waits behind all the others, unless the stream has ended, and a
/// pull is wanted or running as long as there is room; and what has no waker to leave waits nowhere.
pub proof fn law_a_read_before_the_start_waits<Source, W, R, F: Fn(&W, &W) -> bool>(
    task: ByteTaskModel<R>,
    state: ByteModel<Source, W>,
    read: R,
    before: Seq<W>,
    waker: W,
    will_wake: F,
    after: Seq<W>,
)
    requires
        state.wf(),
        !state.start_completed,
    ensures
        ({
            let (next, left) = read_command(task, state, read);
            &&& !state.closed && !state.errored ==> {
                &&& next.pending_reads == task.pending_reads.push(read)
                &&& next.replies == task.replies
                &&& left.buffer == state.buffer
                &&& left.has_room() ==> left.needs_pull || left.pull_in_progress
            }
            &&& state.errored ==> next.replies == task.replies.push(
                ByteReplyModel::Failed(read, state.error_to_report()),
            ) && next.pending_reads == task.pending_reads
            &&& state.closed && !state.errored ==> next.replies == task.replies.push(
                ByteReplyModel::End(read),
            ) && next.pending_reads == task.pending_reads
        }),
        waits(before, None, will_wake, after) ==> after == before,
        waits(before, Some(waker), will_wake, after) == registered(
            before,
            waker,
            will_wake,
            after,
        ),
{
}

/// A pull that brought bytes to a stream that has failed fails every waiting read with its error, in
/// order.
pub proof fn law_reads_of_a_failed_stream_fail<Source, W, R>(
    task: ByteTaskModel<R>,
    state: ByteModel<Source, W>,
)
    requires
        state.start_completed,
        state.errored,
    ensures
        ({
            let (next, after) = serve(task, state);
            &&& after == state
            &&& next.pending_reads.len() == 0
            &&& next.replies.len() == task.replies.len() + task.pending_reads.len()
            &&& forall|i: int|
                0 <= i < task.replies.len() ==> #[trigger] next.replies[i] == task.replies[i]
            &&& forall|i: int|
                0 <= i < task.pending_reads.len() ==> #[trigger] next.replies[task.replies.len()
                    + i] == ByteReplyModel::Failed(task.pending_reads[i], state.error_to_report())
        }),
    decreases task.pending_reads.len(),
{
    if task.pending_reads.len() > 0 {
        let reply = ByteReplyModel::Failed(task.pending_reads[0], state.error_to_report());
        let rest = task.first_answered(reply);
        law_reads_of_a_failed_stream_fail(rest, state);
        let (next, after) = serve(task, state);
        assert forall|i: int| 0 <= i < task.replies.len() implies #[trigger] next.replies[i]
            == task.replies[i] by {
            assert(rest.replies[i] == task.replies[i]);
        }
        assert forall|i: int| 0 <= i < task.pending_reads.len() implies #[trigger] next.replies[task.replies.len()
            + i] == ByteReplyModel::Failed(task.pending_reads[i], state.error_to_report()) by {
            if i > 0 {
                assert(next.replies[rest.replies.len() + (i - 1)] == ByteReplyModel::Failed(
                    rest.pending_reads[i - 1],
                    state.error_to_report(),
                ));
            } else {
                assert(rest.replies[task.replies.len() as int] == reply);
            }
        }
    }
}

} // verus!
