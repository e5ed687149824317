//! What holds of a byte stream whatever happens to it, and in whatever order.

use super::byte_state::{shorter, ByteModel, Polled};
use super::byte_task::{pulled, read_command, serve, ByteReplyModel, ByteTaskModel, CHUNK_SIZE};
use crate::error::{StreamError, StreamResult};
use crate::occurrences::{lemma_times_add, times};
use crate::strategy::room;
use vstd::prelude::*;

verus! {

/// Everything that can happen to the state of a byte stream.
pub enum ByteEvent<Source, W> {
    Enqueue(Seq<u8>),
    /// A read into this many bytes; a reader that has to wait makes this of the set it waits in.
    Read(nat, Seq<W>),
    Close,
    Fail(StreamError),
    StartFinished(Source, StreamResult<()>),
    TriggerPull,
    PullPolled(W),
    PullStarted,
    PullCompleted,
}

impl<Source, W> ByteModel<Source, W> {
    /// Whether an event can happen: bytes have to fit.
    pub open spec fn allows(self, event: ByteEvent<Source, W>) -> bool {
        event matches ByteEvent::Enqueue(data) ==> self.can_enqueue(data)
    }

    /// What an event makes of the stream.
    pub open spec fn step(self, event: ByteEvent<Source, W>) -> Self {
        match event {
            ByteEvent::Enqueue(data) => self.enqueue_data(data),
            ByteEvent::Read(len, waiting) => self.read_into(len, waiting),
            ByteEvent::Close => self.close(),
            ByteEvent::Fail(error) => self.fail(error),
            ByteEvent::StartFinished(source, outcome) => self.start_finished(source, outcome),
            ByteEvent::TriggerPull => self.maybe_trigger_pull(),
            ByteEvent::PullPolled(waker) => self.pull_polled(waker),
            ByteEvent::PullStarted => self.mark_pull_started(),
            ByteEvent::PullCompleted => self.mark_pull_completed(),
        }
    }

    /// While the stream is open, the room that is shown is the room that its buffer leaves.
    pub open spec fn shows_its_room(self) -> bool {
        !self.closed && !self.errored ==> self.desired_size == room(
            self.high_water_mark,
            self.queue_total_size,
            false,
            false,
        )
    }

    /// The bytes that an event hands out.
    pub open spec fn handed_out(self, event: ByteEvent<Source, W>) -> Seq<u8> {
        match event {
            ByteEvent::Read(len, _) => self.read_bytes(len),
            _ => Seq::empty(),
        }
    }

    /// What events, one after the other, make of the stream.
    pub open spec fn run(self, events: Seq<ByteEvent<Source, W>>) -> Self
        decreases events.len(),
    {
        if events.len() == 0 {
            self
        } else {
            self.run(events.drop_last()).step(events.last())
        }
    }

    /// The bytes that events hand out, in order.
    pub open spec fn total_out(self, events: Seq<ByteEvent<Source, W>>) -> Seq<u8>
        decreases events.len(),
    {
        if events.len() == 0 {
            Seq::empty()
        } else {
            self.total_out(events.drop_last()) + self.run(events.drop_last()).handed_out(
                events.last(),
            )
        }
    }
}

/// The bytes that events put in, in order.
pub open spec fn total_in<Source, W>(events: Seq<ByteEvent<Source, W>>) -> Seq<u8>
    decreases events.len(),
{
    if events.len() == 0 {
        Seq::empty()
    } else {
        let before = total_in(events.drop_last());
        match events.last() {
            ByteEvent::Enqueue(data) => before + data,
            _ => before,
        }
    }
}

/// Every event leaves a well-formed stream well formed.
pub proof fn law_well_formed<Source, W>(stream: ByteModel<Source, W>, event: ByteEvent<Source, W>)
    requires
        stream.wf(),
        stream.allows(event),
    ensures
        stream.step(event).wf(),
{
}

/// What a read hands out, followed by what stays, is what was buffered.
pub proof fn law_reading_splits_the_buffer<Source, W>(
    stream: ByteModel<Source, W>,
    len: nat,
    waiting: Seq<W>,
)
    ensures
        stream.read_bytes(len) + stream.read_into(len, waiting).buffer == stream.buffer,
        stream.read_bytes(len).len() <= len,
        stream.wf() ==> (stream.read_outcome(len) matches Polled::Ready(Ok(n)) ==> n as nat
            == stream.read_bytes(len).len()),
{
    let n = shorter(len, stream.buffer.len());
    assert(stream.buffer.subrange(0, n as int) + stream.buffer.subrange(
        n as int,
        stream.buffer.len() as int,
    ) =~= stream.buffer);
    assert(Seq::<u8>::empty() + stream.buffer =~= stream.buffer);
    if stream.start_completed && !stream.errored && len == 0 {
        assert(stream.read_bytes(len) =~= Seq::empty());
    }
    if stream.start_completed && !stream.errored && stream.buffer.len() == 0 {
        assert(stream.read_bytes(len) =~= Seq::empty());
    }
}

/// Whatever happens to a new stream, the bytes that were handed out, followed by those that are
/// buffered, are the bytes that were put in: none is lost, repeated or reordered.
pub proof fn law_readers_get_the_bytes_put_in<Source, W>(
    source: Source,
    high_water_mark: usize,
    events: Seq<ByteEvent<Source, W>>,
)
    ensures
        ({
            let initial = ByteModel::<Source, W>::initial(source, high_water_mark);
            initial.total_out(events) + initial.run(events).buffer == total_in(events)
        }),
    decreases events.len(),
{
    let initial = ByteModel::<Source, W>::initial(source, high_water_mark);
    if events.len() == 0 {
        assert(initial.total_out(events) + initial.run(events).buffer =~= total_in(events));
    } else {
        let earlier = events.drop_last();
        let before = initial.run(earlier);
        law_readers_get_the_bytes_put_in(source, high_water_mark, earlier);
        match events.last() {
            ByteEvent::Read(len, waiting) => {
                law_reading_splits_the_buffer(before, len, waiting);
            },
            ByteEvent::Enqueue(data) => {
                assert(initial.run(events).buffer =~= before.buffer + data);
            },
            _ => {},
        }
        assert(initial.total_out(events) + initial.run(events).buffer =~= total_in(events));
    }
}

/// A stream that is closed or errored stays so.
pub proof fn law_ended_stays_ended<Source, W>(
    stream: ByteModel<Source, W>,
    event: ByteEvent<Source, W>,
)
    ensures
        stream.closed ==> stream.step(event).closed,
        stream.errored ==> stream.step(event).errored,
{
}

/// The error of a failed stream stays until another takes its place: a failure, or a start that
/// fails, stores its error, and no other event changes what is stored.
pub proof fn law_the_error_stays<Source, W>(
    stream: ByteModel<Source, W>,
    event: ByteEvent<Source, W>,
)
    ensures
        stream.step(event).error == (match event {
            ByteEvent::Fail(error) => Some(error),
            ByteEvent::StartFinished(_, Err(error)) => Some(error),
            _ => stream.error,
        }),
{
}

/// An open stream shows the room that its buffer leaves: a new one does, and every event keeps it
/// so.
pub proof fn law_room_is_shown<Source, W>(
    stream: ByteModel<Source, W>,
    event: ByteEvent<Source, W>,
    source: Source,
    high_water_mark: usize,
)
    requires
        stream.wf(),
        stream.allows(event),
        stream.shows_its_room(),
    ensures
        stream.step(event).shows_its_room(),
        ByteModel::<Source, W>::initial(source, high_water_mark).shows_its_room(),
{
}

/// A pull is asked for only while the stream is open, under its mark, and none is running.
pub proof fn law_pulls_are_wanted<Source, W>(
    stream: ByteModel<Source, W>,
    event: ByteEvent<Source, W>,
)
    requires
        !stream.needs_pull,
    ensures
        stream.step(event).needs_pull ==> {
            let next = stream.step(event);
            !next.closed && !next.errored && !next.pull_in_progress && next.queue_total_size
                < next.high_water_mark
        },
{
}

/// The bytes that answers carry, in order.
pub open spec fn carried<R>(replies: Seq<ByteReplyModel<R>>) -> Seq<u8>
    decreases replies.len(),
{
    if replies.len() == 0 {
        Seq::empty()
    } else {
        let before = carried(replies.drop_last());
        match replies.last() {
            ByteReplyModel::Data(_, bytes) => before + bytes,
            _ => before,
        }
    }
}

/// The reads that were answered, in order.
pub open spec fn answered<R>(replies: Seq<ByteReplyModel<R>>) -> Seq<R> {
    replies.map_values(
        |reply: ByteReplyModel<R>|
            match reply {
                ByteReplyModel::Data(read, _) => read,
                ByteReplyModel::End(read) => read,
                ByteReplyModel::Failed(read, _) => read,
            },
    )
}

impl<R> ByteTaskModel<R> {
    /// The reads that were answered, and then those that wait.
    pub open spec fn asked(self) -> Seq<R> {
        answered(self.replies) + self.pending_reads
    }
}

proof fn lemma_reply<R>(replies: Seq<ByteReplyModel<R>>, reply: ByteReplyModel<R>)
    ensures
        carried(replies.push(reply)) == (match reply {
            ByteReplyModel::Data(_, bytes) => carried(replies) + bytes,
            _ => carried(replies),
        }),
        answered(replies.push(reply)) == answered(replies).push(
            match reply {
                ByteReplyModel::Data(read, _) => read,
                ByteReplyModel::End(read) => read,
                ByteReplyModel::Failed(read, _) => read,
            },
        ),
{
    assert(replies.push(reply).drop_last() =~= replies);
    assert(answered(replies.push(reply)) =~= answered(replies).push(
        match reply {
            ByteReplyModel::Data(read, _) => read,
            ByteReplyModel::End(read) => read,
            ByteReplyModel::Failed(read, _) => read,
        },
    ));
}

proof fn lemma_replies<R>(replies: Seq<ByteReplyModel<R>>, more: Seq<ByteReplyModel<R>>)
    requires
        forall|i: int| 0 <= i < more.len() ==> (#[trigger] more[i]) !is Data,
    ensures
        carried(replies + more) == carried(replies),
    decreases more.len(),
{
    if more.len() == 0 {
        assert(replies + more =~= replies);
    } else {
        lemma_replies(replies, more.drop_last());
        lemma_reply(replies + more.drop_last(), more.last());
        assert(replies + more =~= (replies + more.drop_last()).push(more.last()));
    }
}

proof fn lemma_serve<Source, W, R>(task: ByteTaskModel<R>, state: ByteModel<Source, W>)
    requires
        state.buffer.len() <= usize::MAX,
    ensures
        ({
            let (task1, state1) = serve(task, state);
            &&& carried(task1.replies) + state1.buffer == carried(task.replies) + state.buffer
            &&& task1.asked() == task.asked()
        }),
    decreases task.pending_reads.len(),
{
    if task.pending_reads.len() > 0 {
        let read = task.pending_reads[0];
        let len = CHUNK_SIZE as nat;
        let next = state.read_into(len, state.waiting_readers());
        law_reading_splits_the_buffer(state, len, state.waiting_readers());
        let (task1, state1) = serve(task, state);
        match state.read_outcome(len) {
            Polled::Ready(Ok(n)) => {
                if n == 0 {
                    let answered_task = task.first_answered(ByteReplyModel::End(read));
                    lemma_reply(task.replies, ByteReplyModel::End(read));
                    lemma_serve(answered_task, next);
                    assert(state.read_bytes(len) =~= Seq::empty());
                    assert(next.buffer =~= state.buffer);
                    assert(answered_task.asked() =~= task.asked());
                } else {
                    lemma_reply(task.replies, ByteReplyModel::Data(read, state.read_bytes(len)));
                    assert(carried(task1.replies) + state1.buffer =~= carried(task.replies)
                        + state.buffer);
                    assert(task1.asked() =~= task.asked());
                }
            },
            Polled::Ready(Err(error)) => {
                let answered_task = task.first_answered(ByteReplyModel::Failed(read, error));
                lemma_reply(task.replies, ByteReplyModel::Failed(read, error));
                lemma_serve(answered_task, next);
                assert(answered_task.asked() =~= task.asked());
            },
            Polled::Pending => {},
        }
    }
}

proof fn lemma_read_command<Source, W, R>(
    task: ByteTaskModel<R>,
    state: ByteModel<Source, W>,
    read: R,
    other: R,
)
    requires
        state.wf(),
    ensures
        ({
            let (task1, state1) = read_command(task, state, read);
            &&& carried(task1.replies) + state1.buffer == carried(task.replies) + state.buffer
            &&& task.pending_reads.len() == 0 ==> task1.asked() == task.asked().push(read)
            &&& times(task1.asked(), other) == times(task.asked(), other) + times(seq![read], other)
        }),
{
    let len = CHUNK_SIZE as nat;
    let (task1, state1) = read_command(task, state, read);
    law_reading_splits_the_buffer(state, len, state.waiting_readers());
    lemma_reply(task.replies, ByteReplyModel::Failed(read, state.error_to_report()));
    lemma_reply(task.replies, ByteReplyModel::End(read));
    lemma_reply(task.replies, ByteReplyModel::Data(read, state.read_bytes(len)));
    assert(carried(task1.replies) + state1.buffer =~= carried(task.replies) + state.buffer);
    if task.pending_reads.len() == 0 {
        assert(task1.asked() =~= task.asked().push(read));
    }
    lemma_asked(task, task1, read, other);
}

/// However a read is put among those asked for, it counts once more.
proof fn lemma_asked<R>(task: ByteTaskModel<R>, task1: ByteTaskModel<R>, read: R, other: R)
    requires
        (answered(task1.replies) == answered(task.replies).push(read) && task1.pending_reads
            == task.pending_reads) || (answered(task1.replies) == answered(task.replies)
            && task1.pending_reads == task.pending_reads.push(read)),
    ensures
        times(task1.asked(), other) == times(task.asked(), other) + times(seq![read], other),
{
    lemma_times_add(answered(task.replies), task.pending_reads, other);
    lemma_times_add(answered(task.replies), seq![read], other);
    lemma_times_add(answered(task.replies).push(read), task.pending_reads, other);
    lemma_times_add(task.asked(), seq![read], other);
    assert(answered(task.replies) + seq![read] =~= answered(task.replies).push(read));
    assert(answered(task.replies) + task.pending_reads.push(read) =~= task.asked() + seq![read]);
}

proof fn lemma_pulled<Source, W, R>(
    task: ByteTaskModel<R>,
    state: ByteModel<Source, W>,
    size_before: usize,
    outcome: StreamResult<usize>,
    data: Seq<u8>,
)
    requires
        state.wf(),
        outcome matches Ok(n) ==> n <= data.len() && state.can_enqueue(data.subrange(0, n as int)),
    ensures
        ({
            let (task1, state1) = pulled(task, state, size_before, outcome, data);
            &&& carried(task1.replies) + state1.buffer == carried(task.replies) + state.buffer + (
            match outcome {
                Ok(n) => data.subrange(0, n as int),
                Err(_) => Seq::empty(),
            })
            &&& task1.asked() == task.asked()
        }),
{
    let (task2, state2) = pulled(task, state, size_before, outcome, data);
    let ended = task.pending_reads.map_values(|read: R| ByteReplyModel::<R>::End(read));
    lemma_replies(task.replies, ended);
    assert(task.end_reads().asked() =~= task.asked());
    match outcome {
        Ok(n) => {
            let filled = state.enqueue_data(data.subrange(0, n as int));
            assert(filled.buffer =~= state.buffer + data.subrange(0, n as int));
            lemma_serve(task, filled);
            assert(carried(task2.replies) + state2.buffer =~= carried(task.replies) + state.buffer
                + data.subrange(0, n as int));
        },
        Err(error) => {
            let failed = task.pending_reads.map_values(
                |read: R| ByteReplyModel::<R>::Failed(read, error),
            );
            lemma_replies(task.replies, failed);
            assert(task.fail_reads(error).asked() =~= task.asked());
            assert(carried(task2.replies) + state2.buffer =~= carried(task.replies) + state.buffer
                + Seq::<u8>::empty());
        },
    }
}

/// A read or the end of a pull loses no byte and no read: the bytes that answers carry, followed by
/// those that are buffered, grow by what the pull brought and by nothing else; and every read is
/// answered once or still waits, in its order unless it found others waiting.
pub proof fn law_answers_carry_the_bytes_in_order<Source, W, R>(
    task: ByteTaskModel<R>,
    state: ByteModel<Source, W>,
    read: R,
    other: R,
    size_before: usize,
    outcome: StreamResult<usize>,
    data: Seq<u8>,
)
    requires
        state.wf(),
        outcome matches Ok(n) ==> n <= data.len() && state.can_enqueue(data.subrange(0, n as int)),
    ensures
        ({
            let (task1, state1) = read_command(task, state, read);
            &&& carried(task1.replies) + state1.buffer == carried(task.replies) + state.buffer
            &&& task.pending_reads.len() == 0 ==> task1.asked() == task.asked().push(read)
            &&& times(task1.asked(), other) == times(task.asked(), other) + times(seq![read], other)
        }),
        ({
            let (task1, state1) = pulled(task, state, size_before, outcome, data);
            &&& carried(task1.replies) + state1.buffer == carried(task.replies) + state.buffer + (
            match outcome {
                Ok(n) => data.subrange(0, n as int),
                Err(_) => Seq::empty(),
            })
            &&& task1.asked() == task.asked()
        }),
{
    lemma_read_command(task, state, read, other);
    lemma_pulled(task, state, size_before, outcome, data);
}

/// A pull that brings nothing ends the stream: it closes, and every waiting read is told so.
pub proof fn law_an_empty_pull_closes<Source, W, R>(
    task: ByteTaskModel<R>,
    state: ByteModel<Source, W>,
    data: Seq<u8>,
)
    ensures
        pulled(task, state, state.queue_total_size, Ok(0), data) == (
            task.end_reads(),
            state.close(),
        ),
{
    assert(data.subrange(0, 0) =~= Seq::empty());
}

} // verus!
