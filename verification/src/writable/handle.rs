//! What the handles of a writable stream decide by what they see of it.

use super::effect::Published;
use crate::error::{Notice, StreamError, StreamResult};
use crate::readable::byte_state::Polled;
use vstd::prelude::*;

verus! {

/// What all handles of a writable stream share: who holds the lock, and what the stream shows.
pub struct WritableStream {
    pub locked: bool,
    pub published: Published,
    pub stored_error: Option<StreamError>,
    pub high_water_mark: usize,
}

/// What comes of asking a stream whether it is ready: an answer, or a wait for room or for the end.
pub enum Readiness {
    Now(StreamResult<()>),
    Wait,
}

impl WritableStream {
    pub fn new(high_water_mark: usize) -> (stream: Self)
        ensures
            stream == (WritableStream {
                locked: false,
                published: Published {
                    backpressure: false,
                    closed: false,
                    errored: false,
                    queue_total_size: 0,
                },
                stored_error: None,
                high_water_mark,
            }),
    {
        WritableStream {
            locked: false,
            published: Published {
                backpressure: false,
                closed: false,
                errored: false,
                queue_total_size: 0,
            },
            stored_error: None,
            high_water_mark,
        }
    }

    /// Take over what the stream's task shows.
    pub fn publish(&mut self, published: Published, stored_error: Option<StreamError>)
        ensures
            *final(self) == (WritableStream { published, stored_error, ..*old(self) }),
    {
        self.published = published;
        self.stored_error = stored_error;
    }

    /// The error of an errored stream.
    pub open spec fn error_to_report(self) -> StreamError {
        match self.stored_error {
            Some(error) => error,
            None => StreamError::notice(Notice::StreamIsErrored),
        }
    }

    pub fn get_stored_error(&self) -> (error: StreamError)
        ensures
            error == self.error_to_report(),
    {
        match &self.stored_error {
            Some(error) => error.clone(),
            None => StreamError::notice(Notice::StreamIsErrored),
        }
    }

    pub fn locked(&self) -> (locked: bool)
        ensures
            locked == self.locked,
    {
        self.locked
    }

    /// What taking the lock comes to: the stream afterwards, and whether the lock was free.
    pub open spec fn lock_taken(self) -> (Self, StreamResult<()>) {
        (
            WritableStream { locked: true, ..self },
            if self.locked {
                Err(StreamError::notice(Notice::AlreadyLocked))
            } else {
                Ok(())
            },
        )
    }

    /// The stream after its lock was given back.
    pub open spec fn lock_released(self) -> Self {
        WritableStream { locked: false, ..self }
    }

    /// Lock the stream for a writer; there can be one at a time.
    pub fn get_writer(&mut self) -> (outcome: StreamResult<()>)
        ensures
            (*final(self), outcome) == old(self).lock_taken(),
    {
        if self.locked {
            return Err(StreamError::notice(Notice::AlreadyLocked));
        }
        self.locked = true;
        Ok(())
    }

    /// Unlock the stream, when its writer is released or dropped.
    pub fn release_lock(&mut self) -> (outcome: StreamResult<()>)
        ensures
            *final(self) == old(self).lock_released(),
            outcome == StreamResult::<()>::Ok(()),
    {
        self.locked = false;
        Ok(())
    }

    /// The room left under the high water mark, as long as the stream is open.
    pub fn desired_size(&self) -> (desired_size: Option<usize>)
        ensures
            desired_size == (if self.published.closed || self.published.errored {
                None
            } else if self.published.queue_total_size >= self.high_water_mark {
                Some(0usize)
            } else {
                Some((self.high_water_mark - self.published.queue_total_size) as usize)
            }),
    {
        if self.published.closed || self.published.errored {
            return None;
        }
        if self.published.queue_total_size >= self.high_water_mark {
            Some(0)
        } else {
            Some(self.high_water_mark - self.published.queue_total_size)
        }
    }

    /// Whether a stream that has ended keeps a chunk from being sent: the error of an errored
    /// stream, or `Closed`.
    pub open spec fn admits(self) -> StreamResult<()> {
        if self.published.errored {
            Err(self.error_to_report())
        } else if self.published.closed {
            Err(StreamError::Closed)
        } else {
            Ok(())
        }
    }

    pub fn check_open(&self) -> (outcome: StreamResult<()>)
        ensures
            outcome == self.admits(),
    {
        if self.published.errored {
            return Err(self.get_stored_error());
        }
        if self.published.closed {
            return Err(StreamError::Closed);
        }
        Ok(())
    }

    /// Whether the next item can be sent now: an ended stream refuses, one with backpressure makes
    /// its sender wait.
    pub fn poll_ready(&self) -> (ready: Readiness)
        ensures
            ready == (if self.admits() is Err {
                Readiness::Now(self.admits())
            } else if self.published.backpressure {
                Readiness::Wait
            } else {
                Readiness::Now(Ok(()))
            }),
    {
        match self.check_open() {
            Err(error) => Readiness::Now(Err(error)),
            Ok(_) => if self.published.backpressure {
                Readiness::Wait
            } else {
                Readiness::Now(Ok(()))
            },
        }
    }

    /// Whether an item may be sent: neither to an ended stream nor against backpressure.
    pub fn start_send(&self) -> (outcome: StreamResult<()>)
        ensures
            outcome == (if self.admits() is Err {
                self.admits()
            } else if self.published.backpressure {
                Err(StreamError::notice(Notice::BackpressureActive))
            } else {
                Ok(())
            }),
    {
        match self.check_open() {
            Err(error) => Err(error),
            Ok(_) => if self.published.backpressure {
                Err(StreamError::notice(Notice::BackpressureActive))
            } else {
                Ok(())
            },
        }
    }

    /// Whether a writer can write without waiting; a closed stream keeps nobody waiting.
    pub fn ready(&self) -> (ready: Readiness)
        ensures
            ready == (if self.published.errored {
                Readiness::Now(Err(self.error_to_report()))
            } else if self.published.closed || !self.published.backpressure {
                Readiness::Now(Ok(()))
            } else {
                Readiness::Wait
            }),
    {
        if self.published.errored {
            return Readiness::Now(Err(self.get_stored_error()));
        }
        if self.published.closed {
            return Readiness::Now(Ok(()));
        }
        if !self.published.backpressure {
            return Readiness::Now(Ok(()));
        }
        Readiness::Wait
    }

    /// Whether the stream has ended, as its writer is told.
    pub fn closed(&self) -> (ended: Readiness)
        ensures
            ended == (if self.published.errored {
                Readiness::Now(Err(self.error_to_report()))
            } else if self.published.closed {
                Readiness::Now(Ok(()))
            } else {
                Readiness::Wait
            }),
    {
        if self.published.errored {
            return Readiness::Now(Err(self.get_stored_error()));
        }
        if self.published.closed {
            return Readiness::Now(Ok(()));
        }
        Readiness::Wait
    }
}

/// A second look, after whoever waits has been registered: the wait may be over by then.
pub fn look_again(over: bool) -> (outcome: Polled<StreamResult<()>>)
    ensures
        outcome == (if over {
            Polled::Ready(StreamResult::<()>::Ok(()))
        } else {
            Polled::Pending
        }),
{
    if over {
        Polled::Ready(Ok(()))
    } else {
        Polled::Pending
    }
}

/// What comes of looking for the answer to an operation.
pub enum Reply {
    Answered(StreamResult<()>),
    /// The stream's task went away without an answer.
    Canceled,
    NotYet,
}

/// What an operation of a handle does next: it is over, or it is to be sent to the stream's task,
/// or its answer is to be looked for, or it has to wait for room.
pub enum OpStep<D> {
    Over(D),
    Send,
    LookForAnswer,
    WaitForRoom,
    NotYet,
}

/// The kinds of failure that byte-oriented callers are told of.
#[derive(Clone, Copy, Debug, PartialEq, Eq, Structural)]
pub enum IoKind {
    Other,
    BrokenPipe,
    Interrupted,
}

/// A failure as byte-oriented callers are told of it.
#[derive(Debug)]
pub struct IoFailure {
    pub kind: IoKind,
    pub message: String,
}

impl IoFailure {
    /// Whether the failure is of this kind, in these words.
    pub open spec fn says(self, kind: IoKind, words: Seq<char>) -> bool {
        self.kind == kind && self.message@ == words
    }

    pub fn new(kind: IoKind, words: &str) -> (failure: Self)
        ensures
            failure.says(kind, words@),
    {
        IoFailure { kind, message: words.to_owned() }
    }

    /// An error in its own words.
    pub fn of(error: &StreamError) -> (failure: Self)
        ensures
            failure.says(IoKind::Other, error.words()),
    {
        IoFailure { kind: IoKind::Other, message: error.to_text() }
    }
}

/// The kind of failure that a byte-oriented writer is told of when its write failed.
pub open spec fn write_failure_kind(error: StreamError) -> IoKind {
    match error {
        StreamError::Canceled => IoKind::Interrupted,
        StreamError::Aborted(_) => IoKind::Interrupted,
        StreamError::Closing => IoKind::BrokenPipe,
        StreamError::Closed => IoKind::BrokenPipe,
        StreamError::TaskDropped => IoKind::BrokenPipe,
        StreamError::Other(_) => IoKind::Other,
    }
}

/// The words in which a byte-oriented writer is told that its write failed.
pub open spec fn write_failure_words(error: StreamError) -> Seq<char> {
    match error {
        StreamError::Canceled => "Write canceled"@,
        StreamError::TaskDropped => "Stream task dropped"@,
        other => other.words(),
    }
}

/// How a byte-oriented writer is told that its write failed.
pub fn write_failure(error: &StreamError) -> (failure: IoFailure)
    ensures
        failure.says(write_failure_kind(*error), write_failure_words(*error)),
{
    match error {
        StreamError::Canceled => IoFailure::new(IoKind::Interrupted, "Write canceled"),
        StreamError::Aborted(_) => IoFailure {
            kind: IoKind::Interrupted,
            message: error.to_text(),
        },
        StreamError::Closing => IoFailure::new(IoKind::BrokenPipe, "Stream is closing"),
        StreamError::Closed => IoFailure::new(IoKind::BrokenPipe, "Stream is closed"),
        StreamError::TaskDropped => IoFailure::new(IoKind::BrokenPipe, "Stream task dropped"),
        StreamError::Other(_) => IoFailure::of(error),
    }
}

/// The operations of a handle that wait for an answer; `Rx` is where the answer will be.
pub struct PendingOps<Rx> {
    pub flush_receiver: Option<Rx>,
    pub close_receiver: Option<Rx>,
    pub write_receiver: Option<Rx>,
    pub pending_write_len: Option<usize>,
}

impl<Rx> PendingOps<Rx> {
    pub fn new() -> (ops: Self)
        ensures
            ops == (PendingOps::<Rx> {
                flush_receiver: None,
                close_receiver: None,
                write_receiver: None,
                pending_write_len: None,
            }),
    {
        PendingOps {
            flush_receiver: None,
            close_receiver: None,
            write_receiver: None,
            pending_write_len: None,
        }
    }

    /// Begin or continue a flush; an errored stream refuses it.
    pub fn poll_flush(&self, stream: &WritableStream) -> (step: OpStep<StreamResult<()>>)
        ensures
            step == (if stream.published.errored {
                OpStep::Over(StreamResult::<()>::Err(stream.error_to_report()))
            } else if self.flush_receiver is None {
                OpStep::Send
            } else {
                OpStep::LookForAnswer
            }),
    {
        if stream.published.errored {
            return OpStep::Over(Err(stream.get_stored_error()));
        }
        if self.flush_receiver.is_none() {
            OpStep::Send
        } else {
            OpStep::LookForAnswer
        }
    }

    /// The flush was sent, or could not be.
    pub fn flush_sent(&mut self, sent: Option<Rx>) -> (outcome: StreamResult<()>)
        ensures
            outcome == (if sent is Some {
                StreamResult::<()>::Ok(())
            } else {
                Err(StreamError::notice(Notice::TaskDropped))
            }),
            *final(self) == (if sent is Some {
                PendingOps { flush_receiver: sent, ..*old(self) }
            } else {
                *old(self)
            }),
    {
        match sent {
            Some(receiver) => {
                self.flush_receiver = Some(receiver);
                Ok(())
            },
            None => Err(StreamError::notice(Notice::TaskDropped)),
        }
    }

    /// What the answer to the flush comes to; it is looked for once.
    pub fn flush_answered(&mut self, reply: Reply) -> (outcome: Polled<StreamResult<()>>)
        ensures
            if old(self).flush_receiver is None {
                &&& outcome == Polled::Ready(
                    StreamResult::<()>::Err(StreamError::notice(Notice::FlushReceiverMissing)),
                )
                &&& *final(self) == *old(self)
            } else {
                &&& outcome == (match reply {
                    Reply::Answered(outcome) => Polled::Ready(outcome),
                    Reply::Canceled => Polled::Ready(
                        StreamResult::<()>::Err(StreamError::notice(Notice::FlushCanceled)),
                    ),
                    Reply::NotYet => Polled::Pending,
                })
                &&& *final(self) == (if reply is NotYet {
                    *old(self)
                } else {
                    PendingOps { flush_receiver: None, ..*old(self) }
                })
            },
    {
        if self.flush_receiver.is_none() {
            return Polled::Ready(Err(StreamError::notice(Notice::FlushReceiverMissing)));
        }
        match reply {
            Reply::Answered(outcome) => {
                self.flush_receiver = None;
                Polled::Ready(outcome)
            },
            Reply::Canceled => {
                self.flush_receiver = None;
                Polled::Ready(Err(StreamError::notice(Notice::FlushCanceled)))
            },
            Reply::NotYet => Polled::Pending,
        }
    }

    /// Begin or continue a close; a closed stream has done it, an errored one refuses it.
    pub fn poll_close(&self, stream: &WritableStream) -> (step: OpStep<StreamResult<()>>)
        ensures
            step == (if stream.published.closed {
                OpStep::Over(StreamResult::<()>::Ok(()))
            } else if stream.published.errored {
                OpStep::Over(StreamResult::<()>::Err(stream.error_to_report()))
            } else if self.close_receiver is None {
                OpStep::Send
            } else {
                OpStep::LookForAnswer
            }),
    {
        if stream.published.closed {
            return OpStep::Over(Ok(()));
        }
        if stream.published.errored {
            return OpStep::Over(Err(stream.get_stored_error()));
        }
        if self.close_receiver.is_none() {
            OpStep::Send
        } else {
            OpStep::LookForAnswer
        }
    }

    /// The close was sent, or could not be.
    pub fn close_sent(&mut self, sent: Option<Rx>) -> (outcome: StreamResult<()>)
        ensures
            outcome == (if sent is Some {
                StreamResult::<()>::Ok(())
            } else {
                Err(StreamError::notice(Notice::TaskDropped))
            }),
            *final(self) == (if sent is Some {
                PendingOps { close_receiver: sent, ..*old(self) }
            } else {
                *old(self)
            }),
    {
        match sent {
            Some(receiver) => {
                self.close_receiver = Some(receiver);
                Ok(())
            },
            None => Err(StreamError::notice(Notice::TaskDropped)),
        }
    }

    /// What the answer to the close comes to; it is looked for once.
    pub fn close_answered(&mut self, reply: Reply) -> (outcome: Polled<StreamResult<()>>)
        ensures
            if old(self).close_receiver is None {
                &&& outcome == Polled::Ready(
                    StreamResult::<()>::Err(StreamError::notice(Notice::CloseReceiverMissing)),
                )
                &&& *final(self) == *old(self)
            } else {
                &&& outcome == (match reply {
                    Reply::Answered(outcome) => Polled::Ready(outcome),
                    Reply::Canceled => Polled::Ready(
                        StreamResult::<()>::Err(StreamError::notice(Notice::CloseCanceled)),
                    ),
                    Reply::NotYet => Polled::Pending,
                })
                &&& *final(self) == (if reply is NotYet {
                    *old(self)
                } else {
                    PendingOps { close_receiver: None, ..*old(self) }
                })
            },
    {
        if self.close_receiver.is_none() {
            return Polled::Ready(Err(StreamError::notice(Notice::CloseReceiverMissing)));
        }
        match reply {
            Reply::Answered(outcome) => {
                self.close_receiver = None;
                Polled::Ready(outcome)
            },
            Reply::Canceled => {
                self.close_receiver = None;
                Polled::Ready(Err(StreamError::notice(Notice::CloseCanceled)))
            },
            Reply::NotYet => Polled::Pending,
        }
    }

    /// Begin or continue writing `len` bytes: nothing is written of nothing, an ended stream
    /// refuses, and backpressure makes the writer wait.
    pub fn poll_write(&self, stream: &WritableStream, len: usize) -> (step: OpStep<
        Result<usize, IoFailure>,
    >)
        ensures
            if len == 0 {
                step == OpStep::Over(Result::<usize, IoFailure>::Ok(0))
            } else if stream.published.errored {
                step matches OpStep::Over(Err(failure)) && failure.says(
                    IoKind::Other,
                    stream.error_to_report().words(),
                )
            } else if stream.published.closed {
                step matches OpStep::Over(Err(failure)) && failure.says(
                    IoKind::BrokenPipe,
                    "Stream is closed"@,
                )
            } else if stream.published.backpressure {
                step is WaitForRoom
            } else if self.write_receiver is None {
                step is Send
            } else {
                step is LookForAnswer
            },
    {
        if len == 0 {
            return OpStep::Over(Ok(0));
        }
        if stream.published.errored {
            return OpStep::Over(Err(IoFailure::of(&stream.get_stored_error())));
        }
        if stream.published.closed {
            return OpStep::Over(Err(IoFailure::new(IoKind::BrokenPipe, "Stream is closed")));
        }
        if stream.published.backpressure {
            return OpStep::WaitForRoom;
        }
        self.after_room()
    }

    /// A second look at the backpressure, once whoever waits for room has been registered.
    pub fn room_looked_for(&self, backpressure: bool) -> (step: OpStep<Result<usize, IoFailure>>)
        ensures
            step == (if backpressure {
                OpStep::<Result<usize, IoFailure>>::NotYet
            } else if self.write_receiver is None {
                OpStep::Send
            } else {
                OpStep::LookForAnswer
            }),
    {
        if backpressure {
            OpStep::NotYet
        } else {
            self.after_room()
        }
    }

    fn after_room(&self) -> (step: OpStep<Result<usize, IoFailure>>)
        ensures
            step == (if self.write_receiver is None {
                OpStep::<Result<usize, IoFailure>>::Send
            } else {
                OpStep::LookForAnswer
            }),
    {
        if self.write_receiver.is_none() {
            OpStep::Send
        } else {
            OpStep::LookForAnswer
        }
    }

    /// The write of `len` bytes was sent, or could not be.
    pub fn write_sent(&mut self, sent: Option<Rx>, len: usize) -> (outcome: Result<(), IoFailure>)
        ensures
            match sent {
                Some(_) => {
                    &&& outcome is Ok
                    &&& *final(self) == (PendingOps {
                        write_receiver: sent,
                        pending_write_len: Some(len),
                        ..*old(self)
                    })
                },
                None => {
                    &&& outcome matches Err(failure)
                    &&& failure.says(IoKind::BrokenPipe, "Stream task dropped"@)
                    &&& *final(self) == *old(self)
                },
            },
    {
        match sent {
            Some(receiver) => {
                self.write_receiver = Some(receiver);
                self.pending_write_len = Some(len);
                Ok(())
            },
            None => Err(IoFailure::new(IoKind::BrokenPipe, "Stream task dropped")),
        }
    }

    /// What the answer to the write comes to: the number of bytes that were sent, or a failure.
    pub fn write_answered(&mut self, reply: Reply) -> (outcome: Polled<Result<usize, IoFailure>>)
        ensures
            if old(self).write_receiver is None {
                &&& outcome matches Polled::Ready(Err(failure))
                &&& failure.says(IoKind::Other, "Write receiver missing"@)
                &&& *final(self) == *old(self)
            } else {
                &&& match reply {
                    Reply::Answered(Ok(_)) => outcome == Polled::Ready(
                        Result::<usize, IoFailure>::Ok(
                            match old(self).pending_write_len {
                                Some(len) => len,
                                None => 0,
                            },
                        ),
                    ),
                    Reply::Answered(Err(error)) => outcome matches Polled::Ready(Err(failure))
                        && failure.says(write_failure_kind(error), write_failure_words(error)),
                    Reply::Canceled => outcome matches Polled::Ready(Err(failure)) && failure.says(
                        IoKind::Interrupted,
                        "Write completion channel canceled"@,
                    ),
                    Reply::NotYet => outcome is Pending,
                }
                &&& *final(self) == (if reply is NotYet {
                    *old(self)
                } else {
                    PendingOps { write_receiver: None, pending_write_len: None, ..*old(self) }
                })
            },
    {
        if self.write_receiver.is_none() {
            return Polled::Ready(Err(IoFailure::new(IoKind::Other, "Write receiver missing")));
        }
        match reply {
            Reply::Answered(Ok(_)) => {
                let written: usize = match self.pending_write_len.take() {
                    Some(len) => len,
                    None => 0,
                };
                self.write_receiver = None;
                Polled::Ready(Ok(written))
            },
            Reply::Answered(Err(error)) => {
                self.write_receiver = None;
                self.pending_write_len = None;
                Polled::Ready(Err(write_failure(&error)))
            },
            Reply::Canceled => {
                self.write_receiver = None;
                self.pending_write_len = None;
                Polled::Ready(
                    Err(IoFailure::new(IoKind::Interrupted, "Write completion channel canceled")),
                )
            },
            Reply::NotYet => Polled::Pending,
        }
    }
}

/// How a byte-oriented caller is told that a flush or a close failed: one that could not even be
/// sent is a broken pipe.
pub fn ending_failure(error: &StreamError, sent: bool) -> (failure: IoFailure)
    ensures
        failure.says(
            if sent {
                IoKind::Other
            } else {
                IoKind::BrokenPipe
            },
            error.words(),
        ),
{
    if sent {
        IoFailure::of(error)
    } else {
        IoFailure { kind: IoKind::BrokenPipe, message: error.to_text() }
    }
}

/// While a writer holds the lock every other is refused; once it is given back the next one gets
/// it.
pub proof fn law_one_writer_at_a_time(stream: WritableStream)
    requires
        !stream.locked,
    ensures
        stream.lock_taken().1 is Ok,
        stream.lock_taken().0.lock_taken().1 == StreamResult::<()>::Err(
            StreamError::notice(Notice::AlreadyLocked),
        ),
        stream.lock_taken().0.lock_taken().0.lock_released().lock_taken().1 is Ok,
        stream.lock_taken().0.lock_released() == stream,
{
}

/// A stream that was not seen to end takes what is sent; one that was seen to fail refuses it with
/// its error, and one that was seen to close as closed, whatever the backpressure.
pub proof fn law_an_ended_stream_refuses(stream: WritableStream)
    ensures
        stream.admits() is Ok <==> !stream.published.errored && !stream.published.closed,
        stream.published.errored ==> stream.admits() == StreamResult::<()>::Err(
            stream.error_to_report(),
        ),
        stream.published.closed && !stream.published.errored ==> stream.admits()
            == StreamResult::<()>::Err(StreamError::Closed),
        stream.stored_error matches Some(error) ==> stream.error_to_report() == error,
        stream.stored_error is None ==> stream.error_to_report().words() == "Stream is errored"@,
        stream.locked ==> stream.lock_taken().0 == stream && stream.lock_taken().1 is Err,
        stream.lock_taken().0.locked && !stream.lock_released().locked,
        stream.lock_released().published == stream.published,
{
}

/// How a failed write reads to a byte-oriented writer.  It was interrupted if and only if it was
/// cancelled or aborted, the pipe is broken if and only if the stream is closing, closed or gone, and
/// anything else is some other failure; and it says what the error says, except where the write was
/// cancelled or the task is gone, which it says itself.
pub proof fn law_how_a_failed_write_reads(error: StreamError)
    ensures
        write_failure_kind(error) == IoKind::Interrupted <==> error is Canceled || error is Aborted,
        write_failure_kind(error) == IoKind::BrokenPipe <==> error is Closing || error is Closed
            || error is TaskDropped,
        write_failure_kind(error) == IoKind::Other <==> error is Other,
        !(error is Canceled) && !(error is TaskDropped) ==> write_failure_words(error)
            == error.words(),
        error is Canceled ==> write_failure_words(error) == "Write canceled"@,
        error is TaskDropped ==> write_failure_words(error) == "Stream task dropped"@,
{
}

/// A failure says what it is made with, and no failure says two things.
pub proof fn law_a_failure_says_one_thing(
    failure: IoFailure,
    kind: IoKind,
    words: Seq<char>,
    other_kind: IoKind,
    other_words: Seq<char>,
)
    requires
        failure.says(kind, words),
    ensures
        failure.kind == kind && failure.message@ == words,
        failure.says(other_kind, other_words) <==> other_kind == kind && other_words == words,
{
}

/// What handles decide goes together.  An item may be sent if and only if sending it has not to be
/// waited for, and that is so exactly while the stream was not seen to end and shows no
/// backpressure; a sender that has to wait is the only one that is told to, and a stream that was
/// seen to end keeps nobody waiting; room is reported exactly as long as the end was not seen, and is
/// none exactly when the queue has reached the mark.
pub proof fn law_handles_agree(
    stream: WritableStream,
    sendable: Readiness,
    sent: StreamResult<()>,
    writable: Readiness,
    ended: Readiness,
    room: Option<usize>,
)
    requires
        call_ensures(WritableStream::poll_ready, (&stream,), sendable),
        call_ensures(WritableStream::start_send, (&stream,), sent),
        call_ensures(WritableStream::ready, (&stream,), writable),
        call_ensures(WritableStream::closed, (&stream,), ended),
        call_ensures(WritableStream::desired_size, (&stream,), room),
    ensures
        ({
            let open = !stream.published.closed && !stream.published.errored;
            &&& sent is Ok <==> open && !stream.published.backpressure
            &&& sent is Ok <==> sendable == Readiness::Now(Ok(()))
            &&& sendable is Wait <==> open && stream.published.backpressure
            &&& writable is Wait <==> sendable is Wait
            &&& ended is Wait <==> open
            &&& !open ==> sent == stream.admits() && sendable == Readiness::Now(stream.admits())
            &&& stream.published.errored ==> writable == Readiness::Now(
                Err(stream.error_to_report()),
            ) && ended == writable
            &&& stream.published.closed && !stream.published.errored ==> writable == Readiness::Now(
                Ok(()),
            ) && ended == writable
            &&& open && stream.published.backpressure ==> sent->Err_0.words()
                == "start_send called while backpressure is active - call poll_ready first"@
            &&& room is Some <==> open
            &&& room matches Some(left) ==> {
                &&& left == 0 <==> stream.published.queue_total_size >= stream.high_water_mark
                &&& left > 0 ==> left + stream.published.queue_total_size == stream.high_water_mark
            }
        }),
{
}

/// An operation of a handle is sent once: whoever has not sent it is to send it, whoever has is to
/// look for its answer, and nobody is to do either on a stream that was seen to end.  A flush and a
/// close are refused by a stream that was seen to fail, with its error; a close is done on one that
/// was seen to close; and a write waits for room while there is backpressure, but nothing is written
/// of nothing at once.
pub proof fn law_an_operation_is_sent_once<Rx>(
    ops: PendingOps<Rx>,
    stream: WritableStream,
    len: usize,
    backpressure: bool,
    flush: OpStep<StreamResult<()>>,
    close: OpStep<StreamResult<()>>,
    write: OpStep<Result<usize, IoFailure>>,
    again: OpStep<Result<usize, IoFailure>>,
)
    requires
        call_ensures(PendingOps::<Rx>::poll_flush, (&ops, &stream), flush),
        call_ensures(PendingOps::<Rx>::poll_close, (&ops, &stream), close),
        call_ensures(PendingOps::<Rx>::poll_write, (&ops, &stream, len), write),
        call_ensures(PendingOps::<Rx>::room_looked_for, (&ops, backpressure), again),
    ensures
        ({
            let errored = stream.published.errored;
            let closed = stream.published.closed;
            let error = stream.error_to_report();
            &&& flush is Over <==> errored
            &&& errored ==> flush == OpStep::Over(StreamResult::<()>::Err(error))
            &&& flush is Send <==> !errored && ops.flush_receiver is None
            &&& flush is LookForAnswer <==> !errored && ops.flush_receiver is Some
            &&& close is Over <==> errored || closed
            &&& closed ==> close == OpStep::Over(StreamResult::<()>::Ok(()))
            &&& errored && !closed ==> close == OpStep::Over(StreamResult::<()>::Err(error))
            &&& close is Send <==> !errored && !closed && ops.close_receiver is None
            &&& close is LookForAnswer <==> !errored && !closed && ops.close_receiver is Some
            &&& write is Over <==> len == 0 || errored || closed
            &&& len == 0 ==> write == OpStep::Over(Result::<usize, IoFailure>::Ok(0))
            &&& write is WaitForRoom <==> len > 0 && !errored && !closed
                && stream.published.backpressure
            &&& write is Send <==> len > 0 && !errored && !closed && !stream.published.backpressure
                && ops.write_receiver is None
            &&& write is LookForAnswer <==> len > 0 && !errored && !closed
                && !stream.published.backpressure && ops.write_receiver is Some
            &&& len > 0 && errored ==> write->Over_0->Err_0.kind == IoKind::Other
                && write->Over_0->Err_0.message@ == error.words()
            &&& len > 0 && closed && !errored ==> write->Over_0->Err_0.kind == IoKind::BrokenPipe
            &&& again is NotYet <==> backpressure
            &&& again is Send <==> !backpressure && ops.write_receiver is None
            &&& again is LookForAnswer <==> !backpressure && ops.write_receiver is Some
        }),
{
}

} // verus!
