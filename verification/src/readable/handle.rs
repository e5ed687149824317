//! What the handles of a readable stream decide by what they see of it.

use super::byte_state::Polled;
use crate::error::{Notice, StreamError, StreamResult};
use vstd::prelude::*;

verus! {

/// What all handles of a readable stream share: who holds the lock, and how the stream has ended.
pub struct ReadableStream {
    pub locked: bool,
    pub closed: bool,
    pub errored: bool,
    pub stored_error: Option<StreamError>,
}

/// What comes of asking a stream for its next item without reading: a failure, the end, or a wait.
pub enum NextItem {
    Failed(StreamError),
    End,
    Wait,
}

impl ReadableStream {
    pub fn new() -> (stream: Self)
        ensures
            stream == (ReadableStream {
                locked: false,
                closed: false,
                errored: false,
                stored_error: None,
            }),
    {
        ReadableStream { locked: false, closed: false, errored: false, stored_error: None }
    }

    /// The error of an errored stream.
    pub open spec fn error_to_report(self) -> StreamError {
        match self.stored_error {
            Some(error) => error,
            None => StreamError::notice(Notice::StreamIsErrored),
        }
    }

    fn get_stored_error(&self) -> (error: StreamError)
        ensures
            error == self.error_to_report(),
    {
        match &self.stored_error {
            Some(error) => error.clone(),
            None => StreamError::notice(Notice::StreamIsErrored),
        }
    }

    /// Take over what the stream's task shows.
    pub fn publish(&mut self, closed: bool, errored: bool, stored_error: Option<StreamError>)
        ensures
            *final(self) == (ReadableStream { closed, errored, stored_error, ..*old(self) }),
    {
        self.closed = closed;
        self.errored = errored;
        self.stored_error = stored_error;
    }

    pub fn locked(&self) -> (locked: bool)
        ensures
            locked == self.locked,
    {
        self.locked
    }

    /// What taking the lock comes to: the stream afterwards, and whether the lock was free.
    pub open spec fn lock_taken(self) -> (Self, StreamResult<()>) {
        (
            ReadableStream { locked: true, ..self },
            if self.locked {
                Err(StreamError::notice(Notice::AlreadyLocked))
            } else {
                Ok(())
            },
        )
    }

    /// The stream after its lock was given back.
    pub open spec fn lock_released(self) -> Self {
        ReadableStream { locked: false, ..self }
    }

    /// Lock the stream for a reader; there can be one at a time.
    pub fn get_reader(&mut self) -> (outcome: StreamResult<()>)
        ensures
            (*final(self), outcome) == old(self).lock_taken(),
    {
        if self.locked {
            return Err(StreamError::notice(Notice::AlreadyLocked));
        }
        self.locked = true;
        Ok(())
    }

    /// Lock the stream for a reader that brings its own buffers; there can be one reader at a
    /// time.
    pub fn get_byob_reader(&mut self) -> (outcome: StreamResult<()>)
        ensures
            (*final(self), outcome) == old(self).lock_taken(),
    {
        self.get_reader()
    }

    /// Unlock the stream, when its reader is released or dropped.
    pub fn release_lock(&mut self)
        ensures
            *final(self) == old(self).lock_released(),
    {
        self.locked = false;
    }

    /// Ask for the next item without reading.
    pub fn poll_next(&self) -> (next: NextItem)
        ensures
            next == (if self.errored {
                NextItem::Failed(self.error_to_report())
            } else if self.closed {
                NextItem::End
            } else {
                NextItem::Wait
            }),
    {
        if self.errored {
            return NextItem::Failed(self.get_stored_error());
        }
        if self.closed {
            return NextItem::End;
        }
        NextItem::Wait
    }

    /// Wait for the end: a failure, or the close.
    pub fn poll_closed(&self) -> (outcome: Polled<StreamResult<()>>)
        ensures
            outcome == (if self.errored {
                Polled::Ready(StreamResult::<()>::Err(self.error_to_report()))
            } else if self.closed {
                Polled::Ready(Ok(()))
            } else {
                Polled::Pending
            }),
    {
        if self.errored {
            return Polled::Ready(Err(self.get_stored_error()));
        }
        if self.closed {
            return Polled::Ready(Ok(()));
        }
        Polled::Pending
    }
}

/// The answer to a request, as it came back from the stream's task; a task that went away without
/// an answer was dropped.
pub fn answer_or_dropped<A>(answer: Option<StreamResult<A>>) -> (outcome: StreamResult<A>)
    ensures
        outcome == (match answer {
            Some(outcome) => outcome,
            None => StreamResult::<A>::Err(StreamError::TaskDropped),
        }),
{
    match answer {
        Some(outcome) => outcome,
        None => Err(StreamError::TaskDropped),
    }
}

/// While a reader holds the lock every other is refused; once it is given back the next one gets
/// it.
pub proof fn law_one_reader_at_a_time(stream: ReadableStream)
    requires
        !stream.locked,
    ensures
        stream.lock_taken().1 is Ok,
        stream.lock_taken().0.lock_taken().1 == StreamResult::<()>::Err(
            StreamError::notice(Notice::AlreadyLocked),
        ),
        stream.lock_taken().0.lock_taken().0.lock_released().lock_taken().1 is Ok,
        stream.lock_taken().0.lock_released() == stream,
{
}

/// The error that is reported is the one that was stored; without one, it reads so.  Taking the lock
/// of a stream that is locked fails and changes nothing; taking or giving back a lock concerns the
/// lock alone.
pub proof fn law_a_lock_is_a_lock_alone(stream: ReadableStream)
    ensures
        stream.stored_error matches Some(error) ==> stream.error_to_report() == error,
        stream.stored_error is None ==> stream.error_to_report().words() == "Stream is errored"@,
        stream.locked ==> stream.lock_taken().0 == stream && stream.lock_taken().1 is Err,
        stream.lock_taken().0 == (ReadableStream { locked: true, ..stream }),
        stream.lock_released() == (ReadableStream { locked: false, ..stream }),
{
}

/// What handles are told of the end goes together: a stream that was seen to fail fails both whoever
/// asks for an item and whoever waits for the end, with its error; one that was seen to close ends
/// both; and otherwise both wait.
pub proof fn law_handles_agree(
    stream: ReadableStream,
    next: NextItem,
    ended: Polled<StreamResult<()>>,
)
    requires
        call_ensures(ReadableStream::poll_next, (&stream,), next),
        call_ensures(ReadableStream::poll_closed, (&stream,), ended),
    ensures
        next is Wait <==> !stream.closed && !stream.errored,
        ended is Pending <==> next is Wait,
        next is Failed <==> stream.errored,
        stream.errored ==> next->Failed_0 == stream.error_to_report() && ended == Polled::Ready(
            StreamResult::<()>::Err(stream.error_to_report()),
        ),
        stream.closed && !stream.errored ==> next is End && ended == Polled::Ready(
            StreamResult::<()>::Ok(()),
        ),
{
}

} // verus!
