//! The controller that a source of chunks is given.

use super::effect::ControllerMsg;
use crate::channel::{Outbox, Posted};
use crate::error::{Notice, StreamError, StreamResult};
use futures::channel::mpsc::UnboundedSender;
use std::sync::atomic::{AtomicBool, AtomicIsize, Ordering};
use std::sync::Arc;
use vstd::prelude::*;

verus! {

/// The flags of a readable stream that its task sets and others read.
pub struct ReadableFlags {
    closed: Arc<AtomicBool>,
    errored: Arc<AtomicBool>,
    desired_size: Arc<AtomicIsize>,
}

impl ReadableFlags {
    /// Flags that were made with these values: neither closed nor errored, and this size.
    pub closed spec fn made_with(self, desired_size: isize) -> bool {
        &&& call_ensures(AtomicBool::new, (false,), *self.closed)
        &&& call_ensures(AtomicBool::new, (false,), *self.errored)
        &&& call_ensures(AtomicIsize::new, (desired_size,), *self.desired_size)
    }

    /// Whether `closed` can come of looking whether the stream is closed.
    pub closed spec fn shows_closed(self, closed: bool) -> bool {
        call_ensures(AtomicBool::load, (&*self.closed, Ordering::SeqCst), closed)
    }

    /// Whether `errored` can come of looking whether the stream is errored.
    pub closed spec fn shows_errored(self, errored: bool) -> bool {
        call_ensures(AtomicBool::load, (&*self.errored, Ordering::SeqCst), errored)
    }

    /// Whether `desired_size` can come of looking for the room that is left.
    pub closed spec fn shows_size(self, desired_size: isize) -> bool {
        call_ensures(AtomicIsize::load, (&*self.desired_size, Ordering::SeqCst), desired_size)
    }

    /// Each of the flags is set like this.
    pub closed spec fn stores(self, closed: bool, errored: bool, desired_size: isize) -> bool {
        &&& call_ensures(AtomicBool::store, (&*self.closed, closed, Ordering::SeqCst), ())
        &&& call_ensures(AtomicBool::store, (&*self.errored, errored, Ordering::SeqCst), ())
        &&& call_ensures(
            AtomicIsize::store,
            (&*self.desired_size, desired_size, Ordering::SeqCst),
            (),
        )
    }

    pub fn new(desired_size: isize) -> (flags: Self)
        ensures
            flags.made_with(desired_size),
    {
        ReadableFlags {
            closed: Arc::new(AtomicBool::new(false)),
            errored: Arc::new(AtomicBool::new(false)),
            desired_size: Arc::new(AtomicIsize::new(desired_size)),
        }
    }

    /// Show what has become of the stream.
    pub fn publish(&self, closed: bool, errored: bool, desired_size: isize)
        ensures
            self.stores(closed, errored, desired_size),
    {
        self.closed.store(closed, Ordering::SeqCst);
        self.errored.store(errored, Ordering::SeqCst);
        self.desired_size.store(desired_size, Ordering::SeqCst);
    }

    /// The same flags, for someone else to read.
    pub fn share(&self) -> (shared: Self)
        ensures
            shared == *self,
    {
        ReadableFlags {
            closed: self.closed.clone(),
            errored: self.errored.clone(),
            desired_size: self.desired_size.clone(),
        }
    }

    pub fn closed(&self) -> (closed: bool)
        ensures
            self.shows_closed(closed),
    {
        self.closed.load(Ordering::SeqCst)
    }

    pub fn errored(&self) -> (errored: bool)
        ensures
            self.shows_errored(errored),
    {
        self.errored.load(Ordering::SeqCst)
    }

    pub fn desired_size(&self) -> (desired_size: isize)
        ensures
            self.shows_size(desired_size),
    {
        self.desired_size.load(Ordering::SeqCst)
    }
}

/// The room that a controller reports: none once the stream has ended.
pub fn reported_size(closed: bool, errored: bool, desired_size: isize) -> (reported: Option<isize>)
    ensures
        reported == (if closed || errored {
            None
        } else {
            Some(desired_size)
        }),
{
    if closed || errored {
        None
    } else {
        Some(desired_size)
    }
}

/// What a controller that is given a chunk sends: the chunk, unless the stream is closed or errored
/// and refuses it.
pub open spec fn chunk_message<T>(closed: bool, errored: bool, chunk: T) -> StreamResult<
    ControllerMsg<T>,
> {
    if closed {
        Err(StreamError::notice(Notice::StreamIsClosed))
    } else if errored {
        Err(StreamError::notice(Notice::StreamIsErrored))
    } else {
        Ok(ControllerMsg::Enqueue { chunk })
    }
}

/// What a controller that is given a chunk sends, if the stream does not refuse it.
pub fn accept_chunk<T>(closed: bool, errored: bool, chunk: T) -> (message: StreamResult<
    ControllerMsg<T>,
>)
    ensures
        message == chunk_message(closed, errored, chunk),
{
    if closed {
        return Err(StreamError::notice(Notice::StreamIsClosed));
    }
    if errored {
        return Err(StreamError::notice(Notice::StreamIsErrored));
    }
    Ok(ControllerMsg::Enqueue { chunk })
}

/// The outcome of sending a message: one that was not taken is the failure that `failure` names.
pub fn sent_outcome(taken: bool, failure: Notice) -> (outcome: StreamResult<()>)
    ensures
        outcome == (if taken {
            StreamResult::<()>::Ok(())
        } else {
            Err(StreamError::notice(failure))
        }),
{
    if taken {
        Ok(())
    } else {
        Err(StreamError::notice(failure))
    }
}

/// The controller that a source of chunks is given: it sends messages to the stream's task.
#[verifier::reject_recursive_types(T)]
pub struct ReadableStreamDefaultController<T> {
    outbox: Outbox<ControllerMsg<T>>,
    flags: ReadableFlags,
}

impl<T> View for ReadableStreamDefaultController<T> {
    type V = Seq<Posted<ControllerMsg<T>>>;

    /// Everything that was posted through this controller, in order.
    closed spec fn view(&self) -> Seq<Posted<ControllerMsg<T>>> {
        self.outbox@
    }
}

impl<T> ReadableStreamDefaultController<T> {
    /// The end that messages go through.
    pub closed spec fn end(self) -> UnboundedSender<ControllerMsg<T>> {
        self.outbox.end()
    }

    /// The flags that are read.
    pub closed spec fn read_flags(self) -> ReadableFlags {
        self.flags
    }

    pub fn new(tx: UnboundedSender<ControllerMsg<T>>, flags: ReadableFlags) -> (controller: Self)
        ensures
            controller.end() == tx,
            controller.read_flags() == flags,
            controller@ == Seq::<Posted<ControllerMsg<T>>>::empty(),
    {
        ReadableStreamDefaultController { outbox: Outbox::new(tx), flags }
    }

    /// The same controller, as far as where it posts and what it reads goes.
    pub open spec fn continues(self, before: Self) -> bool {
        self.end() == before.end() && self.read_flags() == before.read_flags()
    }

    /// Whether the stream can be found closed and errored like this.
    pub open spec fn sees(self, closed: bool, errored: bool) -> bool {
        self.read_flags().shows_closed(closed) && self.read_flags().shows_errored(errored)
    }

    /// Whether this can be found to be the room that is left.
    pub open spec fn sees_size(self, desired_size: isize) -> bool {
        self.read_flags().shows_size(desired_size)
    }

    /// What telling the stream something comes to, and makes of the controller: one message more is
    /// posted and nothing else, and it fails, in the words of `failure`, only if the message is not
    /// taken.
    pub open spec fn tells(
        self,
        after: Self,
        message: ControllerMsg<T>,
        failure: Notice,
        outcome: StreamResult<()>,
    ) -> bool {
        &&& after@ == self@.push(Posted { message, taken: outcome is Ok })
        &&& outcome matches Err(error) ==> error == StreamError::notice(failure)
        &&& after.continues(self)
    }

    /// What giving the stream a chunk comes to, and makes of the controller: a stream that is found
    /// to have ended refuses it and nothing is posted, and otherwise the chunk is posted.
    pub open spec fn gives(self, after: Self, chunk: T, outcome: StreamResult<()>) -> bool {
        exists|closed: bool, errored: bool| #[trigger]
            self.sees(closed, errored) && match chunk_message(closed, errored, chunk) {
                Ok(message) => self.tells(after, message, Notice::FailedToEnqueue, outcome),
                Err(error) => outcome == StreamResult::<()>::Err(error) && after == self,
            }
    }

    /// Whether `reported` can be the room that the controller reports: none once the stream is
    /// found to have ended, and otherwise what is found to be left.
    pub open spec fn reports(self, reported: Option<isize>) -> bool {
        exists|closed: bool, errored: bool, desired_size: isize| #[trigger]
            self.sees(closed, errored) && #[trigger] self.sees_size(desired_size) && reported == (
            if closed || errored {
                None
            } else {
                Some(desired_size)
            })
    }

    /// The room that was last shown, as long as the stream was open.  Another task sets what is
    /// read here.
    pub fn desired_size(&self) -> (reported: Option<isize>)
        ensures
            self.reports(reported),
    {
        let closed: bool = self.flags.closed();
        let errored: bool = self.flags.errored();
        let desired_size: isize = self.flags.desired_size();
        assert(self.sees(closed, errored) && self.sees_size(desired_size));
        reported_size(closed, errored, desired_size)
    }

    /// Tell the stream that nothing more will come; that fails only if nobody listens.
    pub fn close(&mut self) -> (outcome: StreamResult<()>)
        ensures
            old(self).tells(*final(self), ControllerMsg::Close, Notice::FailedToClose, outcome),
    {
        let taken: bool = self.outbox.post(ControllerMsg::Close);
        sent_outcome(taken, Notice::FailedToClose)
    }

    /// Give the stream a chunk; a stream that has ended refuses it, and otherwise it fails only if
    /// nobody listens.
    pub fn enqueue(&mut self, chunk: T) -> (outcome: StreamResult<()>)
        ensures
            old(self).gives(*final(self), chunk, outcome),
    {
        let closed: bool = self.flags.closed();
        let errored: bool = self.flags.errored();
        assert(old(self).sees(closed, errored));
        match accept_chunk(closed, errored, chunk) {
            Ok(message) => {
                let taken: bool = self.outbox.post(message);
                sent_outcome(taken, Notice::FailedToEnqueue)
            },
            Err(error) => Err(error),
        }
    }

    /// Tell the stream that the source has failed; that fails only if nobody listens.
    pub fn error(&mut self, error: StreamError) -> (outcome: StreamResult<()>)
        ensures
            old(self).tells(
                *final(self),
                ControllerMsg::Error(error),
                Notice::FailedToError,
                outcome,
            ),
    {
        let taken: bool = self.outbox.post(ControllerMsg::Error(error));
        sent_outcome(taken, Notice::FailedToError)
    }
}

impl<T> Clone for ReadableStreamDefaultController<T> {
    /// Another controller of the same stream.
    fn clone(&self) -> (copy: Self)
        ensures
            cloned(self.end(), copy.end()),
            copy.read_flags() == self.read_flags(),
            copy@ == Seq::<Posted<ControllerMsg<T>>>::empty(),
    {
        ReadableStreamDefaultController { outbox: self.outbox.clone(), flags: self.flags.share() }
    }
}

/// A stream that is closed or errored refuses a chunk, and says which; any other is sent the chunk.
pub proof fn law_which_chunks_are_sent<T>(closed: bool, errored: bool, chunk: T)
    ensures
        ({
            let message = chunk_message(closed, errored, chunk);
            &&& message is Ok <==> !closed && !errored
            &&& message matches Ok(message) ==> message == ControllerMsg::Enqueue { chunk }
            &&& closed ==> message->Err_0.words() == "Stream is closed"@
            &&& errored && !closed ==> message->Err_0.words() == "Stream is errored"@
        }),
{
}

/// What a controller posts.  Giving a chunk posts the chunk, behind everything else, if the stream
/// can be found open, and fails only if it is not taken; and it posts nothing, and fails, if the
/// stream can be found to have ended.  It never does anything else.
pub proof fn law_what_giving_a_chunk_posts<T>(
    before: ReadableStreamDefaultController<T>,
    after: ReadableStreamDefaultController<T>,
    chunk: T,
    outcome: StreamResult<()>,
)
    requires
        before.gives(after, chunk, outcome),
    ensures
        ({
            ||| {
                &&& before.read_flags().shows_closed(false)
                &&& before.read_flags().shows_errored(false)
                &&& after@.len() == before@.len() + 1
                &&& after@.drop_last() == before@
                &&& after@.last().message == ControllerMsg::Enqueue { chunk }
                &&& after@.last().taken == outcome is Ok
                &&& outcome matches Err(error) ==> error.words() == "Failed to enqueue chunk"@
            }
            ||| {
                &&& before.read_flags().shows_closed(true) || before.read_flags().shows_errored(
                    true,
                )
                &&& after@ == before@
                &&& outcome is Err
            }
        }),
        after.end() == before.end(),
{
    if after@ != before@ {
        assert(after@.drop_last() =~= before@);
    } else {
        assert forall|closed: bool, errored: bool|
            #[trigger] before.sees(closed, errored) && !closed && !errored && before.tells(
                after,
                ControllerMsg::Enqueue { chunk },
                Notice::FailedToEnqueue,
                outcome,
            ) implies false by {
            assert(after@.len() == before@.len() + 1);
        }
    }
}

/// Telling the stream something posts that one message, behind everything else, and fails, in the
/// given words, if and only if it is not taken.
pub proof fn law_what_telling_posts<T>(
    before: ReadableStreamDefaultController<T>,
    after: ReadableStreamDefaultController<T>,
    message: ControllerMsg<T>,
    failure: Notice,
    outcome: StreamResult<()>,
)
    requires
        before.tells(after, message, failure, outcome),
    ensures
        after@.len() == before@.len() + 1,
        after@.drop_last() == before@,
        after@.last().message == message,
        after@.last().taken <==> outcome is Ok,
        outcome matches Err(error) ==> error.words() == failure.words(),
        after.end() == before.end(),
        after.read_flags() == before.read_flags(),
{
    assert(after@.drop_last() =~= before@);
}

/// A controller reports room only of a stream that it finds open, and then the room it finds.
pub proof fn law_what_a_controller_reports<T>(
    controller: ReadableStreamDefaultController<T>,
    reported: Option<isize>,
)
    requires
        controller.reports(reported),
    ensures
        reported matches Some(size) ==> {
            &&& controller.read_flags().shows_closed(false)
            &&& controller.read_flags().shows_errored(false)
            &&& controller.read_flags().shows_size(size)
        },
        reported is None ==> controller.read_flags().shows_closed(true)
            || controller.read_flags().shows_errored(true),
{
}

} // verus!
