//! The controller that a sink is given.

use crate::channel::{posts, Outbox, Posted};
use crate::error::{StreamError, StreamResult};
use futures::channel::mpsc::UnboundedSender;
use futures::task::AtomicWaker;
use std::sync::atomic::{AtomicBool, Ordering};
use std::sync::Arc;
use vstd::prelude::*;

verus! {

/// What a sink tells its stream through the controller.
pub enum ControllerMsg {
    Error(StreamError),
}

/// The controller that a sink is given: it can fail the stream, and learns of an abort.
pub struct WritableStreamDefaultController {
    outbox: Outbox<ControllerMsg>,
    abort_requested: Arc<AtomicBool>,
    pub abort_waker: Arc<AtomicWaker>,
}

impl View for WritableStreamDefaultController {
    type V = Seq<Posted<ControllerMsg>>;

    /// Everything that was posted through this controller, in order.
    closed spec fn view(&self) -> Seq<Posted<ControllerMsg>> {
        self.outbox@
    }
}

impl WritableStreamDefaultController {
    /// A controller that posts through `sender`, made with no abort requested and nobody waiting
    /// for one.
    pub closed spec fn made_with(self, sender: UnboundedSender<ControllerMsg>) -> bool {
        &&& self.outbox.end() == sender
        &&& self@ == Seq::<Posted<ControllerMsg>>::empty()
        &&& call_ensures(AtomicBool::new, (false,), *self.abort_requested)
        &&& call_ensures(AtomicWaker::new, (), *self.abort_waker)
    }

    /// The same controller, as far as where it posts and what it shares goes.
    pub closed spec fn continues(self, before: Self) -> bool {
        &&& self.outbox.end() == before.outbox.end()
        &&& self.abort_requested == before.abort_requested
        &&& self.abort_waker == before.abort_waker
    }

    /// What telling the stream something makes of the controller: one message more is posted and
    /// nothing else, whatever comes of it.
    pub open spec fn tells(self, after: Self, message: ControllerMsg) -> bool {
        posts(self@, after@, message) && after.continues(self)
    }

    /// Whether `aborted` can come of looking whether an abort was requested.
    pub closed spec fn shows_aborted(self, aborted: bool) -> bool {
        call_ensures(AtomicBool::load, (&*self.abort_requested, Ordering::SeqCst), aborted)
    }

    /// The abort is noted in the flag, and whoever waits for it is woken.
    pub closed spec fn notes_abort(self) -> bool {
        &&& call_ensures(AtomicBool::store, (&*self.abort_requested, true, Ordering::SeqCst), ())
        &&& call_ensures(AtomicWaker::wake, (&*self.abort_waker,), ())
    }

    /// Whether `copy` posts through a copy of this controller's end, and shares its flag and its
    /// place for a waker.
    pub closed spec fn copied_as(self, copy: Self) -> bool {
        &&& cloned(self.outbox.end(), copy.outbox.end())
        &&& copy@ == Seq::<Posted<ControllerMsg>>::empty()
        &&& copy.abort_requested == self.abort_requested
        &&& copy.abort_waker == self.abort_waker
    }

    pub fn new(sender: UnboundedSender<ControllerMsg>) -> (controller: Self)
        ensures
            controller.made_with(sender),
    {
        WritableStreamDefaultController {
            outbox: Outbox::new(sender),
            abort_requested: Arc::new(AtomicBool::new(false)),
            abort_waker: Arc::new(AtomicWaker::new()),
        }
    }

    /// Tell the stream that the sink has failed; nobody is told if nobody listens.
    pub fn error(&mut self, error: StreamError)
        ensures
            old(self).tells(*final(self), ControllerMsg::Error(error)),
    {
        let ghost message = ControllerMsg::Error(error);
        let taken: bool = self.outbox.post(ControllerMsg::Error(error));
        assert(self@ == old(self)@.push(Posted { message, taken }));
    }

    /// Whether the stream is being aborted.
    pub fn is_aborted(&self) -> (aborted: bool)
        ensures
            self.shows_aborted(aborted),
    {
        self.abort_requested.load(Ordering::SeqCst)
    }

    /// Note that the stream is being aborted, and wake whoever waits for that.
    pub fn request_abort(&self)
        ensures
            self.notes_abort(),
    {
        self.abort_requested.store(true, Ordering::SeqCst);
        self.abort_waker.wake();
        assert(call_ensures(AtomicWaker::wake, (&*self.abort_waker,), ()));
    }
}

impl Clone for WritableStreamDefaultController {
    fn clone(&self) -> (copy: Self)
        ensures
            self.copied_as(copy),
    {
        WritableStreamDefaultController {
            outbox: self.outbox.clone(),
            abort_requested: self.abort_requested.clone(),
            abort_waker: self.abort_waker.clone(),
        }
    }
}

/// The outcome of work that an abort can overtake: its value, or the abort if that came first.
pub fn with_abort<A>(value: Option<A>) -> (outcome: StreamResult<A>)
    ensures
        outcome == (match value {
            Some(value) => StreamResult::<A>::Ok(value),
            None => Err(StreamError::Aborted(None)),
        }),
{
    match value {
        Some(value) => Ok(value),
        None => Err(StreamError::Aborted(None)),
    }
}

} // verus!
