//! The channels between a stream's task and its handles, from the `futures` crate.

use crate::error::{StreamError, StreamResult};
use futures::channel::mpsc::UnboundedSender;
use futures::channel::oneshot;
use futures::task::AtomicWaker;
use vstd::prelude::*;

verus! {

/// The sending end of an unbounded channel of `futures`.
#[verifier::external_type_specification]
#[verifier::external_body]
#[verifier::reject_recursive_types(T)]
pub struct ExUnboundedSender<T>(UnboundedSender<T>);

/// The sending end of a one-shot channel of `futures`.
#[verifier::external_type_specification]
#[verifier::external_body]
#[verifier::reject_recursive_types(T)]
pub struct ExOneshotSender<T>(oneshot::Sender<T>);

/// The receiving end of a one-shot channel of `futures`.
#[verifier::external_type_specification]
#[verifier::external_body]
#[verifier::reject_recursive_types(T)]
pub struct ExOneshotReceiver<T>(oneshot::Receiver<T>);

/// What waiting on a one-shot channel of `futures` fails with.
#[verifier::external_type_specification]
#[verifier::external_body]
pub struct ExCanceled(oneshot::Canceled);

/// A place for one waker, of `futures`.
#[verifier::external_type_specification]
#[verifier::external_body]
pub struct ExAtomicWaker(AtomicWaker);

/// `AtomicWaker::new` makes a place with no waker in it.
pub assume_specification[ AtomicWaker::new ]() -> (place: AtomicWaker)
;

/// `AtomicWaker::wake` wakes the waker that was last put there, if there is one.
pub assume_specification[ AtomicWaker::wake ](place: &AtomicWaker)
;

/// `UnboundedSender::unbounded_send`: the message is in the channel, or the receiving end is gone
/// and the message comes back as it was.  Whether the receiving end is gone is not for this end to
/// decide, so nothing says which of the two happens.  It panics when the channel holds as many
/// messages as it can count.
#[verifier::external_body]
fn post<M>(sender: &UnboundedSender<M>, message: M) -> (sent: Result<(), M>)
    ensures
        sent matches Err(back) ==> back == message,
{
    sender.unbounded_send(message).map_err(|error| error.into_inner())
}

/// `UnboundedSender::is_closed` tells whether the receiving end is gone at this moment; another
/// task decides that, so nothing is claimed of the answer.
#[verifier::external_body]
fn receiver_gone<M>(sender: &UnboundedSender<M>) -> (gone: bool) {
    sender.is_closed()
}

/// `UnboundedSender::clone` makes another sending end of the same channel; nothing more is claimed
/// of it.
pub assume_specification<T>[ <UnboundedSender<T> as Clone>::clone ](sender: &UnboundedSender<T>) -> (copy: UnboundedSender<T>)
;

/// A message that was posted, and whether the channel took it: it does unless the receiving end is
/// gone.
pub struct Posted<M> {
    pub message: M,
    pub taken: bool,
}

/// A sending end of a channel, with a record, for proofs only, of everything that was posted
/// through it.
#[verifier::reject_recursive_types(M)]
pub struct Outbox<M> {
    sender: UnboundedSender<M>,
    /// Boxed, so that an outbox can be moved whatever its messages are.
    record: Ghost<Box<Seq<Posted<M>>>>,
}

impl<M> View for Outbox<M> {
    type V = Seq<Posted<M>>;

    /// Everything that was posted, in order.
    closed spec fn view(&self) -> Seq<Posted<M>> {
        *self.record@
    }
}

impl<M> Outbox<M> {
    /// The end that messages go through.
    pub closed spec fn end(self) -> UnboundedSender<M> {
        self.sender
    }

    /// Whether posting a message can come to this.
    pub closed spec fn carries(self, message: M, taken: bool) -> bool {
        exists|sent: Result<(), M>| #[trigger]
            call_ensures(post::<M>, (&self.sender, message), sent) && taken == (sent is Ok)
    }

    /// Whether the receiving end can be found to be gone, or there, like this.
    pub closed spec fn finds(self, gone: bool) -> bool {
        call_ensures(receiver_gone::<M>, (&self.sender,), gone)
    }

    pub fn new(sender: UnboundedSender<M>) -> (outbox: Self)
        ensures
            outbox.end() == sender,
            outbox@ == Seq::<Posted<M>>::empty(),
    {
        Outbox { sender, record: Ghost(Box::new(Seq::empty())) }
    }

    /// Post a message; whether the channel took it.
    pub fn post(&mut self, message: M) -> (taken: bool)
        ensures
            old(self).carries(message, taken),
            final(self)@ == old(self)@.push(Posted { message, taken }),
            final(self).end() == old(self).end(),
    {
        let sent = post(&self.sender, message);
        let taken: bool = sent.is_ok();
        assert(call_ensures(post::<M>, (&old(self).sender, message), sent));
        self.record = Ghost(Box::new(self.record@.push(Posted { message, taken })));
        taken
    }

    /// Whether the receiving end is gone at this moment.
    pub fn receiver_gone(&self) -> (gone: bool)
        ensures
            self.finds(gone),
    {
        receiver_gone(&self.sender)
    }
}

impl<M> Clone for Outbox<M> {
    /// Another end of the same channel, through which nothing was posted yet.
    fn clone(&self) -> (copy: Self)
        ensures
            cloned(self.end(), copy.end()),
            copy@ == Seq::<Posted<M>>::empty(),
    {
        Outbox { sender: self.sender.clone(), record: Ghost(Box::new(Seq::empty())) }
    }
}

/// `oneshot::channel` makes the two ends of a new channel; nothing more is claimed of them.
pub assume_specification<T>[ oneshot::channel::<T> ]() -> (ends: (oneshot::Sender<T>, oneshot::Receiver<T>))
;

/// Whether `oneshot::channel` can have made these two ends together.
pub open spec fn made_together<T>(
    sender: oneshot::Sender<T>,
    receiver: oneshot::Receiver<T>,
) -> bool {
    call_ensures(oneshot::channel::<T>, (), (sender, receiver))
}

/// `oneshot::Sender::send`: the value is on its way, or the receiving end is gone and the value
/// comes back as it was.
pub assume_specification<T>[ oneshot::Sender::<T>::send ](sender: oneshot::Sender<T>, t: T) -> (sent: Result<(), T>)
    ensures
        sent matches Err(back) ==> back == t,
;

/// The value is sent through this end of a one-shot channel, whatever comes of it.
pub open spec fn is_answered<T>(sender: oneshot::Sender<T>, value: T) -> bool {
    exists|sent: Result<(), T>| #[trigger]
        call_ensures(oneshot::Sender::<T>::send, (sender, value), sent)
}

/// What asking for an answer comes to: one message more is posted and nothing else; if it is taken
/// the answer will be at `answer`, and otherwise asking fails with `failure`.
pub open spec fn asks<M, A>(
    before: Seq<Posted<M>>,
    after: Seq<Posted<M>>,
    message: M,
    answer: oneshot::Receiver<A>,
    failure: StreamError,
    asked: StreamResult<oneshot::Receiver<A>>,
) -> bool {
    &&& after == before.push(Posted { message, taken: asked is Ok })
    &&& asked == (if asked is Ok {
        StreamResult::<oneshot::Receiver<A>>::Ok(answer)
    } else {
        Err(failure)
    })
}

/// One message more is posted and nothing else, whatever comes of it.
pub open spec fn posts<M>(
    before: Seq<Posted<M>>,
    after: Seq<Posted<M>>,
    message: M,
) -> bool {
    after == before.push(Posted { message, taken: after.last().taken })
}

/// Asking posts one message, behind everything else.  It succeeds if and only if the message is
/// taken, and then the answer is where it will be; otherwise it fails as was said.
pub proof fn law_asking_posts_one_message<M, A>(
    before: Seq<Posted<M>>,
    after: Seq<Posted<M>>,
    message: M,
    answer: oneshot::Receiver<A>,
    failure: StreamError,
    asked: StreamResult<oneshot::Receiver<A>>,
)
    ensures
        asks(before, after, message, answer, failure, asked) ==> {
            &&& after.len() == before.len() + 1
            &&& after.drop_last() == before
            &&& after.last().message == message
            &&& after.last().taken <==> asked is Ok
            &&& asked matches Ok(receiver) ==> receiver == answer
            &&& asked matches Err(error) ==> error == failure
        },
        posts(before, after, message) ==> {
            &&& after.len() == before.len() + 1
            &&& after.drop_last() == before
            &&& after.last().message == message
        },
{
    if asks(before, after, message, answer, failure, asked) || posts(before, after, message) {
        assert(after.drop_last() =~= before);
    }
}

/// What is found of the receiving end is what looking for it gave, and what is carried is what
/// posting it came to.
proof fn law_a_look_is_a_look<M>(outbox: Outbox<M>, gone: bool, message: M, taken: bool)
    ensures
        outbox.finds(gone) ==> call_ensures(receiver_gone::<M>, (&outbox.end(),), gone),
        outbox.carries(message, taken) ==> exists|sent: Result<(), M>| #[trigger]
            call_ensures(post::<M>, (&outbox.end(), message), sent) && taken == (sent is Ok),
{
}

} // verus!
