//! Sources made of an iterator or of an asynchronous stream.

use super::controller::{
    law_what_giving_a_chunk_posts, law_what_telling_posts, ReadableStreamDefaultController,
};
use super::effect::ControllerMsg;
use crate::error::{Notice, StreamResult};
use vstd::prelude::*;
use vstd::std_specs::iter::IteratorSpec;

verus! {

/// What a source that produced `item` tells the stream: the item, or that there is none left.
pub fn produced<T>(item: Option<T>) -> (msg: ControllerMsg<T>)
    ensures
        msg == (match item {
            Some(chunk) => ControllerMsg::Enqueue { chunk },
            None => ControllerMsg::Close,
        }),
{
    match item {
        Some(chunk) => ControllerMsg::Enqueue { chunk },
        None => ControllerMsg::Close,
    }
}

/// What handing a message to the stream through its controller comes to, and makes of the
/// controller.
pub open spec fn told<T>(
    before: ReadableStreamDefaultController<T>,
    after: ReadableStreamDefaultController<T>,
    msg: ControllerMsg<T>,
    outcome: StreamResult<()>,
) -> bool {
    match msg {
        ControllerMsg::Enqueue { chunk } => before.gives(after, chunk, outcome),
        ControllerMsg::Close => before.tells(after, msg, Notice::FailedToClose, outcome),
        ControllerMsg::Error(_) => before.tells(after, msg, Notice::FailedToError, outcome),
    }
}

/// Hand a message to the stream through its controller.
pub fn tell<T>(
    controller: &mut ReadableStreamDefaultController<T>,
    msg: ControllerMsg<T>,
) -> (outcome: StreamResult<()>)
    ensures
        told(*old(controller), *final(controller), msg, outcome),
{
    match msg {
        ControllerMsg::Enqueue { chunk } => controller.enqueue(chunk),
        ControllerMsg::Close => controller.close(),
        ControllerMsg::Error(error) => controller.error(error),
    }
}

/// A source that gives the items of an iterator, one per pull.
pub struct IteratorSource<I> {
    pub iter: I,
}

impl<I: Iterator> IteratorSource<I> {
    /// Take the next item out of the iterator: what the stream is to be told.
    pub fn next_message(&mut self) -> (msg: ControllerMsg<I::Item>)
        ensures
            IteratorSpec::obeys_prophetic_iter_laws(&final(self).iter)
                == IteratorSpec::obeys_prophetic_iter_laws(&old(self).iter),
            IteratorSpec::obeys_prophetic_iter_laws(&old(self).iter) ==> if IteratorSpec::remaining(
                &old(self).iter,
            ).len() > 0 {
                &&& msg == ControllerMsg::<I::Item>::Enqueue {
                    chunk: IteratorSpec::remaining(&old(self).iter)[0],
                }
                &&& IteratorSpec::remaining(&final(self).iter) == IteratorSpec::remaining(
                    &old(self).iter,
                ).drop_first()
            } else {
                msg is Close
            },
    {
        produced(self.iter.next())
    }

    /// Give the stream the next item, or tell it that there is none left.
    pub fn pull(&mut self, controller: &mut ReadableStreamDefaultController<I::Item>) -> (outcome:
        StreamResult<()>)
        ensures
            IteratorSpec::obeys_prophetic_iter_laws(&final(self).iter)
                == IteratorSpec::obeys_prophetic_iter_laws(&old(self).iter),
            IteratorSpec::obeys_prophetic_iter_laws(&old(self).iter) ==> if IteratorSpec::remaining(
                &old(self).iter,
            ).len() > 0 {
                &&& IteratorSpec::remaining(&final(self).iter) == IteratorSpec::remaining(
                    &old(self).iter,
                ).drop_first()
                &&& told(
                    *old(controller),
                    *final(controller),
                    ControllerMsg::Enqueue { chunk: IteratorSpec::remaining(&old(self).iter)[0] },
                    outcome,
                )
            } else {
                told(*old(controller), *final(controller), ControllerMsg::Close, outcome)
            },
    {
        let msg = self.next_message();
        tell(controller, msg)
    }
}

/// A source that gives the items of an asynchronous stream, one per pull.
pub struct AsyncStreamSource<S> {
    pub stream: S,
}

/// A message that is handed to the stream is posted as it is; only a chunk can be refused, and then
/// nothing is posted.
pub proof fn law_a_message_is_handed_on<T>(
    before: ReadableStreamDefaultController<T>,
    after: ReadableStreamDefaultController<T>,
    msg: ControllerMsg<T>,
    outcome: StreamResult<()>,
)
    requires
        told(before, after, msg, outcome),
    ensures
        after@ == before@ || (after@.len() == before@.len() + 1 && after@.drop_last() == before@
            && after@.last().message == msg && after@.last().taken == outcome is Ok),
        after@ == before@ ==> msg is Enqueue && outcome is Err,
        outcome is Ok ==> after@.len() == before@.len() + 1,
        msg is Close && outcome is Err ==> outcome->Err_0.words() == "Failed to close stream"@,
        msg is Error && outcome is Err ==> outcome->Err_0.words() == "Failed to error stream"@,
{
    match msg {
        ControllerMsg::Enqueue { chunk } => {
            law_what_giving_a_chunk_posts(before, after, chunk, outcome);
        },
        ControllerMsg::Close => {
            law_what_telling_posts(before, after, msg, Notice::FailedToClose, outcome);
        },
        ControllerMsg::Error(_) => {
            law_what_telling_posts(before, after, msg, Notice::FailedToError, outcome);
        },
    }
}

} // verus!
