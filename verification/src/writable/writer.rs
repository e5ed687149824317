//! Asking the task of a writable stream, and answering those who asked.

use super::effect::{StreamCommand, WritableEffect};
use super::handle::WritableStream;
use crate::channel::{asks, is_answered, made_together, posts, Outbox, Posted};
use crate::error::{StreamError, StreamResult};
use futures::channel::mpsc::UnboundedSender;
use futures::channel::oneshot;
use vstd::prelude::*;

verus! {

/// The way to answer a write, a flush, a close or an abort.
pub type Completion = oneshot::Sender<StreamResult<()>>;

/// A writer: asks the task of its stream to write, to flush, to close and to abort.
#[verifier::reject_recursive_types(T)]
#[verifier::reject_recursive_types(W)]
pub struct WritableStreamDefaultWriter<T, W> {
    outbox: Outbox<StreamCommand<T, Completion, W>>,
}

impl<T, W> View for WritableStreamDefaultWriter<T, W> {
    type V = Seq<Posted<StreamCommand<T, Completion, W>>>;

    /// Everything that was posted through this writer, in order.
    closed spec fn view(&self) -> Seq<Posted<StreamCommand<T, Completion, W>>> {
        self.outbox@
    }
}

impl<T, W> WritableStreamDefaultWriter<T, W> {
    /// The end that commands go through.
    pub closed spec fn end(self) -> UnboundedSender<StreamCommand<T, Completion, W>> {
        self.outbox.end()
    }

    pub fn new(command_tx: UnboundedSender<StreamCommand<T, Completion, W>>) -> (writer: Self)
        ensures
            writer.end() == command_tx,
            writer@ == Seq::<Posted<StreamCommand<T, Completion, W>>>::empty(),
    {
        WritableStreamDefaultWriter { outbox: Outbox::new(command_tx) }
    }

    /// Ask for a chunk to be written: where the answer will be, unless the task is gone.
    pub fn write(&mut self, chunk: T) -> (asked: StreamResult<oneshot::Receiver<StreamResult<()>>>)
        ensures
            exists|
                completion: oneshot::Sender<StreamResult<()>>,
                answer: oneshot::Receiver<StreamResult<()>>,
            | #[trigger]
                made_together(completion, answer) && asks(
                    old(self)@,
                    final(self)@,
                    StreamCommand::Write { chunk, completion },
                    answer,
                    StreamError::TaskDropped,
                    asked,
                ),
            final(self).end() == old(self).end(),
    {
        let (completion, answer) = oneshot::channel::<StreamResult<()>>();
        assert(made_together(completion, answer));
        if self.outbox.post(StreamCommand::Write { chunk, completion }) {
            Ok(answer)
        } else {
            Err(StreamError::TaskDropped)
        }
    }

    /// Ask for a chunk to be written without waiting for the answer.  A stream that is seen to be
    /// errored or closed refuses it; otherwise it fails only if the task is gone.
    pub fn enqueue(&mut self, stream: &WritableStream, chunk: T) -> (outcome: StreamResult<()>)
        ensures
            stream.admits() is Err ==> outcome == stream.admits() && final(self)@ == old(self)@,
            stream.admits() is Ok ==> {
                &&& outcome matches Err(error) ==> error == StreamError::TaskDropped
                &&& exists|completion: Completion, answer: oneshot::Receiver<StreamResult<()>>|
                    #[trigger]
                    made_together(completion, answer) && final(self)@ == old(self)@.push(
                        Posted {
                            message: StreamCommand::Write { chunk, completion },
                            taken: outcome is Ok,
                        },
                    )
            },
            final(self).end() == old(self).end(),
    {
        match stream.check_open() {
            Ok(_) => match self.write(chunk) {
                Ok(_) => Ok(()),
                Err(error) => Err(error),
            },
            Err(error) => Err(error),
        }
    }

    /// Ask for the stream to be flushed: where the answer will be, unless the task is gone.
    pub fn flush(&mut self) -> (asked: StreamResult<oneshot::Receiver<StreamResult<()>>>)
        ensures
            exists|
                completion: oneshot::Sender<StreamResult<()>>,
                answer: oneshot::Receiver<StreamResult<()>>,
            | #[trigger]
                made_together(completion, answer) && asks(
                    old(self)@,
                    final(self)@,
                    StreamCommand::Flush { completion },
                    answer,
                    StreamError::TaskDropped,
                    asked,
                ),
            final(self).end() == old(self).end(),
    {
        let (completion, answer) = oneshot::channel::<StreamResult<()>>();
        assert(made_together(completion, answer));
        if self.outbox.post(StreamCommand::Flush { completion }) {
            Ok(answer)
        } else {
            Err(StreamError::TaskDropped)
        }
    }

    /// Ask for the stream to be closed: where the answer will be, unless the task is gone.
    pub fn close(&mut self) -> (asked: StreamResult<oneshot::Receiver<StreamResult<()>>>)
        ensures
            exists|
                completion: oneshot::Sender<StreamResult<()>>,
                answer: oneshot::Receiver<StreamResult<()>>,
            | #[trigger]
                made_together(completion, answer) && asks(
                    old(self)@,
                    final(self)@,
                    StreamCommand::Close { completion },
                    answer,
                    StreamError::TaskDropped,
                    asked,
                ),
            final(self).end() == old(self).end(),
    {
        let (completion, answer) = oneshot::channel::<StreamResult<()>>();
        assert(made_together(completion, answer));
        if self.outbox.post(StreamCommand::Close { completion }) {
            Ok(answer)
        } else {
            Err(StreamError::TaskDropped)
        }
    }

    /// Ask for the stream to be aborted: where the answer will be, unless the task is gone.
    pub fn abort(&mut self, reason: Option<String>) -> (asked: StreamResult<oneshot::Receiver<StreamResult<()>>>)
        ensures
            exists|
                completion: oneshot::Sender<StreamResult<()>>,
                answer: oneshot::Receiver<StreamResult<()>>,
            | #[trigger]
                made_together(completion, answer) && asks(
                    old(self)@,
                    final(self)@,
                    StreamCommand::Abort { reason, completion },
                    answer,
                    StreamError::TaskDropped,
                    asked,
                ),
            final(self).end() == old(self).end(),
    {
        let (completion, answer) = oneshot::channel::<StreamResult<()>>();
        assert(made_together(completion, answer));
        if self.outbox.post(StreamCommand::Abort { reason, completion }) {
            Ok(answer)
        } else {
            Err(StreamError::TaskDropped)
        }
    }

    /// Ask to be woken when there is room.
    pub fn register_ready_waker(&mut self, waker: W)
        ensures
            posts(old(self)@, final(self)@, StreamCommand::RegisterReadyWaker { waker }),
            final(self).end() == old(self).end(),
    {
        let ghost message = StreamCommand::RegisterReadyWaker { waker };
        let taken: bool = self.outbox.post(StreamCommand::RegisterReadyWaker { waker });
        assert(self@ == old(self)@.push(Posted { message, taken }));
    }

    /// Ask to be woken when the stream has ended.
    pub fn register_closed_waker(&mut self, waker: W)
        ensures
            posts(old(self)@, final(self)@, StreamCommand::RegisterClosedWaker { waker }),
            final(self).end() == old(self).end(),
    {
        let ghost message = StreamCommand::RegisterClosedWaker { waker };
        let taken: bool = self.outbox.post(StreamCommand::RegisterClosedWaker { waker });
        assert(self@ == old(self)@.push(Posted { message, taken }));
    }
}

impl<T, W> Clone for WritableStreamDefaultWriter<T, W> {
    /// Another writer of the same stream.
    fn clone(&self) -> (copy: Self)
        ensures
            cloned(self.end(), copy.end()),
            copy@ == Seq::<Posted<StreamCommand<T, Completion, W>>>::empty(),
    {
        WritableStreamDefaultWriter { outbox: self.outbox.clone() }
    }
}

/// What is left to do once everyone who is owed an answer has it.
pub open spec fn without_replies<T, Sink, C, W>(
    effects: Seq<WritableEffect<T, Sink, C, W>>,
) -> Seq<WritableEffect<T, Sink, C, W>>
    decreases effects.len(),
{
    if effects.len() == 0 {
        Seq::empty()
    } else {
        let before = without_replies(effects.drop_last());
        match effects.last() {
            WritableEffect::Complete(_, _) => before,
            other => before.push(other),
        }
    }
}

/// Whoever is owed this answer is given it, whatever comes of that.
pub open spec fn is_told<T, Sink, W>(effect: WritableEffect<T, Sink, Completion, W>) -> bool {
    effect matches WritableEffect::Complete(completion, outcome) ==> is_answered(
        completion,
        outcome,
    )
}

/// Answer everyone who is owed an answer, in order; the rest of what is to be done comes back.
pub fn answer_writers<T, Sink, W>(effects: Vec<WritableEffect<T, Sink, Completion, W>>) -> (rest: Vec<
    WritableEffect<T, Sink, Completion, W>,
>)
    ensures
        rest@ == without_replies(effects@),
        forall|i: int| 0 <= i < effects@.len() ==> is_told(#[trigger] effects@[i]),
{
    let ghost all = effects@;
    let mut rest: Vec<WritableEffect<T, Sink, Completion, W>> = Vec::new();
    for effect in iter: effects
        invariant
            iter.seq() == all,
            rest@ == without_replies(all.subrange(0, iter.index() as int)),
            forall|i: int| 0 <= i < iter.index() ==> is_told(#[trigger] all[i]),
    {
        proof {
            let done = iter.index() + 1;
            assert(all.subrange(0, done).drop_last() =~= all.subrange(0, done - 1));
            assert(all.subrange(0, done).last() == effect);
        }
        match effect {
            WritableEffect::Complete(completion, outcome) => {
                let sent = completion.send(outcome);
                assert(call_ensures(Completion::send, (completion, outcome), sent));
            },
            other => {
                rest.push(other);
            },
        }
    }
    assert(all.subrange(0, all.len() as int) =~= all);
    rest
}

/// Answering leaves everything else to be done, in its order, and no answer twice: an effect that
/// answers is taken out, and any other stays where it was; and whoever is told is given that answer.
pub proof fn law_answering_leaves_the_rest<T, Sink, W>(
    effects: Seq<WritableEffect<T, Sink, Completion, W>>,
    effect: WritableEffect<T, Sink, Completion, W>,
)
    ensures
        without_replies(Seq::<WritableEffect<T, Sink, Completion, W>>::empty()).len() == 0,
        effect is Complete ==> without_replies(effects.push(effect)) == without_replies(effects),
        !(effect is Complete) ==> without_replies(effects.push(effect)) == without_replies(
            effects,
        ).push(effect),
        effect matches WritableEffect::Complete(completion, outcome) ==> (is_told(effect)
            ==> is_answered(completion, outcome)),
{
    assert(effects.push(effect).drop_last() =~= effects);
}

} // verus!
