//! Asking the task of a readable stream, and answering those who asked.

use super::byte_task::ByteReply;
use super::effect::{ReadableEffect, StreamCommand};
use crate::channel::{asks, is_answered, made_together, posts, Outbox, Posted};
use crate::error::{StreamError, StreamResult};
use futures::channel::mpsc::UnboundedSender;
use futures::channel::oneshot;
use vstd::prelude::*;

verus! {

/// The way to answer a read.
pub type ReadCompletion<T> = oneshot::Sender<StreamResult<Option<T>>>;

/// The way to answer a cancellation.
pub type Completion = oneshot::Sender<StreamResult<()>>;

/// A reader: asks the task of its stream for chunks.
#[verifier::reject_recursive_types(T)]
#[verifier::reject_recursive_types(W)]
pub struct ReadableStreamDefaultReader<T, W> {
    outbox: Outbox<StreamCommand<ReadCompletion<T>, Completion, W>>,
}

impl<T, W> View for ReadableStreamDefaultReader<T, W> {
    type V = Seq<Posted<StreamCommand<ReadCompletion<T>, Completion, W>>>;

    /// Everything that was posted through this reader, in order.
    closed spec fn view(&self) -> Seq<Posted<StreamCommand<ReadCompletion<T>, Completion, W>>> {
        self.outbox@
    }
}

impl<T, W> ReadableStreamDefaultReader<T, W> {
    /// The end that commands go through.
    pub closed spec fn end(self) -> UnboundedSender<StreamCommand<ReadCompletion<T>, Completion, W>> {
        self.outbox.end()
    }

    pub fn new(command_tx: UnboundedSender<StreamCommand<ReadCompletion<T>, Completion, W>>) -> (reader:
        Self)
        ensures
            reader.end() == command_tx,
            reader@ == Seq::<Posted<StreamCommand<ReadCompletion<T>, Completion, W>>>::empty(),
    {
        ReadableStreamDefaultReader { outbox: Outbox::new(command_tx) }
    }

    /// Ask for a chunk: where the answer will be, unless the task is gone.
    pub fn read(&mut self) -> (asked: StreamResult<oneshot::Receiver<StreamResult<Option<T>>>>)
        ensures
            exists|completion: oneshot::Sender<StreamResult<Option<T>>>, answer: oneshot::Receiver<StreamResult<Option<T>>>|
                #[trigger]
                made_together(completion, answer) && asks(
                    old(self)@,
                    final(self)@,
                    StreamCommand::Read { completion },
                    answer,
                    StreamError::TaskDropped,
                    asked,
                ),
            final(self).end() == old(self).end(),
    {
        let (completion, answer) = oneshot::channel::<StreamResult<Option<T>>>();
        assert(made_together(completion, answer));
        if self.outbox.post(StreamCommand::Read { completion }) {
            Ok(answer)
        } else {
            Err(StreamError::TaskDropped)
        }
    }

    /// Give the stream up: where the answer will be, unless the task is gone.
    pub fn cancel(&mut self, reason: Option<String>) -> (asked: StreamResult<oneshot::Receiver<StreamResult<()>>>)
        ensures
            exists|cancel_completion: oneshot::Sender<StreamResult<()>>, answer: oneshot::Receiver<StreamResult<()>>|
                #[trigger]
                made_together(cancel_completion, answer) && asks(
                    old(self)@,
                    final(self)@,
                    StreamCommand::Cancel { reason, cancel_completion },
                    answer,
                    StreamError::TaskDropped,
                    asked,
                ),
            final(self).end() == old(self).end(),
    {
        let (cancel_completion, answer) = oneshot::channel::<StreamResult<()>>();
        assert(made_together(cancel_completion, answer));
        if self.outbox.post(StreamCommand::Cancel { reason, cancel_completion }) {
            Ok(answer)
        } else {
            Err(StreamError::TaskDropped)
        }
    }

    /// Ask to be woken when there is something to read or the stream has ended.
    pub fn register_ready_waker(&mut self, waker: W)
        ensures
            posts(old(self)@, final(self)@, StreamCommand::RegisterReadyWaker { waker }),
            final(self).end() == old(self).end(),
    {
        let ghost message = StreamCommand::RegisterReadyWaker { waker };
        let taken: bool = self.outbox.post(StreamCommand::RegisterReadyWaker { waker });
        assert(self@ == old(self)@.push(Posted { message, taken }));
    }

    /// Ask to be woken when the stream has ended.
    pub fn register_closed_waker(&mut self, waker: W)
        ensures
            posts(old(self)@, final(self)@, StreamCommand::RegisterClosedWaker { waker }),
            final(self).end() == old(self).end(),
    {
        let ghost message = StreamCommand::RegisterClosedWaker { waker };
        let taken: bool = self.outbox.post(StreamCommand::RegisterClosedWaker { waker });
        assert(self@ == old(self)@.push(Posted { message, taken }));
    }
}

impl<T, W> Clone for ReadableStreamDefaultReader<T, W> {
    /// Another reader of the same stream.
    fn clone(&self) -> (copy: Self)
        ensures
            cloned(self.end(), copy.end()),
            copy@ == Seq::<Posted<StreamCommand<ReadCompletion<T>, Completion, W>>>::empty(),
    {
        ReadableStreamDefaultReader { outbox: self.outbox.clone() }
    }
}

/// What is left to do once everyone who is owed an answer has it.
pub open spec fn without_replies<T, Source, R, K, W>(
    effects: Seq<ReadableEffect<T, Source, R, K, W>>,
) -> Seq<ReadableEffect<T, Source, R, K, W>>
    decreases effects.len(),
{
    if effects.len() == 0 {
        Seq::empty()
    } else {
        let before = without_replies(effects.drop_last());
        match effects.last() {
            ReadableEffect::ReplyRead(_, _) => before,
            ReadableEffect::ReplyCancel(_, _) => before,
            other => before.push(other),
        }
    }
}

/// Whoever is owed this answer is given it, whatever comes of that.
pub open spec fn is_told<T, Source, W>(
    effect: ReadableEffect<T, Source, ReadCompletion<T>, Completion, W>,
) -> bool {
    match effect {
        ReadableEffect::ReplyRead(completion, outcome) => is_answered(completion, outcome),
        ReadableEffect::ReplyCancel(completion, outcome) => is_answered(completion, outcome),
        _ => true,
    }
}

/// Answer everyone who is owed an answer, in order; the rest of what is to be done comes back.
pub fn answer_readers<T, Source, W>(
    effects: Vec<ReadableEffect<T, Source, ReadCompletion<T>, Completion, W>>,
) -> (rest: Vec<ReadableEffect<T, Source, ReadCompletion<T>, Completion, W>>)
    ensures
        rest@ == without_replies(effects@),
        forall|i: int| 0 <= i < effects@.len() ==> is_told(#[trigger] effects@[i]),
{
    let ghost all = effects@;
    let mut rest: Vec<ReadableEffect<T, Source, ReadCompletion<T>, Completion, W>> = Vec::new();
    for effect in iter: effects
        invariant
            iter.seq() == all,
            rest@ == without_replies(all.subrange(0, iter.index() as int)),
            forall|i: int| 0 <= i < iter.index() ==> is_told(#[trigger] all[i]),
    {
        proof {
            let done = iter.index() + 1;
            assert(all.subrange(0, done).drop_last() =~= all.subrange(0, done - 1));
            assert(all.subrange(0, done).last() == effect);
        }
        match effect {
            ReadableEffect::ReplyRead(completion, outcome) => {
                let sent = completion.send(outcome);
                assert(call_ensures(ReadCompletion::<T>::send, (completion, outcome), sent));
            },
            ReadableEffect::ReplyCancel(completion, outcome) => {
                let sent = completion.send(outcome);
                assert(call_ensures(Completion::send, (completion, outcome), sent));
            },
            other => {
                rest.push(other);
            },
        }
    }
    assert(all.subrange(0, all.len() as int) =~= all);
    rest
}

/// Whoever made this read of bytes is given its answer, whatever comes of that.
pub open spec fn is_told_bytes(reply: ByteReply<ReadCompletion<Vec<u8>>>) -> bool {
    match reply {
        ByteReply::Data(read, bytes) => is_answered(read, Ok(Some(bytes))),
        ByteReply::End(read) => is_answered(read, Ok(None)),
        ByteReply::Failed(read, error) => is_answered(read, Err(error)),
    }
}

/// Give every read of bytes its answer, in order.
pub fn answer_byte_readers(replies: Vec<ByteReply<ReadCompletion<Vec<u8>>>>)
    ensures
        forall|i: int| 0 <= i < replies@.len() ==> is_told_bytes(#[trigger] replies@[i]),
{
    let ghost all = replies@;
    for reply in iter: replies
        invariant
            iter.seq() == all,
            forall|i: int| 0 <= i < iter.index() ==> is_told_bytes(#[trigger] all[i]),
    {
        let (read, outcome) = match reply {
            ByteReply::Data(read, bytes) => (read, Ok(Some(bytes))),
            ByteReply::End(read) => (read, Ok(None)),
            ByteReply::Failed(read, error) => (read, Err(error)),
        };
        let sent = read.send(outcome);
        assert(call_ensures(ReadCompletion::<Vec<u8>>::send, (read, outcome), sent));
    }
}

/// Answering leaves everything else to be done, in its order, and no answer twice: an effect that
/// answers is taken out, and any other stays where it was; and whoever is told is given that answer,
/// which of a read of bytes is its bytes, the end, or its failure.
pub proof fn law_answering_leaves_the_rest<T, Source, W>(
    effects: Seq<ReadableEffect<T, Source, ReadCompletion<T>, Completion, W>>,
    effect: ReadableEffect<T, Source, ReadCompletion<T>, Completion, W>,
    reply: ByteReply<ReadCompletion<Vec<u8>>>,
)
    ensures
        without_replies(
            Seq::<ReadableEffect<T, Source, ReadCompletion<T>, Completion, W>>::empty(),
        ).len() == 0,
        effect is ReplyRead || effect is ReplyCancel ==> without_replies(effects.push(effect))
            == without_replies(effects),
        !(effect is ReplyRead) && !(effect is ReplyCancel) ==> without_replies(effects.push(effect))
            == without_replies(effects).push(effect),
        effect matches ReadableEffect::ReplyRead(completion, outcome) ==> (is_told(effect)
            ==> is_answered(completion, outcome)),
        effect matches ReadableEffect::ReplyCancel(completion, outcome) ==> (is_told(effect)
            ==> is_answered(completion, outcome)),
        reply matches ByteReply::Data(read, bytes) ==> (is_told_bytes(reply) ==> is_answered(
            read,
            StreamResult::<Option<Vec<u8>>>::Ok(Some(bytes)),
        )),
        reply matches ByteReply::End(read) ==> (is_told_bytes(reply) ==> is_answered(
            read,
            StreamResult::<Option<Vec<u8>>>::Ok(None),
        )),
        reply matches ByteReply::Failed(read, error) ==> (is_told_bytes(reply) ==> is_answered(
            read,
            StreamResult::<Option<Vec<u8>>>::Err(error),
        )),
{
    assert(effects.push(effect).drop_last() =~= effects);
}

} // verus!
