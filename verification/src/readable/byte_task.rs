//! The task behind a readable byte stream: who waits for bytes, and what each pull gives them.

use super::byte_state::{ByteModel, ByteStreamState, Polled};
use crate::error::{StreamError, StreamResult};
use std::collections::VecDeque;
use vstd::prelude::*;

verus! {

/// The number of bytes that a pull or a read asks for at most.
pub const CHUNK_SIZE: usize = 8192;

/// The answer to a read.
pub enum ByteReply<R> {
    /// Some bytes.
    Data(R, Vec<u8>),
    /// The end of the stream.
    End(R),
    Failed(R, StreamError),
}

/// The answer to a read, as a mathematical value.
#[verifier::ext_equal]
pub enum ByteReplyModel<R> {
    Data(R, Seq<u8>),
    End(R),
    Failed(R, StreamError),
}

impl<R> View for ByteReply<R> {
    type V = ByteReplyModel<R>;

    open spec fn view(&self) -> ByteReplyModel<R> {
        match *self {
            ByteReply::Data(read, bytes) => ByteReplyModel::Data(read, bytes@),
            ByteReply::End(read) => ByteReplyModel::End(read),
            ByteReply::Failed(read, error) => ByteReplyModel::Failed(read, error),
        }
    }
}

/// The reads that wait, and the answers given, both in order.
#[verifier::ext_equal]
pub struct ByteTaskModel<R> {
    pub pending_reads: Seq<R>,
    pub replies: Seq<ByteReplyModel<R>>,
}

impl<R> ByteTaskModel<R> {
    pub open spec fn reply(self, reply: ByteReplyModel<R>) -> Self {
        ByteTaskModel { replies: self.replies.push(reply), ..self }
    }

    /// Tell every waiting read that the stream is at its end.
    pub open spec fn end_reads(self) -> Self {
        ByteTaskModel {
            pending_reads: Seq::empty(),
            replies: self.replies + self.pending_reads.map_values(
                |read: R| ByteReplyModel::End(read),
            ),
        }
    }

    /// Fail every waiting read.
    pub open spec fn fail_reads(self, error: StreamError) -> Self {
        ByteTaskModel {
            pending_reads: Seq::empty(),
            replies: self.replies + self.pending_reads.map_values(
                |read: R| ByteReplyModel::Failed(read, error),
            ),
        }
    }

    /// The first waiting read, answered.
    pub open spec fn first_answered(self, reply: ByteReplyModel<R>) -> Self {
        ByteTaskModel {
            pending_reads: self.pending_reads.subrange(1, self.pending_reads.len() as int),
            replies: self.replies.push(reply),
        }
    }
}

/// Waiting reads are served after a pull until one of them has got bytes, or until there is
/// nothing to serve them with.
pub open spec fn serve<Source, W, R>(
    task: ByteTaskModel<R>,
    state: ByteModel<Source, W>,
) -> (ByteTaskModel<R>, ByteModel<Source, W>)
    decreases task.pending_reads.len(),
{
    if task.pending_reads.len() == 0 {
        (task, state)
    } else {
        let read = task.pending_reads[0];
        let next = state.read_into(CHUNK_SIZE as nat, state.waiting_readers());
        match state.read_outcome(CHUNK_SIZE as nat) {
            Polled::Ready(Ok(n)) => if n == 0 {
                serve(task.first_answered(ByteReplyModel::End(read)), next)
            } else {
                (
                    task.first_answered(
                        ByteReplyModel::Data(read, state.read_bytes(CHUNK_SIZE as nat)),
                    ),
                    next,
                )
            },
            Polled::Ready(Err(error)) => serve(
                task.first_answered(ByteReplyModel::Failed(read, error)),
                next,
            ),
            Polled::Pending => (task, next),
        }
    }
}

/// What the answer to a pull makes of the task and of the stream, before the pull is marked as
/// over.  The source has left its bytes in `data`, or has enqueued some itself, or has nothing
/// more to give, or has failed.
pub open spec fn pulled<Source, W, R>(
    task: ByteTaskModel<R>,
    state: ByteModel<Source, W>,
    size_before: usize,
    outcome: StreamResult<usize>,
    data: Seq<u8>,
) -> (ByteTaskModel<R>, ByteModel<Source, W>) {
    match outcome {
        Ok(n) => {
            let filled = state.enqueue_data(data.subrange(0, n as int));
            if n > 0 || filled.queue_total_size > size_before {
                serve(task, filled)
            } else {
                (task.end_reads(), filled.close())
            }
        },
        Err(error) => (task.fail_reads(error), state.fail(error)),
    }
}

/// What the end of a pull makes of the stream: the source goes back while the stream is open.
pub open spec fn pull_over<Source, W>(state: ByteModel<Source, W>, source: Source) -> ByteModel<
    Source,
    W,
> {
    let completed = state.mark_pull_completed();
    if completed.closed || completed.errored {
        completed
    } else {
        ByteModel { source: Some(source), ..completed }
    }
}

/// What a read makes of the task and of the stream.
pub open spec fn read_command<Source, W, R>(
    task: ByteTaskModel<R>,
    state: ByteModel<Source, W>,
    read: R,
) -> (ByteTaskModel<R>, ByteModel<Source, W>) {
    let next = state.read_into(CHUNK_SIZE as nat, state.waiting_readers());
    if state.errored {
        (task.reply(ByteReplyModel::Failed(read, state.error_to_report())), state)
    } else if state.closed && state.buffer.len() == 0 {
        (task.reply(ByteReplyModel::End(read)), state)
    } else {
        match state.read_outcome(CHUNK_SIZE as nat) {
            Polled::Ready(_) => (
                task.reply(ByteReplyModel::Data(read, state.read_bytes(CHUNK_SIZE as nat))),
                next,
            ),
            Polled::Pending => if state.closed {
                (task.reply(ByteReplyModel::End(read)), next)
            } else {
                (
                    ByteTaskModel { pending_reads: task.pending_reads.push(read), ..task },
                    next.maybe_trigger_pull(),
                )
            },
        }
    }
}

/// The task behind a readable byte stream.
pub struct ByteStreamTask<R> {
    pending_reads: VecDeque<R>,
    replies: Vec<ByteReply<R>>,
}

impl<R> View for ByteStreamTask<R> {
    type V = ByteTaskModel<R>;

    closed spec fn view(&self) -> ByteTaskModel<R> {
        ByteTaskModel {
            pending_reads: self.pending_reads@,
            replies: self.replies@.map_values(|reply: ByteReply<R>| reply@),
        }
    }
}

impl<R> ByteStreamTask<R> {
    pub fn new() -> (task: Self)
        ensures
            task@ == (ByteTaskModel::<R> { pending_reads: Seq::empty(), replies: Seq::empty() }),
    {
        let task = ByteStreamTask { pending_reads: VecDeque::new(), replies: Vec::new() };
        assert(task@ =~= ByteTaskModel::<R> {
            pending_reads: Seq::empty(),
            replies: Seq::empty(),
        });
        task
    }

    /// Hand out the answers, in order.
    pub fn take_replies(&mut self) -> (replies: Vec<ByteReply<R>>)
        ensures
            replies@.map_values(|reply: ByteReply<R>| reply@) == old(self)@.replies,
            final(self)@ == (ByteTaskModel { replies: Seq::empty(), ..old(self)@ }),
    {
        let mut replies: Vec<ByteReply<R>> = Vec::new();
        core::mem::swap(&mut replies, &mut self.replies);
        assert(self@.replies =~= Seq::empty());
        replies
    }

    pub fn has_pending_reads(&self) -> (pending: bool)
        ensures
            pending == (self@.pending_reads.len() > 0),
    {
        self.pending_reads.len() > 0
    }

    fn reply(&mut self, reply: ByteReply<R>)
        ensures
            final(self)@ == old(self)@.reply(reply@),
    {
        self.replies.push(reply);
        assert(self@.replies =~= old(self)@.replies.push(reply@));
    }

    fn end_reads(&mut self)
        ensures
            final(self)@ == old(self)@.end_reads(),
    {
        let ghost all = self@.pending_reads;
        let ghost before = self@.replies;
        let ghost end = |read: R| ByteReplyModel::<R>::End(read);
        while self.pending_reads.len() > 0
            invariant
                end == (|read: R| ByteReplyModel::<R>::End(read)),
                self.pending_reads@.len() <= all.len(),
                self.pending_reads@ == all.subrange(
                    all.len() - self.pending_reads@.len(),
                    all.len() as int,
                ),
                self@.replies == before + all.subrange(
                    0,
                    all.len() - self.pending_reads@.len(),
                ).map_values(end),
            decreases self.pending_reads@.len(),
        {
            let read = self.pending_reads.pop_front().unwrap();
            self.reply(ByteReply::End(read));
            proof {
                let done = all.len() - self.pending_reads@.len();
                assert(all.subrange(0, done) =~= all.subrange(0, done - 1).push(read));
                assert(self@.replies =~= before + all.subrange(0, done).map_values(end));
            }
        }
        assert(all.subrange(0, all.len() as int) =~= all);
        assert(self@ =~= old(self)@.end_reads());
    }

    fn fail_reads(&mut self, error: &StreamError)
        ensures
            final(self)@ == old(self)@.fail_reads(*error),
    {
        let ghost all = self@.pending_reads;
        let ghost before = self@.replies;
        let ghost fail = |read: R| ByteReplyModel::<R>::Failed(read, *error);
        while self.pending_reads.len() > 0
            invariant
                fail == (|read: R| ByteReplyModel::<R>::Failed(read, *error)),
                self.pending_reads@.len() <= all.len(),
                self.pending_reads@ == all.subrange(
                    all.len() - self.pending_reads@.len(),
                    all.len() as int,
                ),
                self@.replies == before + all.subrange(
                    0,
                    all.len() - self.pending_reads@.len(),
                ).map_values(fail),
            decreases self.pending_reads@.len(),
        {
            let read = self.pending_reads.pop_front().unwrap();
            self.reply(ByteReply::Failed(read, error.clone()));
            proof {
                let done = all.len() - self.pending_reads@.len();
                assert(all.subrange(0, done) =~= all.subrange(0, done - 1).push(read));
                assert(self@.replies =~= before + all.subrange(0, done).map_values(fail));
            }
        }
        assert(all.subrange(0, all.len() as int) =~= all);
        assert(self@ =~= old(self)@.fail_reads(*error));
    }

    /// A pull is wanted: take the source out for it, if it has started, the stream is open and the
    /// source at hand.  The size of the buffer at that moment comes with it.
    pub fn pull_begun<Source, W>(&mut self, state: &mut ByteStreamState<Source, W>) -> (begun: Option<
        (Source, usize),
    >)
        requires
            old(state)@.wf(),
        ensures
            final(self)@ == old(self)@,
            final(state)@.wf(),
            if !old(state)@.start_completed || old(state)@.closed || old(state)@.errored
                || old(state)@.source is None {
                begun is None && final(state)@ == old(state)@
            } else {
                begun == Some((old(state)@.source->0, old(state)@.queue_total_size))
                    && final(state)@ == (ByteModel {
                    source: None,
                    ..old(state)@
                }).mark_pull_started()
            },
    {
        if !state.has_started() || state.is_closed() || state.is_errored() {
            return None;
        }
        match state.take_source() {
            Some(source) => {
                state.mark_pull_started();
                Some((source, state.buffer_size()))
            },
            None => {
                assert(state@ =~= old(state)@);
                None
            },
        }
    }

    fn serve_reads<Source, W>(&mut self, state: &mut ByteStreamState<Source, W>)
        requires
            old(state)@.wf(),
        ensures
            (final(self)@, final(state)@) == serve(old(self)@, old(state)@),
            final(state)@.wf(),
    {
        loop
            invariant
                state@.wf(),
                serve(self@, state@) == serve(old(self)@, old(state)@),
            decreases self.pending_reads@.len(),
        {
            match self.pending_reads.pop_front() {
                None => {
                    return ;
                },
                Some(read) => {
                    let ghost task = ByteTaskModel {
                        pending_reads: seq![read] + self@.pending_reads,
                        replies: self@.replies,
                    };
                    assert(task.pending_reads.subrange(1, task.pending_reads.len() as int)
                        =~= self@.pending_reads);
                    match state.try_read(CHUNK_SIZE) {
                        Polled::Ready(Ok(bytes)) => {
                            if bytes.len() == 0 {
                                self.reply(ByteReply::End(read));
                                assert(self@ =~= task.first_answered(ByteReplyModel::End(read)));
                            } else {
                                self.reply(ByteReply::Data(read, bytes));
                                assert(self@ =~= task.first_answered(
                                    ByteReplyModel::Data(read, bytes@),
                                ));
                                return ;
                            }
                        },
                        Polled::Ready(Err(error)) => {
                            self.reply(ByteReply::Failed(read, error));
                            assert(self@ =~= task.first_answered(
                                ByteReplyModel::Failed(read, error),
                            ));
                        },
                        Polled::Pending => {
                            self.pending_reads.push_front(read);
                            assert(self@ =~= task);
                            return ;
                        },
                    }
                },
            }
        }
    }

    /// The source has answered a pull: it left `outcome` bytes at the front of `data`, or failed.
    pub fn pull_finished<Source, W>(
        &mut self,
        state: &mut ByteStreamState<Source, W>,
        source: Source,
        size_before: usize,
        outcome: StreamResult<usize>,
        data: &[u8],
    )
        requires
            old(state)@.wf(),
            outcome matches Ok(n) ==> n <= data@.len() && old(state)@.can_enqueue(
                data@.subrange(0, n as int),
            ),
        ensures
            ({
                let (task, state1) = pulled(
                    old(self)@,
                    old(state)@,
                    size_before,
                    outcome,
                    data@,
                );
                final(self)@ == task && final(state)@ == pull_over(state1, source)
            }),
            final(state)@.wf(),
    {
        match outcome {
            Ok(bytes_read) => {
                let mut any_data_produced: bool = false;
                if bytes_read > 0 {
                    let mut produced: Vec<u8> = Vec::new();
                    let mut i: usize = 0;
                    while i < bytes_read
                        invariant
                            i <= bytes_read <= data@.len(),
                            produced@ == data@.subrange(0, i as int),
                        decreases bytes_read - i,
                    {
                        produced.push(data[i]);
                        i += 1;
                        assert(produced@ =~= data@.subrange(0, i as int));
                    }
                    state.enqueue_data(produced.as_slice());
                    any_data_produced = true;
                }
                if state.buffer_size() > size_before {
                    any_data_produced = true;
                }
                if any_data_produced {
                    self.serve_reads(state);
                }
                if bytes_read == 0 && !any_data_produced {
                    state.close();
                    self.end_reads();
                }
            },
            Err(error) => {
                state.error(error.clone());
                self.fail_reads(&error);
            },
        }
        state.mark_pull_completed();
        if !state.is_closed() && !state.is_errored() {
            state.put_source(source);
        }
    }

    /// A reader asks for bytes.
    pub fn read<Source, W>(&mut self, state: &mut ByteStreamState<Source, W>, read: R)
        requires
            old(state)@.wf(),
        ensures
            (final(self)@, final(state)@) == read_command(old(self)@, old(state)@, read),
            final(state)@.wf(),
    {
        if state.is_errored() {
            self.reply(ByteReply::Failed(read, state.get_error()));
            return ;
        }
        if state.is_closed() && state.is_buffer_empty() {
            self.reply(ByteReply::End(read));
            return ;
        }
        match state.try_read(CHUNK_SIZE) {
            Polled::Ready(Ok(bytes)) => {
                if bytes.len() == 0 {
                    self.reply(ByteReply::End(read));
                } else {
                    self.reply(ByteReply::Data(read, bytes));
                }
            },
            Polled::Ready(Err(error)) => {
                self.reply(ByteReply::Failed(read, error));
            },
            Polled::Pending => {
                if state.is_closed() {
                    self.reply(ByteReply::End(read));
                } else {
                    self.pending_reads.push_back(read);
                    if !state.is_errored() {
                        state.maybe_trigger_pull();
                    }
                    assert(self@ =~= ByteTaskModel {
                        pending_reads: old(self)@.pending_reads.push(read),
                        ..old(self)@
                    });
                }
            },
        }
    }

    /// Nobody can ask for anything any more.  Whether the task is over: it is when no read waits,
    /// or when the stream has closed, which answers those that do.
    pub fn commands_ended<Source, W>(&mut self, state: &ByteStreamState<Source, W>) -> (over: bool)
        ensures
            over == (old(self)@.pending_reads.len() == 0 || state@.closed),
            final(self)@ == (if over {
                old(self)@.end_reads()
            } else {
                old(self)@
            }),
    {
        if self.pending_reads.len() == 0 || state.is_closed() {
            self.end_reads();
            true
        } else {
            false
        }
    }
}

} // verus!
