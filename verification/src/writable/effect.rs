//! The states of a writable stream, and what its machine asks to be done.

use crate::error::StreamResult;
use vstd::prelude::*;

verus! {

/// Where a writable stream is in its life.
#[derive(Clone, Copy, Debug, PartialEq, Eq, Structural)]
pub enum StreamState {
    Writable,
    Closed,
    Errored,
}

/// A write that waits for its turn: the chunk, and the way to answer whoever wrote it.
pub struct PendingWrite<T, C> {
    pub chunk: T,
    pub completion: C,
}

/// A command of a writer or of the stream's own handle.
pub enum StreamCommand<T, C, W> {
    Write { chunk: T, completion: C },
    Close { completion: C },
    Abort { reason: Option<String>, completion: C },
    Flush { completion: C },
    RegisterReadyWaker { waker: W },
    RegisterClosedWaker { waker: W },
}

/// Something that the machine of a writable stream asks to be done.  `Sink` is the underlying
/// sink, `C` answers an operation, and `W` wakes a task.
pub enum WritableEffect<T, Sink, C, W> {
    /// Answer a write, a flush, a close or an abort.
    Complete(C, StreamResult<()>),
    /// Wake a task.
    Wake(W),
    /// Tell a running write that the stream is being aborted.
    RequestAbort,
    /// Give the sink a chunk; the sink comes back with the outcome.
    StartWrite(Sink, T),
    /// Close the sink.
    StartClose(Sink),
    /// Abort the sink.
    StartAbort(Sink, Option<String>),
    /// Run the machine once more.
    Repoll,
}

/// The operation that the sink is busy with, and who waits for it.
pub enum InFlight<C> {
    /// A write; nobody waits any more once an abort has answered the writer.
    Write { completion: Option<C> },
    Close { completions: Vec<C> },
    Abort { completions: Vec<C> },
}

/// The operation that the sink is busy with, as a mathematical value.
#[verifier::ext_equal]
pub enum InFlightModel<C> {
    Write { completion: Option<C> },
    Close { completions: Seq<C> },
    Abort { completions: Seq<C> },
}

impl<C> View for InFlight<C> {
    type V = InFlightModel<C>;

    open spec fn view(&self) -> InFlightModel<C> {
        match *self {
            InFlight::Write { completion } => InFlightModel::Write { completion },
            InFlight::Close { completions } => InFlightModel::Close { completions: completions@ },
            InFlight::Abort { completions } => InFlightModel::Abort { completions: completions@ },
        }
    }
}

/// What handles of a writable stream can see of it without asking it.
#[derive(Clone, Copy, Debug, PartialEq, Eq, Structural)]
pub struct Published {
    pub backpressure: bool,
    pub closed: bool,
    pub errored: bool,
    pub queue_total_size: usize,
}

/// One wake for each waker, in order.
pub open spec fn wakes<T, Sink, C, W>(wakers: Seq<W>) -> Seq<WritableEffect<T, Sink, C, W>> {
    wakers.map_values(|waker: W| WritableEffect::Wake(waker))
}

/// The same answer for each of the waiting operations, in order.
pub open spec fn completions<T, Sink, C, W>(
    waiting: Seq<C>,
    outcome: StreamResult<()>,
) -> Seq<WritableEffect<T, Sink, C, W>> {
    waiting.map_values(|completion: C| WritableEffect::Complete(completion, outcome))
}

/// The chunks of a queue of writes.
pub open spec fn chunks<T, C>(queue: Seq<PendingWrite<T, C>>) -> Seq<T> {
    queue.map_values(|write: PendingWrite<T, C>| write.chunk)
}

/// The ways to answer the writes of a queue.
pub open spec fn writers<T, C>(queue: Seq<PendingWrite<T, C>>) -> Seq<C> {
    queue.map_values(|write: PendingWrite<T, C>| write.completion)
}

} // verus!
