//! The states of a readable stream, and what its machine asks to be done.

use crate::error::{StreamError, StreamResult};
use vstd::prelude::*;

verus! {

/// Where a readable stream is in its life.
#[derive(Clone, Copy, Debug, PartialEq, Eq, Structural)]
pub enum StreamState {
    Readable,
    Closed,
    Errored,
}

/// What a source tells its stream through the controller.
pub enum ControllerMsg<T> {
    Enqueue { chunk: T },
    Close,
    Error(StreamError),
}

/// What a handle or a reader asks of its stream.
pub enum StreamCommand<R, K, W> {
    Read { completion: R },
    Cancel { reason: Option<String>, cancel_completion: K },
    RegisterReadyWaker { waker: W },
    RegisterClosedWaker { waker: W },
}

/// Something that the machine of a readable stream asks to be done.  `Source` is the underlying
/// source, `R` answers a read, `K` answers a cancellation, and `W` wakes a task.
pub enum ReadableEffect<T, Source, R, K, W> {
    /// Answer a read.
    ReplyRead(R, StreamResult<Option<T>>),
    /// Answer a cancellation.
    ReplyCancel(K, StreamResult<()>),
    /// Wake a task.
    Wake(W),
    /// Ask the source for more; it is given back with the outcome.
    StartPull(Source),
    /// Tell the source that nobody reads any more.
    StartCancel(Source, Option<String>),
    /// Run the machine once more.
    Repoll,
}

/// One wake for each waker, in order.
pub open spec fn wakes<T, Source, R, K, W>(wakers: Seq<W>) -> Seq<ReadableEffect<T, Source, R, K, W>> {
    wakers.map_values(|waker: W| ReadableEffect::Wake(waker))
}

/// The same answer for each of the reads, in order.
pub open spec fn read_replies<T, Source, R, K, W>(
    reads: Seq<R>,
    outcome: StreamResult<Option<T>>,
) -> Seq<ReadableEffect<T, Source, R, K, W>> {
    reads.map_values(|read: R| ReadableEffect::ReplyRead(read, outcome))
}

/// The same answer for each of the cancellations, in order.
pub open spec fn cancel_replies<T, Source, R, K, W>(
    cancels: Seq<K>,
    outcome: StreamResult<()>,
) -> Seq<ReadableEffect<T, Source, R, K, W>> {
    cancels.map_values(|cancel: K| ReadableEffect::ReplyCancel(cancel, outcome))
}

} // verus!
