//! A readable stream as a mathematical value, and what each event makes of it.

use super::effect::{
    cancel_replies, read_replies, wakes, ControllerMsg, ReadableEffect, StreamState,
};
use crate::error::{Notice, StreamError, StreamResult};
use crate::start::StartPhase;
use crate::strategy::{room, room_fits, total_size, QueuingStrategy};
use vstd::prelude::*;

verus! {

/// A readable stream: its state and queue, who waits for what, the flags that its handles see, and
/// what it has asked to be done.
#[verifier::ext_equal]
pub struct ReadableModel<T, Source, S: QueuingStrategy<T>, R, K, W> {
    pub state: StreamState,
    pub queue: Seq<T>,
    pub queue_total_size: usize,
    pub strategy: S,
    /// The source, unless it is being started, pulled from or cancelled, or has failed.
    pub source: Option<Source>,
    pub start: StartPhase,
    pub cancel_requested: bool,
    pub cancel_reason: Option<String>,
    pub cancel_completions: Seq<K>,
    pub pending_reads: Seq<R>,
    pub ready_wakers: Seq<W>,
    pub closed_wakers: Seq<W>,
    pub stored_error: Option<StreamError>,
    pub pulling: bool,
    /// The flags and the size that handles and controllers see.
    pub closed: bool,
    pub errored: bool,
    pub desired_size: isize,
    pub effects: Seq<ReadableEffect<T, Source, R, K, W>>,
}

impl<T, Source, S: QueuingStrategy<T>, R, K, W> ReadableModel<T, Source, S, R, K, W> {
    /// The queue's size is the sum of its chunks' sizes; a stream is open as long as it is shown to
    /// be neither closed nor errored; and reads wait only while the stream is open and nothing is
    /// queued.
    pub open spec fn wf(self) -> bool {
        &&& self.queue_total_size == total_size(self.strategy, self.queue)
        &&& self.is_open() <==> !self.closed && !self.errored
        &&& self.pending_reads.len() > 0 ==> self.is_open() && self.queue.len() == 0
    }

    /// Whether the room that a queue of this size leaves can be shown.
    pub open spec fn shows_room(self, queue_total_size: usize) -> bool {
        self.closed || self.errored || room_fits(
            self.strategy.spec_high_water_mark(),
            queue_total_size,
        )
    }

    /// A new stream over a source.
    pub open spec fn initial(source: Source, strategy: S) -> Self {
        ReadableModel {
            state: StreamState::Readable,
            queue: Seq::empty(),
            queue_total_size: 0,
            strategy,
            source: Some(source),
            start: StartPhase::NotBegun,
            cancel_requested: false,
            cancel_reason: None,
            cancel_completions: Seq::empty(),
            pending_reads: Seq::empty(),
            ready_wakers: Seq::empty(),
            closed_wakers: Seq::empty(),
            stored_error: None,
            pulling: false,
            closed: false,
            errored: false,
            desired_size: room(strategy.spec_high_water_mark(), 0, false, false) as isize,
            effects: Seq::empty(),
        }
    }

    /// Neither closed nor errored.
    pub open spec fn is_open(self) -> bool {
        self.state == StreamState::Readable
    }

    /// The error that a reader is given.
    pub open spec fn error_to_report(self) -> StreamError {
        match self.stored_error {
            Some(error) => error,
            None => StreamError::notice(Notice::StreamIsErrored),
        }
    }

    pub open spec fn emit(self, effect: ReadableEffect<T, Source, R, K, W>) -> Self {
        ReadableModel { effects: self.effects.push(effect), ..self }
    }

    /// Wake everyone who waits for the stream to end.
    pub open spec fn wake_closed(self) -> Self {
        ReadableModel {
            closed_wakers: Seq::empty(),
            effects: self.effects + wakes(self.closed_wakers),
            ..self
        }
    }

    /// Wake everyone who waits for something to read.
    pub open spec fn wake_ready(self) -> Self {
        ReadableModel {
            ready_wakers: Seq::empty(),
            effects: self.effects + wakes(self.ready_wakers),
            ..self
        }
    }

    /// Answer every waiting read alike, in the order in which they came.
    pub open spec fn answer_reads(self, outcome: StreamResult<Option<T>>) -> Self {
        ReadableModel {
            pending_reads: Seq::empty(),
            effects: self.effects + read_replies(self.pending_reads, outcome),
            ..self
        }
    }

    /// Show handles the room that is left.
    pub open spec fn publish_room(self) -> Self {
        ReadableModel {
            desired_size: room(
                self.strategy.spec_high_water_mark(),
                self.queue_total_size,
                self.closed,
                self.errored,
            ) as isize,
            ..self
        }
    }

    /// Whether a chunk can be taken in: it goes to a waiting read, or its size fits on top of the
    /// queue's.
    pub open spec fn can_enqueue(self, chunk: T) -> bool {
        self.pending_reads.len() > 0 || {
            let grown = self.queue_total_size + self.strategy.spec_size(&chunk);
            grown <= usize::MAX && self.shows_room(grown as usize)
        }
    }

    /// Whether a read can be taken in: the room that it leaves, if it takes a chunk off the queue,
    /// can be shown.
    pub open spec fn can_read(self) -> bool {
        self.state != StreamState::Errored && self.queue.len() > 0 ==> self.shows_room(
            (self.queue_total_size - self.strategy.spec_size(&self.queue[0])) as usize,
        )
    }

    /// A chunk arrives: the first waiting read gets it; with none waiting it joins the queue.
    pub open spec fn enqueue(self, chunk: T) -> Self {
        if self.pending_reads.len() > 0 {
            ReadableModel {
                pending_reads: self.pending_reads.subrange(1, self.pending_reads.len() as int),
                ..self
            }.emit(ReadableEffect::ReplyRead(self.pending_reads[0], Ok(Some(chunk))))
        } else {
            ReadableModel {
                queue: self.queue.push(chunk),
                queue_total_size: (self.queue_total_size + self.strategy.spec_size(
                    &chunk,
                )) as usize,
                ..self
            }.publish_room().wake_ready()
        }
    }

    /// The source is at its end: waiting reads are told so, and what is queued can still be read.
    pub open spec fn close(self) -> Self {
        if self.state == StreamState::Readable {
            ReadableModel {
                state: StreamState::Closed,
                closed: true,
                desired_size: 0,
                ..self
            }.answer_reads(Ok(None)).wake_closed().wake_ready()
        } else {
            self
        }
    }

    /// The stream fails, unless it is closed: what is queued is lost, and waiting reads fail.
    pub open spec fn error(self, error: StreamError) -> Self {
        if self.state != StreamState::Closed {
            ReadableModel {
                state: StreamState::Errored,
                errored: true,
                stored_error: Some(error),
                desired_size: 0,
                queue: Seq::empty(),
                queue_total_size: 0,
                ..self
            }.answer_reads(Err(error)).wake_closed().wake_ready()
        } else {
            self
        }
    }

    /// Whether a message of the controller can be taken in.
    pub open spec fn can_take(self, msg: ControllerMsg<T>) -> bool {
        msg matches ControllerMsg::Enqueue { chunk } ==> self.can_enqueue(chunk)
    }

    /// What a message of the controller makes of the stream.
    pub open spec fn controller_msg(self, msg: ControllerMsg<T>) -> Self {
        match msg {
            ControllerMsg::Enqueue { chunk } => self.enqueue(chunk),
            ControllerMsg::Close => self.close(),
            ControllerMsg::Error(error) => self.error(error),
        }
    }

    /// A read: from an errored stream the error, then what is queued, then the end of a closed
    /// stream; otherwise it waits.
    pub open spec fn read(self, completion: R) -> Self {
        if self.state == StreamState::Errored {
            self.emit(ReadableEffect::ReplyRead(completion, Err(self.error_to_report())))
        } else if self.queue.len() > 0 {
            ReadableModel {
                queue: self.queue.subrange(1, self.queue.len() as int),
                queue_total_size: (self.queue_total_size - self.strategy.spec_size(
                    &self.queue[0],
                )) as usize,
                ..self
            }.publish_room().emit(ReadableEffect::ReplyRead(completion, Ok(Some(self.queue[0]))))
        } else if self.state == StreamState::Closed {
            self.emit(ReadableEffect::ReplyRead(completion, Ok(None)))
        } else {
            ReadableModel { pending_reads: self.pending_reads.push(completion), ..self }
        }
    }

    /// A reader gives up.  A stream that has ended has nothing to cancel.  An open one closes at
    /// once, loses what is queued, fails waiting reads, and tells its source, if the source is at
    /// hand.
    pub open spec fn cancel(self, reason: Option<String>, completion: K) -> Self {
        if !self.is_open() {
            self.emit(ReadableEffect::ReplyCancel(completion, Ok(())))
        } else if self.cancel_requested {
            ReadableModel { cancel_completions: self.cancel_completions.push(completion), ..self }
        } else {
            let closed = ReadableModel {
                cancel_requested: true,
                cancel_reason: reason,
                cancel_completions: self.cancel_completions.push(completion),
                state: StreamState::Closed,
                closed: true,
                queue: Seq::empty(),
                queue_total_size: 0,
                ..self
            }.answer_reads(Err(StreamError::Canceled)).wake_closed().wake_ready();
            match self.source {
                Some(source) => ReadableModel { source: None, ..closed }.emit(
                    ReadableEffect::StartCancel(source, reason),
                ),
                None => closed,
            }
        }
    }

    /// The source has been told; everyone who cancelled learns what it answered.
    pub open spec fn cancel_finished(self, outcome: StreamResult<()>) -> Self {
        ReadableModel {
            cancel_requested: false,
            cancel_completions: Seq::empty(),
            effects: self.effects + cancel_replies(self.cancel_completions, outcome),
            ..self
        }.emit(ReadableEffect::Repoll)
    }

    /// A waker waits for something to read; the set it is in becomes `ready_wakers`.
    pub open spec fn ready_waker_registered(self, ready_wakers: Seq<W>) -> Self {
        let registered = ReadableModel { ready_wakers, ..self };
        if self.queue.len() > 0 || !self.is_open() {
            registered.wake_ready()
        } else {
            registered
        }
    }

    /// A waker waits for the end; the set it is in becomes `closed_wakers`.
    pub open spec fn closed_waker_registered(self, closed_wakers: Seq<W>) -> Self {
        let registered = ReadableModel { closed_wakers, ..self };
        if !self.is_open() {
            registered.wake_closed()
        } else {
            registered
        }
    }

    /// The source that is to be started: there is one until it is taken out for that.
    pub open spec fn to_be_started(self) -> Option<Source> {
        if self.start == StartPhase::NotBegun {
            self.source
        } else {
            None
        }
    }

    /// The source is taken out to be started.
    pub open spec fn start_begun(self) -> Self {
        if self.start == StartPhase::NotBegun {
            ReadableModel { source: None, start: StartPhase::Running, ..self }
        } else {
            self
        }
    }

    /// The source has started, or could not: then the stream fails, and the source is gone.
    pub open spec fn start_finished(self, source: Source, outcome: StreamResult<()>) -> Self {
        let over = ReadableModel { start: StartPhase::after(outcome), ..self };
        match outcome {
            Ok(()) => ReadableModel { source: Some(source), ..over },
            Err(error) => ReadableModel {
                state: StreamState::Errored,
                errored: true,
                stored_error: Some(error),
                desired_size: 0,
                ..over
            }.wake_closed().wake_ready(),
        }
    }

    /// Whether the source is to be asked for more; before it has started it is not.
    pub open spec fn wants_pull(self) -> bool {
        &&& self.start == StartPhase::Succeeded
        &&& self.is_open()
        &&& !self.pulling
        &&& !self.cancel_requested
        &&& self.queue.len() == 0 || self.pending_reads.len() > 0
    }

    /// Ask the source for more, where that is wanted and the source is at hand.
    pub open spec fn maybe_pull(self) -> Self {
        if self.wants_pull() && self.source is Some {
            ReadableModel { source: None, pulling: true, ..self }.emit(
                ReadableEffect::StartPull(self.source->0),
            )
        } else {
            self
        }
    }

    /// The source has answered; if it failed, so does the stream, and the source is gone.
    pub open spec fn pull_finished(self, source: Source, outcome: StreamResult<()>) -> Self {
        let answered = ReadableModel { pulling: false, ..self };
        match outcome {
            Ok(()) => ReadableModel { source: Some(source), ..answered },
            Err(error) => ReadableModel {
                state: StreamState::Errored,
                errored: true,
                stored_error: Some(error),
                ..answered
            }.answer_reads(Err(error)).wake_closed().wake_ready(),
        }.emit(ReadableEffect::Repoll)
    }

    /// What was asked for has been taken over by whoever carries it out.
    pub open spec fn effects_taken(self) -> Self {
        ReadableModel { effects: Seq::empty(), ..self }
    }
}

} // verus!
