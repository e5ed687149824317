//! The machine behind a readable stream of chunks.

use super::effect::{
    cancel_replies, read_replies, wakes, ControllerMsg, ReadableEffect, StreamCommand, StreamState,
};
use super::model::ReadableModel;
use crate::error::{clone_outcome, clone_reason, Notice, StreamError, StreamResult};
use crate::start::StartPhase;
use crate::strategy::{
    lemma_total_size_front, lemma_total_size_nonnegative, lemma_total_size_push, room,
    room_can_be_shown, update_desired_size, QueuingStrategy,
};
use crate::wakers::{registered, WakerSet};
use std::collections::VecDeque;
use vstd::prelude::*;

verus! {

/// A readable stream of chunks: takes events from its controller, its readers and its source, and
/// lists what is to be done about them.
pub struct ReadableStreamInner<T, Source, S: QueuingStrategy<T>, R, K, W> {
    state: StreamState,
    queue: VecDeque<T>,
    queue_total_size: usize,
    strategy: S,
    source: Option<Source>,
    start: StartPhase,
    cancel_requested: bool,
    cancel_reason: Option<String>,
    cancel_completions: Vec<K>,
    pending_reads: VecDeque<R>,
    ready_wakers: WakerSet<W>,
    closed_wakers: WakerSet<W>,
    stored_error: Option<StreamError>,
    pulling: bool,
    closed: bool,
    errored: bool,
    desired_size: isize,
    effects: Vec<ReadableEffect<T, Source, R, K, W>>,
}

impl<T, Source, S: QueuingStrategy<T>, R, K, W> View for ReadableStreamInner<
    T,
    Source,
    S,
    R,
    K,
    W,
> {
    type V = ReadableModel<T, Source, S, R, K, W>;

    closed spec fn view(&self) -> ReadableModel<T, Source, S, R, K, W> {
        ReadableModel {
            state: self.state,
            queue: self.queue@,
            queue_total_size: self.queue_total_size,
            strategy: self.strategy,
            source: self.source,
            start: self.start,
            cancel_requested: self.cancel_requested,
            cancel_reason: self.cancel_reason,
            cancel_completions: self.cancel_completions@,
            pending_reads: self.pending_reads@,
            ready_wakers: self.ready_wakers@,
            closed_wakers: self.closed_wakers@,
            stored_error: self.stored_error,
            pulling: self.pulling,
            closed: self.closed,
            errored: self.errored,
            desired_size: self.desired_size,
            effects: self.effects@,
        }
    }
}

impl<T, Source, S: QueuingStrategy<T>, R, K, W> ReadableStreamInner<T, Source, S, R, K, W> {
    pub fn new(source: Source, strategy: S) -> (inner: Self)
        ensures
            inner@ == ReadableModel::<T, Source, S, R, K, W>::initial(source, strategy),
            inner@.wf(),
    {
        let desired_size: isize = update_desired_size(0, strategy.high_water_mark(), false, false);
        ReadableStreamInner {
            state: StreamState::Readable,
            queue: VecDeque::new(),
            queue_total_size: 0,
            strategy,
            source: Some(source),
            start: StartPhase::NotBegun,
            cancel_requested: false,
            cancel_reason: None,
            cancel_completions: Vec::new(),
            pending_reads: VecDeque::new(),
            ready_wakers: WakerSet::new(),
            closed_wakers: WakerSet::new(),
            stored_error: None,
            pulling: false,
            closed: false,
            errored: false,
            desired_size,
            effects: Vec::new(),
        }
    }

    pub fn state(&self) -> (state: StreamState)
        ensures
            state == self@.state,
    {
        self.state
    }

    pub fn is_closed(&self) -> (closed: bool)
        ensures
            closed == self@.closed,
    {
        self.closed
    }

    pub fn is_errored(&self) -> (errored: bool)
        ensures
            errored == self@.errored,
    {
        self.errored
    }

    /// The room that handles and controllers were last shown.
    pub fn published_desired_size(&self) -> (desired_size: isize)
        ensures
            desired_size == self@.desired_size,
    {
        self.desired_size
    }

    pub fn queue_total_size(&self) -> (size: usize)
        ensures
            size == self@.queue_total_size,
    {
        self.queue_total_size
    }

    /// The error that the stream failed with, if one was stored.
    pub fn stored_error(&self) -> (error: Option<StreamError>)
        ensures
            error == self@.stored_error,
    {
        match &self.stored_error {
            Some(error) => Some(error.clone()),
            None => None,
        }
    }

    pub fn get_stored_error(&self) -> (error: StreamError)
        ensures
            error == self@.error_to_report(),
    {
        match &self.stored_error {
            Some(error) => error.clone(),
            None => StreamError::notice(Notice::StreamIsErrored),
        }
    }

    /// The room left under the high water mark; zero once the stream has ended.
    pub fn desired_size(&self) -> (desired_size: isize)
        requires
            self@.wf(),
            self@.shows_room(self@.queue_total_size),
        ensures
            desired_size == room(
                self@.strategy.spec_high_water_mark(),
                self@.queue_total_size,
                !self@.is_open(),
                false,
            ),
    {
        update_desired_size(
            self.queue_total_size,
            self.strategy.high_water_mark(),
            self.state != StreamState::Readable,
            false,
        )
    }

    /// Hand out what is to be done, in order.
    pub fn take_effects(&mut self) -> (effects: Vec<ReadableEffect<T, Source, R, K, W>>)
        ensures
            effects@ == old(self)@.effects,
            final(self)@ == old(self)@.effects_taken(),
    {
        let mut effects: Vec<ReadableEffect<T, Source, R, K, W>> = Vec::new();
        core::mem::swap(&mut effects, &mut self.effects);
        effects
    }

    fn wake_closed(&mut self)
        ensures
            final(self)@ == old(self)@.wake_closed(),
    {
        let woken = self.closed_wakers.wake_all();
        push_wakes(woken, &mut self.effects);
    }

    fn wake_ready(&mut self)
        ensures
            final(self)@ == old(self)@.wake_ready(),
    {
        let woken = self.ready_wakers.wake_all();
        push_wakes(woken, &mut self.effects);
    }

    fn publish_room(&mut self)
        requires
            old(self)@.shows_room(old(self)@.queue_total_size),
        ensures
            final(self)@ == old(self)@.publish_room(),
    {
        self.desired_size =
        update_desired_size(
            self.queue_total_size,
            self.strategy.high_water_mark(),
            self.closed,
            self.errored,
        );
    }

    /// End every waiting read without a chunk.
    fn end_reads(&mut self)
        ensures
            final(self)@ == old(self)@.answer_reads(Ok(None)),
    {
        let ghost before = self@;
        while self.pending_reads.len() > 0
            invariant
                self.pending_reads@.len() <= before.pending_reads.len(),
                self.pending_reads@ == before.pending_reads.subrange(
                    before.pending_reads.len() - self.pending_reads@.len(),
                    before.pending_reads.len() as int,
                ),
                self@.effects == before.effects + read_replies(
                    before.pending_reads.subrange(
                        0,
                        before.pending_reads.len() - self.pending_reads@.len(),
                    ),
                    Ok(None),
                ),
                self@ == (ReadableModel {
                    pending_reads: self@.pending_reads,
                    effects: self@.effects,
                    ..before
                }),
            decreases self.pending_reads@.len(),
        {
            let read = self.pending_reads.pop_front().unwrap();
            self.effects.push(ReadableEffect::ReplyRead(read, Ok(None)));
            proof {
                let done = before.pending_reads.len() - self.pending_reads@.len();
                assert(before.pending_reads.subrange(0, done) =~= before.pending_reads.subrange(
                    0,
                    done - 1,
                ).push(read));
                assert(self@.effects =~= before.effects + read_replies(
                    before.pending_reads.subrange(0, done),
                    Ok(None),
                ));
            }
        }
        assert(before.pending_reads.subrange(0, before.pending_reads.len() as int)
            =~= before.pending_reads);
    }

    /// Fail every waiting read.
    fn fail_reads(&mut self, error: &StreamError)
        ensures
            final(self)@ == old(self)@.answer_reads(Err(*error)),
    {
        let ghost before = self@;
        while self.pending_reads.len() > 0
            invariant
                self.pending_reads@.len() <= before.pending_reads.len(),
                self.pending_reads@ == before.pending_reads.subrange(
                    before.pending_reads.len() - self.pending_reads@.len(),
                    before.pending_reads.len() as int,
                ),
                self@.effects == before.effects + read_replies(
                    before.pending_reads.subrange(
                        0,
                        before.pending_reads.len() - self.pending_reads@.len(),
                    ),
                    Err(*error),
                ),
                self@ == (ReadableModel {
                    pending_reads: self@.pending_reads,
                    effects: self@.effects,
                    ..before
                }),
            decreases self.pending_reads@.len(),
        {
            let read = self.pending_reads.pop_front().unwrap();
            self.effects.push(ReadableEffect::ReplyRead(read, Err(error.clone())));
            proof {
                let done = before.pending_reads.len() - self.pending_reads@.len();
                assert(before.pending_reads.subrange(0, done) =~= before.pending_reads.subrange(
                    0,
                    done - 1,
                ).push(read));
                assert(self@.effects =~= before.effects + read_replies(
                    before.pending_reads.subrange(0, done),
                    Err(*error),
                ));
            }
        }
        assert(before.pending_reads.subrange(0, before.pending_reads.len() as int)
            =~= before.pending_reads);
    }

    /// Whether a chunk can be taken in.
    pub fn can_enqueue(&self, chunk: &T) -> (can: bool)
        ensures
            can == self@.can_enqueue(*chunk),
    {
        if self.pending_reads.len() > 0 {
            return true;
        }
        let chunk_size: usize = self.strategy.size(chunk);
        if chunk_size > usize::MAX - self.queue_total_size {
            return false;
        }
        self.closed || self.errored || room_can_be_shown(
            self.strategy.high_water_mark(),
            self.queue_total_size + chunk_size,
        )
    }

    /// Whether a read can be taken in.
    pub fn can_read(&self) -> (can: bool)
        requires
            self@.wf(),
        ensures
            can == self@.can_read(),
    {
        if self.state == StreamState::Errored || self.queue.len() == 0 {
            return true;
        }
        proof {
            lemma_total_size_front(self.strategy, self.queue@);
            lemma_total_size_nonnegative(
                self.strategy,
                self.queue@.subrange(1, self.queue@.len() as int),
            );
        }
        let chunk_size: usize = self.strategy.size(&self.queue[0]);
        self.closed || self.errored || room_can_be_shown(
            self.strategy.high_water_mark(),
            self.queue_total_size - chunk_size,
        )
    }

    /// Take in a message of the controller.
    pub fn process_controller_msg(&mut self, msg: ControllerMsg<T>)
        requires
            old(self)@.wf(),
            old(self)@.can_take(msg),
        ensures
            final(self)@ == old(self)@.controller_msg(msg),
            final(self)@.wf(),
    {
        match msg {
            ControllerMsg::Enqueue { chunk } => self.enqueue(chunk),
            ControllerMsg::Close => self.close(),
            ControllerMsg::Error(error) => self.error(error),
        }
    }

    /// Take in a command of a handle or a reader.
    pub fn process_command<F: Fn(&W, &W) -> bool>(
        &mut self,
        command: StreamCommand<R, K, W>,
        will_wake: F,
    )
        requires
            old(self)@.wf(),
            command is Read ==> old(self)@.can_read(),
            forall|a: W, b: W| call_requires(will_wake, (&a, &b)),
        ensures
            match command {
                StreamCommand::Read { completion } => final(self)@ == old(self)@.read(completion),
                StreamCommand::Cancel { reason, cancel_completion } => final(self)@ == old(
                    self)@.cancel(reason, cancel_completion),
                StreamCommand::RegisterReadyWaker { waker } => exists|set: Seq<W>|
                    #[trigger] registered(old(self)@.ready_wakers, waker, will_wake, set)
                        && final(self)@ == old(self)@.ready_waker_registered(set),
                StreamCommand::RegisterClosedWaker { waker } => exists|set: Seq<W>|
                    #[trigger] registered(old(self)@.closed_wakers, waker, will_wake, set)
                        && final(self)@ == old(self)@.closed_waker_registered(set),
            },
            final(self)@.wf(),
    {
        match command {
            StreamCommand::Read { completion } => self.read(completion),
            StreamCommand::Cancel { reason, cancel_completion } => {
                self.cancel(reason, cancel_completion)
            },
            StreamCommand::RegisterReadyWaker { waker } => {
                self.register_ready_waker(waker, will_wake)
            },
            StreamCommand::RegisterClosedWaker { waker } => {
                self.register_closed_waker(waker, will_wake)
            },
        }
    }

    /// A chunk arrives from the source.
    pub fn enqueue(&mut self, chunk: T)
        requires
            old(self)@.wf(),
            old(self)@.can_enqueue(chunk),
        ensures
            final(self)@ == old(self)@.enqueue(chunk),
            final(self)@.wf(),
    {
        match self.pending_reads.pop_front() {
            Some(read) => {
                self.effects.push(ReadableEffect::ReplyRead(read, Ok(Some(chunk))));
            },
            None => {
                let chunk_size: usize = self.strategy.size(&chunk);
                proof {
                    lemma_total_size_push(self.strategy, self.queue@, chunk);
                }
                self.queue.push_back(chunk);
                self.queue_total_size = self.queue_total_size + chunk_size;
                self.publish_room();
                self.wake_ready();
            },
        }
    }

    /// The source says that nothing more will come.
    pub fn close(&mut self)
        requires
            old(self)@.wf(),
        ensures
            final(self)@ == old(self)@.close(),
            final(self)@.wf(),
    {
        if self.state == StreamState::Readable {
            self.state = StreamState::Closed;
            self.closed = true;
            self.desired_size = 0;
            self.end_reads();
            self.wake_closed();
            self.wake_ready();
        }
    }

    /// The source says that it has failed.
    pub fn error(&mut self, error: StreamError)
        requires
            old(self)@.wf(),
        ensures
            final(self)@ == old(self)@.error(error),
            final(self)@.wf(),
    {
        if self.state != StreamState::Closed {
            self.state = StreamState::Errored;
            self.errored = true;
            self.stored_error = Some(error.clone());
            self.desired_size = 0;
            self.queue.clear();
            self.queue_total_size = 0;
            self.fail_reads(&error);
            self.wake_closed();
            self.wake_ready();
        }
    }

    /// A reader asks for a chunk.
    pub fn read(&mut self, completion: R)
        requires
            old(self)@.wf(),
            old(self)@.can_read(),
        ensures
            final(self)@ == old(self)@.read(completion),
            final(self)@.wf(),
    {
        if self.state == StreamState::Errored {
            let error = self.get_stored_error();
            self.effects.push(ReadableEffect::ReplyRead(completion, Err(error)));
            return ;
        }
        if self.state == StreamState::Closed && self.queue.len() == 0 {
            self.effects.push(ReadableEffect::ReplyRead(completion, Ok(None)));
            return ;
        }
        proof {
            if self.queue@.len() > 0 {
                lemma_total_size_front(self.strategy, self.queue@);
                lemma_total_size_nonnegative(
                    self.strategy,
                    self.queue@.subrange(1, self.queue@.len() as int),
                );
            }
        }
        match self.queue.pop_front() {
            Some(chunk) => {
                let chunk_size: usize = self.strategy.size(&chunk);
                self.queue_total_size = self.queue_total_size - chunk_size;
                self.publish_room();
                self.effects.push(ReadableEffect::ReplyRead(completion, Ok(Some(chunk))));
            },
            None => {
                self.pending_reads.push_back(completion);
            },
        }
    }

    /// A reader gives the stream up.
    pub fn cancel(&mut self, reason: Option<String>, completion: K)
        requires
            old(self)@.wf(),
        ensures
            final(self)@ == old(self)@.cancel(reason, completion),
            final(self)@.wf(),
    {
        if self.state == StreamState::Closed || self.state == StreamState::Errored {
            self.effects.push(ReadableEffect::ReplyCancel(completion, Ok(())));
            return ;
        }
        self.cancel_completions.push(completion);
        if self.cancel_requested {
            return ;
        }
        self.cancel_requested = true;
        self.cancel_reason = clone_reason(&reason);
        self.state = StreamState::Closed;
        self.closed = true;
        self.queue.clear();
        self.queue_total_size = 0;
        self.fail_reads(&StreamError::Canceled);
        self.wake_closed();
        self.wake_ready();
        match self.source.take() {
            Some(source) => {
                self.effects.push(ReadableEffect::StartCancel(source, reason));
            },
            None => {},
        }
    }

    /// The source has answered a cancellation.
    pub fn cancel_finished(&mut self, outcome: StreamResult<()>)
        requires
            old(self)@.wf(),
        ensures
            final(self)@ == old(self)@.cancel_finished(outcome),
            final(self)@.wf(),
    {
        self.cancel_requested = false;
        let mut completions: Vec<K> = Vec::new();
        core::mem::swap(&mut completions, &mut self.cancel_completions);
        push_cancel_replies(completions, &outcome, &mut self.effects);
        self.effects.push(ReadableEffect::Repoll);
    }

    /// A task waits for something to read.
    fn register_ready_waker<F: Fn(&W, &W) -> bool>(&mut self, waker: W, will_wake: F)
        requires
            old(self)@.wf(),
            forall|a: W, b: W| call_requires(will_wake, (&a, &b)),
        ensures
            exists|set: Seq<W>|
                #[trigger] registered(old(self)@.ready_wakers, waker, will_wake, set)
                    && final(self)@ == old(self)@.ready_waker_registered(set),
            final(self)@.wf(),
    {
        self.ready_wakers.register(waker, will_wake);
        let ghost set = self.ready_wakers@;
        assert(registered(old(self)@.ready_wakers, waker, will_wake, set));
        if self.queue.len() > 0 || self.state == StreamState::Closed || self.state
            == StreamState::Errored {
            self.wake_ready();
        }
        assert(self@ == old(self)@.ready_waker_registered(set));
    }

    /// A task waits for the stream to end.
    fn register_closed_waker<F: Fn(&W, &W) -> bool>(&mut self, waker: W, will_wake: F)
        requires
            old(self)@.wf(),
            forall|a: W, b: W| call_requires(will_wake, (&a, &b)),
        ensures
            exists|set: Seq<W>|
                #[trigger] registered(old(self)@.closed_wakers, waker, will_wake, set)
                    && final(self)@ == old(self)@.closed_waker_registered(set),
            final(self)@.wf(),
    {
        self.closed_wakers.register(waker, will_wake);
        let ghost set = self.closed_wakers@;
        assert(registered(old(self)@.closed_wakers, waker, will_wake, set));
        if self.state == StreamState::Closed || self.state == StreamState::Errored {
            self.wake_closed();
        }
        assert(self@ == old(self)@.closed_waker_registered(set));
    }

    /// Take the source out to start it; that can be done once.
    pub fn start_begun(&mut self) -> (source: Option<Source>)
        requires
            old(self)@.wf(),
        ensures
            source == old(self)@.to_be_started(),
            final(self)@ == old(self)@.start_begun(),
            final(self)@.wf(),
    {
        if self.start == StartPhase::NotBegun {
            self.start = StartPhase::Running;
            self.source.take()
        } else {
            None
        }
    }

    /// The source has started, or could not.  No read is taken in before that.
    pub fn start_finished(&mut self, source: Source, outcome: StreamResult<()>)
        requires
            old(self)@.wf(),
            old(self)@.start == StartPhase::Running,
            old(self)@.pending_reads.len() == 0,
        ensures
            final(self)@ == old(self)@.start_finished(source, outcome),
            final(self)@.wf(),
    {
        match outcome {
            Ok(_) => {
                self.start = StartPhase::Succeeded;
                self.source = Some(source);
            },
            Err(error) => {
                self.start = StartPhase::Failed;
                self.state = StreamState::Errored;
                self.errored = true;
                self.stored_error = Some(error);
                self.desired_size = 0;
                self.wake_closed();
                self.wake_ready();
            },
        }
    }

    /// Ask the source for more, where that is wanted.
    pub fn maybe_pull(&mut self)
        requires
            old(self)@.wf(),
        ensures
            final(self)@ == old(self)@.maybe_pull(),
            final(self)@.wf(),
    {
        if self.start == StartPhase::Succeeded && self.state == StreamState::Readable
            && !self.pulling && !self.cancel_requested && (self.queue.len() == 0
            || self.pending_reads.len() > 0) {
            match self.source.take() {
                Some(source) => {
                    self.pulling = true;
                    self.effects.push(ReadableEffect::StartPull(source));
                },
                None => {},
            }
        }
    }

    /// The source has answered a pull.
    pub fn pull_finished(&mut self, source: Source, outcome: StreamResult<()>)
        requires
            old(self)@.wf(),
        ensures
            final(self)@ == old(self)@.pull_finished(source, outcome),
            final(self)@.wf(),
    {
        self.pulling = false;
        match outcome {
            Ok(_) => {
                self.source = Some(source);
            },
            Err(error) => {
                self.state = StreamState::Errored;
                self.errored = true;
                self.stored_error = Some(error.clone());
                self.fail_reads(&error);
                self.wake_closed();
                self.wake_ready();
            },
        }
        self.effects.push(ReadableEffect::Repoll);
    }
}

/// List a wake for each waker.
fn push_wakes<T, Source, R, K, W>(
    wakers: Vec<W>,
    effects: &mut Vec<ReadableEffect<T, Source, R, K, W>>,
)
    ensures
        final(effects)@ == old(effects)@ + wakes(wakers@),
{
    let ghost all = wakers@;
    let ghost before = effects@;
    for waker in iter: wakers
        invariant
            iter.seq() == all,
            effects@ == before + wakes(all.subrange(0, iter.index() as int)),
    {
        effects.push(ReadableEffect::Wake(waker));
        proof {
            let done = iter.index() + 1;
            assert(all.subrange(0, done) =~= all.subrange(0, done - 1).push(waker));
            assert(effects@ =~= before + wakes(all.subrange(0, done)));
        }
    }
    assert(all.subrange(0, all.len() as int) =~= all);
}

/// List an answer for each cancellation.
fn push_cancel_replies<T, Source, R, K, W>(
    completions: Vec<K>,
    outcome: &StreamResult<()>,
    effects: &mut Vec<ReadableEffect<T, Source, R, K, W>>,
)
    ensures
        final(effects)@ == old(effects)@ + cancel_replies(completions@, *outcome),
{
    let ghost all = completions@;
    let ghost before = effects@;
    for completion in iter: completions
        invariant
            iter.seq() == all,
            effects@ == before + cancel_replies(all.subrange(0, iter.index() as int), *outcome),
    {
        effects.push(ReadableEffect::ReplyCancel(completion, clone_outcome(outcome)));
        proof {
            let done = iter.index() + 1;
            assert(all.subrange(0, done) =~= all.subrange(0, done - 1).push(completion));
            assert(effects@ =~= before + cancel_replies(all.subrange(0, done), *outcome));
        }
    }
    assert(all.subrange(0, all.len() as int) =~= all);
}

} // verus!
