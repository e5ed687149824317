//! The machine behind a writable stream.

use super::effect::{
    chunks, completions, wakes, writers, InFlight, PendingWrite, Published, StreamCommand,
    StreamState, WritableEffect,
};
use super::model::{count_down, WritableModel};
use crate::error::{clone_outcome, clone_reason, Notice, StreamError, StreamResult};
use crate::start::StartPhase;
use crate::strategy::{
    lemma_total_size_front, lemma_total_size_nonnegative, lemma_total_size_push, QueuingStrategy,
};
use crate::wakers::{registered, WakerSet};
use std::collections::VecDeque;
use vstd::prelude::*;

verus! {

/// A writable stream: takes events from its controller, its writers and its sink, and lists what
/// is to be done about them.
pub struct WritableStreamInner<T, Sink, S: QueuingStrategy<T>, C, W> {
    state: StreamState,
    queue: VecDeque<PendingWrite<T, C>>,
    queue_total_size: usize,
    strategy: S,
    sink: Option<Sink>,
    start: StartPhase,
    backpressure: bool,
    close_requested: bool,
    close_completions: Vec<C>,
    abort_reason: Option<String>,
    abort_requested: bool,
    abort_completions: Vec<C>,
    stored_error: Option<StreamError>,
    ready_wakers: WakerSet<W>,
    closed_wakers: WakerSet<W>,
    flush_completions: Vec<(C, usize)>,
    pending_flush_commands: Vec<C>,
    inflight: Option<InFlight<C>>,
    published: Published,
    effects: Vec<WritableEffect<T, Sink, C, W>>,
}

impl<T, Sink, S: QueuingStrategy<T>, C, W> View for WritableStreamInner<T, Sink, S, C, W> {
    type V = WritableModel<T, Sink, S, C, W>;

    closed spec fn view(&self) -> WritableModel<T, Sink, S, C, W> {
        WritableModel {
            state: self.state,
            queue: self.queue@,
            queue_total_size: self.queue_total_size,
            strategy: self.strategy,
            sink: self.sink,
            start: self.start,
            backpressure: self.backpressure,
            close_requested: self.close_requested,
            close_completions: self.close_completions@,
            abort_reason: self.abort_reason,
            abort_requested: self.abort_requested,
            abort_completions: self.abort_completions@,
            stored_error: self.stored_error,
            ready_wakers: self.ready_wakers@,
            closed_wakers: self.closed_wakers@,
            flush_completions: self.flush_completions@,
            pending_flush_commands: self.pending_flush_commands@,
            inflight: match self.inflight {
                Some(inflight) => Some(inflight@),
                None => None,
            },
            published: self.published,
            effects: self.effects@,
        }
    }
}

impl<T, Sink, S: QueuingStrategy<T>, C, W> WritableStreamInner<T, Sink, S, C, W> {
    pub fn new(sink: Sink, strategy: S) -> (inner: Self)
        ensures
            inner@ == WritableModel::<T, Sink, S, C, W>::initial(sink, strategy),
            inner@.wf(),
    {
        let inner = WritableStreamInner {
            state: StreamState::Writable,
            queue: VecDeque::new(),
            queue_total_size: 0,
            strategy,
            sink: Some(sink),
            start: StartPhase::NotBegun,
            backpressure: false,
            close_requested: false,
            close_completions: Vec::new(),
            abort_reason: None,
            abort_requested: false,
            abort_completions: Vec::new(),
            stored_error: None,
            ready_wakers: WakerSet::new(),
            closed_wakers: WakerSet::new(),
            flush_completions: Vec::new(),
            pending_flush_commands: Vec::new(),
            inflight: None,
            published: Published {
                backpressure: false,
                closed: false,
                errored: false,
                queue_total_size: 0,
            },
            effects: Vec::new(),
        };
        assert(inner@ =~= WritableModel::<T, Sink, S, C, W>::initial(sink, strategy));
        inner
    }

    pub fn state(&self) -> (state: StreamState)
        ensures
            state == self@.state,
    {
        self.state
    }

    /// What handles can see.
    pub fn published(&self) -> (published: Published)
        ensures
            published == self@.published,
    {
        self.published
    }

    /// Whether the sink is busy.
    pub fn is_busy(&self) -> (busy: bool)
        ensures
            busy == (self@.inflight is Some),
    {
        self.inflight.is_some()
    }

    /// The error that the stream failed with, if one was stored.
    pub fn stored_error(&self) -> (error: Option<StreamError>)
        ensures
            error == self@.stored_error,
    {
        match &self.stored_error {
            Some(error) => Some(error.clone()),
            None => None,
        }
    }

    pub fn get_stored_error(&self) -> (error: StreamError)
        ensures
            error == self@.error_to_report(),
    {
        match &self.stored_error {
            Some(error) => error.clone(),
            None => StreamError::notice(Notice::StreamIsErrored),
        }
    }

    /// Hand out what is to be done, in order.
    pub fn take_effects(&mut self) -> (effects: Vec<WritableEffect<T, Sink, C, W>>)
        ensures
            effects@ == old(self)@.effects,
            final(self)@ == old(self)@.effects_taken(),
    {
        let mut effects: Vec<WritableEffect<T, Sink, C, W>> = Vec::new();
        core::mem::swap(&mut effects, &mut self.effects);
        effects
    }

    fn wake_closed(&mut self)
        ensures
            final(self)@ == old(self)@.wake_closed(),
    {
        let woken = self.closed_wakers.wake_all();
        push_wakes(woken, &mut self.effects);
    }

    fn wake_ready(&mut self)
        ensures
            final(self)@ == old(self)@.wake_ready(),
    {
        let woken = self.ready_wakers.wake_all();
        push_wakes(woken, &mut self.effects);
    }

    /// Update the stream's backpressure flag to reflect the current load.
    fn update_backpressure(&mut self)
        ensures
            final(self)@ == old(self)@.update_backpressure(),
    {
        let before: bool = self.backpressure;
        self.backpressure = self.queue_total_size >= self.strategy.high_water_mark();
        if before && !self.backpressure {
            self.wake_ready();
        }
    }

    fn update_atomic_counters(&mut self)
        ensures
            final(self)@ == old(self)@.update_counters(),
    {
        self.published =
        Published { queue_total_size: self.queue_total_size, ..self.published };
    }

    fn update_flags(&mut self)
        ensures
            final(self)@ == old(self)@.update_flags(),
    {
        self.published =
        Published {
            backpressure: self.backpressure,
            closed: self.state == StreamState::Closed,
            errored: self.state == StreamState::Errored,
            ..self.published
        };
        if self.state == StreamState::Closed || self.state == StreamState::Errored {
            self.wake_closed();
        }
        if !self.backpressure {
            self.wake_ready();
        }
    }

    /// Show handles the size of the queue and the flags.
    pub fn publish(&mut self)
        requires
            old(self)@.wf(),
        ensures
            final(self)@ == old(self)@.publish(),
            final(self)@.wf(),
    {
        self.update_atomic_counters();
        self.update_flags();
    }

    /// Whether a write can be taken in.
    pub fn can_write(&self, chunk: &T) -> (can: bool)
        ensures
            can == self@.can_write(*chunk),
    {
        if self.state != StreamState::Writable || self.close_requested {
            return true;
        }
        let chunk_size: usize = self.strategy.size(chunk);
        chunk_size <= usize::MAX - self.queue_total_size && self.queue.len() < usize::MAX - 1
    }

    /// Take in a command of a writer or of the stream's own handle; `will_wake` tells whether two
    /// wakers wake the same task.
    pub fn process_command<F: Fn(&W, &W) -> bool>(
        &mut self,
        command: StreamCommand<T, C, W>,
        will_wake: F,
    )
        requires
            old(self)@.wf(),
            old(self)@.can_take(command),
            forall|a: W, b: W| call_requires(will_wake, (&a, &b)),
        ensures
            match command {
                StreamCommand::RegisterReadyWaker { waker } => exists|set: Seq<W>|
                    #[trigger] registered(old(self)@.ready_wakers, waker, will_wake, set)
                        && final(self)@ == old(self)@.ready_waker_registered(set).settle_flushes(),
                StreamCommand::RegisterClosedWaker { waker } => exists|set: Seq<W>|
                    #[trigger] registered(old(self)@.closed_wakers, waker, will_wake, set)
                        && final(self)@ == old(self)@.closed_waker_registered(set).settle_flushes(),
                _ => final(self)@ == old(self)@.command(command),
            },
            final(self)@.wf(),
    {
        match command {
            StreamCommand::Write { chunk, completion } => self.write(chunk, completion),
            StreamCommand::Close { completion } => self.close(completion),
            StreamCommand::Abort { reason, completion } => self.abort(reason, completion),
            StreamCommand::Flush { completion } => self.flush(completion),
            StreamCommand::RegisterReadyWaker { waker } => {
                self.register_ready_waker(waker, will_wake)
            },
            StreamCommand::RegisterClosedWaker { waker } => {
                self.register_closed_waker(waker, will_wake)
            },
        }
        self.settle_flushes();
    }

    fn write(&mut self, chunk: T, completion: C)
        requires
            old(self)@.wf(),
            old(self)@.can_write(chunk),
        ensures
            final(self)@ == old(self)@.write(chunk, completion),
            final(self)@.wf(),
    {
        if self.state == StreamState::Errored {
            let error = self.get_stored_error();
            self.effects.push(WritableEffect::Complete(completion, Err(error)));
            return ;
        }
        if self.state == StreamState::Closed {
            self.effects.push(WritableEffect::Complete(completion, Err(StreamError::Closed)));
            return ;
        }
        if self.close_requested {
            self.effects.push(WritableEffect::Complete(completion, Err(StreamError::Closing)));
            return ;
        }
        let chunk_size: usize = self.strategy.size(&chunk);
        proof {
            lemma_total_size_push(self.strategy, chunks(self.queue@), chunk);
            assert(chunks(self.queue@.push(PendingWrite { chunk, completion })) =~= chunks(
                self.queue@,
            ).push(chunk));
        }
        self.queue.push_back(PendingWrite { chunk, completion });
        self.queue_total_size = self.queue_total_size + chunk_size;
        self.update_backpressure();
        self.publish();
    }

    fn close(&mut self, completion: C)
        requires
            old(self)@.wf(),
        ensures
            final(self)@ == old(self)@.close(completion),
            final(self)@.wf(),
    {
        if self.state == StreamState::Errored {
            let error = self.get_stored_error();
            self.effects.push(WritableEffect::Complete(completion, Err(error)));
            return ;
        }
        if self.state == StreamState::Closed {
            self.effects.push(WritableEffect::Complete(completion, Ok(())));
            return ;
        }
        self.close_requested = true;
        self.close_completions.push(completion);
        self.publish();
    }

    fn abort(&mut self, reason: Option<String>, completion: C)
        requires
            old(self)@.wf(),
        ensures
            final(self)@ == old(self)@.abort(reason, completion),
            final(self)@.wf(),
    {
        if self.state == StreamState::Closed || self.state == StreamState::Errored {
            self.effects.push(WritableEffect::Complete(completion, Ok(())));
            return ;
        }
        self.abort_completions.push(completion);
        if !self.abort_requested {
            self.state = StreamState::Errored;
            self.stored_error = Some(StreamError::Aborted(clone_reason(&reason)));
            self.abort_requested = true;
            self.abort_reason = clone_reason(&reason);
            let mut queue: VecDeque<PendingWrite<T, C>> = VecDeque::new();
            core::mem::swap(&mut queue, &mut self.queue);
            refuse_writes(queue, &StreamError::Aborted(reason), &mut self.effects);
        }
        self.publish();
    }

    fn flush(&mut self, completion: C)
        requires
            old(self)@.wf(),
        ensures
            final(self)@ == old(self)@.flush(completion),
            final(self)@.wf(),
    {
        if self.state == StreamState::Errored {
            let error = self.get_stored_error();
            self.effects.push(WritableEffect::Complete(completion, Err(error)));
            return ;
        }
        self.pending_flush_commands.push(completion);
    }

    fn settle_flushes(&mut self)
        requires
            old(self)@.wf(),
        ensures
            final(self)@ == old(self)@.settle_flushes(),
            final(self)@.wf(),
    {
        while self.pending_flush_commands.len() > 0
            invariant
                self@.wf(),
                self@.settle_flushes() == old(self)@.settle_flushes(),
            decreases self.pending_flush_commands@.len(),
        {
            let ghost before = self@;
            let completion = self.pending_flush_commands.pop().unwrap();
            self.process_flush_command(completion);
            assert(self@ == WritableModel {
                pending_flush_commands: before.pending_flush_commands.drop_last(),
                ..before
            }.process_flush(before.pending_flush_commands.last()));
        }
    }

    fn process_flush_command(&mut self, completion: C)
        requires
            old(self)@.wf(),
        ensures
            final(self)@ == old(self)@.process_flush(completion),
            final(self)@.pending_flush_commands == old(self)@.pending_flush_commands,
            final(self)@.wf(),
    {
        if self.state == StreamState::Errored {
            let error = self.get_stored_error();
            self.effects.push(WritableEffect::Complete(completion, Err(error)));
            return ;
        }
        let inflight_writes: usize = match &self.inflight {
            Some(InFlight::Write { .. }) => 1,
            _ => 0,
        };
        let writes_to_wait_for: usize = self.queue.len() + inflight_writes;
        if writes_to_wait_for == 0 {
            self.effects.push(WritableEffect::Complete(completion, Ok(())));
        } else {
            self.flush_completions.push((completion, writes_to_wait_for));
        }
    }

    /// A task waits for room.
    fn register_ready_waker<F: Fn(&W, &W) -> bool>(&mut self, waker: W, will_wake: F)
        requires
            old(self)@.wf(),
            forall|a: W, b: W| call_requires(will_wake, (&a, &b)),
        ensures
            exists|set: Seq<W>|
                #[trigger] registered(old(self)@.ready_wakers, waker, will_wake, set)
                    && final(self)@ == old(self)@.ready_waker_registered(set),
            final(self)@.wf(),
    {
        self.ready_wakers.register(waker, will_wake);
        let ghost set = self.ready_wakers@;
        assert(registered(old(self)@.ready_wakers, waker, will_wake, set));
        if !self.backpressure {
            self.wake_ready();
        }
        assert(self@ == old(self)@.ready_waker_registered(set));
    }

    /// A task waits for the stream to end.
    fn register_closed_waker<F: Fn(&W, &W) -> bool>(&mut self, waker: W, will_wake: F)
        requires
            old(self)@.wf(),
            forall|a: W, b: W| call_requires(will_wake, (&a, &b)),
        ensures
            exists|set: Seq<W>|
                #[trigger] registered(old(self)@.closed_wakers, waker, will_wake, set)
                    && final(self)@ == old(self)@.closed_waker_registered(set),
            final(self)@.wf(),
    {
        self.closed_wakers.register(waker, will_wake);
        let ghost set = self.closed_wakers@;
        assert(registered(old(self)@.closed_wakers, waker, will_wake, set));
        if self.state == StreamState::Closed || self.state == StreamState::Errored {
            self.wake_closed();
        }
        assert(self@ == old(self)@.closed_waker_registered(set));
    }

    /// The controller reports an error.
    pub fn controller_error(&mut self, error: &StreamError)
        requires
            old(self)@.wf(),
        ensures
            exists|reason: String|
                #[trigger] reason@ == "Controller error: "@ + error.debug_words() && final(self)@
                    == old(self)@.controller_error(reason),
            final(self)@.wf(),
    {
        let mut reason = "Controller error: ".to_owned();
        reason.push_str(error.to_debug_text().as_str());
        let ghost text = reason;
        self.state = StreamState::Errored;
        self.abort_reason = Some(reason);
        self.queue.clear();
        self.queue_total_size = 0;
        self.wake_ready();
        self.wake_closed();
        assert(text@ == "Controller error: "@ + error.debug_words());
        assert(self@ == old(self)@.controller_error(text));
    }

    /// Take the sink out to start it; that is done once.
    pub fn start_begun(&mut self) -> (sink: Option<Sink>)
        requires
            old(self)@.wf(),
        ensures
            sink == old(self)@.to_be_started(),
            final(self)@ == old(self)@.start_begun(),
            final(self)@.wf(),
    {
        if self.start == StartPhase::NotBegun {
            self.start = StartPhase::Running;
            self.sink.take()
        } else {
            None
        }
    }

    /// The sink has started, or could not.
    pub fn start_finished(&mut self, sink: Sink, outcome: StreamResult<()>)
        requires
            old(self)@.wf(),
            old(self)@.start == StartPhase::Running,
        ensures
            final(self)@ == old(self)@.start_finished(sink, outcome),
            final(self)@.wf(),
    {
        match outcome {
            Ok(_) => {
                self.start = StartPhase::Succeeded;
                self.sink = Some(sink);
            },
            Err(error) => {
                self.start = StartPhase::Failed;
                self.state = StreamState::Errored;
                self.stored_error = Some(error);
                self.sink = None;
                self.update_flags();
            },
        }
    }

    fn signal_abort(&mut self)
        requires
            old(self)@.wf(),
        ensures
            final(self)@ == old(self)@.signal_abort(),
            final(self)@.wf(),
    {
        if self.abort_requested {
            self.effects.push(WritableEffect::RequestAbort);
            match self.inflight.take() {
                Some(InFlight::Write { completion }) => {
                    self.inflight = Some(InFlight::Write { completion: None });
                    match completion {
                        Some(completion) => {
                            self.effects.push(
                                WritableEffect::Complete(
                                    completion,
                                    Err(StreamError::Aborted(None)),
                                ),
                            );
                        },
                        None => {},
                    }
                },
                Some(InFlight::Close { completions }) => {
                    self.inflight = Some(InFlight::Close { completions: Vec::new() });
                    push_completions(
                        completions,
                        &Err(StreamError::Aborted(None)),
                        &mut self.effects,
                    );
                },
                other => {
                    self.inflight = other;
                },
            }
        }
        assert(self@ =~= old(self)@.signal_abort());
    }

    fn start_ending(&mut self)
        requires
            old(self)@.wf(),
        ensures
            final(self)@ == old(self)@.start_ending(),
            final(self)@.wf(),
    {
        if self.inflight.is_some() {
            return ;
        }
        if self.close_requested {
            if self.queue.len() == 0 {
                let mut waiting: Vec<C> = Vec::new();
                core::mem::swap(&mut waiting, &mut self.close_completions);
                match self.sink.take() {
                    Some(sink) => {
                        self.inflight = Some(InFlight::Close { completions: waiting });
                        self.effects.push(WritableEffect::StartClose(sink));
                    },
                    None => {
                        self.state = StreamState::Closed;
                        self.close_requested = false;
                        self.update_flags();
                        push_completions(waiting, &Ok(()), &mut self.effects);
                    },
                }
            }
        } else if self.abort_requested {
            let mut waiting: Vec<C> = Vec::new();
            core::mem::swap(&mut waiting, &mut self.abort_completions);
            match self.sink.take() {
                Some(sink) => {
                    let reason = self.abort_reason.take();
                    self.inflight = Some(InFlight::Abort { completions: waiting });
                    self.effects.push(WritableEffect::StartAbort(sink, reason));
                },
                None => {
                    self.abort_requested = false;
                    self.update_flags();
                    push_completions(waiting, &Ok(()), &mut self.effects);
                },
            }
        }
        assert(self@ =~= old(self)@.start_ending());
    }

    fn start_write(&mut self)
        requires
            old(self)@.wf(),
        ensures
            final(self)@ == old(self)@.start_write(),
            final(self)@.wf(),
    {
        if self.inflight.is_some() || self.state != StreamState::Writable {
            return ;
        }
        proof {
            if self.queue@.len() > 0 {
                let tail = self.queue@.subrange(1, self.queue@.len() as int);
                lemma_total_size_front(self.strategy, chunks(self.queue@));
                assert(chunks(self.queue@).subrange(1, self.queue@.len() as int) =~= chunks(tail));
                lemma_total_size_nonnegative(self.strategy, chunks(tail));
            }
        }
        match self.queue.pop_front() {
            Some(write) => {
                let chunk_size: usize = self.strategy.size(&write.chunk);
                self.queue_total_size = self.queue_total_size - chunk_size;
                self.update_backpressure();
                self.publish();
                match self.sink.take() {
                    Some(sink) => {
                        self.inflight = Some(InFlight::Write { completion: Some(write.completion) });
                        self.effects.push(WritableEffect::StartWrite(sink, write.chunk));
                    },
                    None => {
                        self.effects.push(
                            WritableEffect::Complete(
                                write.completion,
                                Err(StreamError::notice(Notice::SinkMissing)),
                            ),
                        );
                        self.state = StreamState::Errored;
                    },
                }
            },
            None => {},
        }
        assert(self@ =~= old(self)@.start_write());
    }

    /// Begin everything that the stream can begin by itself, once the start of the sink is over.
    pub fn advance(&mut self)
        requires
            old(self)@.wf(),
        ensures
            final(self)@ == old(self)@.advance(),
            final(self)@.wf(),
    {
        if self.start.over() {
            self.signal_abort();
            self.start_ending();
            self.start_write();
        }
    }

    fn decrement_flush_counters(&mut self)
        requires
            old(self)@.wf(),
        ensures
            final(self)@ == old(self)@.count_write(),
            final(self)@.wf(),
    {
        let ghost before = self@;
        let ghost mut answered: Seq<C> = Seq::empty();
        let mut i: usize = 0;
        while i < self.flush_completions.len()
            invariant
                i <= self.flush_completions@.len(),
                self@ == (WritableModel {
                    flush_completions: self@.flush_completions,
                    effects: self@.effects,
                    ..before
                }),
                self@.effects == before.effects + completions(answered, Ok(())),
                count_down(before.flush_completions, 0).0 == count_down(
                    self@.flush_completions,
                    i as int,
                ).0,
                count_down(before.flush_completions, 0).1 == answered + count_down(
                    self@.flush_completions,
                    i as int,
                ).1,
                forall|j: int|
                    0 <= j < self@.flush_completions.len() ==> (
                    #[trigger] self@.flush_completions[j]).1 >= 1,
            decreases self.flush_completions@.len() - i,
        {
            let ghost flushes = self.flush_completions@;
            self.flush_completions[i].1 = self.flush_completions[i].1 - 1;
            if self.flush_completions[i].1 == 0 {
                let (completion, _) = self.flush_completions.swap_remove(i);
                assert(self.flush_completions@ =~= flushes.update(
                    i as int,
                    flushes.last(),
                ).drop_last());
                self.effects.push(WritableEffect::Complete(completion, Ok(())));
                proof {
                    let rest = count_down(self.flush_completions@, i as int);
                    assert(answered + (seq![completion] + rest.1) =~= answered.push(completion)
                        + rest.1);
                    answered = answered.push(completion);
                    assert(self@.effects =~= before.effects + completions(answered, Ok(())));
                }
            } else {
                i += 1;
            }
        }
        assert(answered + Seq::<C>::empty() =~= answered);
        assert(self@ =~= before.count_write());
    }

    /// The sink has answered a write, and comes back.
    pub fn write_finished(&mut self, sink: Sink, outcome: StreamResult<()>)
        requires
            old(self)@.wf(),
            old(self)@.inflight is Some,
            old(self)@.inflight->0 is Write,
        ensures
            final(self)@ == old(self)@.write_finished(sink, outcome),
            final(self)@.wf(),
    {
        self.decrement_flush_counters();
        let waiting: Option<C> = match self.inflight.take() {
            Some(InFlight::Write { completion }) => completion,
            _ => None,
        };
        if self.abort_requested {
            let reason = self.abort_reason.take();
            let mut aborts: Vec<C> = Vec::new();
            core::mem::swap(&mut aborts, &mut self.abort_completions);
            match waiting {
                Some(completion) => {
                    self.effects.push(
                        WritableEffect::Complete(completion, Err(StreamError::Aborted(None))),
                    );
                },
                None => {},
            }
            self.inflight = Some(InFlight::Abort { completions: aborts });
            self.effects.push(WritableEffect::StartAbort(sink, reason));
        } else {
            match &outcome {
                Err(error) => {
                    self.stored_error = Some(error.clone());
                    self.state = StreamState::Errored;
                },
                Ok(_) => {
                    self.sink = Some(sink);
                },
            }
            self.update_backpressure();
            self.publish();
            match waiting {
                Some(completion) => {
                    self.effects.push(WritableEffect::Complete(completion, outcome));
                },
                None => {},
            }
            self.effects.push(WritableEffect::Repoll);
        }
        assert(self@ =~= old(self)@.write_finished(sink, outcome));
    }

    fn drain(&mut self)
        ensures
            final(self)@ == old(self)@.drained(),
    {
        self.queue.clear();
        self.queue_total_size = 0;
        self.backpressure = false;
    }

    /// The sink has answered a close.
    pub fn close_finished(&mut self, outcome: StreamResult<()>)
        requires
            old(self)@.wf(),
            old(self)@.inflight is Some,
            old(self)@.inflight->0 is Close,
        ensures
            final(self)@ == old(self)@.close_finished(outcome),
            final(self)@.wf(),
    {
        let waiting: Vec<C> = match self.inflight.take() {
            Some(InFlight::Close { completions }) => completions,
            _ => Vec::new(),
        };
        match &outcome {
            Ok(_) => {
                self.state = StreamState::Closed;
            },
            Err(error) => {
                self.state = StreamState::Errored;
                self.stored_error = Some(error.clone());
            },
        }
        self.close_requested = false;
        self.drain();
        self.publish();
        push_completions(waiting, &outcome, &mut self.effects);
        self.effects.push(WritableEffect::Repoll);
        assert(self@ =~= old(self)@.close_finished(outcome));
    }

    /// The sink has answered an abort.
    pub fn abort_finished(&mut self, outcome: StreamResult<()>)
        requires
            old(self)@.wf(),
            old(self)@.inflight is Some,
            old(self)@.inflight->0 is Abort,
        ensures
            final(self)@ == old(self)@.abort_finished(outcome),
            final(self)@.wf(),
    {
        let waiting: Vec<C> = match self.inflight.take() {
            Some(InFlight::Abort { completions }) => completions,
            _ => Vec::new(),
        };
        match &outcome {
            Ok(_) => {},
            Err(error) => {
                self.stored_error = Some(error.clone());
            },
        }
        self.abort_requested = false;
        self.drain();
        self.publish();
        push_completions(waiting, &outcome, &mut self.effects);
        self.effects.push(WritableEffect::Repoll);
        assert(self@ =~= old(self)@.abort_finished(outcome));
    }
}

/// List a wake for each waker.
fn push_wakes<T, Sink, C, W>(wakers: Vec<W>, effects: &mut Vec<WritableEffect<T, Sink, C, W>>)
    ensures
        final(effects)@ == old(effects)@ + wakes(wakers@),
{
    let ghost all = wakers@;
    let ghost before = effects@;
    for waker in iter: wakers
        invariant
            iter.seq() == all,
            effects@ == before + wakes(all.subrange(0, iter.index() as int)),
    {
        effects.push(WritableEffect::Wake(waker));
        proof {
            let done = iter.index() + 1;
            assert(all.subrange(0, done) =~= all.subrange(0, done - 1).push(waker));
            assert(effects@ =~= before + wakes(all.subrange(0, done)));
        }
    }
    assert(all.subrange(0, all.len() as int) =~= all);
}

/// List the same answer for each waiting operation.
fn push_completions<T, Sink, C, W>(
    waiting: Vec<C>,
    outcome: &StreamResult<()>,
    effects: &mut Vec<WritableEffect<T, Sink, C, W>>,
)
    ensures
        final(effects)@ == old(effects)@ + completions(waiting@, *outcome),
{
    let ghost all = waiting@;
    let ghost before = effects@;
    for completion in iter: waiting
        invariant
            iter.seq() == all,
            effects@ == before + completions(all.subrange(0, iter.index() as int), *outcome),
    {
        effects.push(WritableEffect::Complete(completion, clone_outcome(outcome)));
        proof {
            let done = iter.index() + 1;
            assert(all.subrange(0, done) =~= all.subrange(0, done - 1).push(completion));
            assert(effects@ =~= before + completions(all.subrange(0, done), *outcome));
        }
    }
    assert(all.subrange(0, all.len() as int) =~= all);
}

/// List a refusal for each queued write.
fn refuse_writes<T, Sink, C, W>(
    queue: VecDeque<PendingWrite<T, C>>,
    error: &StreamError,
    effects: &mut Vec<WritableEffect<T, Sink, C, W>>,
)
    ensures
        final(effects)@ == old(effects)@ + completions(writers(queue@), Err(*error)),
{
    let ghost all = queue@;
    let ghost before = effects@;
    let mut left = queue;
    while left.len() > 0
        invariant
            left@.len() <= all.len(),
            left@ == all.subrange(all.len() - left@.len(), all.len() as int),
            effects@ == before + completions(
                writers(all.subrange(0, all.len() - left@.len())),
                Err(*error),
            ),
        decreases left@.len(),
    {
        let write = left.pop_front().unwrap();
        effects.push(WritableEffect::Complete(write.completion, Err(error.clone())));
        proof {
            let done = all.len() - left@.len();
            assert(all.subrange(0, done) =~= all.subrange(0, done - 1).push(write));
            assert(effects@ =~= before + completions(
                writers(all.subrange(0, done)),
                Err(*error),
            ));
        }
    }
    assert(all.subrange(0, all.len() as int) =~= all);
}

} // verus!
