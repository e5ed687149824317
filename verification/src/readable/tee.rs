//! Splitting a readable stream into two branches.

use crate::channel::{posts, Outbox, Posted};
use crate::error::{Notice, StreamError, StreamResult};
use crate::strategy::{CountQueuingStrategy, QueuingStrategy};
use futures::channel::mpsc::UnboundedSender;
use vstd::prelude::*;

verus! {

/// The two branches of a split stream.
#[derive(Clone, Copy, Debug, PartialEq, Eq, Structural)]
pub enum TeeSourceId {
    Branch1,
    Branch2,
}

/// What a branch is sent.
pub enum TeeChunk<T> {
    Data(T),
    End,
    Error(StreamError),
}

/// When the split stream is read again.
#[derive(Clone, Copy, Debug, PartialEq, Eq, Structural)]
pub enum BackpressureMode {
    /// When either branch wants more: the faster consumer drives, and the slower one buffers.
    SpecCompliant,
    /// Always, as long as one branch is active.
    Unbounded,
    /// When both branches want more: the slower consumer throttles.
    SlowestConsumer,
    /// When the branches together hold less than they together want.
    Aggregate,
}

/// How many chunks a branch buffers if nothing else is said.
pub const DEFAULT_BUFFER_PER_BRANCH: usize = 1000;

/// How a stream is split.
#[derive(Clone, Copy)]
pub struct TeeConfig {
    pub backpressure_mode: BackpressureMode,
    pub branch1_hwm: Option<usize>,
    pub branch2_hwm: Option<usize>,
    pub max_buffer_per_branch: Option<usize>,
}

impl Default for TeeConfig {
    fn default() -> (config: Self)
        ensures
            config == (TeeConfig {
                backpressure_mode: BackpressureMode::Unbounded,
                branch1_hwm: None,
                branch2_hwm: None,
                max_buffer_per_branch: Some(1000),
            }),
    {
        TeeConfig {
            backpressure_mode: BackpressureMode::Unbounded,
            branch1_hwm: None,
            branch2_hwm: None,
            max_buffer_per_branch: Some(DEFAULT_BUFFER_PER_BRANCH),
        }
    }
}

/// One branch: whether it was given up, the chunks it was sent and has not taken yet (counted
/// unless the mode is unbounded), and how many of those it wants.
#[derive(Clone, Copy)]
pub struct TeeBranch {
    pub canceled: bool,
    pub pending_count: Option<usize>,
    pub high_water_mark: usize,
}

impl TeeBranch {
    /// A branch is active until it is given up or its receiving end is gone.
    pub open spec fn is_active(self, receiver_gone: bool) -> bool {
        !self.canceled && !receiver_gone
    }

    /// A branch has demand while it is active and holds less than it wants.
    pub open spec fn has_demand(self, receiver_gone: bool) -> bool {
        self.is_active(receiver_gone) && self.pending_count->0 < self.high_water_mark
    }

    /// A branch holds nobody up if it is out of the game or has demand.
    pub open spec fn lets_pass(self, receiver_gone: bool) -> bool {
        !self.is_active(receiver_gone) || self.has_demand(receiver_gone)
    }

    /// A chunk was handed to the branch: it counts one more, or is given up if nobody took it.
    pub open spec fn after_send(self, delivered: bool) -> Self {
        if !delivered {
            TeeBranch { canceled: true, ..self }
        } else {
            TeeBranch {
                pending_count: match self.pending_count {
                    Some(count) => Some(if count == usize::MAX { 0 } else { (count + 1) as usize }),
                    None => None,
                },
                ..self
            }
        }
    }

    /// The branch took a chunk: it counts one less.
    pub open spec fn after_take(self) -> Self {
        TeeBranch {
            pending_count: match self.pending_count {
                Some(count) => Some(if count == 0 { usize::MAX } else { (count - 1) as usize }),
                None => None,
            },
            ..self
        }
    }

    fn active(&self, receiver_gone: bool) -> (active: bool)
        ensures
            active == self.is_active(receiver_gone),
    {
        !self.canceled && !receiver_gone
    }

    /// Note that a chunk was handed to the branch, or that nobody took it.
    pub fn record_send(&mut self, delivered: bool)
        ensures
            *final(self) == old(self).after_send(delivered),
    {
        if delivered {
            self.pending_count =
            match self.pending_count {
                Some(count) => Some(count.wrapping_add(1)),
                None => None,
            };
        } else {
            self.canceled = true;
        }
    }

    /// Note that the branch took a chunk; whether whoever waits for room is to be told.
    pub fn record_take(&mut self) -> (signal: bool)
        ensures
            *final(self) == old(self).after_take(),
            signal == (old(self).pending_count matches Some(count) && count > 0),
    {
        match self.pending_count {
            Some(count) => {
                self.pending_count = Some(count.wrapping_sub(1));
                count > 0
            },
            None => false,
        }
    }

    /// Give the branch up.
    pub fn cancel(&mut self)
        ensures
            *final(self) == (TeeBranch { canceled: true, ..*old(self) }),
    {
        self.canceled = true;
    }
}

/// What the source of a branch does with what it received.
pub enum TeePull<T> {
    Enqueue(T),
    Close,
    Fail(StreamError),
}

/// What the source of a branch does before it receives anything: a branch that was given up closes.
pub fn before_take<T>(branch: &TeeBranch) -> (pull: Option<TeePull<T>>)
    ensures
        pull == (if branch.canceled {
            Some(TeePull::<T>::Close)
        } else {
            None
        }),
{
    if branch.canceled {
        Some(TeePull::Close)
    } else {
        None
    }
}

/// What the source of a branch does with what it received, and whether whoever waits for room is
/// to be told.  With nothing left to receive the branch closes.
pub fn take_chunk<T>(branch: &mut TeeBranch, received: Option<TeeChunk<T>>) -> (taken: (
    TeePull<T>,
    bool,
))
    ensures
        match received {
            Some(TeeChunk::Data(chunk)) => {
                &&& taken.0 == TeePull::Enqueue(chunk)
                &&& taken.1 == (old(branch).pending_count matches Some(count) && count > 0)
                &&& *final(branch) == old(branch).after_take()
            },
            Some(TeeChunk::Error(error)) => taken == (TeePull::<T>::Fail(error), false)
                && *final(branch) == *old(branch),
            _ => taken == (TeePull::<T>::Close, false) && *final(branch) == *old(branch),
        },
{
    match received {
        Some(TeeChunk::Data(chunk)) => {
            let signal = branch.record_take();
            (TeePull::Enqueue(chunk), signal)
        },
        Some(TeeChunk::Error(error)) => (TeePull::Fail(error), false),
        Some(TeeChunk::End) => (TeePull::Close, false),
        None => (TeePull::Close, false),
    }
}

/// What the coordinator of a split stream does next.
#[derive(Clone, Copy, Debug, PartialEq, Eq, Structural)]
pub enum TeeStep {
    /// Both branches are gone: cancel the stream and stop.
    CancelSource,
    /// Wait until a branch takes something or is given up.
    WaitForDemand,
    /// Read the stream.
    Read,
}

/// What the branches are sent after the stream was read; what is sent last ends the split.
pub enum TeeOutcome<T> {
    Distribute(T),
    EndBoth,
    FailBoth(StreamError),
}

/// Both branches of a split stream.
#[derive(Clone, Copy)]
pub struct TeeState {
    pub backpressure_mode: BackpressureMode,
    pub branch1: TeeBranch,
    pub branch2: TeeBranch,
}

impl TeeState {
    /// Branches are counted, and the coordinator can wait, in every mode but the unbounded one.
    pub open spec fn initial(mode: BackpressureMode, hwm1: usize, hwm2: usize) -> Self {
        let count = if mode == BackpressureMode::Unbounded {
            None
        } else {
            Some(0usize)
        };
        TeeState {
            backpressure_mode: mode,
            branch1: TeeBranch { canceled: false, pending_count: count, high_water_mark: hwm1 },
            branch2: TeeBranch { canceled: false, pending_count: count, high_water_mark: hwm2 },
        }
    }

    pub fn new(mode: BackpressureMode, branch1_hwm: usize, branch2_hwm: usize) -> (state: Self)
        ensures
            state == Self::initial(mode, branch1_hwm, branch2_hwm),
    {
        let count: Option<usize> = match mode {
            BackpressureMode::Unbounded => None,
            _ => Some(0),
        };
        TeeState {
            backpressure_mode: mode,
            branch1: TeeBranch {
                canceled: false,
                pending_count: count,
                high_water_mark: branch1_hwm,
            },
            branch2: TeeBranch {
                canceled: false,
                pending_count: count,
                high_water_mark: branch2_hwm,
            },
        }
    }

    /// Both branches buffer the same number of chunks.
    pub fn with_buffer(mode: BackpressureMode, max_buffer_per_branch: Option<usize>) -> (state: Self)
        ensures
            state == (match max_buffer_per_branch {
                Some(most) => Self::initial(mode, most, most),
                None => Self::initial(mode, DEFAULT_BUFFER_PER_BRANCH, DEFAULT_BUFFER_PER_BRANCH),
            }),
    {
        let most: usize = match max_buffer_per_branch {
            Some(most) => most,
            None => DEFAULT_BUFFER_PER_BRANCH,
        };
        TeeState::new(mode, most, most)
    }

    /// In the aggregate mode, the sums that it compares can be formed.
    pub open spec fn sums_fit(self) -> bool {
        self.backpressure_mode == BackpressureMode::Aggregate && self.branch1.pending_count is Some
            && self.branch2.pending_count is Some ==> self.branch1.pending_count->0
            + self.branch2.pending_count->0 <= usize::MAX && self.branch1.high_water_mark
            + self.branch2.high_water_mark <= usize::MAX
    }

    /// Whether the sums that the aggregate mode compares can be formed.
    pub fn sums_can_be_formed(&self) -> (can: bool)
        ensures
            can == self.sums_fit(),
    {
        match (self.backpressure_mode, self.branch1.pending_count, self.branch2.pending_count) {
            (BackpressureMode::Aggregate, Some(branch1_pending), Some(branch2_pending)) => {
                branch1_pending <= usize::MAX - branch2_pending && self.branch1.high_water_mark
                    <= usize::MAX - self.branch2.high_water_mark
            },
            _ => true,
        }
    }

    /// Whether the stream is to be read again, given which receiving ends are gone.
    pub open spec fn wants_pull(self, gone1: bool, gone2: bool) -> bool {
        let active1 = self.branch1.is_active(gone1);
        let active2 = self.branch2.is_active(gone2);
        if !active1 && !active2 {
            false
        } else if self.branch1.pending_count is None || self.branch2.pending_count is None {
            true
        } else {
            match self.backpressure_mode {
                BackpressureMode::Unbounded => true,
                BackpressureMode::SlowestConsumer => self.branch1.lets_pass(gone1)
                    && self.branch2.lets_pass(gone2),
                BackpressureMode::Aggregate => self.branch1.pending_count->0
                    + self.branch2.pending_count->0 < self.branch1.high_water_mark
                    + self.branch2.high_water_mark,
                BackpressureMode::SpecCompliant => self.branch1.has_demand(gone1)
                    || self.branch2.has_demand(gone2),
            }
        }
    }

    pub fn should_pull(&self, branch1_gone: bool, branch2_gone: bool) -> (pull: bool)
        requires
            self.sums_fit(),
        ensures
            pull == self.wants_pull(branch1_gone, branch2_gone),
    {
        let branch1_active: bool = self.branch1.active(branch1_gone);
        let branch2_active: bool = self.branch2.active(branch2_gone);
        if !branch1_active && !branch2_active {
            return false;
        }
        match (self.branch1.pending_count, self.branch2.pending_count) {
            (Some(branch1_pending), Some(branch2_pending)) => {
                let branch1_wants: bool = branch1_active && branch1_pending
                    < self.branch1.high_water_mark;
                let branch2_wants: bool = branch2_active && branch2_pending
                    < self.branch2.high_water_mark;
                match self.backpressure_mode {
                    BackpressureMode::Unbounded => true,
                    BackpressureMode::SlowestConsumer => (!branch1_active || branch1_wants) && (
                    !branch2_active || branch2_wants),
                    BackpressureMode::Aggregate => branch1_pending + branch2_pending
                        < self.branch1.high_water_mark + self.branch2.high_water_mark,
                    BackpressureMode::SpecCompliant => branch1_wants || branch2_wants,
                }
            },
            _ => true,
        }
    }

    /// What the coordinator does next, given which receiving ends are gone.
    pub open spec fn next(self, gone1: bool, gone2: bool) -> TeeStep {
        if !self.branch1.is_active(gone1) && !self.branch2.is_active(gone2) {
            TeeStep::CancelSource
        } else if !self.wants_pull(gone1, gone2) && self.backpressure_mode
            != BackpressureMode::Unbounded {
            TeeStep::WaitForDemand
        } else {
            TeeStep::Read
        }
    }

    pub fn next_step(&self, branch1_gone: bool, branch2_gone: bool) -> (step: TeeStep)
        requires
            self.sums_fit(),
        ensures
            step == self.next(branch1_gone, branch2_gone),
    {
        if !self.branch1.active(branch1_gone) && !self.branch2.active(branch2_gone) {
            return TeeStep::CancelSource;
        }
        if !self.should_pull(branch1_gone, branch2_gone) {
            match self.backpressure_mode {
                BackpressureMode::Unbounded => {},
                _ => {
                    return TeeStep::WaitForDemand;
                },
            }
        }
        TeeStep::Read
    }

    /// What handing a chunk to the active branches makes of them, given which receiving ends were
    /// gone before and which branches took the chunk.
    pub open spec fn distributed(
        self,
        gone1: bool,
        gone2: bool,
        delivered1: bool,
        delivered2: bool,
    ) -> Self {
        TeeState {
            branch1: if self.branch1.is_active(gone1) {
                self.branch1.after_send(delivered1)
            } else {
                self.branch1
            },
            branch2: if self.branch2.is_active(gone2) {
                self.branch2.after_send(delivered2)
            } else {
                self.branch2
            },
            ..self
        }
    }

    /// What each branch is sent for a chunk: an active one the chunk, the other nothing.
    pub fn chunks_to_send<T: Clone>(&self, chunk: T, branch1_gone: bool, branch2_gone: bool) -> (sent: (
        Option<T>,
        Option<T>,
    ))
        ensures
            sent.0 is Some == self.branch1.is_active(branch1_gone),
            sent.0 matches Some(copy) ==> cloned(chunk, copy),
            sent.1 == (if self.branch2.is_active(branch2_gone) {
                Some(chunk)
            } else {
                None
            }),
    {
        let first: Option<T> = if self.branch1.active(branch1_gone) {
            Some(chunk.clone())
        } else {
            None
        };
        let second: Option<T> = if self.branch2.active(branch2_gone) {
            Some(chunk)
        } else {
            None
        };
        (first, second)
    }
}

/// A split that is being put together: the stream, when it is read again, and the strategies of the
/// two branches.
pub struct TeeBuilder<Stream, S1, S2> {
    pub stream: Stream,
    pub mode: BackpressureMode,
    pub branch1_strategy: S1,
    pub branch2_strategy: S2,
}

impl<Stream> TeeBuilder<Stream, CountQueuingStrategy, CountQueuingStrategy> {
    /// The faster branch drives; both branches count chunks and want one.
    pub fn new(stream: Stream) -> (builder: Self)
        ensures
            builder == (TeeBuilder {
                stream,
                mode: BackpressureMode::SpecCompliant,
                branch1_strategy: CountQueuingStrategy { high_water_mark: 1 },
                branch2_strategy: CountQueuingStrategy { high_water_mark: 1 },
            }),
    {
        TeeBuilder {
            stream,
            mode: BackpressureMode::SpecCompliant,
            branch1_strategy: CountQueuingStrategy::new(1),
            branch2_strategy: CountQueuingStrategy::new(1),
        }
    }
}

impl<Stream, S1, S2> TeeBuilder<Stream, S1, S2> {
    pub fn backpressure_mode(self, mode: BackpressureMode) -> (builder: Self)
        ensures
            builder == (TeeBuilder { mode, ..self }),
    {
        TeeBuilder { mode, ..self }
    }

    /// Set the queuing strategy of the first branch.
    pub fn branch1_strategy<S>(self, strategy: S) -> (builder: TeeBuilder<Stream, S, S2>)
        ensures
            builder == (TeeBuilder {
                stream: self.stream,
                mode: self.mode,
                branch1_strategy: strategy,
                branch2_strategy: self.branch2_strategy,
            }),
    {
        TeeBuilder {
            stream: self.stream,
            mode: self.mode,
            branch1_strategy: strategy,
            branch2_strategy: self.branch2_strategy,
        }
    }

    /// Set the queuing strategy of the second branch.
    pub fn branch2_strategy<S>(self, strategy: S) -> (builder: TeeBuilder<Stream, S1, S>)
        ensures
            builder == (TeeBuilder {
                stream: self.stream,
                mode: self.mode,
                branch1_strategy: self.branch1_strategy,
                branch2_strategy: strategy,
            }),
    {
        TeeBuilder {
            stream: self.stream,
            mode: self.mode,
            branch1_strategy: self.branch1_strategy,
            branch2_strategy: strategy,
        }
    }

    /// Set the same queuing strategy for both branches.
    pub fn strategy<S: Clone>(self, strategy: S) -> (builder: TeeBuilder<Stream, S, S>)
        ensures
            builder.stream == self.stream,
            builder.mode == self.mode,
            cloned(strategy, builder.branch1_strategy),
            builder.branch2_strategy == strategy,
    {
        self.branch1_strategy(strategy.clone()).branch2_strategy(strategy)
    }

    /// The two branches as they are to begin with.
    pub fn branches<T>(&self) -> (state: TeeState) where
        S1: QueuingStrategy<T>,
        S2: QueuingStrategy<T>,

        ensures
            state == TeeState::initial(
                self.mode,
                self.branch1_strategy.spec_high_water_mark(),
                self.branch2_strategy.spec_high_water_mark(),
            ),
    {
        TeeState::new(
            self.mode,
            self.branch1_strategy.high_water_mark(),
            self.branch2_strategy.high_water_mark(),
        )
    }
}

/// What follows from reading the split stream.
pub fn after_read<T>(read: StreamResult<Option<T>>) -> (outcome: TeeOutcome<T>)
    ensures
        outcome == (match read {
            Ok(Some(chunk)) => TeeOutcome::Distribute(chunk),
            Ok(None) => TeeOutcome::EndBoth,
            Err(error) => TeeOutcome::FailBoth(error),
        }),
{
    match read {
        Ok(Some(chunk)) => TeeOutcome::Distribute(chunk),
        Ok(None) => TeeOutcome::EndBoth,
        Err(error) => TeeOutcome::FailBoth(error),
    }
}

/// What the two branches are told last: the end of the stream, or its failure.
pub fn last_words<T>(failure: Option<StreamError>) -> (told: (TeeChunk<T>, TeeChunk<T>))
    ensures
        told.0 == told.1,
        told.0 == (match failure {
            Some(error) => TeeChunk::<T>::Error(error),
            None => TeeChunk::End,
        }),
{
    match failure {
        Some(error) => (TeeChunk::Error(error.clone()), TeeChunk::Error(error)),
        None => (TeeChunk::End, TeeChunk::End),
    }
}

/// The coordinator of a split stream: sends each branch what was read.
#[verifier::reject_recursive_types(T)]
pub struct TeeCoordinator<T> {
    outbox1: Outbox<TeeChunk<T>>,
    outbox2: Outbox<TeeChunk<T>>,
}

impl<T> TeeCoordinator<T> {
    /// The outbox of a branch: everything that it was posted, in order.
    pub closed spec fn outbox(self, id: TeeSourceId) -> Outbox<TeeChunk<T>> {
        match id {
            TeeSourceId::Branch1 => self.outbox1,
            TeeSourceId::Branch2 => self.outbox2,
        }
    }

    pub fn new(
        branch1_tx: UnboundedSender<TeeChunk<T>>,
        branch2_tx: UnboundedSender<TeeChunk<T>>,
    ) -> (coordinator: Self)
        ensures
            coordinator.outbox(TeeSourceId::Branch1).end() == branch1_tx,
            coordinator.outbox(TeeSourceId::Branch2).end() == branch2_tx,
            coordinator.outbox(TeeSourceId::Branch1)@ == Seq::<Posted<TeeChunk<T>>>::empty(),
            coordinator.outbox(TeeSourceId::Branch2)@ == Seq::<Posted<TeeChunk<T>>>::empty(),
    {
        TeeCoordinator { outbox1: Outbox::new(branch1_tx), outbox2: Outbox::new(branch2_tx) }
    }

    /// Whether the receiving ends can be found to be gone, or there, like this.
    pub open spec fn finds(self, gone1: bool, gone2: bool) -> bool {
        &&& self.outbox(TeeSourceId::Branch1).finds(gone1)
        &&& self.outbox(TeeSourceId::Branch2).finds(gone2)
    }

    /// The same coordinator, as far as where it posts goes.
    pub open spec fn continues(self, before: Self) -> bool {
        forall|id: TeeSourceId| (#[trigger] self.outbox(id)).end() == before.outbox(id).end()
    }

    /// Each branch is posted this message, whatever comes of it, and nothing else.
    pub open spec fn tells_both(self, after: Self, message: TeeChunk<T>) -> bool {
        &&& forall|id: TeeSourceId| #[trigger]
            posts(self.outbox(id)@, after.outbox(id)@, message)
        &&& after.continues(self)
    }

    /// What is to be done next; which receiving ends are gone is found out now.
    pub fn next_step(&self, state: &TeeState) -> (step: TeeStep)
        requires
            state.sums_fit(),
        ensures
            exists|gone1: bool, gone2: bool| #[trigger]
                self.finds(gone1, gone2) && step == state.next(gone1, gone2),
    {
        let gone1: bool = self.outbox1.receiver_gone();
        let gone2: bool = self.outbox2.receiver_gone();
        assert(self.finds(gone1, gone2));
        state.next_step(gone1, gone2)
    }

    /// Whether the stream is to be read again; which receiving ends are gone is found out now.
    pub fn should_pull(&self, state: &TeeState) -> (pull: bool)
        requires
            state.sums_fit(),
        ensures
            exists|gone1: bool, gone2: bool| #[trigger]
                self.finds(gone1, gone2) && pull == state.wants_pull(gone1, gone2),
    {
        let gone1: bool = self.outbox1.receiver_gone();
        let gone2: bool = self.outbox2.receiver_gone();
        assert(self.finds(gone1, gone2));
        state.should_pull(gone1, gone2)
    }

    /// Hand a chunk to every active branch: the first is sent a copy, the second the chunk itself.
    pub fn distribute_chunk(&mut self, state: &mut TeeState, chunk: T) where T: Clone
        ensures
            exists|round: TeeRound| #[trigger]
                old(self).hands_out(*final(self), chunk, *old(state), round, *final(state)),
    {
        let gone1: bool = self.outbox1.receiver_gone();
        let gone2: bool = self.outbox2.receiver_gone();
        let (first, second) = state.chunks_to_send(chunk, gone1, gone2);
        let mut delivered1: bool = false;
        let mut delivered2: bool = false;
        match first {
            Some(copy) => {
                delivered1 = self.outbox1.post(TeeChunk::Data(copy));
                state.branch1.record_send(delivered1);
                assert(is_copy(TeeSourceId::Branch1, chunk, TeeChunk::Data(copy)));
            },
            None => {},
        }
        match second {
            Some(chunk) => {
                delivered2 = self.outbox2.post(TeeChunk::Data(chunk));
                state.branch2.record_send(delivered2);
            },
            None => {},
        }
        proof {
            let round = TeeRound { gone1, gone2, delivered1, delivered2 };
            assert(is_copy(TeeSourceId::Branch2, chunk, TeeChunk::Data(chunk)));
            assert(old(self).is_sent(*self, TeeSourceId::Branch1, chunk, *old(state), round));
            assert(old(self).is_sent(*self, TeeSourceId::Branch2, chunk, *old(state), round));
            assert(old(self).hands_out(*self, chunk, *old(state), round, *state));
        }
    }

    /// Tell both branches that the stream has ended; a branch that is gone is not told.
    pub fn end_both(&mut self)
        ensures
            old(self).tells_both(*final(self), TeeChunk::End),
    {
        let (first, second) = last_words(None);
        self.tell_both(first, second);
    }

    /// Tell both branches that the stream has failed; a branch that is gone is not told.
    pub fn fail_both(&mut self, error: StreamError)
        ensures
            old(self).tells_both(*final(self), TeeChunk::Error(error)),
    {
        let (first, second) = last_words(Some(error));
        self.tell_both(first, second);
    }

    fn tell_both(&mut self, first: TeeChunk<T>, second: TeeChunk<T>)
        requires
            first == second,
        ensures
            old(self).tells_both(*final(self), first),
    {
        let taken1: bool = self.outbox1.post(first);
        let taken2: bool = self.outbox2.post(second);
        assert(self.outbox1@ == old(self).outbox1@.push(Posted { message: first, taken: taken1 }));
        assert(self.outbox2@ == old(self).outbox2@.push(Posted { message: first, taken: taken2 }));
    }
}

/// Whether a message hands a branch this chunk: the first branch a copy, the second the chunk
/// itself.
pub open spec fn is_copy<T: Clone>(id: TeeSourceId, chunk: T, message: TeeChunk<T>) -> bool {
    match id {
        TeeSourceId::Branch1 => message matches TeeChunk::Data(copy) && cloned(chunk, copy),
        TeeSourceId::Branch2 => message == TeeChunk::Data(chunk),
    }
}

impl<T: Clone> TeeCoordinator<T> {
    /// What a branch is posted when a chunk is handed out: the chunk if it is active, and nothing
    /// else; otherwise nothing.
    pub open spec fn is_sent(
        self,
        after: Self,
        id: TeeSourceId,
        chunk: T,
        before: TeeState,
        round: TeeRound,
    ) -> bool {
        if before.branch(id).is_active(round.gone(id)) {
            exists|message: TeeChunk<T>| #[trigger]
                is_copy(id, chunk, message) && after.outbox(id)@ == self.outbox(id)@.push(
                    Posted { message, taken: round.delivered(id) },
                )
        } else {
            after.outbox(id)@ == self.outbox(id)@
        }
    }

    /// What handing out a chunk comes to, and makes of the coordinator and of the branches: which
    /// receiving ends are gone is found out; each branch that is active is sent the chunk, and
    /// counts it, or is given up if nobody took it; the other is sent nothing and stays as it is.
    pub open spec fn hands_out(
        self,
        after: Self,
        chunk: T,
        before: TeeState,
        round: TeeRound,
        left: TeeState,
    ) -> bool {
        &&& self.finds(round.gone1, round.gone2)
        &&& self.is_sent(after, TeeSourceId::Branch1, chunk, before, round)
        &&& self.is_sent(after, TeeSourceId::Branch2, chunk, before, round)
        &&& left == before.distributed(
            round.gone1,
            round.gone2,
            round.delivered1,
            round.delivered2,
        )
        &&& after.continues(self)
    }
}

/// The reason given to a stream whose branches are both gone.
pub fn both_branches_terminated() -> (reason: String)
    ensures
        reason@ == Notice::BothBranchesTerminated.words(),
{
    Notice::BothBranchesTerminated.as_str().to_owned()
}

/// What happened when a chunk was handed to the branches: which receiving ends were gone, and which
/// branches took it.
pub struct TeeRound {
    pub gone1: bool,
    pub gone2: bool,
    pub delivered1: bool,
    pub delivered2: bool,
}

impl TeeRound {
    pub open spec fn gone(self, id: TeeSourceId) -> bool {
        match id {
            TeeSourceId::Branch1 => self.gone1,
            TeeSourceId::Branch2 => self.gone2,
        }
    }

    pub open spec fn delivered(self, id: TeeSourceId) -> bool {
        match id {
            TeeSourceId::Branch1 => self.delivered1,
            TeeSourceId::Branch2 => self.delivered2,
        }
    }
}

impl TeeState {
    pub open spec fn branch(self, id: TeeSourceId) -> TeeBranch {
        match id {
            TeeSourceId::Branch1 => self.branch1,
            TeeSourceId::Branch2 => self.branch2,
        }
    }

    /// The branches after some rounds.
    pub open spec fn after_rounds(self, rounds: Seq<TeeRound>) -> Self
        decreases rounds.len(),
    {
        if rounds.len() == 0 {
            self
        } else {
            let round = rounds.last();
            self.after_rounds(rounds.drop_last()).distributed(
                round.gone1,
                round.gone2,
                round.delivered1,
                round.delivered2,
            )
        }
    }

    /// The chunks that a branch was offered, when one chunk was handed out per round, and whether it
    /// took each.
    pub open spec fn offered<T>(
        self,
        id: TeeSourceId,
        chunks: Seq<T>,
        rounds: Seq<TeeRound>,
    ) -> Seq<(T, bool)>
        decreases rounds.len(),
    {
        if rounds.len() == 0 {
            Seq::empty()
        } else {
            let before = self.offered(id, chunks, rounds.drop_last());
            let round = rounds.last();
            if self.after_rounds(rounds.drop_last()).branch(id).is_active(round.gone(id)) {
                before.push((chunks[rounds.len() - 1], round.delivered(id)))
            } else {
                before
            }
        }
    }

    /// The chunks that a branch took, when one chunk was handed out per round.
    pub open spec fn taken<T>(self, id: TeeSourceId, chunks: Seq<T>, rounds: Seq<TeeRound>) -> Seq<T>
        decreases rounds.len(),
    {
        if rounds.len() == 0 {
            Seq::empty()
        } else {
            let before = self.taken(id, chunks, rounds.drop_last());
            let round = rounds.last();
            if self.after_rounds(rounds.drop_last()).branch(id).is_active(round.gone(id))
                && round.delivered(id) {
                before.push(chunks[rounds.len() - 1])
            } else {
                before
            }
        }
    }
}

/// Whether these coordinators and states are what handing out the chunks, one after the other,
/// makes of the first of them.
pub open spec fn hands_out_all<T: Clone>(
    coordinators: Seq<TeeCoordinator<T>>,
    chunks: Seq<T>,
    rounds: Seq<TeeRound>,
    states: Seq<TeeState>,
) -> bool {
    &&& chunks.len() == rounds.len()
    &&& states.len() == rounds.len() + 1
    &&& coordinators.len() == rounds.len() + 1
    &&& forall|i: int|
        0 <= i < rounds.len() ==> (#[trigger] coordinators[i]).hands_out(
            coordinators[i + 1],
            chunks[i],
            states[i],
            rounds[i],
            states[i + 1],
        )
}

/// When a coordinator hands out chunks, one after the other, a branch is posted exactly the chunks
/// of the rounds in which it is active, in order, and nothing else.  Each branch takes the beginning
/// of what was handed out, and all of it as long as it stays: so both branches receive the same
/// data.  A receiving end that is gone stays gone.
pub proof fn law_both_branches_receive_the_same_data<T: Clone>(
    coordinators: Seq<TeeCoordinator<T>>,
    id: TeeSourceId,
    chunks: Seq<T>,
    rounds: Seq<TeeRound>,
    states: Seq<TeeState>,
)
    requires
        hands_out_all(coordinators, chunks, rounds, states),
        forall|i: int, j: int|
            0 <= i <= j < rounds.len() && (#[trigger] rounds[i]).gone(id) ==> (
            #[trigger] rounds[j]).gone(id),
    ensures
        states.last() == states[0].after_rounds(rounds),
        ({
            let before = coordinators[0].outbox(id)@;
            let after = coordinators.last().outbox(id)@;
            let offered = states[0].offered(id, chunks, rounds);
            &&& after.len() == before.len() + offered.len()
            &&& after.subrange(0, before.len() as int) == before
            &&& forall|k: int|
                0 <= k < offered.len() ==> is_copy(
                    id,
                    (#[trigger] offered[k]).0,
                    after[before.len() + k].message,
                ) && after[before.len() + k].taken == offered[k].1
        }),
        states[0].taken(id, chunks, rounds).len() <= chunks.len(),
        states[0].taken(id, chunks, rounds) == chunks.subrange(
            0,
            states[0].taken(id, chunks, rounds).len() as int,
        ),
        !states[0].branch(id).canceled && (forall|i: int|
            0 <= i < rounds.len() ==> !(#[trigger] rounds[i]).gone(id) && rounds[i].delivered(id))
            ==> states[0].taken(id, chunks, rounds) == chunks,
{
    lemma_rounds(coordinators, id, chunks, rounds, states);
    lemma_taken(states[0], id, chunks, rounds);
    let taken = states[0].taken(id, chunks, rounds);
    if taken.len() == chunks.len() {
        assert(chunks.subrange(0, taken.len() as int) =~= chunks);
    }
}

proof fn lemma_rounds<T: Clone>(
    coordinators: Seq<TeeCoordinator<T>>,
    id: TeeSourceId,
    chunks: Seq<T>,
    rounds: Seq<TeeRound>,
    states: Seq<TeeState>,
)
    requires
        hands_out_all(coordinators, chunks, rounds, states),
    ensures
        states.last() == states[0].after_rounds(rounds),
        ({
            let before = coordinators[0].outbox(id)@;
            let after = coordinators.last().outbox(id)@;
            let offered = states[0].offered(id, chunks, rounds);
            &&& after.len() == before.len() + offered.len()
            &&& after.subrange(0, before.len() as int) == before
            &&& forall|k: int|
                0 <= k < offered.len() ==> is_copy(
                    id,
                    (#[trigger] offered[k]).0,
                    after[before.len() + k].message,
                ) && after[before.len() + k].taken == offered[k].1
        }),
    decreases rounds.len(),
{
    let before = coordinators[0].outbox(id)@;
    if rounds.len() == 0 {
        assert(before.subrange(0, before.len() as int) =~= before);
    } else {
        let n = rounds.len() - 1;
        let earlier = coordinators.drop_last();
        assert forall|i: int| 0 <= i < n implies (#[trigger] earlier[i]).hands_out(
            earlier[i + 1],
            chunks.drop_last()[i],
            states.drop_last()[i],
            rounds.drop_last()[i],
            states.drop_last()[i + 1],
        ) by {
            assert(coordinators[i] == earlier[i]);
        }
        lemma_rounds(earlier, id, chunks.drop_last(), rounds.drop_last(), states.drop_last());
        lemma_offered(states[0], id, chunks, rounds.drop_last());
        let middle = earlier.last().outbox(id)@;
        let after = coordinators.last().outbox(id)@;
        assert(coordinators[n].hands_out(
            coordinators[n + 1],
            chunks[n],
            states[n],
            rounds[n],
            states[n + 1],
        ));
        assert(coordinators[n].is_sent(coordinators[n + 1], id, chunks[n], states[n], rounds[n]));
        assert(after.subrange(0, before.len() as int) =~= middle.subrange(0, before.len() as int));
    }
}

/// What a branch is offered depends on the chunks of the rounds only.
proof fn lemma_offered<T>(
    state: TeeState,
    id: TeeSourceId,
    chunks: Seq<T>,
    rounds: Seq<TeeRound>,
)
    requires
        rounds.len() < chunks.len(),
    ensures
        state.offered(id, chunks.drop_last(), rounds) == state.offered(id, chunks, rounds),
    decreases rounds.len(),
{
    if rounds.len() > 0 {
        lemma_offered(state, id, chunks, rounds.drop_last());
    }
}

/// A branch goes on when the other is gone: as long as it is active the stream is not cancelled,
/// and while it has demand the stream is read in every mode but the aggregate one, where what the
/// other branch never took counts as well.
pub proof fn law_a_branch_goes_on_alone(state: TeeState, gone1: bool, gone2: bool)
    requires
        state.branch1.is_active(gone1) != state.branch2.is_active(gone2),
    ensures
        state.next(gone1, gone2) != TeeStep::CancelSource,
        (state.branch1.has_demand(gone1) || state.branch2.has_demand(gone2))
            && state.backpressure_mode != BackpressureMode::Aggregate ==> state.next(gone1, gone2)
            == TeeStep::Read,
        state.backpressure_mode == BackpressureMode::SpecCompliant && state.branch1.pending_count
            is Some && state.branch2.pending_count is Some && !state.branch1.has_demand(gone1)
            && !state.branch2.has_demand(gone2) ==> state.next(gone1, gone2)
            == TeeStep::WaitForDemand,
{
}

proof fn lemma_taken<T>(
    state: TeeState,
    id: TeeSourceId,
    chunks: Seq<T>,
    rounds: Seq<TeeRound>,
)
    requires
        rounds.len() <= chunks.len(),
        forall|i: int, j: int|
            0 <= i <= j < rounds.len() && (#[trigger] rounds[i]).gone(id) ==> (
            #[trigger] rounds[j]).gone(id),
    ensures
        ({
            let taken = state.taken(id, chunks, rounds);
            let after = state.after_rounds(rounds).branch(id);
            &&& taken.len() <= rounds.len()
            &&& taken == chunks.subrange(0, taken.len() as int)
            &&& taken.len() == rounds.len() || after.canceled || (rounds.len() > 0
                && rounds.last().gone(id))
            &&& (!state.branch(id).canceled && (forall|i: int|
                0 <= i < rounds.len() ==> !(#[trigger] rounds[i]).gone(id) && rounds[i].delivered(
                    id,
                ))) ==> taken.len() == rounds.len() && !after.canceled
        }),
    decreases rounds.len(),
{
    if rounds.len() > 0 {
        let earlier = rounds.drop_last();
        assert forall|i: int, j: int|
            0 <= i <= j < earlier.len() && (#[trigger] earlier[i]).gone(id) implies (
        #[trigger] earlier[j]).gone(id) by {
            assert(earlier[i] == rounds[i] && earlier[j] == rounds[j]);
        }
        lemma_taken(state, id, chunks, earlier);
        let before = state.taken(id, chunks, earlier);
        let taken = state.taken(id, chunks, rounds);
        if earlier.len() > 0 {
            assert(earlier.last() == rounds[rounds.len() - 2]);
            assert(rounds.last() == rounds[rounds.len() - 1]);
        }
        if !state.branch(id).canceled && (forall|i: int|
            0 <= i < rounds.len() ==> !(#[trigger] rounds[i]).gone(id) && rounds[i].delivered(id)) {
            assert forall|i: int| 0 <= i < earlier.len() implies !(#[trigger] earlier[i]).gone(id)
                && earlier[i].delivered(id) by {
                assert(earlier[i] == rounds[i]);
            }
            assert(!rounds[rounds.len() - 1].gone(id));
        }
        if taken != before {
            assert(taken =~= chunks.subrange(0, taken.len() as int));
        }
    } else {
        assert(state.taken(id, chunks, rounds) =~= chunks.subrange(0, 0));
    }
}

/// A mode that waits for the slower branch reads only when the mode that follows the faster one
/// would; the unbounded mode reads whenever any mode would; and no mode reads for nobody.
pub proof fn law_modes_are_ordered(state: TeeState, gone1: bool, gone2: bool)
    ensures
        ({
            let slowest = TeeState { backpressure_mode: BackpressureMode::SlowestConsumer, ..state };
            let compliant = TeeState { backpressure_mode: BackpressureMode::SpecCompliant, ..state };
            let unbounded = TeeState { backpressure_mode: BackpressureMode::Unbounded, ..state };
            &&& slowest.wants_pull(gone1, gone2) ==> compliant.wants_pull(gone1, gone2)
            &&& state.wants_pull(gone1, gone2) ==> unbounded.wants_pull(gone1, gone2)
            &&& state.wants_pull(gone1, gone2) ==> state.branch1.is_active(gone1)
                || state.branch2.is_active(gone2)
        }),
{
}

impl TeeBranch {
    /// Whether a counted branch holds fewer chunks than its mark.
    pub open spec fn is_below_its_mark(self) -> bool {
        self.pending_count matches Some(count) && count < self.high_water_mark
    }
}

impl TeeState {
    /// The same split with its branches exchanged.
    pub open spec fn exchanged(self) -> Self {
        TeeState { branch1: self.branch2, branch2: self.branch1, ..self }
    }
}

/// When a split stream is read, in every mode, for every state of its two branches.  It is read for
/// nobody if both were given up or are gone.  Otherwise: where the slower branch throttles, it is
/// read exactly while every active branch is below its mark, so an active branch of either number
/// that has reached its mark stops the reading; where the faster one drives, exactly while some
/// active branch is below its mark; where the branches count together, exactly while together they
/// hold less than their marks together; and in the unbounded mode, or with a branch that is not
/// counted, always.
pub proof fn law_when_a_split_stream_is_read(state: TeeState, gone1: bool, gone2: bool)
    ensures
        ({
            let active1 = !state.branch1.canceled && !gone1;
            let active2 = !state.branch2.canceled && !gone2;
            let counted = state.branch1.pending_count is Some && state.branch2.pending_count
                is Some;
            let read = state.wants_pull(gone1, gone2);
            &&& !active1 && !active2 ==> !read
            &&& active1 || active2 ==> {
                &&& !counted || state.backpressure_mode == BackpressureMode::Unbounded ==> read
                &&& counted && state.backpressure_mode == BackpressureMode::SlowestConsumer ==> (
                read <==> {
                    &&& active1 ==> state.branch1.is_below_its_mark()
                    &&& active2 ==> state.branch2.is_below_its_mark()
                })
                &&& counted && state.backpressure_mode == BackpressureMode::SpecCompliant ==> (read
                    <==> {
                    ||| active1 && state.branch1.is_below_its_mark()
                    ||| active2 && state.branch2.is_below_its_mark()
                })
                &&& counted && state.backpressure_mode == BackpressureMode::Aggregate ==> (read
                    <==> state.branch1.pending_count->0 + state.branch2.pending_count->0
                    < state.branch1.high_water_mark + state.branch2.high_water_mark)
            }
        }),
{
}

/// Neither branch counts for more than the other: exchanging the two changes neither when the stream
/// is read nor what the coordinator does next.
pub proof fn law_branches_are_alike(state: TeeState, gone1: bool, gone2: bool)
    ensures
        state.exchanged().wants_pull(gone2, gone1) == state.wants_pull(gone1, gone2),
        state.exchanged().next(gone2, gone1) == state.next(gone1, gone2),
        state.exchanged().sums_fit() == state.sums_fit(),
{
}

/// A branch that takes a chunk never stops the reading: what is read before is read after.
pub proof fn law_taking_never_stops_the_reading(state: TeeState, gone1: bool, gone2: bool)
    requires
        state.wants_pull(gone1, gone2),
    ensures
        state.branch1.pending_count != Some(0usize) ==> (TeeState {
            branch1: state.branch1.after_take(),
            ..state
        }).wants_pull(gone1, gone2),
        state.branch2.pending_count != Some(0usize) ==> (TeeState {
            branch2: state.branch2.after_take(),
            ..state
        }).wants_pull(gone1, gone2),
{
}

/// What the coordinator does next: it cancels the stream if and only if both branches were given up
/// or are gone, reads it if and only if it is to be read, and waits otherwise.
pub proof fn law_what_the_coordinator_does_next(state: TeeState, gone1: bool, gone2: bool)
    ensures
        state.next(gone1, gone2) == TeeStep::CancelSource <==> (state.branch1.canceled || gone1) && (
        state.branch2.canceled || gone2),
        state.next(gone1, gone2) == TeeStep::Read <==> state.wants_pull(gone1, gone2),
        state.next(gone1, gone2) == TeeStep::WaitForDemand ==> state.backpressure_mode
            != BackpressureMode::Unbounded,
{
}

/// A new split: nothing is given up, nothing is pending, the marks are those that were asked for,
/// and chunks are counted in every mode but the unbounded one.  It is read at once, unless its marks
/// forbid it.
pub proof fn law_a_new_split_is_read_at_once(mode: BackpressureMode, hwm1: usize, hwm2: usize)
    ensures
        ({
            let state = TeeState::initial(mode, hwm1, hwm2);
            &&& state.backpressure_mode == mode
            &&& !state.branch1.canceled && !state.branch2.canceled
            &&& state.branch1.high_water_mark == hwm1 && state.branch2.high_water_mark == hwm2
            &&& forall|id: TeeSourceId|
                (#[trigger] state.branch(id)).pending_count == if mode
                    == BackpressureMode::Unbounded {
                    None
                } else {
                    Some(0usize)
                }
            &&& hwm1 > 0 && hwm2 > 0 ==> state.wants_pull(false, false)
        }),
{
}

/// What a branch holds is counted chunk by chunk: one more when it is sent one, one less when it
/// takes one; it is given up if and only if nobody took what it was sent, and then counts nothing
/// more.  Its mark never changes, and a branch that is not counted stays so.
pub proof fn law_chunks_are_counted_one_by_one(branch: TeeBranch, count: usize)
    ensures
        branch.after_send(true).canceled == branch.canceled,
        branch.after_send(false).canceled,
        branch.after_send(false).pending_count == branch.pending_count,
        branch.after_take().canceled == branch.canceled,
        branch.pending_count == Some(count) && count < usize::MAX ==> branch.after_send(
            true,
        ).pending_count == Some((count + 1) as usize),
        branch.pending_count == Some(count) && count > 0 ==> branch.after_take().pending_count
            == Some((count - 1) as usize),
        branch.pending_count is None ==> branch.after_send(true).pending_count is None
            && branch.after_take().pending_count is None,
        branch.after_send(true).high_water_mark == branch.high_water_mark,
        branch.after_send(false).high_water_mark == branch.high_water_mark,
        branch.after_take().high_water_mark == branch.high_water_mark,
{
}

/// A chunk that is handed out concerns the active branches only, and each for itself: an active
/// branch counts it, or is given up if nobody took it; any other stays as it is; and the mode stays.
pub proof fn law_a_chunk_concerns_active_branches_only(
    state: TeeState,
    round: TeeRound,
    id: TeeSourceId,
)
    ensures
        ({
            let next = state.distributed(
                round.gone1,
                round.gone2,
                round.delivered1,
                round.delivered2,
            );
            let before = state.branch(id);
            let after = next.branch(id);
            &&& next.backpressure_mode == state.backpressure_mode
            &&& before.canceled || round.gone(id) ==> after == before
            &&& !before.canceled && !round.gone(id) ==> {
                &&& after.canceled <==> !round.delivered(id)
                &&& after.high_water_mark == before.high_water_mark
                &&& after.pending_count == (match before.pending_count {
                    Some(count) => Some(
                        if !round.delivered(id) {
                            count
                        } else if count == usize::MAX {
                            0
                        } else {
                            (count + 1) as usize
                        },
                    ),
                    None => None,
                })
            }
        }),
{
}

/// The last words reach both branches alike: each is posted the one message, behind everything that
/// it was posted before, and nothing else.
pub proof fn law_last_words_reach_both_branches<T>(
    before: TeeCoordinator<T>,
    after: TeeCoordinator<T>,
    message: TeeChunk<T>,
    id: TeeSourceId,
)
    requires
        before.tells_both(after, message),
    ensures
        after.outbox(id)@.len() == before.outbox(id)@.len() + 1,
        after.outbox(id)@.drop_last() == before.outbox(id)@,
        after.outbox(id)@.last().message == message,
        after.outbox(id).end() == before.outbox(id).end(),
{
    assert(posts(before.outbox(id)@, after.outbox(id)@, message));
    assert(after.outbox(id)@.drop_last() =~= before.outbox(id)@);
}

/// What handing out a chunk comes to, branch by branch.  Whether a receiving end is gone is looked
/// for first.  A branch that was given up, or is found gone, is posted nothing and stays as it is; an
/// active one is posted one message, the chunk, behind everything else, and is given up if and only
/// if that is not taken.
pub proof fn law_what_handing_out_comes_to<T: Clone>(
    before: TeeCoordinator<T>,
    after: TeeCoordinator<T>,
    chunk: T,
    state: TeeState,
    round: TeeRound,
    left: TeeState,
    id: TeeSourceId,
)
    requires
        before.hands_out(after, chunk, state, round, left),
    ensures
        before.outbox(id).finds(round.gone(id)),
        after.outbox(id).end() == before.outbox(id).end(),
        left.backpressure_mode == state.backpressure_mode,
        state.branch(id).canceled || round.gone(id) ==> {
            &&& after.outbox(id)@ == before.outbox(id)@
            &&& left.branch(id) == state.branch(id)
        },
        !state.branch(id).canceled && !round.gone(id) ==> {
            &&& after.outbox(id)@.len() == before.outbox(id)@.len() + 1
            &&& after.outbox(id)@.drop_last() == before.outbox(id)@
            &&& is_copy(id, chunk, after.outbox(id)@.last().message)
            &&& after.outbox(id)@.last().taken == round.delivered(id)
            &&& left.branch(id).canceled <==> !round.delivered(id)
        },
{
    assert(before.is_sent(after, id, chunk, state, round));
    if !state.branch(id).canceled && !round.gone(id) {
        let message = choose|message: TeeChunk<T>| #[trigger]
            is_copy(id, chunk, message) && after.outbox(id)@ == before.outbox(id)@.push(
                Posted { message, taken: round.delivered(id) },
            );
        assert(after.outbox(id)@.drop_last() =~= before.outbox(id)@);
    }
}

/// What a branch is handed is the chunk: the second branch gets it as it is, the first a copy of it,
/// and neither is told of an end or a failure instead.
pub proof fn law_a_branch_is_handed_the_chunk<T: Clone>(
    id: TeeSourceId,
    chunk: T,
    message: TeeChunk<T>,
)
    requires
        is_copy(id, chunk, message),
    ensures
        message is Data,
        id == TeeSourceId::Branch2 ==> message->Data_0 == chunk,
        id == TeeSourceId::Branch1 ==> cloned(chunk, message->Data_0),
{
}

/// The aggregate mode asks for sums that can be formed, of counted branches; no other mode asks for
/// anything.
pub proof fn law_sums_are_asked_of_the_aggregate_mode_only(state: TeeState)
    ensures
        !state.sums_fit() <==> {
            &&& state.backpressure_mode == BackpressureMode::Aggregate
            &&& state.branch1.pending_count is Some
            &&& state.branch2.pending_count is Some
            &&& state.branch1.pending_count->0 + state.branch2.pending_count->0 > usize::MAX
                || state.branch1.high_water_mark + state.branch2.high_water_mark > usize::MAX
        },
{
}

/// A branch that takes what it was sent counts as before.
pub proof fn law_taking_undoes_sending(branch: TeeBranch)
    ensures
        branch.after_send(true).after_take() == branch,
        branch.after_take().after_send(true) == branch,
{
}

} // verus!
