use futures::channel::mpsc::{unbounded, UnboundedReceiver};

use whatwg_streams::error::{StreamError, StreamResult};
use whatwg_streams::readable::effect::{ControllerMsg, ReadableEffect, StreamCommand};
use whatwg_streams::readable::inner::ReadableStreamInner;
use whatwg_streams::readable::tee::{
    after_read, before_take, both_branches_terminated, last_words, take_chunk, BackpressureMode,
    TeeBranch, TeeBuilder, TeeChunk, TeeConfig, TeeCoordinator, TeeOutcome, TeePull, TeeState,
    TeeStep,
};
use whatwg_streams::strategy::{CountQueuingStrategy, QueuingStrategy};
use whatwg_streams::wakers::{AsyncSignal, WakerSet};

fn received<T>(rx: &mut UnboundedReceiver<TeeChunk<T>>) -> Option<TeeChunk<T>> {
    rx.try_recv().ok()
}

/// A branch of a split stream: its machine, its receiving end, and the answers to its reads.
struct Branch<T> {
    inner: ReadableStreamInner<T, (), CountQueuingStrategy, u32, u32, u32>,
    rx: UnboundedReceiver<TeeChunk<T>>,
    pulling: bool,
    answer: Option<StreamResult<Option<T>>>,
}

impl<T> Branch<T> {
    fn new(rx: UnboundedReceiver<TeeChunk<T>>) -> Self {
        let mut inner = ReadableStreamInner::new((), CountQueuingStrategy::new(1));
        inner.start_begun().unwrap();
        inner.start_finished((), Ok(()));
        Branch { inner, rx, pulling: false, answer: None }
    }

    fn command(&mut self, command: StreamCommand<u32, u32, u32>) {
        self.inner.process_command(command, |a: &u32, b: &u32| a == b);
    }

    /// Do what can be done without waiting; whether anything was.
    fn settle(&mut self, branch: &mut TeeBranch) -> bool {
        self.inner.maybe_pull();
        let effects = self.inner.take_effects();
        let mut progress = !effects.is_empty();
        for effect in effects {
            match effect {
                ReadableEffect::StartPull(()) => self.pulling = true,
                ReadableEffect::StartCancel((), _) => {
                    branch.cancel();
                    self.inner.cancel_finished(Ok(()));
                }
                ReadableEffect::ReplyRead(_, answer) => self.answer = Some(answer),
                _ => {}
            }
        }
        if self.pulling {
            let pull = match before_take(branch) {
                Some(pull) => Some(pull),
                None => received(&mut self.rx).map(|chunk| take_chunk(branch, Some(chunk)).0),
            };
            if let Some(pull) = pull {
                progress = true;
                self.pulling = false;
                let outcome = match pull {
                    TeePull::Enqueue(chunk) => {
                        self.inner.process_controller_msg(ControllerMsg::Enqueue { chunk });
                        Ok(())
                    }
                    TeePull::Close => {
                        self.inner.process_controller_msg(ControllerMsg::Close);
                        Ok(())
                    }
                    TeePull::Fail(error) => Err(error),
                };
                self.inner.pull_finished((), outcome);
            }
        }
        progress
    }
}

/// A split stream, as its builder makes it by default.
struct Split<T> {
    source: Vec<StreamResult<T>>,
    coordinator: TeeCoordinator<T>,
    state: TeeState,
    branches: (Branch<T>, Branch<T>),
    /// What the stream was told when both branches were gone.
    canceled: Option<String>,
    over: bool,
}

impl<T: Clone> Split<T> {
    fn new(source: Vec<StreamResult<T>>) -> Self {
        let (tx1, rx1) = unbounded();
        let (tx2, rx2) = unbounded();
        let mut split = Split {
            source,
            coordinator: TeeCoordinator::new(tx1, tx2),
            state: TeeBuilder::new(()).branches::<T>(),
            branches: (Branch::new(rx1), Branch::new(rx2)),
            canceled: None,
            over: false,
        };
        split.settle();
        split
    }

    fn of(chunks: Vec<T>) -> Self {
        Split::new(chunks.into_iter().map(Ok).collect())
    }

    /// Let the coordinator and the branches do what they can.
    fn settle(&mut self) {
        loop {
            let mut progress = self.branches.0.settle(&mut self.state.branch1);
            progress |= self.branches.1.settle(&mut self.state.branch2);
            if !self.over {
                match self.coordinator.next_step(&self.state) {
                    TeeStep::WaitForDemand => {}
                    TeeStep::CancelSource => {
                        self.canceled = Some(both_branches_terminated());
                        self.over = true;
                    }
                    TeeStep::Read => {
                        progress = true;
                        let read = if self.source.is_empty() {
                            Ok(None)
                        } else {
                            self.source.remove(0).map(Some)
                        };
                        match after_read(read) {
                            TeeOutcome::Distribute(chunk) => {
                                self.coordinator.distribute_chunk(&mut self.state, chunk)
                            }
                            TeeOutcome::EndBoth => {
                                self.coordinator.end_both();
                                self.over = true;
                            }
                            TeeOutcome::FailBoth(error) => {
                                self.coordinator.fail_both(error);
                                self.over = true;
                            }
                        }
                    }
                }
            }
            if !progress {
                return;
            }
        }
    }

    fn branch(&mut self, which: usize) -> &mut Branch<T> {
        if which == 1 {
            &mut self.branches.0
        } else {
            &mut self.branches.1
        }
    }

    fn read(&mut self, which: usize) -> StreamResult<Option<T>> {
        self.branch(which).command(StreamCommand::Read { completion: 0 });
        self.settle();
        self.branch(which).answer.take().expect("the read still waits")
    }

    fn cancel(&mut self, which: usize, reason: &str) {
        let reason = Some(reason.to_string());
        self.branch(which).command(StreamCommand::Cancel { reason, cancel_completion: 0 });
        self.settle();
    }
}

fn test_data() -> Vec<i32> {
    vec![1, 2, 3, 4, 5]
}

#[test]
fn test_default_tee_still_works() {
    let (tx1, mut rx1) = unbounded();
    let (tx2, mut rx2) = unbounded();
    let mut coordinator = TeeCoordinator::new(tx1, tx2);
    let mut state = TeeState::new(BackpressureMode::SpecCompliant, 1, 1);
    let mut source = test_data().into_iter();
    let mut got1 = Vec::new();
    let mut got2 = Vec::new();
    loop {
        match coordinator.next_step(&state) {
            TeeStep::Read => match after_read::<i32>(Ok(source.next())) {
                TeeOutcome::Distribute(chunk) => coordinator.distribute_chunk(&mut state, chunk),
                TeeOutcome::EndBoth => {
                    coordinator.end_both();
                    break;
                }
                TeeOutcome::FailBoth(_) => panic!("the source does not fail"),
            },
            TeeStep::WaitForDemand => {
                let (taken1, signal1) = take_chunk(&mut state.branch1, received(&mut rx1));
                let (taken2, signal2) = take_chunk(&mut state.branch2, received(&mut rx2));
                assert!(signal1 && signal2);
                for (taken, got) in [(taken1, &mut got1), (taken2, &mut got2)] {
                    match taken {
                        TeePull::Enqueue(chunk) => got.push(chunk),
                        _ => panic!("there is a chunk"),
                    }
                }
            }
            TeeStep::CancelSource => panic!("both branches are there"),
        }
    }
    assert_eq!(got1, test_data());
    assert_eq!(got2, test_data());
    assert!(matches!(received(&mut rx1), Some(TeeChunk::End)));
    assert!(matches!(received(&mut rx2), Some(TeeChunk::End)));
}

#[test]
fn splits_stream_into_two_identical_branches() {
    let mut split = Split::of(vec![1, 2, 3, 4]);
    for expected in [Some(1), Some(2), Some(3), Some(4), None] {
        assert_eq!(split.read(1).unwrap(), expected);
        assert_eq!(split.read(2).unwrap(), expected);
    }
}

#[test]
fn handles_different_consumption_speeds() {
    let mut split = Split::of(vec![1, 2, 3]);
    assert_eq!(split.read(1).unwrap(), Some(1));
    assert_eq!(split.read(1).unwrap(), Some(2));
    assert_eq!(split.read(1).unwrap(), Some(3));
    assert_eq!(split.read(1).unwrap(), None);
    assert_eq!(split.read(2).unwrap(), Some(1));
    assert_eq!(split.read(2).unwrap(), Some(2));
    assert_eq!(split.read(2).unwrap(), Some(3));
    assert_eq!(split.read(2).unwrap(), None);
}

#[test]
fn continues_when_one_branch_cancels() {
    let mut split = Split::of(vec![1, 2, 3, 4]);
    assert_eq!(split.read(1).unwrap(), Some(1));
    assert_eq!(split.read(2).unwrap(), Some(1));
    split.cancel(1, "Branch 1 canceled");
    assert_eq!(split.read(2).unwrap(), Some(2));
    assert_eq!(split.read(2).unwrap(), Some(3));
    assert_eq!(split.read(2).unwrap(), Some(4));
    assert_eq!(split.read(2).unwrap(), None);
}

#[test]
fn stops_when_both_branches_cancel() {
    let mut split = Split::of(vec![1, 2, 3, 4]);
    assert_eq!(split.read(1).unwrap(), Some(1));
    assert_eq!(split.read(2).unwrap(), Some(1));
    split.cancel(1, "Branch 1 canceled");
    assert!(!split.over);
    split.cancel(2, "Branch 2 canceled");
    assert!(split.over);
    assert_eq!(split.canceled, Some("Both tee branches terminated".to_string()));
    assert!(!split.source.is_empty());
}

#[test]
fn handles_empty_source_stream() {
    let mut split = Split::of(Vec::<i32>::new());
    assert_eq!(split.read(1).unwrap(), None);
    assert_eq!(split.read(2).unwrap(), None);
}

#[test]
fn propagates_source_errors_to_both_branches() {
    let mut split = Split::new(vec![Ok(0), Ok(1), Err(StreamError::from("Test error"))]);
    assert_eq!(split.read(1).unwrap(), Some(0));
    assert_eq!(split.read(2).unwrap(), Some(0));
    assert_eq!(split.read(1).unwrap(), Some(1));
    assert_eq!(split.read(2).unwrap(), Some(1));
    assert_eq!(split.read(1).unwrap_err().to_text(), "Test error");
    assert_eq!(split.read(2).unwrap_err().to_text(), "Test error");
}

#[test]
fn works_with_different_data_types() {
    let mut split = Split::of(vec!["hello".to_string(), "world".to_string()]);
    for expected in [Some("hello".to_string()), Some("world".to_string()), None] {
        assert_eq!(split.read(1).unwrap(), expected);
        assert_eq!(split.read(2).unwrap(), expected);
    }
}

#[test]
fn a_chunk_goes_to_the_branch_that_is_left() {
    let (tx1, rx1) = unbounded();
    let (tx2, mut rx2) = unbounded();
    let mut coordinator = TeeCoordinator::new(tx1, tx2);
    let mut state = TeeState::new(BackpressureMode::SpecCompliant, 1, 1);
    drop(rx1);
    assert_eq!(coordinator.next_step(&state), TeeStep::Read);
    coordinator.distribute_chunk(&mut state, 9);
    assert!(matches!(received(&mut rx2), Some(TeeChunk::Data(9))));
    assert_eq!(state.branch1.pending_count, Some(0));
    assert_eq!(state.branch2.pending_count, Some(1));
    // The branch that is left wants one chunk and has it.
    assert_eq!(coordinator.next_step(&state), TeeStep::WaitForDemand);
    assert!(!coordinator.should_pull(&state));
}

#[test]
fn a_branch_that_was_given_up_closes_before_it_receives() {
    let mut state = TeeState::new(BackpressureMode::SpecCompliant, 1, 1);
    assert!(before_take::<i32>(&state.branch1).is_none());
    state.branch1.cancel();
    assert!(matches!(before_take::<i32>(&state.branch1), Some(TeePull::Close)));
    assert!(before_take::<i32>(&state.branch2).is_none());
}

#[test]
fn modes_decide_when_to_read() {
    let with_pending = |mode: BackpressureMode, pending1: usize, pending2: usize| {
        let mut state = TeeState::new(mode, 2, 3);
        for _ in 0..pending1 {
            state.branch1.record_send(true);
        }
        for _ in 0..pending2 {
            state.branch2.record_send(true);
        }
        state
    };
    let compliant = BackpressureMode::SpecCompliant;
    assert!(with_pending(compliant, 2, 2).should_pull(false, false));
    assert!(!with_pending(compliant, 2, 3).should_pull(false, false));
    assert!(!with_pending(compliant, 2, 3).should_pull(true, false));
    assert!(with_pending(compliant, 2, 2).should_pull(true, false));
    assert!(!with_pending(compliant, 0, 3).should_pull(true, false));
    let slowest = BackpressureMode::SlowestConsumer;
    assert!(!with_pending(slowest, 2, 2).should_pull(false, false));
    assert!(with_pending(slowest, 1, 2).should_pull(false, false));
    assert!(with_pending(slowest, 2, 2).should_pull(true, false));
    let aggregate = BackpressureMode::Aggregate;
    assert!(with_pending(aggregate, 4, 0).should_pull(false, false));
    assert!(!with_pending(aggregate, 5, 0).should_pull(false, false));
    let unbounded_mode = BackpressureMode::Unbounded;
    assert!(with_pending(unbounded_mode, 50, 50).should_pull(false, false));
    assert!(!with_pending(unbounded_mode, 0, 0).should_pull(true, true));
    assert_eq!(with_pending(slowest, 2, 2).next_step(false, false), TeeStep::WaitForDemand);
}

#[test]
fn a_branch_that_nobody_takes_from_is_given_up() {
    let mut state = TeeState::new(BackpressureMode::SpecCompliant, 1, 1);
    state.branch1.record_send(false);
    assert!(state.branch1.canceled);
    assert_eq!(state.branch1.pending_count, Some(0));
    let mut counted = TeeState::new(BackpressureMode::SpecCompliant, 1, 1);
    counted.branch1.record_send(true);
    assert!(counted.branch1.record_take());
    assert!(!counted.branch1.record_take());
    assert_eq!(counted.branch1.pending_count, Some(usize::MAX));
    counted.branch1.record_send(true);
    assert_eq!(counted.branch1.pending_count, Some(0));
    let mut uncounted = TeeState::new(BackpressureMode::Unbounded, 1, 1);
    uncounted.branch2.record_send(true);
    assert!(!uncounted.branch2.record_take());
    assert_eq!(uncounted.branch2.pending_count, None);
}

#[test]
fn a_branch_closes_when_nothing_is_left() {
    let mut state = TeeState::new(BackpressureMode::SpecCompliant, 1, 1);
    assert!(matches!(
        take_chunk::<i32>(&mut state.branch1, None),
        (TeePull::Close, false)
    ));
    assert!(matches!(
        take_chunk::<i32>(&mut state.branch1, Some(TeeChunk::End)),
        (TeePull::Close, false)
    ));
}

#[test]
fn the_default_configuration_is_unbounded() {
    let config = TeeConfig::default();
    assert_eq!(config.backpressure_mode, BackpressureMode::Unbounded);
    assert_eq!(config.branch1_hwm, None);
    assert_eq!(config.branch2_hwm, None);
    assert_eq!(config.max_buffer_per_branch, Some(1000));
}

#[test]
fn signals_are_taken_once() {
    let mut signal: AsyncSignal<u32> = AsyncSignal::new();
    assert!(!signal.poll_wait(1));
    assert!(!signal.poll_wait(2));
    assert_eq!(signal.signal(), Some(2));
    assert!(signal.poll_wait(3));
    assert!(!signal.poll_wait(4));
    assert_eq!(signal.signal(), Some(4));
    assert_eq!(signal.signal(), None);
}

#[test]
fn waker_sets_leave_out_repetitions() {
    let same = |a: &u32, b: &u32| a % 10 == b % 10;
    let mut set: WakerSet<u32> = WakerSet::new();
    set.register(1, same);
    set.register(12, same);
    set.register(11, same);
    assert_eq!(set.wake_all(), vec![1, 12]);
    assert_eq!(set.wake_all(), Vec::<u32>::new());
    set.register(5, same);
    set.clear();
    assert_eq!(set.wake_all(), Vec::<u32>::new());
}

#[test]
fn a_split_is_put_together() {
    let builder = TeeBuilder::new("stream");
    assert_eq!(builder.mode, BackpressureMode::SpecCompliant);
    let state = builder.branches::<i32>();
    assert_eq!((state.branch1.high_water_mark, state.branch2.high_water_mark), (1, 1));
    assert_eq!(state.branch1.pending_count, Some(0));

    let builder = builder
        .backpressure_mode(BackpressureMode::Unbounded)
        .branch1_strategy(CountQueuingStrategy::new(3))
        .branch2_strategy(CountQueuingStrategy::new(4));
    assert_eq!(builder.stream, "stream");
    let state = builder.branches::<i32>();
    assert_eq!(state.backpressure_mode, BackpressureMode::Unbounded);
    assert_eq!((state.branch1.high_water_mark, state.branch2.high_water_mark), (3, 4));
    assert_eq!(state.branch2.pending_count, None);

    let both = builder.strategy(CountQueuingStrategy::new(7));
    assert_eq!(QueuingStrategy::<i32>::high_water_mark(&both.branch1_strategy), 7);
    assert_eq!(QueuingStrategy::<i32>::high_water_mark(&both.branch2_strategy), 7);
}

#[test]
fn sums_are_formed_only_where_they_fit() {
    assert!(TeeState::new(BackpressureMode::Aggregate, 1, 2).sums_can_be_formed());
    assert!(!TeeState::new(BackpressureMode::Aggregate, usize::MAX, 1).sums_can_be_formed());
    assert!(TeeState::new(BackpressureMode::SlowestConsumer, usize::MAX, 1).sums_can_be_formed());
}

#[test]
fn branches_can_be_given_the_same_buffer() {
    let mut state = TeeState::with_buffer(BackpressureMode::SlowestConsumer, Some(2));
    assert!(state.should_pull(false, false));
    state.branch1.record_send(true);
    state.branch1.record_send(true);
    assert!(!state.should_pull(false, false));

    let mut state = TeeState::with_buffer(BackpressureMode::Aggregate, Some(2));
    for _ in 0..3 {
        state.branch1.record_send(true);
    }
    assert!(state.should_pull(false, false));
    state.branch2.record_send(true);
    assert!(!state.should_pull(false, false));

    let state = TeeState::with_buffer(BackpressureMode::SpecCompliant, None);
    assert_eq!((state.branch1.high_water_mark, state.branch2.high_water_mark), (1000, 1000));
}

#[test]
fn both_branches_are_told_the_same_last() {
    assert!(matches!(last_words::<i32>(None), (TeeChunk::End, TeeChunk::End)));
    match last_words::<i32>(Some(StreamError::Closed)) {
        (TeeChunk::Error(first), TeeChunk::Error(second)) => {
            assert!(matches!(first, StreamError::Closed));
            assert!(matches!(second, StreamError::Closed));
        }
        _ => panic!("a failure is told as one"),
    }
}
