use futures::executor::block_on;
use futures::stream::StreamExt;

use whatwg_streams::error::{StreamError, StreamResult};
use whatwg_streams::readable::builder::{
    DefaultStream, ReadableStreamBuilder, SpawnConfig,
};
use whatwg_streams::readable::effect::{
    ControllerMsg, ReadableEffect, StreamCommand, StreamState,
};
use whatwg_streams::readable::handle::{answer_or_dropped, NextItem, ReadableStream};
use whatwg_streams::readable::byte_state::Polled;
use whatwg_streams::readable::inner::ReadableStreamInner;
use whatwg_streams::readable::source::{produced, IteratorSource};
use whatwg_streams::strategy::{
    room_can_be_shown, update_desired_size, ByteLengthQueuingStrategy, CountQueuingStrategy, QueuingStrategy,
};

type Effect<T, Src> = ReadableEffect<T, Src, u32, u32, u32>;
type Spawn = fn();

/// A source that can be pulled without waiting.
trait Pull<T> {
    fn start(&mut self) -> (Vec<ControllerMsg<T>>, StreamResult<()>) {
        (Vec::new(), Ok(()))
    }
    fn pull(&mut self) -> (Vec<ControllerMsg<T>>, StreamResult<()>);
    fn cancel(&mut self, _reason: Option<String>) -> StreamResult<()> {
        Ok(())
    }
}

impl<I: Iterator> Pull<I::Item> for IteratorSource<I> {
    fn pull(&mut self) -> (Vec<ControllerMsg<I::Item>>, StreamResult<()>) {
        (vec![self.next_message()], Ok(()))
    }
}

/// Runs the machine until it has nothing more to do.
struct Driver<T, Src, S: QueuingStrategy<T>> {
    inner: ReadableStreamInner<T, Src, S, u32, u32, u32>,
    stream: ReadableStream,
    reads: Vec<(u32, StreamResult<Option<T>>)>,
    cancels: Vec<(u32, StreamResult<()>)>,
    woken: Vec<u32>,
    pulls: usize,
    next_id: u32,
}

impl<T, Src: Pull<T>, S: QueuingStrategy<T>> Driver<T, Src, S> {
    fn new(inner: ReadableStreamInner<T, Src, S, u32, u32, u32>) -> Self {
        let mut driver = Driver {
            inner,
            stream: ReadableStream::new(),
            reads: Vec::new(),
            cancels: Vec::new(),
            woken: Vec::new(),
            pulls: 0,
            next_id: 0,
        };
        let mut source = driver.inner.start_begun().unwrap();
        let (messages, outcome) = source.start();
        driver.inner.start_finished(source, outcome);
        for message in messages {
            driver.message(message);
        }
        driver.settle();
        driver
    }

    fn settle(&mut self) {
        loop {
            self.inner.maybe_pull();
            self.stream.publish(
                self.inner.is_closed(),
                self.inner.is_errored(),
                self.inner.stored_error(),
            );
            let effects: Vec<Effect<T, Src>> = self.inner.take_effects();
            if effects.is_empty() {
                return;
            }
            for effect in effects {
                match effect {
                    ReadableEffect::ReplyRead(id, outcome) => self.reads.push((id, outcome)),
                    ReadableEffect::ReplyCancel(id, outcome) => self.cancels.push((id, outcome)),
                    ReadableEffect::Wake(id) => self.woken.push(id),
                    ReadableEffect::StartPull(mut source) => {
                        self.pulls += 1;
                        let (messages, outcome) = source.pull();
                        for message in messages {
                            self.message(message);
                        }
                        self.inner.pull_finished(source, outcome);
                    }
                    ReadableEffect::StartCancel(mut source, reason) => {
                        let outcome = source.cancel(reason);
                        self.inner.cancel_finished(outcome);
                    }
                    ReadableEffect::Repoll => {}
                }
            }
        }
    }

    fn message(&mut self, message: ControllerMsg<T>) {
        if let ControllerMsg::Enqueue { chunk } = &message {
            assert!(self.inner.can_enqueue(chunk));
        }
        self.inner.process_controller_msg(message);
    }

    fn command(&mut self, command: StreamCommand<u32, u32, u32>) {
        assert!(self.inner.can_read());
        self.inner.process_command(command, |a: &u32, b: &u32| a == b);
    }

    /// Ask for a chunk; the answer, if there is one.
    fn try_read(&mut self) -> Option<StreamResult<Option<T>>> {
        let completion = self.next_id;
        self.next_id += 1;
        self.command(StreamCommand::Read { completion });
        self.settle();
        let position = self.reads.iter().position(|(id, _)| *id == completion)?;
        Some(self.reads.remove(position).1)
    }

    fn read(&mut self) -> StreamResult<Option<T>> {
        self.try_read().expect("the read still waits")
    }

    fn cancel(&mut self, reason: Option<&str>) -> StreamResult<()> {
        let cancel_completion = self.next_id;
        self.next_id += 1;
        self.command(StreamCommand::Cancel {
            reason: reason.map(|r| r.to_string()),
            cancel_completion,
        });
        self.settle();
        let position = self
            .cancels
            .iter()
            .position(|(id, _)| *id == cancel_completion)
            .expect("the cancellation still waits");
        self.cancels.remove(position).1
    }
}

fn vec_stream<T>(
    data: Vec<T>,
) -> Driver<T, IteratorSource<std::vec::IntoIter<T>>, CountQueuingStrategy> {
    let builder: ReadableStreamBuilder<_, _, _, Spawn, _> = ReadableStreamBuilder::from_vec(data);
    Driver::new(builder.build().0)
}

/// A source that gives prepared answers, one per pull.
struct Script<T> {
    pulls: Vec<(Vec<ControllerMsg<T>>, StreamResult<()>)>,
    started: Vec<ControllerMsg<T>>,
    start: Option<StreamError>,
    canceled: std::rc::Rc<std::cell::RefCell<Vec<Option<String>>>>,
    cancel_outcome: Option<StreamError>,
}

impl<T> Script<T> {
    fn new(pulls: Vec<(Vec<ControllerMsg<T>>, StreamResult<()>)>) -> Self {
        Script {
            pulls,
            started: Vec::new(),
            start: None,
            canceled: std::rc::Rc::new(std::cell::RefCell::new(Vec::new())),
            cancel_outcome: None,
        }
    }
}

impl<T> Pull<T> for Script<T> {
    fn start(&mut self) -> (Vec<ControllerMsg<T>>, StreamResult<()>) {
        let outcome = match self.start.take() {
            Some(error) => Err(error),
            None => Ok(()),
        };
        (self.started.drain(..).collect(), outcome)
    }
    fn pull(&mut self) -> (Vec<ControllerMsg<T>>, StreamResult<()>) {
        if self.pulls.is_empty() {
            (vec![ControllerMsg::Close], Ok(()))
        } else {
            self.pulls.remove(0)
        }
    }
    fn cancel(&mut self, reason: Option<String>) -> StreamResult<()> {
        self.canceled.borrow_mut().push(reason);
        match self.cancel_outcome.take() {
            Some(error) => Err(error),
            None => Ok(()),
        }
    }
}

fn script_stream<T>(script: Script<T>) -> Driver<T, Script<T>, CountQueuingStrategy> {
    let builder: ReadableStreamBuilder<T, Script<T>, _, Spawn, DefaultStream> =
        ReadableStreamBuilder::new(script);
    Driver::new(builder.build().0)
}

/// A machine that nothing pulls from.
fn idle<T, S: QueuingStrategy<T>>(strategy: S) -> ReadableStreamInner<T, (), S, u32, u32, u32> {
    let mut inner = ReadableStreamInner::new((), strategy);
    inner.start_begun();
    inner
}

#[test]
fn test_basic_default_stream_builder() {
    let data = vec!["hello".to_string(), "world".to_string()];
    let source = IteratorSource { iter: data.into_iter() };
    let builder: ReadableStreamBuilder<String, _, _, Spawn, DefaultStream> =
        ReadableStreamBuilder::new(source);
    let mut reader = Driver::new(builder.build().0);
    assert_eq!(reader.read().unwrap(), Some("hello".to_string()));
    assert_eq!(reader.read().unwrap(), Some("world".to_string()));
    assert_eq!(reader.read().unwrap(), None);
}

#[test]
fn test_builder_with_custom_strategy() {
    let data = vec!["a".to_string(), "b".to_string(), "c".to_string()];
    let custom_strategy = CountQueuingStrategy::new(5);
    let builder: ReadableStreamBuilder<_, _, _, Spawn, _> = ReadableStreamBuilder::from_vec(data);
    let mut reader = Driver::new(builder.with_strategy(custom_strategy).build().0);
    assert!(!reader.stream.locked());
    assert_eq!(reader.read().unwrap(), Some("a".to_string()));
}

#[test]
fn test_builder_chaining() {
    let data = vec!["chain".to_string(), "test".to_string()];
    let builder: ReadableStreamBuilder<_, _, _, Spawn, _> = ReadableStreamBuilder::from_vec(data);
    let (inner, spawn) = builder
        .with_strategy(CountQueuingStrategy::new(2))
        .with_thread_spawn()
        .build();
    assert!(matches!(spawn, SpawnConfig::DefaultThread));
    let mut reader = Driver::new(inner);
    assert_eq!(reader.read().unwrap(), Some("chain".to_string()));
    assert_eq!(reader.read().unwrap(), Some("test".to_string()));
    assert_eq!(reader.read().unwrap(), None);
}

#[test]
fn builder_keeps_a_custom_spawn() {
    let builder: ReadableStreamBuilder<_, _, _, Spawn, _> = ReadableStreamBuilder::from_vec(vec![1]);
    let (inner, spawn) = builder.with_spawn(7u8).strategy(CountQueuingStrategy::new(4)).build();
    assert!(matches!(spawn, SpawnConfig::CustomSpawn(7)));
    let inner: ReadableStreamInner<i32, _, _, u32, u32, u32> = inner;
    assert_eq!(inner.desired_size(), 4);
}

#[test]
fn test_from_vec_convenience() {
    let mut reader = vec_stream(vec!["item1".to_string(), "item2".to_string()]);
    assert_eq!(reader.read().unwrap(), Some("item1".to_string()));
    assert_eq!(reader.read().unwrap(), Some("item2".to_string()));
    assert_eq!(reader.read().unwrap(), None);
}

#[test]
fn test_from_iterator_convenience() {
    let data = vec![1, 2, 3, 4, 5];
    let builder: ReadableStreamBuilder<_, _, _, Spawn, _> =
        ReadableStreamBuilder::from_iterator(data.into_iter());
    let mut reader = Driver::new(builder.build().0);
    assert_eq!(reader.read().unwrap(), Some(1));
    assert_eq!(reader.read().unwrap(), Some(2));
    assert_eq!(reader.read().unwrap(), Some(3));
    assert_eq!(reader.read().unwrap(), Some(4));
    assert_eq!(reader.read().unwrap(), Some(5));
    assert_eq!(reader.read().unwrap(), None);
}

#[test]
fn test_from_stream_convenience() {
    let data = vec!["async1", "async2", "async3"];
    let async_stream = futures::stream::iter(data.into_iter().map(|s| s.to_string()));
    let builder: ReadableStreamBuilder<String, _, _, Spawn, _> =
        ReadableStreamBuilder::<String, (), _, Spawn, _>::from_stream(async_stream);
    let mut source = builder.source;
    let mut inner: ReadableStreamInner<String, (), _, u32, u32, u32> =
        idle(CountQueuingStrategy::new(1));
    let mut answers = Vec::new();
    for id in 0..4u32 {
        inner.process_command(StreamCommand::Read { completion: id }, |a: &u32, b: &u32| a == b);
        let item = block_on(source.stream.next());
        inner.process_controller_msg(produced(item));
        for effect in inner.take_effects() {
            if let ReadableEffect::ReplyRead(read, outcome) = effect {
                answers.push((read, outcome.unwrap()));
            }
        }
    }
    assert_eq!(
        answers,
        vec![
            (0, Some("async1".to_string())),
            (1, Some("async2".to_string())),
            (2, Some("async3".to_string())),
            (3, None),
        ]
    );
}

#[test]
fn test_builder_reusability() {
    let create_stream = |data: Vec<&str>| {
        let string_data: Vec<String> = data.into_iter().map(|s| s.to_string()).collect();
        let builder: ReadableStreamBuilder<_, _, _, Spawn, _> =
            ReadableStreamBuilder::from_vec(string_data);
        Driver::new(
            builder
                .with_strategy(CountQueuingStrategy::new(3))
                .with_thread_spawn()
                .build()
                .0,
        )
    };
    let mut reader1 = create_stream(vec!["test1", "test2"]);
    let mut reader2 = create_stream(vec!["test3", "test4"]);
    assert_eq!(reader1.read().unwrap(), Some("test1".to_string()));
    assert_eq!(reader2.read().unwrap(), Some("test3".to_string()));
    assert_eq!(reader1.read().unwrap(), Some("test2".to_string()));
    assert_eq!(reader2.read().unwrap(), Some("test4".to_string()));
}

#[test]
fn test_stream_static_builder_method() {
    let mut reader = script_stream(Script::new(vec![
        (vec![ControllerMsg::Enqueue { chunk: "static".to_string() }], Ok(())),
        (vec![ControllerMsg::Enqueue { chunk: "method".to_string() }], Ok(())),
    ]));
    assert_eq!(reader.read().unwrap(), Some("static".to_string()));
    assert_eq!(reader.read().unwrap(), Some("method".to_string()));
    assert_eq!(reader.read().unwrap(), None);
}

#[test]
fn test_error_handling_in_builder() {
    let mut reader: Driver<String, _, _> = script_stream(Script::new(vec![(
        vec![ControllerMsg::Error(StreamError::from("Test error"))],
        Ok(()),
    )]));
    match reader.read() {
        Err(StreamError::Other(error)) => assert!(error.message().contains("Test error")),
        _ => panic!("expected the error of the source"),
    }
}

#[test]
fn test_multiple_configurations() {
    let from_vec = |word: &str| -> ReadableStreamBuilder<_, _, _, Spawn, _> {
        ReadableStreamBuilder::from_vec(vec![word.to_string()])
    };
    let mut readers = vec![
        Driver::new(from_vec("default").build().0),
        Driver::new(from_vec("strategy").with_strategy(CountQueuingStrategy::new(10)).build().0),
        Driver::new(from_vec("thread").with_thread_spawn().build().0),
        Driver::new(
            from_vec("full")
                .with_strategy(CountQueuingStrategy::new(5))
                .with_thread_spawn()
                .build()
                .0,
        ),
    ];
    let expected = ["default", "strategy", "thread", "full"];
    for (i, reader) in readers.iter_mut().enumerate() {
        assert_eq!(reader.read().unwrap().unwrap(), expected[i]);
    }
}

#[test]
fn reads_items_sequentially_from_iterator() {
    let data = vec![1, 2, 3, 4, 5];
    let builder: ReadableStreamBuilder<_, _, _, Spawn, _> =
        ReadableStreamBuilder::from_iterator(data.clone().into_iter());
    let mut reader = Driver::new(builder.build().0);
    for expected in data {
        assert_eq!(reader.read().unwrap(), Some(expected));
    }
    assert_eq!(reader.read().unwrap(), None);
}

#[test]
fn transitions_to_closed_state_after_exhaustion() {
    let mut reader = vec_stream(vec![1, 2, 3]);
    assert!(!reader.inner.is_closed());
    assert!(!reader.inner.is_errored());
    while reader.read().unwrap().is_some() {}
    assert!(matches!(reader.stream.poll_closed(), Polled::Ready(Ok(()))));
    assert!(reader.inner.is_closed());
    assert_eq!(reader.inner.state(), StreamState::Closed);
}

#[test]
fn handles_empty_stream_immediately() {
    let mut reader = vec_stream(Vec::<i32>::new());
    assert_eq!(reader.read().unwrap(), None);
    assert!(matches!(reader.stream.poll_closed(), Polled::Ready(Ok(()))));
}

#[test]
fn enforces_stream_locking_correctly() {
    let mut reader = vec_stream(vec![1, 2, 3]);
    assert!(!reader.stream.locked());
    reader.stream.get_reader().unwrap();
    assert!(reader.stream.locked());
    assert_eq!(reader.stream.get_reader().unwrap_err().to_text(), "Stream already locked");
    assert_eq!(reader.stream.get_byob_reader().unwrap_err().to_text(), "Stream already locked");
    reader.stream.release_lock();
    assert!(!reader.stream.locked());
}

#[test]
fn a_released_lock_can_be_taken_again() {
    let mut stream = ReadableStream::new();
    stream.get_byob_reader().unwrap();
    stream.release_lock();
    assert!(!stream.locked());
    stream.get_reader().unwrap();
}

#[test]
fn cancels_stream_and_stops_reading() {
    let mut reader = vec_stream(vec![1, 2, 3, 4, 5]);
    assert_eq!(reader.read().unwrap(), Some(1));
    reader.cancel(Some("test cancellation")).unwrap();
    assert_eq!(reader.read().unwrap(), None);
}

#[test]
fn a_source_is_told_once_why_it_is_canceled() {
    let script: Script<i32> = Script::new(vec![
        (vec![ControllerMsg::Enqueue { chunk: 1 }], Ok(())),
        (vec![ControllerMsg::Enqueue { chunk: 2 }], Ok(())),
    ]);
    let canceled = script.canceled.clone();
    let mut reader = script_stream(script);
    assert_eq!(reader.read().unwrap(), Some(1));
    reader.cancel(Some("test reason")).unwrap();
    assert_eq!(*canceled.borrow(), vec![Some("test reason".to_string())]);
    assert_eq!(reader.read().unwrap(), None);
    reader.cancel(Some("again")).unwrap();
    assert_eq!(canceled.borrow().len(), 1);
}

#[test]
fn cancels_without_reason() {
    let mut reader = vec_stream(vec![1, 2, 3]);
    reader.cancel(None).unwrap();
    assert_eq!(reader.read().unwrap(), None);
}

#[test]
fn a_cancellation_is_answered_when_the_source_has_answered() {
    let script: Script<i32> = Script::new(vec![]);
    let canceled = script.canceled.clone();
    let mut inner: ReadableStreamInner<i32, Script<i32>, _, u32, u32, u32> =
        ReadableStreamInner::new(script, CountQueuingStrategy::new(1));
    inner.process_command(
        StreamCommand::Cancel { reason: None, cancel_completion: 1 },
        |a: &u32, b: &u32| a == b,
    );
    for effect in inner.take_effects() {
        if let ReadableEffect::StartCancel(mut source, reason) = effect {
            let outcome = source.cancel(reason);
            inner.cancel_finished(outcome);
        }
    }
    assert_eq!(*canceled.borrow(), vec![None]);
    let replies = inner.take_effects();
    assert!(matches!(replies[0], ReadableEffect::ReplyCancel(1, Ok(()))));
    assert!(matches!(replies[1], ReadableEffect::Repoll));
}

#[test]
fn a_failed_cancellation_is_reported() {
    let mut script: Script<i32> = Script::new(vec![(vec![ControllerMsg::Enqueue { chunk: 1 }], Ok(()))]);
    script.cancel_outcome = Some(StreamError::from("cannot cancel"));
    let mut reader = script_stream(script);
    assert_eq!(reader.cancel(None).unwrap_err().to_text(), "cannot cancel");
}

#[test]
fn propagates_source_errors() {
    let mut reader = script_stream(Script::new(vec![
        (vec![ControllerMsg::Enqueue { chunk: 42 }], Ok(())),
        (vec![ControllerMsg::Error(StreamError::from("Source error"))], Ok(())),
    ]));
    assert_eq!(reader.read().unwrap(), Some(42));
    assert_eq!(reader.read().unwrap_err().to_text(), "Source error");
    assert!(reader.inner.is_errored());
}

#[test]
fn a_failed_pull_fails_the_stream() {
    let mut reader = script_stream(Script::new(vec![
        (vec![ControllerMsg::Enqueue { chunk: 1 }], Ok(())),
        (vec![], Err(StreamError::from("Source error"))),
    ]));
    assert_eq!(reader.read().unwrap(), Some(1));
    assert_eq!(reader.read().unwrap_err().to_text(), "Source error");
    assert_eq!(reader.read().unwrap_err().to_text(), "Source error");
    assert!(reader.inner.is_errored());
}

#[test]
fn integrates_with_async_streams() {
    let items = vec![10, 20, 30];
    let builder: ReadableStreamBuilder<i32, _, _, Spawn, _> =
        ReadableStreamBuilder::<i32, (), _, Spawn, _>::from_stream(futures::stream::iter(
            items.clone(),
        ));
    let mut stream = builder.source.stream;
    let mut reader = script_stream(Script::new(
        (0..4).map(|_| (vec![produced(block_on(stream.next()))], Ok(()))).collect(),
    ));
    for expected in items {
        assert_eq!(reader.read().unwrap(), Some(expected));
    }
    assert_eq!(reader.read().unwrap(), None);
}

#[test]
fn controller_closes_stream_properly() {
    let mut reader = script_stream(Script::new(vec![
        (vec![ControllerMsg::Enqueue { chunk: 1 }], Ok(())),
        (vec![ControllerMsg::Enqueue { chunk: 2 }], Ok(())),
        (vec![ControllerMsg::Close], Ok(())),
    ]));
    assert_eq!(reader.read().unwrap(), Some(1));
    assert_eq!(reader.read().unwrap(), Some(2));
    assert_eq!(reader.read().unwrap(), None);
    assert!(matches!(reader.stream.poll_closed(), Polled::Ready(Ok(()))));
}

#[test]
fn controller_errors_stream_correctly() {
    let mut reader = script_stream(Script::new(vec![
        (vec![ControllerMsg::Enqueue { chunk: "valid item".to_string() }], Ok(())),
        (vec![ControllerMsg::Error(StreamError::from("Controller error"))], Ok(())),
    ]));
    assert_eq!(reader.read().unwrap(), Some("valid item".to_string()));
    assert_eq!(reader.read().unwrap_err().to_text(), "Controller error");
}

#[test]
fn an_error_loses_what_is_queued() {
    let mut reader = script_stream(Script::new(vec![(
        vec![
            ControllerMsg::Enqueue { chunk: 5 },
            ControllerMsg::Error(StreamError::from("Controller error")),
        ],
        Ok(()),
    )]));
    assert_eq!(reader.read().unwrap_err().to_text(), "Controller error");
    assert_eq!(reader.inner.queue_total_size(), 0);
}

#[test]
fn handles_concurrent_read_attempts() {
    let mut reader = vec_stream((0..10).collect::<Vec<i32>>());
    reader.command(StreamCommand::Read { completion: 100 });
    reader.command(StreamCommand::Read { completion: 200 });
    reader.settle();
    assert_eq!(reader.reads.len(), 2);
    assert!(matches!(reader.reads[0], (100, Ok(Some(0)))));
    assert!(matches!(reader.reads[1], (200, Ok(Some(1)))));
}

#[test]
fn reads_that_wait_are_answered_in_order() {
    let mut inner = idle::<i32, _>(CountQueuingStrategy::new(1));
    let same = |a: &u32, b: &u32| a == b;
    inner.process_command(StreamCommand::Read { completion: 1 }, same);
    inner.process_command(StreamCommand::Read { completion: 2 }, same);
    assert!(inner.take_effects().is_empty());
    inner.process_controller_msg(ControllerMsg::Enqueue { chunk: 10 });
    inner.process_controller_msg(ControllerMsg::Enqueue { chunk: 20 });
    let effects = inner.take_effects();
    assert!(matches!(effects[0], ReadableEffect::ReplyRead(1, Ok(Some(10)))));
    assert!(matches!(effects[1], ReadableEffect::ReplyRead(2, Ok(Some(20)))));
    assert_eq!(effects.len(), 2);
}

#[test]
fn notifies_when_closed() {
    let mut reader = vec_stream(vec![1]);
    reader.command(StreamCommand::RegisterClosedWaker { waker: 8 });
    assert!(matches!(reader.stream.poll_closed(), Polled::Pending));
    assert_eq!(reader.read().unwrap(), Some(1));
    assert_eq!(reader.read().unwrap(), None);
    assert_eq!(reader.woken, vec![8]);
    assert!(matches!(reader.stream.poll_closed(), Polled::Ready(Ok(()))));
}

#[test]
fn whoever_waits_for_the_end_is_woken_once() {
    let mut inner = idle::<i32, _>(CountQueuingStrategy::new(1));
    let same = |a: &u32, b: &u32| a == b;
    inner.process_command(StreamCommand::RegisterClosedWaker { waker: 3 }, same);
    inner.process_command(StreamCommand::RegisterClosedWaker { waker: 3 }, same);
    inner.process_command(StreamCommand::RegisterClosedWaker { waker: 4 }, same);
    inner.process_command(StreamCommand::RegisterReadyWaker { waker: 5 }, same);
    assert!(inner.take_effects().is_empty());
    inner.process_controller_msg(ControllerMsg::Close);
    let woken: Vec<u32> = inner
        .take_effects()
        .into_iter()
        .map(|effect| match effect {
            ReadableEffect::Wake(waker) => waker,
            _ => panic!("only wakes were expected"),
        })
        .collect();
    assert_eq!(woken, vec![3, 4, 5]);
    inner.process_command(StreamCommand::RegisterClosedWaker { waker: 9 }, same);
    assert!(matches!(inner.take_effects()[0], ReadableEffect::Wake(9)));
}

#[test]
fn a_queued_chunk_wakes_who_waits_for_it() {
    let mut inner = idle::<i32, _>(CountQueuingStrategy::new(1));
    let same = |a: &u32, b: &u32| a == b;
    inner.process_command(StreamCommand::RegisterReadyWaker { waker: 5 }, same);
    inner.process_controller_msg(ControllerMsg::Enqueue { chunk: 1 });
    assert!(matches!(inner.take_effects()[0], ReadableEffect::Wake(5)));
    inner.process_command(StreamCommand::RegisterReadyWaker { waker: 6 }, same);
    assert!(matches!(inner.take_effects()[0], ReadableEffect::Wake(6)));
}

#[test]
fn processes_large_streams_efficiently() {
    let large_data: Vec<i32> = (0..1000).collect();
    let expected_sum: i32 = large_data.iter().sum();
    let mut reader = vec_stream(large_data);
    let mut actual_sum = 0;
    while let Some(item) = reader.read().unwrap() {
        actual_sum += item;
    }
    assert_eq!(actual_sum, expected_sum);
}

#[test]
fn supports_push_based_sources() {
    let mut script = Script::new(vec![]);
    script.started = vec![
        ControllerMsg::Enqueue { chunk: 10 },
        ControllerMsg::Enqueue { chunk: 20 },
        ControllerMsg::Enqueue { chunk: 30 },
        ControllerMsg::Close,
    ];
    let mut reader = script_stream(script);
    assert_eq!(reader.read().unwrap(), Some(10));
    assert_eq!(reader.read().unwrap(), Some(20));
    assert_eq!(reader.read().unwrap(), Some(30));
    assert_eq!(reader.read().unwrap(), None);
    assert_eq!(reader.pulls, 0);
    assert!(matches!(reader.stream.poll_closed(), Polled::Ready(Ok(()))));
}

#[test]
fn a_queue_over_the_mark_leaves_less_than_no_room() {
    let mut inner = idle::<&str, _>(CountQueuingStrategy::new(1));
    let same = |a: &u32, b: &u32| a == b;
    for chunk in ["a", "b", "c"] {
        inner.process_controller_msg(ControllerMsg::Enqueue { chunk });
    }
    assert_eq!(inner.queue_total_size(), 3);
    assert_eq!(inner.published_desired_size(), -2);
    assert_eq!(inner.desired_size(), -2);
    inner.process_controller_msg(ControllerMsg::Close);
    assert_eq!(inner.published_desired_size(), 0);
    let mut answers = Vec::new();
    for completion in 0..4 {
        inner.process_command(StreamCommand::Read { completion }, same);
        for effect in inner.take_effects() {
            if let ReadableEffect::ReplyRead(_, outcome) = effect {
                answers.push(outcome.unwrap());
            }
        }
    }
    assert_eq!(answers, vec![Some("a"), Some("b"), Some("c"), None]);
}

#[test]
fn errors_when_start_method_fails() {
    let mut script: Script<i32> = Script::new(vec![]);
    script.start = Some(StreamError::from("Start initialization failed"));
    let mut reader = script_stream(script);
    assert_eq!(reader.read().unwrap_err().to_text(), "Start initialization failed");
    assert!(reader.read().is_err());
    assert_eq!(reader.pulls, 0);
    match reader.stream.poll_closed() {
        Polled::Ready(Err(error)) => assert_eq!(error.to_text(), "Start initialization failed"),
        _ => panic!("the stream has failed"),
    }
}

#[test]
fn a_pull_is_not_repeated_while_chunks_wait() {
    let mut reader = vec_stream(vec![1, 2, 3]);
    assert_eq!(reader.pulls, 1);
    reader.settle();
    assert_eq!(reader.pulls, 1);
    assert_eq!(reader.read().unwrap(), Some(1));
    assert_eq!(reader.pulls, 2);
}

#[test]
fn cancelling_fails_the_reads_that_wait() {
    let mut inner = idle::<i32, _>(CountQueuingStrategy::new(1));
    let same = |a: &u32, b: &u32| a == b;
    inner.process_command(StreamCommand::Read { completion: 1 }, same);
    inner.process_command(StreamCommand::Cancel { reason: None, cancel_completion: 2 }, same);
    let effects = inner.take_effects();
    assert_eq!(effects.len(), 1);
    assert!(matches!(
        effects[0],
        ReadableEffect::ReplyRead(1, Err(StreamError::Canceled))
    ));
}

#[test]
fn handles_report_what_they_see() {
    let mut stream = ReadableStream::new();
    assert!(matches!(stream.poll_next(), NextItem::Wait));
    assert!(matches!(stream.poll_closed(), Polled::Pending));
    stream.publish(true, false, None);
    assert!(matches!(stream.poll_next(), NextItem::End));
    assert!(matches!(stream.poll_closed(), Polled::Ready(Ok(()))));
    stream.publish(true, true, None);
    match stream.poll_next() {
        NextItem::Failed(error) => assert_eq!(error.to_text(), "Stream is errored"),
        _ => panic!("the stream has failed"),
    }
    assert!(matches!(
        answer_or_dropped::<i32>(None),
        Err(StreamError::TaskDropped)
    ));
    assert_eq!(answer_or_dropped(Some(Ok(4))).unwrap(), 4);
}

#[test]
fn strategies_measure_chunks() {
    let count = CountQueuingStrategy::new(3);
    assert_eq!(QueuingStrategy::<&str>::size(&count, &"anything"), 1);
    assert_eq!(QueuingStrategy::<&str>::high_water_mark(&count), 3);
    let bytes = ByteLengthQueuingStrategy::new(64);
    assert_eq!(bytes.size(&vec![1u8, 2, 3]), 3);
    assert_eq!(bytes.size(&"h\u{e9}llo".to_string()), 6);
    let slice: &[u8] = &[1, 2];
    assert_eq!(bytes.size(&slice), 2);
    assert_eq!(QueuingStrategy::<Vec<u8>>::high_water_mark(&bytes), 64);
}

#[test]
fn room_is_what_the_mark_leaves() {
    assert_eq!(update_desired_size(3, 5, false, false), 2);
    assert_eq!(update_desired_size(7, 5, false, false), -2);
    assert_eq!(update_desired_size(3, 5, true, false), 0);
    assert_eq!(update_desired_size(3, 5, false, true), 0);
    assert_eq!(update_desired_size(0, usize::MAX, false, false), -1);
    assert_eq!(update_desired_size(usize::MAX, 0, false, false), 1);
    assert!(!room_can_be_shown(0, usize::MAX / 2 + 1));
    assert!(room_can_be_shown(0, usize::MAX / 2));
}

#[test]
fn byte_lengths_add_up() {
    let mut inner: ReadableStreamInner<Vec<u8>, (), _, u32, u32, u32> =
        idle(ByteLengthQueuingStrategy::new(10));
    inner.process_controller_msg(ControllerMsg::Enqueue { chunk: vec![0; 4] });
    inner.process_controller_msg(ControllerMsg::Enqueue { chunk: vec![0; 7] });
    assert_eq!(inner.queue_total_size(), 11);
    assert_eq!(inner.desired_size(), -1);
    inner.process_command(StreamCommand::Read { completion: 0 }, |a: &u32, b: &u32| a == b);
    assert_eq!(inner.queue_total_size(), 7);
    assert_eq!(inner.desired_size(), 3);
}

#[test]
fn nothing_is_pulled_before_the_source_has_started() {
    let mut inner: ReadableStreamInner<i32, u8, _, u32, u32, u32> =
        ReadableStreamInner::new(7, CountQueuingStrategy::new(1));
    inner.maybe_pull();
    assert!(inner.take_effects().is_empty());
    assert_eq!(inner.start_begun(), Some(7));
    assert_eq!(inner.start_begun(), None);
    inner.maybe_pull();
    assert!(inner.take_effects().is_empty());
    inner.start_finished(7, Ok(()));
    assert_eq!(inner.start_begun(), None);
    inner.maybe_pull();
    inner.maybe_pull();
    let effects = inner.take_effects();
    assert_eq!(effects.len(), 1);
    assert!(matches!(effects[0], ReadableEffect::StartPull(7)));
}

#[test]
fn an_open_stream_shows_its_room() {
    let mut inner = idle::<&str, _>(CountQueuingStrategy::new(3));
    let same = |a: &u32, b: &u32| a == b;
    assert_eq!(inner.published_desired_size(), 3);
    inner.process_controller_msg(ControllerMsg::Enqueue { chunk: "a" });
    inner.process_controller_msg(ControllerMsg::Enqueue { chunk: "b" });
    assert_eq!(inner.published_desired_size(), 1);
    inner.process_command(StreamCommand::Read { completion: 1 }, same);
    assert_eq!(inner.published_desired_size(), 2);
    inner.process_command(StreamCommand::Read { completion: 2 }, same);
    inner.process_command(StreamCommand::Read { completion: 3 }, same);
    inner.process_controller_msg(ControllerMsg::Enqueue { chunk: "c" });
    assert_eq!(inner.published_desired_size(), 3);
    assert_eq!(inner.desired_size(), inner.published_desired_size());
}

#[test]
fn reads_give_what_was_put_in() {
    let mut inner: ReadableStreamInner<i32, (), _, u32, u32, u32> =
        ReadableStreamInner::new((), CountQueuingStrategy::new(1));
    let source = inner.start_begun().unwrap();
    inner.start_finished(source, Ok(()));
    let read = |inner: &mut ReadableStreamInner<i32, (), _, u32, u32, u32>, completion: u32| {
        assert!(inner.can_read());
        inner.process_command(StreamCommand::Read { completion }, |a: &u32, b: &u32| a == b);
    };
    read(&mut inner, 0);
    read(&mut inner, 1);
    for chunk in [10, 11, 12, 13] {
        assert!(inner.can_enqueue(&chunk));
        inner.process_controller_msg(ControllerMsg::Enqueue { chunk });
    }
    read(&mut inner, 2);
    inner.process_controller_msg(ControllerMsg::Close);
    for completion in [3, 4, 5] {
        read(&mut inner, completion);
    }
    let answers: Vec<(u32, Option<i32>)> = inner
        .take_effects()
        .into_iter()
        .filter_map(|effect| match effect {
            ReadableEffect::ReplyRead(id, outcome) => Some((id, outcome.unwrap())),
            _ => None,
        })
        .collect();
    assert_eq!(
        answers,
        vec![(0, Some(10)), (1, Some(11)), (2, Some(12)), (3, Some(13)), (4, None), (5, None)]
    );
}

#[test]
fn a_cancellation_is_for_good() {
    let mut script: Script<i32> = Script::new(vec![
        (vec![ControllerMsg::Enqueue { chunk: 1 }, ControllerMsg::Enqueue { chunk: 2 }], Ok(())),
        (vec![], Ok(())),
    ]);
    script.cancel_outcome = Some(StreamError::from("cannot cancel"));
    let canceled = script.canceled.clone();
    let mut reader = script_stream(script);
    assert_eq!(reader.read().unwrap(), Some(1));
    let pulls = reader.pulls;
    assert_eq!(reader.cancel(Some("enough")).unwrap_err().to_text(), "cannot cancel");
    for _ in 0..3 {
        assert_eq!(reader.read().unwrap(), None);
        reader.cancel(Some("again")).unwrap();
        assert!(reader.inner.is_closed());
    }
    assert_eq!(reader.pulls, pulls);
    assert_eq!(*canceled.borrow(), vec![Some("enough".to_string())]);
}
