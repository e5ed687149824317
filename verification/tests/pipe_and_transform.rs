use futures::channel::mpsc::unbounded;

use whatwg_streams::error::{Notice, StreamError, StreamResult};
use whatwg_streams::pipe::{
    abort_outcome, abort_reason, Pipe, PipeEvent, PipeStep, StreamPipeOptions,
};
use whatwg_streams::readable::controller::{ReadableFlags, ReadableStreamDefaultController};
use whatwg_streams::readable::effect::{ControllerMsg, ReadableEffect, StreamCommand};
use whatwg_streams::readable::inner::ReadableStreamInner;
use whatwg_streams::strategy::{CountQueuingStrategy, QueuingStrategy};
use whatwg_streams::transform::{
    answer_or_canceled, apply, IdentityTransformer, SideEffect, TransformCommand, TransformEvent,
    TransformReadableSource, TransformStreamBuilder, TransformStreamDefaultController,
    TransformTask, TransformWritableSink,
};
use whatwg_streams::writable::controller::{
    ControllerMsg as WritableMsg, WritableStreamDefaultController,
};
use whatwg_streams::writable::effect::{StreamCommand as WritableCommand, WritableEffect};
use whatwg_streams::writable::handle::{Readiness, WritableStream};
use whatwg_streams::writable::inner::WritableStreamInner;

fn options(prevent_close: bool, prevent_abort: bool, prevent_cancel: bool) -> StreamPipeOptions {
    StreamPipeOptions { prevent_close, prevent_abort, prevent_cancel }
}

/// What is left of a source, and what a destination does.
struct Ends {
    source: Vec<Result<i32, StreamError>>,
    /// How many chunks the destination takes before it fails.
    takes: usize,
    close: Result<(), StreamError>,
    cleanup: Result<(), StreamError>,
    written: Vec<i32>,
    log: Vec<String>,
}

fn ends(source: Vec<Result<i32, StreamError>>) -> Ends {
    Ends {
        source,
        takes: usize::MAX,
        close: Ok(()),
        cleanup: Ok(()),
        written: Vec::new(),
        log: Vec::new(),
    }
}

/// Pipe until the pipe is over.
fn pipe(options: StreamPipeOptions, ends: &mut Ends) -> Result<(), StreamError> {
    let (mut pipe, mut step) = Pipe::new(options);
    loop {
        let event = match step {
            PipeStep::AwaitReady => PipeEvent::Ready(if ends.written.len() < ends.takes {
                Ok(())
            } else {
                Err(StreamError::from("full disk"))
            }),
            PipeStep::Read => PipeEvent::Read(if ends.source.is_empty() {
                Ok(None)
            } else {
                ends.source.remove(0).map(Some)
            }),
            PipeStep::Write(chunk) => {
                ends.written.push(chunk);
                PipeEvent::Written
            }
            PipeStep::CloseDestination => {
                ends.log.push("close".to_string());
                PipeEvent::Closed(ends.close.clone())
            }
            PipeStep::CancelSource(reason) => {
                ends.log.push(format!("cancel: {}", reason));
                PipeEvent::CleanedUp(ends.cleanup.clone())
            }
            PipeStep::AbortDestination(reason) => {
                ends.log.push(format!("abort: {}", reason));
                PipeEvent::CleanedUp(ends.cleanup.clone())
            }
            PipeStep::Over(outcome) => return outcome,
        };
        step = pipe.next_step(event);
    }
}

/// A stream whose source gives prepared answers, one per pull, and then closes it.
struct Origin<T> {
    inner: ReadableStreamInner<T, Vec<StreamResult<T>>, CountQueuingStrategy, u32, u32, u32>,
    answer: Option<StreamResult<Option<T>>>,
    /// Why the source was cancelled.
    cancelled: Option<Option<String>>,
}

impl<T> Origin<T> {
    fn new(pulls: Vec<StreamResult<T>>) -> Self {
        let mut inner = ReadableStreamInner::new(pulls, CountQueuingStrategy::new(1));
        let source = inner.start_begun().unwrap();
        inner.start_finished(source, Ok(()));
        Origin { inner, answer: None, cancelled: None }
    }

    fn settle(&mut self) {
        loop {
            self.inner.maybe_pull();
            let effects = self.inner.take_effects();
            if effects.is_empty() {
                return;
            }
            for effect in effects {
                match effect {
                    ReadableEffect::StartPull(mut pulls) => {
                        let outcome = if pulls.is_empty() {
                            self.inner.process_controller_msg(ControllerMsg::Close);
                            Ok(())
                        } else {
                            match pulls.remove(0) {
                                Ok(chunk) => {
                                    let msg = ControllerMsg::Enqueue { chunk };
                                    self.inner.process_controller_msg(msg);
                                    Ok(())
                                }
                                Err(error) => Err(error),
                            }
                        };
                        self.inner.pull_finished(pulls, outcome);
                    }
                    ReadableEffect::StartCancel(_, reason) => {
                        self.cancelled = Some(reason);
                        self.inner.cancel_finished(Ok(()));
                    }
                    ReadableEffect::ReplyRead(_, answer) => self.answer = Some(answer),
                    _ => {}
                }
            }
        }
    }

    fn read(&mut self) -> StreamResult<Option<T>> {
        self.inner.process_command(StreamCommand::Read { completion: 0 }, |a: &u32, b: &u32| a == b);
        self.settle();
        self.answer.take().expect("the read still waits")
    }

    fn cancel(&mut self, reason: String) {
        let reason = Some(reason);
        self.inner.process_command(
            StreamCommand::Cancel { reason, cancel_completion: 0 },
            |a: &u32, b: &u32| a == b,
        );
        self.settle();
    }
}

/// What becomes of the sink of a destination.
#[derive(Default)]
struct Taken {
    written: Vec<Vec<u8>>,
    fail_after: Option<usize>,
}

/// A stream whose sink keeps what it is given, until it fails.
struct Destination {
    inner: WritableStreamInner<Vec<u8>, (), CountQueuingStrategy, u32, u32>,
    stream: WritableStream,
    taken: Taken,
    closed: bool,
    aborted: Option<Option<String>>,
    answer: Option<StreamResult<()>>,
}

impl Destination {
    fn new(fail_after: Option<usize>) -> Self {
        let mut inner = WritableStreamInner::new((), CountQueuingStrategy::new(10));
        inner.start_begun().unwrap();
        inner.start_finished((), Ok(()));
        Destination {
            inner,
            stream: WritableStream::new(10),
            taken: Taken { written: Vec::new(), fail_after },
            closed: false,
            aborted: None,
            answer: None,
        }
    }

    fn settle(&mut self) {
        loop {
            self.inner.advance();
            self.stream.publish(self.inner.published(), self.inner.stored_error());
            let effects = self.inner.take_effects();
            if effects.is_empty() {
                return;
            }
            for effect in effects {
                match effect {
                    WritableEffect::StartWrite((), chunk) => {
                        let outcome = if self.taken.fail_after == Some(self.taken.written.len()) {
                            Err(StreamError::from("Write failed"))
                        } else {
                            self.taken.written.push(chunk);
                            Ok(())
                        };
                        self.inner.write_finished((), outcome);
                    }
                    WritableEffect::StartClose(()) => {
                        self.closed = true;
                        self.inner.close_finished(Ok(()));
                    }
                    WritableEffect::StartAbort((), reason) => {
                        self.aborted = Some(reason);
                        self.inner.abort_finished(Ok(()));
                    }
                    WritableEffect::Complete(1, outcome) => self.answer = Some(outcome),
                    _ => {}
                }
            }
        }
    }

    /// A command whose answer is waited for.
    fn ask(&mut self, command: WritableCommand<Vec<u8>, u32, u32>) -> StreamResult<()> {
        self.answer = None;
        self.inner.process_command(command, |a: &u32, b: &u32| a == b);
        self.settle();
        self.answer.take().expect("the operation still waits")
    }
}

/// Pipe a stream into another until the pipe is over.
fn pipe_to(
    origin: &mut Origin<Vec<u8>>,
    destination: &mut Destination,
    options: StreamPipeOptions,
) -> StreamResult<()> {
    let (mut pipe, mut step) = Pipe::new(options);
    loop {
        let event = match step {
            PipeStep::AwaitReady => {
                destination.settle();
                match destination.stream.ready() {
                    Readiness::Now(outcome) => PipeEvent::Ready(outcome),
                    Readiness::Wait => panic!("the sink never makes anyone wait"),
                }
            }
            PipeStep::Read => PipeEvent::Read(origin.read()),
            PipeStep::Write(chunk) => {
                assert!(destination.inner.can_write(&chunk));
                destination.inner.process_command(
                    WritableCommand::Write { chunk, completion: 0 },
                    |a: &u32, b: &u32| a == b,
                );
                PipeEvent::Written
            }
            PipeStep::CloseDestination => {
                PipeEvent::Closed(destination.ask(WritableCommand::Close { completion: 1 }))
            }
            PipeStep::CancelSource(reason) => {
                origin.cancel(reason);
                PipeEvent::CleanedUp(Ok(()))
            }
            PipeStep::AbortDestination(reason) => PipeEvent::CleanedUp(destination.ask(
                WritableCommand::Abort { reason: Some(reason), completion: 1 },
            )),
            PipeStep::Over(outcome) => return outcome,
        };
        step = pipe.next_step(event);
    }
}

#[test]
fn pipes_data_from_readable_to_writable() {
    let data = vec![vec![1u8, 2, 3], vec![4u8, 5], vec![6u8]];
    let mut origin = Origin::new(data.iter().cloned().map(Ok).collect());
    let mut destination = Destination::new(None);
    pipe_to(&mut origin, &mut destination, StreamPipeOptions::default()).unwrap();
    assert_eq!(destination.taken.written, data);
}

#[test]
fn handles_destination_write_errors() {
    let data = vec![vec![1u8, 2, 3], vec![4u8, 5, 6], vec![7u8, 8, 9], vec![10u8, 11]];
    let mut origin = Origin::new(data.iter().cloned().map(Ok).collect());
    let mut destination = Destination::new(Some(2));
    let outcome = pipe_to(&mut origin, &mut destination, StreamPipeOptions::default());
    assert!(outcome.is_err(), "the pipe fails when a write does");
    assert!(origin.cancelled.is_some(), "the source is cancelled when the destination fails");
    assert_eq!(destination.taken.written.len(), 2);
    assert_eq!(destination.taken.written, &data[..2]);
}

#[test]
fn handles_source_read_errors() {
    let data = vec![vec![1u8, 2, 3], vec![4u8, 5, 6]];
    let mut pulls: Vec<StreamResult<Vec<u8>>> = data.iter().cloned().map(Ok).collect();
    pulls.push(Err(StreamError::from("Source error")));
    let mut origin = Origin::new(pulls);
    let mut destination = Destination::new(None);
    let outcome = pipe_to(&mut origin, &mut destination, StreamPipeOptions::default());
    assert!(outcome.is_err(), "the pipe fails when the source does");
    let reason = destination.aborted.expect("the destination is aborted");
    assert_eq!(destination.taken.written, data);
    assert!(reason.unwrap().contains("Source error"));
}

#[test]
fn respects_prevent_options() {
    let data = vec![vec![1u8, 2, 3], vec![4u8, 5, 6]];
    let mut origin = Origin::new(data.iter().cloned().map(Ok).collect());
    let mut destination = Destination::new(None);
    pipe_to(&mut origin, &mut destination, StreamPipeOptions::default()).unwrap();
    assert!(origin.cancelled.is_none());
    assert!(destination.closed);
    assert!(destination.aborted.is_none());
    assert_eq!(destination.taken.written, data);

    let data = vec![vec![7u8, 8, 9]];
    let mut origin = Origin::new(data.iter().cloned().map(Ok).collect());
    let mut destination = Destination::new(None);
    pipe_to(&mut origin, &mut destination, options(true, false, false)).unwrap();
    assert!(!destination.closed);
}

/// A stream of chunks through a transformation: its reads, in turn, until one has no chunk.
fn through<I, O>(
    data: Vec<I>,
    options: StreamPipeOptions,
    mut transform: impl FnMut(I, &mut TransformStreamDefaultController<O>) -> StreamResult<()>,
) -> Vec<StreamResult<Option<O>>> {
    let mut origin = Origin::new(data.into_iter().map(Ok).collect());
    let (tx, mut messages) = unbounded();
    let (wtx, mut writable_messages) = unbounded();
    let mut controller = TransformStreamDefaultController::new(
        ReadableStreamDefaultController::new(tx, ReadableFlags::new(1)),
        WritableStreamDefaultController::new(wtx),
    );
    let (transform_tx, mut commands) = unbounded();
    let mut sink = TransformWritableSink::new(transform_tx);
    let mut task = TransformTask::new();
    apply(&mut controller, task.next_step(TransformEvent::Started(Ok(()))).side_effect);

    let mut readable: ReadableStreamInner<O, (), _, u32, u32, u32> =
        ReadableStreamInner::new((), CountQueuingStrategy::new(1));
    let (mut pipe, mut step) = Pipe::new(options);
    let mut reads = Vec::new();
    let mut asked = false;
    loop {
        while let Ok(message) = messages.try_recv() {
            readable.process_controller_msg(message);
        }
        if !asked {
            readable.process_command(StreamCommand::Read { completion: 0 }, |a: &u32, b: &u32| a == b);
            asked = true;
        }
        for effect in readable.take_effects() {
            if let ReadableEffect::ReplyRead(_, answer) = effect {
                asked = false;
                let more = matches!(answer, Ok(Some(_)));
                reads.push(answer);
                if !more {
                    return reads;
                }
            }
        }
        if !asked {
            continue;
        }
        let event = match step {
            PipeStep::AwaitReady => PipeEvent::Ready(match writable_messages.try_recv() {
                Ok(WritableMsg::Error(error)) => Err(error),
                Err(_) => Ok(()),
            }),
            PipeStep::Read => PipeEvent::Read(origin.read()),
            PipeStep::Write(chunk) => {
                sink.write(chunk).unwrap();
                PipeEvent::Written
            }
            PipeStep::CloseDestination => {
                let mut answer = sink.close().unwrap();
                let step = task.next_step(TransformEvent::Flushed(Ok(())));
                apply(&mut controller, step.side_effect);
                match commands.try_recv() {
                    Ok(TransformCommand::Close { completion }) => {
                        completion.send(step.reply.unwrap()).unwrap();
                    }
                    _ => panic!("the close is sent"),
                }
                PipeEvent::Closed(answer.try_recv().unwrap().unwrap())
            }
            PipeStep::CancelSource(reason) => {
                origin.cancel(reason);
                PipeEvent::CleanedUp(Ok(()))
            }
            PipeStep::AbortDestination(_) => PipeEvent::CleanedUp(Ok(())),
            PipeStep::Over(_) => panic!("the transformed stream has an end"),
        };
        if let Ok(TransformCommand::Write { chunk, .. }) = commands.try_recv() {
            let outcome = transform(chunk, &mut controller);
            apply(&mut controller, task.next_step(TransformEvent::Transformed(outcome)).side_effect);
        }
        step = pipe.next_step(event);
    }
}

fn chunks<O>(reads: Vec<StreamResult<Option<O>>>) -> Vec<Option<O>> {
    reads.into_iter().map(|read| read.unwrap()).collect()
}

fn uppercase(
    chunk: String,
    controller: &mut TransformStreamDefaultController<String>,
) -> StreamResult<()> {
    controller.enqueue(chunk.to_uppercase())
}

fn double(chunk: i32, controller: &mut TransformStreamDefaultController<i32>) -> StreamResult<()> {
    controller.enqueue(chunk * 2)
}

#[test]
fn transforms_data_through_pipe() {
    let data = vec!["hello".to_string(), "world".to_string()];
    let reads = chunks(through(data, StreamPipeOptions::default(), uppercase));
    assert_eq!(reads, vec![Some("HELLO".to_string()), Some("WORLD".to_string()), None]);
}

#[test]
fn transforms_numeric_data() {
    let reads = chunks(through(vec![1, 2, 3, 4], StreamPipeOptions::default(), double));
    assert_eq!(reads, vec![Some(2), Some(4), Some(6), Some(8), None]);
}

#[test]
fn handles_empty_input_stream() {
    let reads = chunks(through(Vec::new(), StreamPipeOptions::default(), uppercase));
    assert_eq!(reads, vec![None]);
}

#[test]
fn chains_multiple_transformations() {
    let first = chunks(through(vec![1, 2, 3], StreamPipeOptions::default(), double));
    let between: Vec<i32> = first.into_iter().flatten().collect();
    let reads = chunks(through(between, StreamPipeOptions::default(), double));
    assert_eq!(reads, vec![Some(4), Some(8), Some(12), None]);
}

#[test]
fn respects_pipe_options() {
    let data = vec!["test".to_string()];
    let reads = chunks(through(data, options(false, false, false), uppercase));
    assert_eq!(reads, vec![Some("TEST".to_string()), None]);
}

#[test]
fn handles_transformation_errors() {
    let mut reads = through(vec![1, 2, 3, 4], StreamPipeOptions::default(), |chunk, controller| {
        if chunk == 3 {
            Err(StreamError::from("Error on 3"))
        } else {
            controller.enqueue(chunk)
        }
    })
    .into_iter();
    assert_eq!(reads.next().unwrap().unwrap(), Some(1));
    match reads.next().unwrap() {
        Ok(chunk) => assert_eq!(chunk, Some(2)),
        Err(error) => assert_eq!(error.to_text(), "Error on 3"),
    }
    assert_eq!(reads.next().unwrap().unwrap_err().to_text(), "Error on 3");
}

#[test]
fn a_pipe_passes_everything_on_and_closes() {
    let mut ends = ends(vec![Ok(1), Ok(2), Ok(3)]);
    assert!(pipe(StreamPipeOptions::default(), &mut ends).is_ok());
    assert_eq!(ends.written, vec![1, 2, 3]);
    assert_eq!(ends.log, vec!["close"]);
}

#[test]
fn a_failed_close_fails_the_pipe() {
    let mut ends = ends(vec![Ok(1)]);
    ends.close = Err(StreamError::from("close failed"));
    let outcome = pipe(StreamPipeOptions::default(), &mut ends);
    assert_eq!(outcome.unwrap_err().to_text(), "close failed");
}

#[test]
fn a_failed_destination_cancels_the_source() {
    let mut failing = ends(vec![Ok(1), Ok(2), Ok(3)]);
    failing.takes = 1;
    let outcome = pipe(StreamPipeOptions::default(), &mut failing);
    assert_eq!(outcome.unwrap_err().to_text(), "full disk");
    assert_eq!(failing.written, vec![1]);
    assert_eq!(failing.log, vec!["cancel: full disk"]);

    let mut stubborn = ends(vec![Ok(1)]);
    stubborn.takes = 0;
    stubborn.cleanup = Err(StreamError::from("no cancel"));
    let outcome = pipe(StreamPipeOptions::default(), &mut stubborn);
    assert_eq!(outcome.unwrap_err().to_text(), "no cancel");
}

#[test]
fn a_failed_source_aborts_the_destination() {
    let mut failing = ends(vec![Ok(1), Err(StreamError::from("bad source"))]);
    let outcome = pipe(StreamPipeOptions::default(), &mut failing);
    assert_eq!(outcome.unwrap_err().to_text(), "bad source");
    assert_eq!(failing.written, vec![1]);
    assert_eq!(failing.log, vec!["abort: bad source"]);
}

#[test]
fn what_is_prevented_is_left_undone() {
    let mut open = ends(vec![Ok(1)]);
    assert!(pipe(options(true, false, false), &mut open).is_ok());
    assert!(open.log.is_empty());

    let mut unaborted = ends(vec![Err(StreamError::Closed)]);
    let outcome = pipe(options(false, true, false), &mut unaborted);
    assert!(matches!(outcome, Err(StreamError::Closed)));
    assert!(unaborted.log.is_empty());

    let mut uncancelled = ends(vec![Ok(1)]);
    uncancelled.takes = 0;
    let outcome = pipe(options(false, false, true), &mut uncancelled);
    assert_eq!(outcome.unwrap_err().to_text(), "full disk");
    assert!(uncancelled.log.is_empty());

    assert_eq!(options(false, true, false).on_abort(), (true, false));
    assert_eq!(options(false, false, true).on_abort(), (false, true));
}

#[test]
fn an_aborted_pipe_says_so() {
    assert_eq!(abort_reason(), "Aborted");
    assert_eq!(
        abort_outcome().unwrap_err().to_text(),
        "Stream was aborted: Pipe operation aborted"
    );
}

#[test]
fn the_identity_passes_chunks_on() {
    let (tx, mut rx) = unbounded();
    let (wtx, mut wrx) = unbounded();
    let mut controller = TransformStreamDefaultController::new(
        ReadableStreamDefaultController::new(tx, ReadableFlags::new(1)),
        WritableStreamDefaultController::new(wtx),
    );
    assert_eq!(controller.desired_size(), Some(1));
    let mut identity = IdentityTransformer::new();
    let mut task = TransformTask::new();
    let started = task.next_step(TransformEvent::Started(Ok(())));
    assert!(matches!(started.side_effect, SideEffect::Nothing) && started.reply.is_none());
    let transformed = identity.transform("chunk".to_string(), &mut controller);
    let step = task.next_step(TransformEvent::Transformed(transformed));
    assert!(!task.is_over() && matches!(step.reply, Some(Ok(()))));
    apply(&mut controller, step.side_effect);
    match rx.try_recv() {
        Ok(ControllerMsg::Enqueue { chunk }) => assert_eq!(chunk, "chunk"),
        _ => panic!("the chunk comes out"),
    }
    let done = task.next_step(TransformEvent::Flushed(Ok(())));
    assert!(task.is_over() && matches!(done.reply, Some(Ok(()))));
    apply(&mut controller, done.side_effect);
    assert!(matches!(rx.try_recv(), Ok(ControllerMsg::Close)));
    match wrx.try_recv() {
        Ok(WritableMsg::Error(error)) => assert_eq!(error.to_text(), "Terminated"),
        _ => panic!("further writes are refused"),
    }
}

#[test]
fn a_failed_transformation_fails_both_sides() {
    let (tx, mut rx) = unbounded::<ControllerMsg<i32>>();
    let (wtx, mut wrx) = unbounded();
    let mut controller = TransformStreamDefaultController::new(
        ReadableStreamDefaultController::new(tx, ReadableFlags::new(1)),
        WritableStreamDefaultController::new(wtx),
    );
    let mut task = TransformTask::Running;
    let failure = Err(StreamError::from("cannot transform"));
    let step = task.next_step(TransformEvent::Transformed(failure));
    assert!(task.is_over());
    assert_eq!(step.reply.unwrap().unwrap_err().to_text(), "cannot transform");
    apply(&mut controller, step.side_effect);
    assert!(matches!(rx.try_recv(), Ok(ControllerMsg::Error(_))));
    assert!(matches!(wrx.try_recv(), Ok(WritableMsg::Error(_))));
    drop(rx);
    assert_eq!(
        controller.error(StreamError::Closed).unwrap_err().to_text(),
        "Failed to error stream"
    );
    assert!(wrx.try_recv().is_err());
    assert_eq!(controller.terminate().unwrap_err().to_text(), "Failed to close stream");
    assert_eq!(controller.enqueue(1).unwrap_err().to_text(), "Failed to enqueue chunk");
}

#[test]
fn failures_and_aborts_end_a_transformation() {
    let mut task = TransformTask::new();
    let step = task.next_step(TransformEvent::Started(Err(StreamError::Closed)));
    assert!(task.is_over() && step.reply.is_none());
    assert!(matches!(step.side_effect, SideEffect::Fail(StreamError::Closed)));

    let mut task = TransformTask::Running;
    let flush = task.next_step(TransformEvent::Flushed(Err(StreamError::from("flush"))));
    assert!(task.is_over() && matches!(flush.side_effect, SideEffect::Fail(_)));
    assert_eq!(flush.reply.unwrap().unwrap_err().to_text(), "flush");

    let mut task = TransformTask::Running;
    let step = task.next_step(TransformEvent::Aborted(Some("why".to_string())));
    assert!(task.is_over());
    assert_eq!(step.reply.unwrap().unwrap_err().to_text(), "why");

    let mut task = TransformTask::Running;
    let silent = task.next_step(TransformEvent::Aborted(None));
    assert_eq!(silent.reply.unwrap().unwrap_err().to_text(), "Transform stream aborted");
}

#[test]
fn the_writable_side_asks_the_task() {
    let (tx, mut rx) = unbounded();
    let mut sink = TransformWritableSink::new(tx);
    let mut answer = sink.write(5).unwrap();
    match rx.try_recv() {
        Ok(TransformCommand::Write { chunk, completion }) => {
            assert_eq!(chunk, 5);
            completion.send(Ok(())).unwrap();
        }
        _ => panic!("the write is sent"),
    }
    assert!(answer.try_recv().unwrap().unwrap().is_ok());
    sink.close().unwrap();
    assert!(matches!(rx.try_recv(), Ok(TransformCommand::Close { .. })));
    sink.abort(None).unwrap();
    assert!(matches!(rx.try_recv(), Ok(TransformCommand::Abort { .. })));
    drop(rx);
    assert_eq!(sink.write(6).unwrap_err().to_text(), "Transform stream task dropped");
    assert_eq!(
        answer_or_canceled(None, Notice::TransformWriteCanceled).unwrap_err().to_text(),
        "Write operation canceled"
    );
    assert!(answer_or_canceled(Some(Ok(())), Notice::TransformWriteCanceled).is_ok());
    assert!(TransformReadableSource::<i32>::new().pull().is_ok());
}

#[test]
fn transformations_take_strategies() {
    let builder: TransformStreamBuilder<i32, String, u8, _, _> = TransformStreamBuilder::new(3);
    assert_eq!(QueuingStrategy::<i32>::high_water_mark(&builder.writable_strategy), 1);
    let builder = builder
        .writable_strategy(CountQueuingStrategy::new(7))
        .readable_strategy(CountQueuingStrategy::new(9));
    assert_eq!(builder.transformer, 3);
    assert_eq!(QueuingStrategy::<i32>::high_water_mark(&builder.writable_strategy), 7);
    assert_eq!(QueuingStrategy::<String>::high_water_mark(&builder.readable_strategy), 9);
}
