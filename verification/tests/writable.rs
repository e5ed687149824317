use whatwg_streams::error::{StreamError, StreamResult};
use whatwg_streams::strategy::{ByteLengthQueuingStrategy, CountQueuingStrategy, QueuingStrategy};
use whatwg_streams::writable::builder::WritableStreamBuilder;
use whatwg_streams::writable::effect::{StreamCommand, StreamState, WritableEffect};
use whatwg_streams::writable::handle::{Readiness, WritableStream};
use whatwg_streams::writable::inner::WritableStreamInner;

/// A sink that notes what it is given.
struct Sink<C> {
    received: Vec<C>,
    fail_write: Option<usize>,
    fail_close: bool,
    fail_abort: bool,
}

impl<C> Default for Sink<C> {
    fn default() -> Self {
        Sink { received: Vec::new(), fail_write: None, fail_close: false, fail_abort: false }
    }
}

impl<C> Sink<C> {
    fn write(&mut self, chunk: C) -> StreamResult<()> {
        if self.fail_write == Some(self.received.len()) {
            return Err(StreamError::from("intentional write failure"));
        }
        self.received.push(chunk);
        Ok(())
    }
}

type Inner<C, S> = WritableStreamInner<C, Sink<C>, S, u32, u32>;
type Effect<C> = WritableEffect<C, Sink<C>, u32, u32>;

fn same(a: &u32, b: &u32) -> bool {
    a == b
}

/// Runs the machine until it has nothing more to do, or until the sink is to be held up.
struct Driver<C, S: QueuingStrategy<C>> {
    inner: Inner<C, S>,
    answers: Vec<(u32, StreamResult<()>)>,
    woken: Vec<u32>,
    abort_requests: usize,
    log: Vec<String>,
    received: Vec<C>,
    /// A write that the sink has not finished yet.
    held: Option<(Sink<C>, C)>,
    hold_writes: bool,
    next_id: u32,
}

impl<C: Clone, S: QueuingStrategy<C>> Driver<C, S> {
    fn new(sink: Sink<C>, strategy: S) -> Self {
        let (mut inner, _): (Inner<C, S>, usize) =
            WritableStreamBuilder::new(sink).strategy(strategy).prepare();
        let sink = inner.start_begun().unwrap();
        inner.start_finished(sink, Ok(()));
        Driver {
            inner,
            answers: Vec::new(),
            woken: Vec::new(),
            abort_requests: 0,
            log: Vec::new(),
            received: Vec::new(),
            held: None,
            hold_writes: false,
            next_id: 0,
        }
    }

    fn finish_write(&mut self, mut sink: Sink<C>, chunk: C) {
        let outcome = sink.write(chunk);
        self.received = sink.received.clone();
        self.inner.write_finished(sink, outcome);
    }

    fn release(&mut self) {
        let (sink, chunk) = self.held.take().unwrap();
        self.finish_write(sink, chunk);
        self.settle();
    }

    fn settle(&mut self) {
        loop {
            self.inner.publish();
            self.inner.advance();
            let effects: Vec<Effect<C>> = self.inner.take_effects();
            let mut progress = false;
            for effect in effects {
                match effect {
                    WritableEffect::Complete(id, outcome) => {
                        progress = true;
                        self.answers.push((id, outcome));
                    }
                    WritableEffect::Wake(id) => self.woken.push(id),
                    WritableEffect::RequestAbort => self.abort_requests += 1,
                    WritableEffect::StartWrite(sink, chunk) => {
                        if self.hold_writes {
                            self.held = Some((sink, chunk));
                        } else {
                            progress = true;
                            self.finish_write(sink, chunk);
                        }
                    }
                    WritableEffect::StartClose(sink) => {
                        progress = true;
                        self.log.push("close called".to_string());
                        self.received = sink.received.clone();
                        self.inner.close_finished(if sink.fail_close {
                            Err(StreamError::from("close failed"))
                        } else {
                            Ok(())
                        });
                    }
                    WritableEffect::StartAbort(sink, reason) => {
                        progress = true;
                        self.log.push(match reason {
                            Some(reason) => format!("abort called with reason: {}", reason),
                            None => "abort called".to_string(),
                        });
                        self.inner.abort_finished(if sink.fail_abort {
                            Err(StreamError::from("abort failed"))
                        } else {
                            Ok(())
                        });
                    }
                    WritableEffect::Repoll => progress = true,
                }
            }
            if !progress {
                return;
            }
        }
    }

    fn id(&mut self) -> u32 {
        self.next_id += 1;
        self.next_id
    }

    fn command(&mut self, command: StreamCommand<C, u32, u32>) {
        if let StreamCommand::Write { chunk, .. } = &command {
            assert!(self.inner.can_write(chunk));
        }
        self.inner.process_command(command, same);
    }

    fn answer(&mut self, id: u32) -> Option<StreamResult<()>> {
        let position = self.answers.iter().position(|(answered, _)| *answered == id)?;
        Some(self.answers.remove(position).1)
    }

    fn begin_write(&mut self, chunk: impl Into<C>) -> u32 {
        let completion = self.id();
        self.command(StreamCommand::Write { chunk: chunk.into(), completion });
        self.settle();
        completion
    }

    fn write(&mut self, chunk: impl Into<C>) -> StreamResult<()> {
        let id = self.begin_write(chunk);
        self.answer(id).expect("the write still waits")
    }

    fn close(&mut self) -> StreamResult<()> {
        let completion = self.id();
        self.command(StreamCommand::Close { completion });
        self.settle();
        self.answer(completion).expect("the close still waits")
    }

    fn begin_abort(&mut self, reason: Option<&str>) -> u32 {
        let completion = self.id();
        self.command(StreamCommand::Abort { reason: reason.map(|r| r.to_string()), completion });
        self.settle();
        completion
    }

    fn abort(&mut self, reason: Option<&str>) -> StreamResult<()> {
        let id = self.begin_abort(reason);
        self.answer(id).expect("the abort still waits")
    }

    fn begin_flush(&mut self) -> u32 {
        let completion = self.id();
        self.command(StreamCommand::Flush { completion });
        self.settle();
        completion
    }

    fn handle(&self, high_water_mark: usize) -> WritableStream {
        let mut stream = WritableStream::new(high_water_mark);
        stream.publish(self.inner.published(), self.inner.stored_error());
        stream
    }
}

fn count(high_water_mark: usize) -> CountQueuingStrategy {
    CountQueuingStrategy::new(high_water_mark)
}

#[test]
fn writes_chunks_to_underlying_sink() {
    let mut writer = Driver::<Vec<u8>, _>::new(Sink::default(), count(2));
    writer.write(vec![1, 2, 3]).unwrap();
    writer.write(vec![4, 5]).unwrap();
    writer.close().unwrap();
    assert_eq!(writer.received, vec![vec![1, 2, 3], vec![4, 5]]);
}

#[test]
fn handles_basic_write_close_lifecycle() {
    let mut writer = Driver::<Vec<u8>, _>::new(Sink::default(), count(10));
    writer.write(vec![1]).unwrap();
    writer.write(vec![2]).unwrap();
    writer.close().unwrap();
    assert_eq!(writer.received.len(), 2);
    assert_eq!(writer.inner.state(), StreamState::Closed);
}

#[test]
fn handles_close_and_abort_operations() {
    let mut writer = Driver::<Vec<u8>, _>::new(Sink::default(), count(1));
    writer.abort(Some("test failure")).unwrap();
    assert_eq!(writer.log, vec!["abort called with reason: test failure"]);
    assert!(writer.write(vec![1]).is_err(), "write after abort should fail");
    assert!(writer.close().is_err(), "close after abort should fail");
    assert!(writer.abort_requests > 0);
}

#[test]
fn enforces_writer_lock_exclusivity() {
    let mut stream = WritableStream::new(10);
    stream.get_writer().unwrap();
    assert!(stream.locked());
    assert_eq!(stream.get_writer().unwrap_err().to_text(), "Stream already locked");
    stream.release_lock().unwrap();
    assert!(!stream.locked());
    stream.get_writer().unwrap();
}

#[test]
fn applies_backpressure_correctly() {
    let mut writer = Driver::<Vec<u8>, _>::new(Sink::default(), count(1));
    writer.hold_writes = true;
    let write1 = writer.begin_write(vec![1]);
    assert!(!writer.inner.published().backpressure);
    let write2 = writer.begin_write(vec![2]);
    assert!(writer.inner.published().backpressure);
    assert!(matches!(writer.handle(1).ready(), Readiness::Wait));
    writer.command(StreamCommand::RegisterReadyWaker { waker: 77 });
    writer.settle();
    assert!(writer.woken.is_empty());
    writer.release();
    writer.answer(write1).unwrap().unwrap();
    assert_eq!(writer.woken, vec![77]);
    writer.release();
    writer.answer(write2).unwrap().unwrap();
    assert!(!writer.inner.published().backpressure);
    assert!(matches!(writer.handle(1).ready(), Readiness::Now(Ok(()))));
}

#[test]
fn desired_size_returns_none_when_closed_or_errored() {
    let mut writer = Driver::<Vec<u8>, _>::new(Sink::default(), count(10));
    assert_eq!(writer.handle(10).desired_size(), Some(10));
    writer.close().unwrap();
    assert_eq!(writer.handle(10).desired_size(), None);
    writer.abort(None).unwrap();
    assert_eq!(writer.handle(10).desired_size(), None);
    let mut aborted = Driver::<Vec<u8>, _>::new(Sink::default(), count(10));
    aborted.abort(None).unwrap();
    assert_eq!(aborted.handle(10).desired_size(), None);
}

#[test]
fn desired_size_is_the_room_that_is_left() {
    let mut writer = Driver::<String, _>::new(Sink::default(), count(3));
    writer.hold_writes = true;
    writer.begin_write("under way");
    assert_eq!(writer.handle(3).desired_size(), Some(3));
    writer.begin_write("a");
    writer.begin_write("b");
    assert_eq!(writer.handle(3).desired_size(), Some(1));
    writer.begin_write("c");
    writer.begin_write("d");
    assert_eq!(writer.handle(3).desired_size(), Some(0));
}

#[test]
fn propagates_sink_errors_to_stream() {
    let sink = Sink { fail_write: Some(0), ..Sink::default() };
    let mut writer = Driver::<Vec<u8>, _>::new(sink, count(10));
    assert_eq!(writer.write(vec![1]).unwrap_err().to_text(), "intentional write failure");
    assert!(writer.inner.published().errored);
    assert!(!writer.inner.published().backpressure);
    assert_eq!(writer.close().unwrap_err().to_text(), "intentional write failure");
    match writer.handle(10).closed() {
        Readiness::Now(Err(error)) => assert_eq!(error.to_text(), "intentional write failure"),
        _ => panic!("the stream has failed"),
    }
}

#[test]
fn handles_multiple_close_calls_idempotently() {
    let mut writer = Driver::<Vec<u8>, _>::new(Sink::default(), count(10));
    writer.close().unwrap();
    writer.close().unwrap();
    writer.close().unwrap();
    assert!(matches!(writer.handle(10).closed(), Readiness::Now(Ok(()))));

    let mut writer = Driver::<String, _>::new(Sink::default(), count(5));
    writer.write("item1").unwrap();
    writer.close().unwrap();
    writer.close().unwrap();
    writer.close().unwrap();
    assert_eq!(writer.log, vec!["close called"]);
}

#[test]
fn rejects_operations_after_close() {
    let mut writer = Driver::<String, _>::new(Sink::default(), count(10));
    writer.write("item1").unwrap();
    writer.close().unwrap();
    assert!(matches!(writer.write("item2"), Err(StreamError::Closed)));
    assert_eq!(writer.received, vec!["item1"]);
}

#[test]
fn rejects_writes_while_closing() {
    let mut writer = Driver::<String, _>::new(Sink::default(), count(10));
    writer.hold_writes = true;
    let write = writer.begin_write("slow");
    let close = writer.id();
    writer.command(StreamCommand::Close { completion: close });
    writer.settle();
    assert!(matches!(writer.write("late"), Err(StreamError::Closing)));
    assert!(writer.answer(close).is_none());
    writer.release();
    writer.answer(write).unwrap().unwrap();
    writer.answer(close).unwrap().unwrap();
}

#[test]
fn handles_write_failures_appropriately() {
    let sink = Sink { fail_write: Some(2), ..Sink::default() };
    let mut writer = Driver::<String, _>::new(sink, count(5));
    writer.write("item1").unwrap();
    writer.write("item2").unwrap();
    assert!(writer.write("item3").is_err(), "third write should fail");
    assert!(matches!(writer.handle(5).poll_ready(), Readiness::Now(Err(_))));
    assert_eq!(writer.received, vec!["item1", "item2"]);
}

#[test]
fn handles_close_failures() {
    let sink = Sink { fail_close: true, ..Sink::default() };
    let mut writer = Driver::<String, _>::new(sink, count(5));
    writer.write("item1").unwrap();
    writer.write("item2").unwrap();
    assert_eq!(writer.close().unwrap_err().to_text(), "close failed");
    assert_eq!(writer.received, vec!["item1", "item2"]);
    assert_eq!(writer.inner.state(), StreamState::Errored);
}

#[test]
fn handles_abort_with_reason() {
    let mut writer = Driver::<String, _>::new(Sink::default(), count(5));
    writer.write("item1").unwrap();
    writer.write("item2").unwrap();
    writer.abort(Some("Test abort reason")).unwrap();
    assert_eq!(writer.log, vec!["abort called with reason: Test abort reason"]);
    assert_eq!(writer.received, vec!["item1", "item2"]);
}

#[test]
fn a_failed_abort_is_reported() {
    let sink = Sink { fail_abort: true, ..Sink::default() };
    let mut writer = Driver::<String, _>::new(sink, count(5));
    assert_eq!(writer.abort(None).unwrap_err().to_text(), "abort failed");
    assert_eq!(writer.write("x").unwrap_err().to_text(), "abort failed");
}

#[test]
fn an_abort_refuses_what_is_queued_and_what_is_under_way() {
    let mut writer = Driver::<String, _>::new(Sink::default(), count(5));
    writer.hold_writes = true;
    let under_way = writer.begin_write("a");
    let queued1 = writer.begin_write("b");
    let queued2 = writer.begin_write("c");
    let abort = writer.begin_abort(Some("enough"));
    for id in [queued1, queued2] {
        match writer.answer(id).unwrap() {
            Err(StreamError::Aborted(Some(reason))) => assert_eq!(reason, "enough"),
            _ => panic!("the write was aborted"),
        }
    }
    assert!(matches!(writer.answer(under_way), Some(Err(StreamError::Aborted(None)))));
    assert!(writer.answer(abort).is_none());
    match writer.write("late") {
        Err(StreamError::Aborted(Some(reason))) => assert_eq!(reason, "enough"),
        _ => panic!("the stream was aborted"),
    }
    writer.release();
    writer.answer(abort).unwrap().unwrap();
    assert_eq!(writer.log, vec!["abort called with reason: enough"]);
}

#[test]
fn a_controller_error_becomes_the_abort_reason() {
    let mut writer = Driver::<String, _>::new(Sink::default(), count(5));
    writer.hold_writes = true;
    writer.begin_write("a");
    let abort = writer.begin_abort(Some("first"));
    writer.inner.controller_error(&StreamError::from("boom"));
    writer.release();
    writer.answer(abort).unwrap().unwrap();
    assert_eq!(
        writer.log,
        vec!["abort called with reason: Controller error: Other(SimpleError(\"boom\"))"]
    );
}

#[test]
fn a_controller_error_fails_the_stream() {
    let mut writer = Driver::<String, _>::new(Sink::default(), count(5));
    writer.inner.controller_error(&StreamError::from("boom"));
    writer.settle();
    assert!(writer.inner.published().errored);
    assert_eq!(writer.write("x").unwrap_err().to_text(), "Stream is errored");
}

#[test]
fn flush_waits_for_all_pending_writes() {
    let mut writer = Driver::<String, _>::new(Sink::default(), count(5));
    writer.hold_writes = true;
    writer.begin_write("item1");
    writer.begin_write("item2");
    writer.begin_write("item3");
    let flush = writer.begin_flush();
    for _ in 0..3 {
        assert!(writer.answer(flush).is_none());
        writer.release();
    }
    writer.answer(flush).unwrap().unwrap();
    assert_eq!(writer.received, vec!["item1", "item2", "item3"]);
    writer.close().unwrap();
}

#[test]
fn flushes_wait_for_the_writes_before_them_only() {
    let mut writer = Driver::<String, _>::new(Sink::default(), count(5));
    writer.hold_writes = true;
    let empty = writer.begin_flush();
    writer.answer(empty).unwrap().unwrap();
    writer.begin_write("a");
    let first = writer.begin_flush();
    writer.begin_write("b");
    let second = writer.begin_flush();
    writer.release();
    writer.answer(first).unwrap().unwrap();
    assert!(writer.answer(second).is_none());
    writer.release();
    writer.answer(second).unwrap().unwrap();
}

#[test]
fn processes_sink_operations_in_order() {
    let mut writer = Driver::<String, _>::new(Sink::default(), count(5));
    writer.hold_writes = true;
    let ids: Vec<u32> = ["item1", "item2", "item3"]
        .iter()
        .map(|item| writer.begin_write(*item))
        .collect();
    for id in ids {
        writer.release();
        writer.answer(id).unwrap().unwrap();
    }
    assert_eq!(writer.received, vec!["item1", "item2", "item3"]);
}

#[test]
fn a_failed_start_fails_the_stream_and_drops_the_sink() {
    let (mut inner, mark): (Inner<String, CountQueuingStrategy>, usize) =
        WritableStreamBuilder::new(Sink::default()).prepare();
    assert_eq!(mark, 1);
    let sink = inner.start_begun().unwrap();
    inner.start_finished(sink, Err(StreamError::from("no start")));
    assert!(inner.start_begun().is_none());
    assert_eq!(inner.get_stored_error().to_text(), "no start");
    inner.process_command(StreamCommand::Write { chunk: "x".to_string(), completion: 1 }, same);
    match &inner.take_effects()[0] {
        WritableEffect::Complete(1, Err(error)) => assert_eq!(error.to_text(), "no start"),
        _ => panic!("the write is refused"),
    }
    assert!(!inner.is_busy());
}

#[test]
fn nothing_begins_before_the_sink_has_started() {
    let (mut inner, _): (Inner<String, CountQueuingStrategy>, usize) =
        WritableStreamBuilder::new(Sink::default()).prepare();
    inner.process_command(StreamCommand::Write { chunk: "x".to_string(), completion: 1 }, same);
    inner.process_command(StreamCommand::Close { completion: 2 }, same);
    inner.advance();
    assert!(inner.take_effects().is_empty());
    let sink = inner.start_begun().unwrap();
    assert!(inner.start_begun().is_none());
    inner.advance();
    assert!(inner.take_effects().is_empty());
    inner.start_finished(sink, Ok(()));
    assert!(inner.start_begun().is_none());
    inner.advance();
    let mut effects = inner.take_effects();
    assert!(matches!(effects.pop(), Some(WritableEffect::StartWrite(_, chunk)) if chunk == "x"));
    inner.advance();
    assert!(inner.take_effects().is_empty());
    inner.write_finished(Sink::default(), Ok(()));
    let answered = inner.take_effects();
    assert!(answered.iter().any(|effect| matches!(effect, WritableEffect::Complete(1, Ok(())))));
    inner.advance();
    assert!(matches!(inner.take_effects().pop(), Some(WritableEffect::StartClose(_))));
    inner.close_finished(Ok(()));
    inner.process_command(StreamCommand::Abort { reason: None, completion: 3 }, same);
    inner.advance();
    let rest = inner.take_effects();
    assert!(rest.iter().all(|effect| !matches!(
        effect,
        WritableEffect::StartWrite(..) | WritableEffect::StartClose(..) | WritableEffect::StartAbort(..)
    )));
}

#[test]
fn a_close_that_waits_is_done_once_the_sink_is_gone() {
    let sink = Sink { fail_write: Some(0), ..Sink::default() };
    let mut writer = Driver::<String, _>::new(sink, count(2));
    writer.hold_writes = true;
    let write = writer.begin_write("x");
    let close = writer.id();
    writer.command(StreamCommand::Close { completion: close });
    writer.command(StreamCommand::RegisterClosedWaker { waker: 5 });
    writer.command(StreamCommand::RegisterClosedWaker { waker: 5 });
    writer.settle();
    assert!(writer.woken.is_empty());
    writer.release();
    assert!(writer.answer(write).unwrap().is_err());
    assert!(writer.answer(close).unwrap().is_ok());
    assert_eq!(writer.woken, vec![5]);
    assert!(writer.log.is_empty());
}

#[test]
fn byte_lengths_count_against_the_mark() {
    let mut writer = Driver::<String, _>::new(Sink::default(), ByteLengthQueuingStrategy::new(6));
    writer.hold_writes = true;
    writer.begin_write("under way");
    writer.begin_write("abc");
    assert!(!writer.inner.published().backpressure);
    writer.begin_write("def");
    assert!(writer.inner.published().backpressure);
    assert_eq!(writer.inner.published().queue_total_size, 6);
}

#[test]
fn every_operation_is_answered_once_or_still_waits() {
    let mut writer = Driver::<String, _>::new(Sink::default(), count(10));
    writer.hold_writes = true;
    let first = writer.begin_write("1");
    let early_flush = writer.begin_flush();
    let second = writer.begin_write("2");
    let late_flush = writer.begin_flush();
    let abort = writer.begin_abort(Some("enough"));
    writer.release();
    let late_write = writer.begin_write("3");
    let times = |id: u32| writer.answers.iter().filter(|(answered, _)| *answered == id).count();
    for id in [first, early_flush, second, abort, late_write] {
        assert_eq!(times(id), 1);
    }
    // The write that it waited for was refused, so it was never counted.
    assert_eq!(times(late_flush), 0);
}

#[test]
fn writes_that_a_controller_error_drops_are_not_answered() {
    let mut writer = Driver::<String, _>::new(Sink::default(), count(10));
    writer.hold_writes = true;
    let first = writer.begin_write("1");
    let second = writer.begin_write("2");
    writer.inner.controller_error(&StreamError::from("broken"));
    writer.release();
    assert_eq!(writer.answers.len(), 1);
    assert!(writer.answer(first).unwrap().is_ok());
    assert!(writer.answer(second).is_none());
}

#[test]
fn a_failed_write_is_the_end() {
    let sink = Sink { fail_write: Some(1), ..Sink::default() };
    let mut writer = Driver::<String, _>::new(sink, count(10));
    writer.hold_writes = true;
    let done = writer.begin_write("a");
    let fails = writer.begin_write("b");
    let queued = writer.begin_write("c");
    writer.release();
    writer.answer(done).unwrap().unwrap();
    writer.release();
    writer.hold_writes = false;
    let failed = writer.answer(fails).unwrap();
    assert_eq!(failed.unwrap_err().to_text(), "intentional write failure");
    assert!(writer.answer(queued).is_none());
    for _ in 0..2 {
        assert_eq!(writer.write("d").unwrap_err().to_text(), "intentional write failure");
        assert_eq!(writer.close().unwrap_err().to_text(), "intentional write failure");
        let flush = writer.begin_flush();
        let flushed = writer.answer(flush).unwrap();
        assert_eq!(flushed.unwrap_err().to_text(), "intentional write failure");
        writer.abort(Some("why")).unwrap();
    }
    assert!(writer.held.is_none());
    assert_eq!(writer.received, vec!["a"]);
    assert!(writer.log.is_empty());
}
