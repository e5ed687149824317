use futures::channel::mpsc::unbounded;
use futures::channel::oneshot;

use whatwg_streams::error::{StreamError, StreamResult};
use whatwg_streams::readable::controller::{
    accept_chunk, reported_size, ReadableFlags, ReadableStreamDefaultController,
};
use whatwg_streams::readable::effect::{ControllerMsg, ReadableEffect, StreamCommand};
use whatwg_streams::readable::inner::ReadableStreamInner;
use whatwg_streams::readable::byte_task::ByteReply;
use whatwg_streams::readable::reader::{
    answer_byte_readers, answer_readers, Completion, ReadCompletion, ReadableStreamDefaultReader,
};
use whatwg_streams::readable::source::{tell, IteratorSource};
use whatwg_streams::strategy::CountQueuingStrategy;
use whatwg_streams::writable::controller::{
    ControllerMsg as WritableMsg, WritableStreamDefaultController,
};
use whatwg_streams::writable::effect::{
    Published, StreamCommand as WritableCommand, WritableEffect,
};
use whatwg_streams::writable::handle::WritableStream;
use whatwg_streams::writable::writer::{answer_writers, WritableStreamDefaultWriter};

#[test]
fn a_reader_asks_and_is_answered() {
    let (tx, mut rx) = unbounded();
    let mut reader: ReadableStreamDefaultReader<i32, u32> = ReadableStreamDefaultReader::new(tx);
    let mut inner: ReadableStreamInner<i32, (), _, ReadCompletion<i32>, Completion, u32> =
        ReadableStreamInner::new((), CountQueuingStrategy::new(1));
    let mut first = reader.read().unwrap();
    let mut second = reader.clone().read().unwrap();
    while let Ok(command) = rx.try_recv() {
        inner.process_command(command, |a: &u32, b: &u32| a == b);
    }
    inner.process_controller_msg(ControllerMsg::Enqueue { chunk: 11 });
    inner.process_controller_msg(ControllerMsg::Close);
    assert!(answer_readers(inner.take_effects()).is_empty());
    assert_eq!(first.try_recv().unwrap().unwrap().unwrap(), Some(11));
    assert_eq!(second.try_recv().unwrap().unwrap().unwrap(), None);
    drop(rx);
    assert!(matches!(reader.read(), Err(StreamError::TaskDropped)));
    assert!(matches!(reader.cancel(None), Err(StreamError::TaskDropped)));
}

#[test]
fn a_reader_cancels_and_registers() {
    let (tx, mut rx) = unbounded();
    let mut reader: ReadableStreamDefaultReader<i32, u32> = ReadableStreamDefaultReader::new(tx);
    let mut answer = reader.cancel(Some("done".to_string())).unwrap();
    match rx.try_recv() {
        Ok(StreamCommand::Cancel { reason, cancel_completion }) => {
            assert_eq!(reason, Some("done".to_string()));
            cancel_completion.send(Ok(())).unwrap();
        }
        _ => panic!("the cancellation is sent"),
    }
    assert!(answer.try_recv().unwrap().unwrap().is_ok());
    reader.register_ready_waker(1);
    assert!(matches!(rx.try_recv(), Ok(StreamCommand::RegisterReadyWaker { waker: 1 })));
    reader.register_closed_waker(2);
    assert!(matches!(rx.try_recv(), Ok(StreamCommand::RegisterClosedWaker { waker: 2 })));
}

#[test]
fn everything_but_answers_comes_back() {
    let (gone, receiver) = oneshot::channel::<StreamResult<Option<i32>>>();
    drop(receiver);
    let (cancel, mut canceled) = oneshot::channel::<StreamResult<()>>();
    let effects: Vec<ReadableEffect<i32, u8, ReadCompletion<i32>, Completion, u32>> = vec![
        ReadableEffect::Wake(1),
        ReadableEffect::ReplyRead(gone, Ok(Some(4))),
        ReadableEffect::StartPull(9),
        ReadableEffect::ReplyCancel(cancel, Ok(())),
        ReadableEffect::Repoll,
    ];
    let rest = answer_readers(effects);
    assert_eq!(rest.len(), 3);
    assert!(matches!(rest[0], ReadableEffect::Wake(1)));
    assert!(matches!(rest[1], ReadableEffect::StartPull(9)));
    assert!(matches!(rest[2], ReadableEffect::Repoll));
    assert!(canceled.try_recv().unwrap().unwrap().is_ok());
}

#[test]
fn a_controller_sends_while_the_stream_is_open() {
    let (tx, mut rx) = unbounded();
    let flags = ReadableFlags::new(2);
    let mut controller = ReadableStreamDefaultController::new(tx, flags.share());
    assert_eq!(controller.desired_size(), Some(2));
    controller.enqueue("x").unwrap();
    assert!(matches!(rx.try_recv(), Ok(ControllerMsg::Enqueue { chunk: "x" })));
    flags.publish(false, false, 1);
    assert_eq!(controller.clone().desired_size(), Some(1));
    controller.close().unwrap();
    assert!(matches!(rx.try_recv(), Ok(ControllerMsg::Close)));
    flags.publish(true, false, 0);
    assert_eq!(controller.desired_size(), None);
    assert_eq!(controller.enqueue("y").unwrap_err().to_text(), "Stream is closed");
    flags.publish(false, true, 0);
    assert_eq!(controller.enqueue("y").unwrap_err().to_text(), "Stream is errored");
    controller.error(StreamError::Closed).unwrap();
    assert!(matches!(rx.try_recv(), Ok(ControllerMsg::Error(StreamError::Closed))));
    flags.publish(false, false, 0);
    drop(rx);
    assert_eq!(controller.enqueue("z").unwrap_err().to_text(), "Failed to enqueue chunk");
    assert_eq!(controller.close().unwrap_err().to_text(), "Failed to close stream");
    assert_eq!(
        controller.error(StreamError::Closed).unwrap_err().to_text(),
        "Failed to error stream"
    );
}

#[test]
fn a_closed_stream_is_refused_before_an_errored_one() {
    assert!(matches!(
        accept_chunk(true, true, 1),
        Err(error) if error.to_text() == "Stream is closed"
    ));
    assert!(matches!(
        accept_chunk(false, true, 1),
        Err(error) if error.to_text() == "Stream is errored"
    ));
    assert!(matches!(accept_chunk(false, false, 1), Ok(ControllerMsg::Enqueue { chunk: 1 })));
    assert_eq!(reported_size(false, false, -3), Some(-3));
    assert_eq!(reported_size(true, false, 5), None);
    assert_eq!(reported_size(false, true, 5), None);
}

#[test]
fn an_iterator_source_feeds_its_stream() {
    let (tx, mut rx) = unbounded();
    let mut controller = ReadableStreamDefaultController::new(tx, ReadableFlags::new(1));
    let mut source = IteratorSource { iter: vec![1, 2].into_iter() };
    for _ in 0..3 {
        source.pull(&mut controller).unwrap();
    }
    assert!(matches!(rx.try_recv(), Ok(ControllerMsg::Enqueue { chunk: 1 })));
    assert!(matches!(rx.try_recv(), Ok(ControllerMsg::Enqueue { chunk: 2 })));
    assert!(matches!(rx.try_recv(), Ok(ControllerMsg::Close)));
    tell(&mut controller, ControllerMsg::Error(StreamError::Canceled)).unwrap();
    assert!(matches!(rx.try_recv(), Ok(ControllerMsg::Error(StreamError::Canceled))));
}

#[test]
fn a_writer_asks_and_is_answered() {
    let (tx, mut rx) = unbounded();
    let mut writer: WritableStreamDefaultWriter<&str, u32> = WritableStreamDefaultWriter::new(tx);
    let mut answer = writer.clone().write("w").unwrap();
    let completion = match rx.try_recv() {
        Ok(WritableCommand::Write { chunk: "w", completion }) => completion,
        _ => panic!("the write is sent"),
    };
    let effects: Vec<WritableEffect<&str, u8, _, u32>> = vec![
        WritableEffect::Complete(completion, Err(StreamError::Closing)),
        WritableEffect::Wake(3),
    ];
    let rest = answer_writers(effects);
    assert_eq!(rest.len(), 1);
    assert!(matches!(rest[0], WritableEffect::Wake(3)));
    assert!(matches!(
        answer.try_recv().unwrap().unwrap(),
        Err(StreamError::Closing)
    ));
    writer.flush().unwrap();
    assert!(matches!(rx.try_recv(), Ok(WritableCommand::Flush { .. })));
    writer.close().unwrap();
    assert!(matches!(rx.try_recv(), Ok(WritableCommand::Close { .. })));
    writer.abort(None).unwrap();
    assert!(matches!(rx.try_recv(), Ok(WritableCommand::Abort { .. })));
    writer.register_ready_waker(8);
    assert!(matches!(rx.try_recv(), Ok(WritableCommand::RegisterReadyWaker { waker: 8 })));
    writer.register_closed_waker(9);
    assert!(matches!(rx.try_recv(), Ok(WritableCommand::RegisterClosedWaker { waker: 9 })));
    let mut stream = WritableStream::new(1);
    writer.enqueue(&stream, "e").unwrap();
    assert!(matches!(rx.try_recv(), Ok(WritableCommand::Write { chunk: "e", .. })));
    let ended = Published { backpressure: false, closed: true, errored: false, queue_total_size: 0 };
    stream.publish(ended, None);
    assert!(matches!(writer.enqueue(&stream, "f"), Err(StreamError::Closed)));
    drop(rx);
    assert!(matches!(writer.write("g"), Err(StreamError::TaskDropped)));
    assert!(matches!(
        writer.enqueue(&WritableStream::new(1), "h"),
        Err(StreamError::TaskDropped)
    ));
}

#[test]
fn a_sink_learns_of_an_abort_and_can_fail_the_stream() {
    let (tx, mut rx) = unbounded();
    let mut controller = WritableStreamDefaultController::new(tx);
    assert!(!controller.is_aborted());
    controller.clone().request_abort();
    assert!(controller.is_aborted());
    controller.error(StreamError::from("sink"));
    match rx.try_recv() {
        Ok(WritableMsg::Error(error)) => assert_eq!(error.to_text(), "sink"),
        _ => panic!("the error is sent"),
    }
}

#[test]
fn each_read_of_bytes_is_given_its_own_answer() {
    let mut answers = Vec::new();
    let mut reads = Vec::new();
    for _ in 0..4 {
        let (read, answer) = oneshot::channel::<StreamResult<Option<Vec<u8>>>>();
        reads.push(read);
        answers.push(answer);
    }
    drop(answers.pop());
    let last = reads.pop().unwrap();
    answer_byte_readers(vec![
        ByteReply::End(reads.remove(1)),
        ByteReply::Data(reads.remove(0), vec![1, 2]),
        ByteReply::Data(last, vec![9]),
        ByteReply::Failed(reads.remove(0), StreamError::from("no more")),
    ]);
    assert_eq!(answers[0].try_recv().unwrap().unwrap().unwrap(), Some(vec![1, 2]));
    assert_eq!(answers[1].try_recv().unwrap().unwrap().unwrap(), None);
    assert_eq!(answers[2].try_recv().unwrap().unwrap().unwrap_err().to_text(), "no more");
}

#[test]
fn each_writer_is_given_its_own_answer() {
    let (first, mut first_answer) = oneshot::channel::<StreamResult<()>>();
    let (second, mut second_answer) = oneshot::channel::<StreamResult<()>>();
    let effects: Vec<WritableEffect<&str, u8, _, u32>> = vec![
        WritableEffect::Complete(second, Err(StreamError::Closed)),
        WritableEffect::Repoll,
        WritableEffect::Complete(first, Ok(())),
    ];
    assert!(matches!(answer_writers(effects)[..], [WritableEffect::Repoll]));
    assert!(first_answer.try_recv().unwrap().unwrap().is_ok());
    assert!(matches!(second_answer.try_recv().unwrap().unwrap(), Err(StreamError::Closed)));
}

#[test]
fn each_call_sends_one_message_and_a_refused_one_sends_none() {
    let (tx, mut rx) = unbounded::<ControllerMsg<i32>>();
    let flags = ReadableFlags::new(1);
    let mut controller = ReadableStreamDefaultController::new(tx, flags.share());
    controller.enqueue(1).unwrap();
    assert!(rx.try_recv().is_ok() && rx.try_recv().is_err());
    controller.close().unwrap();
    assert!(rx.try_recv().is_ok() && rx.try_recv().is_err());
    flags.publish(true, false, 0);
    assert!(controller.enqueue(2).is_err());
    assert!(rx.try_recv().is_err());

    let (tx, mut rx) = unbounded();
    let mut writer: WritableStreamDefaultWriter<i32, u32> = WritableStreamDefaultWriter::new(tx);
    writer.write(3).unwrap();
    assert!(rx.try_recv().is_ok() && rx.try_recv().is_err());
    writer.close().unwrap();
    assert!(rx.try_recv().is_ok() && rx.try_recv().is_err());
    let mut ended = WritableStream::new(1);
    let closed = Published { backpressure: false, closed: true, errored: false, queue_total_size: 0 };
    ended.publish(closed, None);
    assert!(writer.enqueue(&ended, 4).is_err());
    assert!(rx.try_recv().is_err());
}
