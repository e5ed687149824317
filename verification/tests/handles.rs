use whatwg_streams::error::{Notice, StreamError};
use whatwg_streams::readable::byte_state::Polled;
use whatwg_streams::writable::controller::with_abort;
use whatwg_streams::writable::effect::Published;
use whatwg_streams::writable::handle::{
    ending_failure, look_again, write_failure, IoKind, OpStep, PendingOps, Readiness, Reply,
    WritableStream,
};

fn stream(backpressure: bool, closed: bool, errored: bool) -> WritableStream {
    let mut stream = WritableStream::new(4);
    stream.publish(
        Published { backpressure, closed, errored, queue_total_size: 0 },
        if errored { Some(StreamError::from("broken")) } else { None },
    );
    stream
}

#[test]
fn sinks_are_ready_unless_ended_or_full() {
    assert!(matches!(stream(false, false, false).poll_ready(), Readiness::Now(Ok(()))));
    assert!(matches!(stream(true, false, false).poll_ready(), Readiness::Wait));
    assert!(matches!(
        stream(false, true, false).poll_ready(),
        Readiness::Now(Err(StreamError::Closed))
    ));
    match stream(true, true, true).poll_ready() {
        Readiness::Now(Err(error)) => assert_eq!(error.to_text(), "broken"),
        _ => panic!("the stream has failed"),
    }
    assert!(matches!(look_again(true), Polled::Ready(Ok(()))));
    assert!(matches!(look_again(false), Polled::Pending));
}

#[test]
fn writers_of_a_closed_stream_do_not_wait() {
    assert!(matches!(stream(true, true, false).ready(), Readiness::Now(Ok(()))));
    assert!(matches!(stream(true, false, false).ready(), Readiness::Wait));
    assert!(matches!(stream(false, false, false).closed(), Readiness::Wait));
}

#[test]
fn sending_against_backpressure_is_refused() {
    stream(false, false, false).start_send().unwrap();
    assert_eq!(
        stream(true, false, false).start_send().unwrap_err().to_text(),
        "start_send called while backpressure is active - call poll_ready first"
    );
    assert!(matches!(stream(true, true, false).start_send(), Err(StreamError::Closed)));
    assert!(stream(false, false, true).start_send().is_err());
}

#[test]
fn a_flush_is_sent_once_and_answered_once() {
    let open = stream(false, false, false);
    let mut ops: PendingOps<u8> = PendingOps::new();
    assert!(matches!(ops.poll_flush(&open), OpStep::Send));
    assert_eq!(ops.flush_sent(None).unwrap_err().to_text(), "Stream task dropped");
    ops.flush_sent(Some(1)).unwrap();
    assert!(matches!(ops.poll_flush(&open), OpStep::LookForAnswer));
    assert!(matches!(ops.flush_answered(Reply::NotYet), Polled::Pending));
    assert!(matches!(ops.flush_answered(Reply::Answered(Ok(()))), Polled::Ready(Ok(()))));
    match ops.flush_answered(Reply::NotYet) {
        Polled::Ready(Err(error)) => assert_eq!(error.to_text(), "Flush receiver missing"),
        _ => panic!("there is nothing to look for"),
    }
    ops.flush_sent(Some(2)).unwrap();
    match ops.flush_answered(Reply::Canceled) {
        Polled::Ready(Err(error)) => assert_eq!(error.to_text(), "Flush operation canceled"),
        _ => panic!("the task is gone"),
    }
    assert!(matches!(ops.poll_flush(&stream(false, false, true)), OpStep::Over(Err(_))));
}

#[test]
fn a_close_is_sent_once_and_answered_once() {
    let open = stream(false, false, false);
    let mut ops: PendingOps<u8> = PendingOps::new();
    assert!(matches!(ops.poll_close(&stream(false, true, true)), OpStep::Over(Ok(()))));
    assert!(matches!(ops.poll_close(&stream(false, false, true)), OpStep::Over(Err(_))));
    assert!(matches!(ops.poll_close(&open), OpStep::Send));
    assert_eq!(ops.close_sent(None).unwrap_err().to_text(), "Stream task dropped");
    ops.close_sent(Some(1)).unwrap();
    assert!(matches!(ops.poll_close(&open), OpStep::LookForAnswer));
    match ops.close_answered(Reply::Canceled) {
        Polled::Ready(Err(error)) => assert_eq!(error.to_text(), "Close operation canceled"),
        _ => panic!("the task is gone"),
    }
    match ops.close_answered(Reply::NotYet) {
        Polled::Ready(Err(error)) => assert_eq!(error.to_text(), "Close receiver missing"),
        _ => panic!("there is nothing to look for"),
    }
}

#[test]
fn an_empty_write_is_done_at_once() {
    let ops: PendingOps<u8> = PendingOps::new();
    assert!(matches!(ops.poll_write(&stream(true, true, true), 0), OpStep::Over(Ok(0))));
}

#[test]
fn a_write_goes_step_by_step() {
    let open = stream(false, false, false);
    let mut ops: PendingOps<u8> = PendingOps::new();
    assert!(matches!(ops.poll_write(&stream(true, false, false), 5), OpStep::WaitForRoom));
    assert!(matches!(ops.room_looked_for(true), OpStep::NotYet));
    assert!(matches!(ops.room_looked_for(false), OpStep::Send));
    assert!(matches!(ops.poll_write(&open, 5), OpStep::Send));
    ops.write_sent(Some(1), 5).unwrap();
    assert!(matches!(ops.poll_write(&open, 5), OpStep::LookForAnswer));
    assert!(matches!(ops.room_looked_for(false), OpStep::LookForAnswer));
    assert!(matches!(ops.write_answered(Reply::NotYet), Polled::Pending));
    assert!(matches!(ops.write_answered(Reply::Answered(Ok(()))), Polled::Ready(Ok(5))));
}

#[test]
fn failures_are_shown_as_io_errors() {
    let mut ops: PendingOps<u8> = PendingOps::new();
    match ops.poll_write(&stream(false, true, false), 1) {
        OpStep::Over(Err(failure)) => {
            assert_eq!(failure.kind, IoKind::BrokenPipe);
            assert_eq!(failure.message, "Stream is closed");
        }
        _ => panic!("a closed stream refuses writes"),
    }
    match ops.poll_write(&stream(false, false, true), 1) {
        OpStep::Over(Err(failure)) => {
            assert_eq!(failure.kind, IoKind::Other);
            assert_eq!(failure.message, "broken");
        }
        _ => panic!("an errored stream refuses writes"),
    }
    let dropped = ops.write_sent(None, 1).unwrap_err();
    assert_eq!(dropped.kind, IoKind::BrokenPipe);
    assert_eq!(dropped.message, "Stream task dropped");
    match ops.write_answered(Reply::NotYet) {
        Polled::Ready(Err(failure)) => assert_eq!(failure.message, "Write receiver missing"),
        _ => panic!("there is nothing to look for"),
    }
    ops.write_sent(Some(1), 1).unwrap();
    match ops.write_answered(Reply::Canceled) {
        Polled::Ready(Err(failure)) => {
            assert_eq!(failure.kind, IoKind::Interrupted);
            assert_eq!(failure.message, "Write completion channel canceled");
        }
        _ => panic!("the task is gone"),
    }
}

#[test]
fn write_failures_keep_their_words() {
    let expected = vec![
        (StreamError::Canceled, IoKind::Interrupted, "Write canceled"),
        (
            StreamError::Aborted(Some("x".to_string())),
            IoKind::Interrupted,
            "Stream was aborted: x",
        ),
        (StreamError::Closing, IoKind::BrokenPipe, "Stream is closing"),
        (StreamError::Closed, IoKind::BrokenPipe, "Stream is closed"),
        (StreamError::TaskDropped, IoKind::BrokenPipe, "Stream task dropped"),
        (StreamError::from("odd"), IoKind::Other, "odd"),
    ];
    for (error, kind, message) in expected {
        let failure = write_failure(&error);
        assert_eq!(failure.kind, kind);
        assert_eq!(failure.message, message);
    }
    let gone = ending_failure(&StreamError::notice(Notice::TaskDropped), false);
    assert_eq!(gone.kind, IoKind::BrokenPipe);
    assert_eq!(gone.message, "Stream task dropped");
    let canceled = ending_failure(&StreamError::notice(Notice::FlushCanceled), true);
    assert_eq!(canceled.kind, IoKind::Other);
    assert_eq!(canceled.message, "Flush operation canceled");
}

#[test]
fn an_abort_overtakes_work() {
    assert_eq!(with_abort(Some(3)).unwrap(), 3);
    assert!(matches!(with_abort::<i32>(None), Err(StreamError::Aborted(None))));
}
