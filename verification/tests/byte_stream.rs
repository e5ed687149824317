use whatwg_streams::error::{StreamError, StreamResult};
use whatwg_streams::readable::builder::{ByteStream, ReadableStreamBuilder};
use whatwg_streams::readable::byte_state::{
    ByteStreamState, Polled, ReadableByteStreamController,
};
use whatwg_streams::readable::byte_task::{ByteReply, ByteStreamTask, CHUNK_SIZE};

type Spawn = fn();
type State<Src> = ByteStreamState<Src, u32>;

fn same(a: &u32, b: &u32) -> bool {
    a == b
}

/// A source that can be pulled without waiting.
trait PullBytes {
    fn pull(
        &mut self,
        controller: &mut ReadableByteStreamController<'_, State<Box<dyn PullBytes>>>,
        buffer: &mut [u8],
    ) -> StreamResult<usize>;
}

struct Copying {
    data: Vec<u8>,
    position: usize,
}

impl PullBytes for Copying {
    fn pull(
        &mut self,
        controller: &mut ReadableByteStreamController<'_, State<Box<dyn PullBytes>>>,
        buffer: &mut [u8],
    ) -> StreamResult<usize> {
        if self.position >= self.data.len() {
            controller.close()?;
            return Ok(0);
        }
        let n = buffer.len().min(self.data.len() - self.position);
        buffer[..n].copy_from_slice(&self.data[self.position..self.position + n]);
        self.position += n;
        Ok(n)
    }
}

struct Enqueueing {
    chunks: Vec<Vec<u8>>,
}

impl PullBytes for Enqueueing {
    fn pull(
        &mut self,
        controller: &mut ReadableByteStreamController<'_, State<Box<dyn PullBytes>>>,
        _buffer: &mut [u8],
    ) -> StreamResult<usize> {
        if self.chunks.is_empty() {
            controller.close()?;
        } else {
            let chunk = self.chunks.remove(0);
            controller.enqueue(chunk)?;
        }
        Ok(0)
    }
}

struct Failing;

impl PullBytes for Failing {
    fn pull(
        &mut self,
        _controller: &mut ReadableByteStreamController<'_, State<Box<dyn PullBytes>>>,
        _buffer: &mut [u8],
    ) -> StreamResult<usize> {
        Err(StreamError::from("pull failed"))
    }
}

struct Driver {
    state: State<Box<dyn PullBytes>>,
    task: ByteStreamTask<u32>,
    replies: Vec<(u32, StreamResult<Option<Vec<u8>>>)>,
    next_id: u32,
}

impl Driver {
    fn new(source: Box<dyn PullBytes>) -> Self {
        let builder: ReadableStreamBuilder<Vec<u8>, Box<dyn PullBytes>, _, Spawn, ByteStream> =
            ReadableStreamBuilder::new_bytes(source);
        let mut state: State<Box<dyn PullBytes>> = builder.build_bytes().0;
        let source = state.take_source().unwrap();
        state.start_source(source, Ok(())).unwrap();
        Driver { state, task: ByteStreamTask::new(), replies: Vec::new(), next_id: 0 }
    }

    /// Serve every wanted pull.
    fn settle(&mut self) {
        while self.state.poll_pull_needed(0) {
            if let Some((mut source, size_before)) = self.task.pull_begun(&mut self.state) {
                let mut buffer = vec![0u8; CHUNK_SIZE];
                let mut controller =
                    ReadableByteStreamController::new(&mut self.state);
                let outcome = source.pull(&mut controller, &mut buffer);
                if let Ok(n) = &outcome {
                    assert!(*n <= buffer.len() && self.state.can_enqueue(*n));
                }
                self.task.pull_finished(&mut self.state, source, size_before, outcome, &buffer);
            }
        }
        for reply in self.task.take_replies() {
            self.replies.push(match reply {
                ByteReply::Data(id, bytes) => (id, Ok(Some(bytes))),
                ByteReply::End(id) => (id, Ok(None)),
                ByteReply::Failed(id, error) => (id, Err(error)),
            });
        }
    }

    fn read(&mut self) -> StreamResult<Option<Vec<u8>>> {
        let id = self.next_id;
        self.next_id += 1;
        self.task.read(&mut self.state, id);
        self.settle();
        let position = self
            .replies
            .iter()
            .position(|(read, _)| *read == id)
            .expect("the read still waits");
        self.replies.remove(position).1
    }

    fn read_into(&mut self, buf: &mut [u8]) -> StreamResult<usize> {
        loop {
            match self.state.poll_read_into(buf, Some(1), same) {
                Polled::Ready(outcome) => return outcome,
                Polled::Pending => self.settle(),
            }
        }
    }
}

fn started() -> State<()> {
    let mut state = ByteStreamState::new((), 8);
    state.mark_start_completed();
    state
}

#[test]
fn test_byte_stream_builder() {
    let data = b"Hello, World!".to_vec();
    let mut reader = Driver::new(Box::new(Copying { data, position: 0 }));
    let mut buffer = vec![0u8; 13];
    let bytes_read = reader.read_into(&mut buffer).unwrap();
    assert_eq!(bytes_read, 13);
    assert_eq!(buffer, b"Hello, World!".to_vec());
}

#[test]
fn handles_byte_stream_operations() {
    let mut reader = Driver::new(Box::new(Enqueueing {
        chunks: vec![b"hello".to_vec(), b" world".to_vec()],
    }));
    let mut all_data = Vec::new();
    while let Some(chunk) = reader.read().unwrap() {
        all_data.extend(chunk);
    }
    assert_eq!(all_data, b"hello world");
    assert!(reader.state.is_closed());
}

#[test]
fn supports_byob_reader_operations() {
    let mut reader = Driver::new(Box::new(Enqueueing { chunks: vec![b"byob test data".to_vec()] }));
    let mut buffer = [0u8; 20];
    let bytes_read = reader.read_into(&mut buffer).unwrap();
    assert!(bytes_read > 0);
    assert_eq!(bytes_read, 14);
    assert_eq!(&buffer[..14], b"byob test data");
    assert_eq!(reader.read_into(&mut buffer).unwrap(), 0);
}

#[test]
fn start_blocks_read_operations() {
    let source: Box<dyn PullBytes> =
        Box::new(Enqueueing { chunks: vec![b"delayed data".to_vec()] });
    let mut state: State<Box<dyn PullBytes>> = ByteStreamState::new(source, 1);
    let mut task: ByteStreamTask<u32> = ByteStreamTask::new();
    task.read(&mut state, 0);
    assert!(task.pull_begun(&mut state).is_none());
    assert!(task.take_replies().is_empty());
    assert!(!state.has_started());
    let source = state.take_source().unwrap();
    state.start_source(source, Ok(())).unwrap();
    assert!(state.has_started());
    let mut reader = Driver { state, task, replies: Vec::new(), next_id: 1 };
    reader.settle();
    assert_eq!(reader.replies.len(), 1);
    assert!(matches!(
        &reader.replies[0],
        (0, Ok(Some(bytes))) if bytes == b"delayed data"
    ));
}

#[test]
fn readers_wait_for_the_start() {
    let mut state: State<()> = ByteStreamState::new((), 1);
    let mut buf = [0u8; 4];
    assert!(matches!(state.poll_read_into(&mut buf, Some(7), same), Polled::Pending));
    assert!(matches!(state.poll_read_into(&mut buf, Some(7), same), Polled::Pending));
    assert!(!state.poll_pull_needed(0));
    let source = state.take_source();
    assert!(source.is_some());
    state.start_source((), Ok(())).unwrap();
    assert_eq!(state.take_woken(), vec![7]);
    assert!(matches!(state.poll_read_into(&mut buf, Some(7), same), Polled::Pending));
    assert_eq!(state.take_woken(), vec![0]);
    assert!(state.poll_pull_needed(0));
}

#[test]
fn a_failed_start_fails_the_stream() {
    let mut state: State<()> = ByteStreamState::new((), 1);
    state.take_source();
    let outcome = state.start_source((), Err(StreamError::from("no start")));
    assert_eq!(outcome.unwrap_err().to_text(), "no start");
    assert!(state.is_errored());
    assert!(state.take_source().is_none());
    let mut buf = [0u8; 1];
    match state.poll_read_into(&mut buf, None, same) {
        Polled::Ready(Err(error)) => assert_eq!(error.to_text(), "no start"),
        _ => panic!("the stream has failed"),
    }
}

#[test]
fn bytes_come_out_in_order_whatever_the_buffers() {
    let mut state = started();
    state.enqueue_data(b"abc");
    state.enqueue_data(b"");
    state.enqueue_data(b"defg");
    assert_eq!(state.buffer_size(), 7);
    assert_eq!(state.desired_size(), Some(1));
    let mut out = Vec::new();
    let mut buf = [0u8; 2];
    for _ in 0..4 {
        match state.poll_read_into(&mut buf, None, same) {
            Polled::Ready(Ok(n)) => out.extend_from_slice(&buf[..n]),
            _ => panic!("there are bytes"),
        }
    }
    assert_eq!(out, b"abcdefg");
    assert!(state.is_buffer_empty());
    assert!(matches!(state.poll_read_into(&mut [], None, same), Polled::Ready(Ok(0))));
}

#[test]
fn a_closed_stream_is_drained_and_then_ends() {
    let mut state = started();
    state.enqueue_data(b"xy");
    state.close();
    assert_eq!(state.desired_size(), None);
    let mut buf = [0u8; 8];
    assert!(matches!(state.poll_read_into(&mut buf, None, same), Polled::Ready(Ok(2))));
    assert!(matches!(state.poll_read_into(&mut buf, None, same), Polled::Ready(Ok(0))));
    assert!(matches!(state.closed(1, same), Polled::Ready(Ok(()))));
}

#[test]
fn an_errored_stream_reports_its_error() {
    let mut state = started();
    state.enqueue_data(b"xy");
    assert!(matches!(state.closed(4, same), Polled::Pending));
    state.error(StreamError::from("broken"));
    assert_eq!(state.take_woken(), vec![4]);
    match state.closed(4, same) {
        Polled::Ready(Err(error)) => assert_eq!(error.to_text(), "broken"),
        _ => panic!("the stream has failed"),
    }
    assert_eq!(state.desired_size(), None);
}

#[test]
fn the_controller_refuses_chunks_after_the_end() {
    let mut state = started();
    {
        let mut controller = ReadableByteStreamController::new(&mut state);
        controller.enqueue(vec![1, 2, 3]).unwrap();
        assert_eq!(controller.desired_size(), Some(5));
        controller.close().unwrap();
        assert_eq!(controller.enqueue(vec![4]).unwrap_err().to_text(), "Stream is closed");
    }
    let mut failed = started();
    let mut controller = ReadableByteStreamController::new(&mut failed);
    controller.error(StreamError::from("bad")).unwrap();
    assert_eq!(controller.enqueue(vec![4]).unwrap_err().to_text(), "Stream is errored");
}

#[test]
fn a_failed_pull_fails_the_waiting_reads() {
    let mut reader = Driver::new(Box::new(Failing));
    assert_eq!(reader.read().unwrap_err().to_text(), "pull failed");
    assert_eq!(reader.read().unwrap_err().to_text(), "pull failed");
}

#[test]
fn a_pull_serves_one_waiting_read() {
    let mut state = started();
    let mut task: ByteStreamTask<u32> = ByteStreamTask::new();
    task.read(&mut state, 1);
    task.read(&mut state, 2);
    assert!(task.has_pending_reads());
    assert!(task.take_replies().is_empty());
    let (source, size_before) = task.pull_begun(&mut state).unwrap();
    task.pull_finished(&mut state, source, size_before, Ok(3), b"abcdef");
    let replies = task.take_replies();
    assert_eq!(replies.len(), 1);
    match &replies[0] {
        ByteReply::Data(1, bytes) => assert_eq!(bytes, b"abc"),
        _ => panic!("the first read gets the bytes"),
    }
    assert!(task.has_pending_reads());
}

#[test]
fn an_empty_pull_ends_the_stream() {
    let mut state = started();
    let mut task: ByteStreamTask<u32> = ByteStreamTask::new();
    task.read(&mut state, 1);
    let (source, size_before) = task.pull_begun(&mut state).unwrap();
    task.pull_finished(&mut state, source, size_before, Ok(0), b"");
    assert!(matches!(task.take_replies()[0], ByteReply::End(1)));
    assert!(state.is_closed());
    assert!(state.take_source().is_none());
    assert!(task.pull_begun(&mut state).is_none());
}

#[test]
fn the_task_is_over_when_nobody_can_ask() {
    let mut state = started();
    let mut task: ByteStreamTask<u32> = ByteStreamTask::new();
    assert!(task.commands_ended(&state));
    task.read(&mut state, 1);
    assert!(!task.commands_ended(&state));
    state.close();
    assert!(task.commands_ended(&state));
    assert!(matches!(task.take_replies()[0], ByteReply::End(1)));
}

#[test]
fn an_open_byte_stream_shows_its_room() {
    let mut state = started();
    assert_eq!(state.desired_size(), Some(8));
    state.enqueue_data(b"0123456789");
    assert_eq!(state.desired_size(), Some(-2));
    let mut buf = [0u8; 4];
    assert!(matches!(state.poll_read_into(&mut buf, None, same), Polled::Ready(Ok(4))));
    assert_eq!(state.desired_size(), Some(2));
}

#[test]
fn the_error_stays_until_another_replaces_it() {
    let mut state = started();
    state.error(StreamError::from("first"));
    state.close();
    state.mark_pull_started();
    state.mark_pull_completed();
    state.put_source(());
    let mut buf = [0u8; 4];
    for _ in 0..2 {
        assert_eq!(state.get_error().to_text(), "first");
        match state.poll_read_into(&mut buf, None, same) {
            Polled::Ready(Err(error)) => assert_eq!(error.to_text(), "first"),
            _ => panic!("the stream has failed"),
        }
    }
    state.error(StreamError::from("second"));
    assert_eq!(state.get_error().to_text(), "second");
}
