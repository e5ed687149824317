//! The shared state of a readable byte stream.

use crate::error::{Notice, StreamError, StreamResult};
use crate::strategy::{
    as_isize, room, room_can_be_shown, room_fits, to_isize, update_desired_size,
};
use crate::wakers::{registered, WakerSet};
use std::collections::VecDeque;
use vstd::prelude::*;

verus! {

/// What an attempt came to: an answer, or a wait for one.
pub enum Polled<T> {
    Ready(T),
    Pending,
}

/// A byte stream: what is buffered, the source, who waits for what, and what is shown.
#[verifier::ext_equal]
pub struct ByteModel<Source, W> {
    pub buffer: Seq<u8>,
    pub source: Option<Source>,
    pub read_wakers: Seq<W>,
    pub pull_waker: Option<W>,
    pub closed: bool,
    pub errored: bool,
    pub error: Option<StreamError>,
    pub pull_in_progress: bool,
    pub needs_pull: bool,
    pub queue_total_size: usize,
    pub high_water_mark: usize,
    pub desired_size: isize,
    pub start_completed: bool,
    pub start_wakers: Seq<W>,
    /// The wakers to wake, in order.
    pub woken: Seq<W>,
}

/// Whether a waiting set became what it should: with no waker to wait it stays as it was.
pub open spec fn waits<W, F: Fn(&W, &W) -> bool>(
    before: Seq<W>,
    waker: Option<W>,
    will_wake: F,
    after: Seq<W>,
) -> bool {
    match waker {
        Some(waker) => registered(before, waker, will_wake, after),
        None => after == before,
    }
}

/// An optional waker as a sequence.
pub open spec fn at_most_one<W>(waker: Option<W>) -> Seq<W> {
    match waker {
        Some(waker) => seq![waker],
        None => Seq::empty(),
    }
}

/// The smaller of two lengths.
pub open spec fn shorter(a: nat, b: nat) -> nat {
    if a <= b {
        a
    } else {
        b
    }
}

impl<Source, W> ByteModel<Source, W> {
    /// The recorded size is that of the buffer, which is at most `isize::MAX`
    /// as for any buffer of bytes, and the room shown fits an `isize`.
    pub open spec fn wf(self) -> bool {
        &&& self.queue_total_size == self.buffer.len()
        &&& self.queue_total_size <= isize::MAX
        &&& self.shows_room(self.queue_total_size)
    }

    /// Whether the room that a buffer of this size leaves can be shown.
    pub open spec fn shows_room(self, queue_total_size: usize) -> bool {
        self.closed || self.errored || room_fits(self.high_water_mark, queue_total_size)
    }

    /// A new stream over a source.
    pub open spec fn initial(source: Source, high_water_mark: usize) -> Self {
        ByteModel {
            buffer: Seq::empty(),
            source: Some(source),
            read_wakers: Seq::empty(),
            pull_waker: None,
            closed: false,
            errored: false,
            error: None,
            pull_in_progress: false,
            needs_pull: false,
            queue_total_size: 0,
            high_water_mark,
            desired_size: as_isize(high_water_mark) as isize,
            start_completed: false,
            start_wakers: Seq::empty(),
            woken: Seq::empty(),
        }
    }

    /// The error that a reader is given.
    pub open spec fn error_to_report(self) -> StreamError {
        match self.error {
            Some(error) => error,
            None => StreamError::notice(Notice::StreamErrored),
        }
    }

    pub open spec fn wake_readers(self) -> Self {
        ByteModel { read_wakers: Seq::empty(), woken: self.woken + self.read_wakers, ..self }
    }

    pub open spec fn wake_puller(self) -> Self {
        ByteModel { pull_waker: None, woken: self.woken + at_most_one(self.pull_waker), ..self }
    }

    /// Show the room that is left.
    pub open spec fn publish_room(self) -> Self {
        ByteModel {
            desired_size: room(
                self.high_water_mark,
                self.queue_total_size,
                self.closed,
                self.errored,
            ) as isize,
            ..self
        }
    }

    /// Ask for a pull, if the stream is open and under its mark and none is running.
    pub open spec fn maybe_trigger_pull(self) -> Self {
        if !self.pull_in_progress && !self.closed && !self.errored && self.queue_total_size
            < self.high_water_mark {
            ByteModel { needs_pull: true, ..self }.wake_puller()
        } else {
            self
        }
    }

    /// What reading into `len` bytes comes to: nothing before the source has started; then the
    /// error of a failed stream; then as many buffered bytes as fit; then the end of a closed
    /// stream.
    pub open spec fn read_outcome(self, len: nat) -> Polled<StreamResult<usize>> {
        if !self.start_completed {
            Polled::Pending
        } else if len == 0 {
            Polled::Ready(Ok(0))
        } else if self.errored {
            Polled::Ready(Err(self.error_to_report()))
        } else if self.buffer.len() > 0 {
            Polled::Ready(Ok(shorter(len, self.buffer.len()) as usize))
        } else if self.closed {
            Polled::Ready(Ok(0))
        } else {
            Polled::Pending
        }
    }

    /// The bytes that reading into `len` bytes delivers.
    pub open spec fn read_bytes(self, len: nat) -> Seq<u8> {
        if self.start_completed && !self.errored {
            self.buffer.subrange(0, shorter(len, self.buffer.len()) as int)
        } else {
            Seq::empty()
        }
    }

    /// The set in which a reader that has to wait is registered.
    pub open spec fn waiting_readers(self) -> Seq<W> {
        if self.start_completed {
            self.read_wakers
        } else {
            self.start_wakers
        }
    }

    /// What reading into `len` bytes makes of the stream; a reader that has to wait makes
    /// `waiting` of the set it is registered in.
    pub open spec fn read_into(self, len: nat, waiting: Seq<W>) -> Self {
        if !self.start_completed {
            ByteModel { start_wakers: waiting, ..self }
        } else if len == 0 || self.errored {
            self
        } else if self.buffer.len() > 0 {
            let n = shorter(len, self.buffer.len());
            ByteModel {
                buffer: self.buffer.subrange(n as int, self.buffer.len() as int),
                queue_total_size: (self.queue_total_size - n) as usize,
                ..self
            }.publish_room().maybe_trigger_pull()
        } else if self.closed {
            self
        } else {
            ByteModel { read_wakers: waiting, ..self }.maybe_trigger_pull()
        }
    }

    /// Whether bytes can be taken in.
    pub open spec fn can_enqueue(self, data: Seq<u8>) -> bool {
        self.queue_total_size + data.len() <= isize::MAX && self.shows_room(
            (self.queue_total_size + data.len()) as usize,
        )
    }

    /// Bytes arrive, behind those that are buffered.
    pub open spec fn enqueue_data(self, data: Seq<u8>) -> Self {
        if data.len() == 0 {
            self
        } else {
            ByteModel {
                buffer: self.buffer + data,
                queue_total_size: (self.queue_total_size + data.len()) as usize,
                ..self
            }.publish_room().wake_readers()
        }
    }

    /// Nothing more will come.
    pub open spec fn close(self) -> Self {
        ByteModel { closed: true, ..self }.publish_room().wake_readers().wake_puller()
    }

    /// The stream fails.
    pub open spec fn fail(self, error: StreamError) -> Self {
        ByteModel {
            errored: true,
            error: Some(error),
            ..self
        }.publish_room().wake_readers().wake_puller()
    }

    /// The source has had its start, for better or worse.
    pub open spec fn mark_start_completed(self) -> Self {
        if self.start_completed {
            self
        } else {
            ByteModel {
                start_completed: true,
                start_wakers: Seq::empty(),
                woken: self.woken + self.start_wakers,
                ..self
            }
        }
    }

    /// The source has started, or could not: then the stream fails, and the source is gone.
    pub open spec fn start_finished(self, source: Source, outcome: StreamResult<()>) -> Self {
        match outcome {
            Ok(()) => ByteModel { source: Some(source), ..self },
            Err(error) => self.fail(error),
        }.mark_start_completed()
    }

    /// A pull begins.
    pub open spec fn mark_pull_started(self) -> Self {
        ByteModel { pull_in_progress: true, ..self }
    }

    /// A pull is over; there may be room for another.
    pub open spec fn mark_pull_completed(self) -> Self {
        ByteModel { pull_in_progress: false, ..self }.maybe_trigger_pull()
    }

    /// What asking whether a pull is wanted makes of the stream.
    pub open spec fn pull_polled(self, waker: W) -> Self {
        if self.needs_pull {
            ByteModel { needs_pull: false, ..self }
        } else {
            ByteModel { pull_waker: Some(waker), ..self }
        }
    }

    /// What waiting for the end comes to.
    pub open spec fn closed_outcome(self) -> Polled<StreamResult<()>> {
        if self.errored {
            Polled::Ready(Err(self.error_to_report()))
        } else if self.closed {
            Polled::Ready(Ok(()))
        } else {
            Polled::Pending
        }
    }
}

/// The shared state of a readable byte stream: its buffer, its source, and who waits for what.
pub struct ByteStreamState<Source, W> {
    buffer: VecDeque<u8>,
    source: Option<Source>,
    read_wakers: WakerSet<W>,
    pull_waker: Option<W>,
    closed: bool,
    errored: bool,
    error: Option<StreamError>,
    pull_in_progress: bool,
    needs_pull: bool,
    queue_total_size: usize,
    high_water_mark: usize,
    desired_size: isize,
    start_completed: bool,
    start_wakers: WakerSet<W>,
    woken: Vec<W>,
}

impl<Source, W> View for ByteStreamState<Source, W> {
    type V = ByteModel<Source, W>;

    closed spec fn view(&self) -> ByteModel<Source, W> {
        ByteModel {
            buffer: self.buffer@,
            source: self.source,
            read_wakers: self.read_wakers@,
            pull_waker: self.pull_waker,
            closed: self.closed,
            errored: self.errored,
            error: self.error,
            pull_in_progress: self.pull_in_progress,
            needs_pull: self.needs_pull,
            queue_total_size: self.queue_total_size,
            high_water_mark: self.high_water_mark,
            desired_size: self.desired_size,
            start_completed: self.start_completed,
            start_wakers: self.start_wakers@,
            woken: self.woken@,
        }
    }
}

impl<Source, W> ByteStreamState<Source, W> {
    pub fn new(source: Source, high_water_mark: usize) -> (state: Self)
        ensures
            state@ == ByteModel::<Source, W>::initial(source, high_water_mark),
            state@.wf(),
    {
        ByteStreamState {
            buffer: VecDeque::new(),
            source: Some(source),
            read_wakers: WakerSet::new(),
            pull_waker: None,
            closed: false,
            errored: false,
            error: None,
            pull_in_progress: false,
            needs_pull: false,
            queue_total_size: 0,
            high_water_mark,
            desired_size: to_isize(high_water_mark),
            start_completed: false,
            start_wakers: WakerSet::new(),
            woken: Vec::new(),
        }
    }

    /// Hand out the wakers to wake, in order.
    pub fn take_woken(&mut self) -> (woken: Vec<W>)
        ensures
            woken@ == old(self)@.woken,
            final(self)@ == (ByteModel { woken: Seq::empty(), ..old(self)@ }),
    {
        let mut woken: Vec<W> = Vec::new();
        core::mem::swap(&mut woken, &mut self.woken);
        woken
    }

    /// The error of a failed stream.
    pub fn get_error(&self) -> (error: StreamError)
        ensures
            error == self@.error_to_report(),
    {
        match &self.error {
            Some(error) => error.clone(),
            None => StreamError::notice(Notice::StreamErrored),
        }
    }

    fn wake_readers(&mut self)
        ensures
            final(self)@ == old(self)@.wake_readers(),
    {
        let mut wakers = self.read_wakers.wake_all();
        self.woken.append(&mut wakers);
    }

    fn wake_puller(&mut self)
        ensures
            final(self)@ == old(self)@.wake_puller(),
    {
        match self.pull_waker.take() {
            Some(waker) => {
                self.woken.push(waker);
            },
            None => {},
        }
        assert(self@ =~= old(self)@.wake_puller());
    }

    fn update_desired_size(&mut self)
        requires
            old(self)@.shows_room(old(self)@.queue_total_size),
        ensures
            final(self)@ == old(self)@.publish_room(),
    {
        self.desired_size =
        update_desired_size(
            self.queue_total_size,
            self.high_water_mark,
            self.closed,
            self.errored,
        );
    }

    /// Read buffered bytes into `buf`; `waker`, if there is one, is woken when it is worth trying
    /// again.
    pub fn poll_read_into<F: Fn(&W, &W) -> bool>(
        &mut self,
        buf: &mut [u8],
        waker: Option<W>,
        will_wake: F,
    ) -> (outcome: Polled<StreamResult<usize>>)
        requires
            old(self)@.wf(),
            forall|a: W, b: W| call_requires(will_wake, (&a, &b)),
        ensures
            outcome == old(self)@.read_outcome(old(buf)@.len()),
            final(buf)@.len() == old(buf)@.len(),
            final(buf)@ == (match outcome {
                Polled::Ready(Ok(n)) => old(self)@.read_bytes(old(buf)@.len()) + old(buf)@.subrange(
                    n as int,
                    old(buf)@.len() as int,
                ),
                _ => old(buf)@,
            }),
            match outcome {
                Polled::Ready(_) => final(self)@ == old(self)@.read_into(
                    old(buf)@.len(),
                    Seq::empty(),
                ),
                Polled::Pending => exists|waiting: Seq<W>|
                    #[trigger] waits(old(self)@.waiting_readers(), waker, will_wake, waiting)
                        && final(self)@ == old(self)@.read_into(old(buf)@.len(), waiting),
            },
            final(self)@.wf(),
    {
        if !self.start_completed {
            match waker {
                Some(waker) => {
                    self.start_wakers.register(waker, will_wake);
                },
                None => {},
            }
            assert(waits(old(self)@.waiting_readers(), waker, will_wake, self.start_wakers@));
            return Polled::Pending;
        }
        if buf.len() == 0 {
            assert(buf@ =~= self@.read_bytes(0) + buf@.subrange(0, 0));
            return Polled::Ready(Ok(0));
        }
        if self.errored {
            return Polled::Ready(Err(self.get_error()));
        }
        if self.buffer.len() > 0 {
            let copied: usize = self.copy_out(buf);
            self.queue_total_size = self.queue_total_size - copied;
            self.update_desired_size();
            self.maybe_trigger_pull();
            return Polled::Ready(Ok(copied));
        }
        if self.closed {
            assert(self@.read_bytes(buf@.len()) =~= Seq::<u8>::empty());
            assert(buf@ =~= self@.read_bytes(buf@.len()) + buf@.subrange(0, buf@.len() as int));
            return Polled::Ready(Ok(0));
        }
        match waker {
            Some(waker) => {
                self.read_wakers.register(waker, will_wake);
            },
            None => {},
        }
        assert(waits(old(self)@.waiting_readers(), waker, will_wake, self.read_wakers@));
        self.maybe_trigger_pull();
        Polled::Pending
    }

    /// Read up to `len` buffered bytes without waiting.
    pub fn try_read(&mut self, len: usize) -> (outcome: Polled<StreamResult<Vec<u8>>>)
        requires
            old(self)@.wf(),
        ensures
            match old(self)@.read_outcome(len as nat) {
                Polled::Ready(Ok(_)) => outcome matches Polled::Ready(Ok(bytes)) && bytes@ == old(
                    self)@.read_bytes(len as nat),
                Polled::Ready(Err(error)) => outcome == Polled::<StreamResult<Vec<u8>>>::Ready(
                    Err(error),
                ),
                Polled::Pending => outcome is Pending,
            },
            final(self)@ == old(self)@.read_into(len as nat, old(self)@.waiting_readers()),
            final(self)@.wf(),
    {
        let mut buf: Vec<u8> = vec![0u8; len];
        let never = |_a: &W, _b: &W| -> (same: bool) { false };
        match self.poll_read_into(buf.as_mut_slice(), None, never) {
            Polled::Ready(Ok(n)) => {
                buf.truncate(n);
                assert(buf@ =~= old(self)@.read_bytes(len as nat));
                Polled::Ready(Ok(buf))
            },
            Polled::Ready(Err(error)) => Polled::Ready(Err(error)),
            Polled::Pending => Polled::Pending,
        }
    }

    /// Move as many bytes as fit from the front of the buffer to the front of `buf`.
    fn copy_out(&mut self, buf: &mut [u8]) -> (copied: usize)
        ensures
            copied == shorter(old(buf)@.len(), old(self)@.buffer.len()),
            final(buf)@.len() == old(buf)@.len(),
            final(buf)@ == old(self)@.buffer.subrange(0, copied as int) + old(buf)@.subrange(
                copied as int,
                old(buf)@.len() as int,
            ),
            final(self)@ == (ByteModel {
                buffer: old(self)@.buffer.subrange(copied as int, old(self)@.buffer.len() as int),
                ..old(self)@
            }),
    {
        let ghost before = self@;
        let ghost old_buf = buf@;
        let mut copied: usize = 0;
        while copied < buf.len() && self.buffer.len() > 0
            invariant
                copied <= old_buf.len(),
                copied <= before.buffer.len(),
                buf@.len() == old_buf.len(),
                buf@ == before.buffer.subrange(0, copied as int) + old_buf.subrange(
                    copied as int,
                    old_buf.len() as int,
                ),
                self@ == (ByteModel {
                    buffer: before.buffer.subrange(copied as int, before.buffer.len() as int),
                    ..before
                }),
            decreases self.buffer@.len(),
        {
            let byte: u8 = self.buffer.pop_front().unwrap();
            buf[copied] = byte;
            copied += 1;
            assert(buf@ =~= before.buffer.subrange(0, copied as int) + old_buf.subrange(
                copied as int,
                old_buf.len() as int,
            ));
            assert(self@.buffer =~= before.buffer.subrange(
                copied as int,
                before.buffer.len() as int,
            ));
        }
        copied
    }

    pub fn maybe_trigger_pull(&mut self)
        requires
            old(self)@.wf(),
        ensures
            final(self)@ == old(self)@.maybe_trigger_pull(),
            final(self)@.wf(),
    {
        if !self.pull_in_progress && !self.closed && !self.errored && self.queue_total_size
            < self.high_water_mark {
            self.needs_pull = true;
            self.wake_puller();
        }
    }

    /// Take a wanted pull (`true`), or wait until one is wanted.
    pub fn poll_pull_needed(&mut self, waker: W) -> (needed: bool)
        requires
            old(self)@.wf(),
        ensures
            needed == old(self)@.needs_pull,
            final(self)@ == old(self)@.pull_polled(waker),
            final(self)@.wf(),
    {
        if self.needs_pull {
            self.needs_pull = false;
            true
        } else {
            self.pull_waker = Some(waker);
            false
        }
    }

    /// Whether `len` bytes can be taken in.
    pub fn can_enqueue(&self, len: usize) -> (can: bool)
        ensures
            forall|data: Seq<u8>| data.len() == len ==> can == #[trigger] self@.can_enqueue(data),
    {
        if len > isize::MAX as usize || self.queue_total_size > isize::MAX as usize - len {
            return false;
        }
        self.closed || self.errored || room_can_be_shown(
            self.high_water_mark,
            self.queue_total_size + len,
        )
    }

    pub fn enqueue_data(&mut self, data: &[u8])
        requires
            old(self)@.wf(),
            old(self)@.can_enqueue(data@),
        ensures
            final(self)@ == old(self)@.enqueue_data(data@),
            final(self)@.wf(),
    {
        if data.len() == 0 {
            return ;
        }
        let ghost before = self@;
        let mut i: usize = 0;
        while i < data.len()
            invariant
                i <= data@.len(),
                self@ == (ByteModel {
                    buffer: before.buffer + data@.subrange(0, i as int),
                    ..before
                }),
            decreases data@.len() - i,
        {
            self.buffer.push_back(data[i]);
            i += 1;
            assert(self.buffer@ =~= before.buffer + data@.subrange(0, i as int));
        }
        assert(data@.subrange(0, i as int) =~= data@);
        self.queue_total_size = self.queue_total_size + data.len();
        self.update_desired_size();
        self.wake_readers();
    }

    pub fn mark_pull_started(&mut self)
        requires
            old(self)@.wf(),
        ensures
            final(self)@ == old(self)@.mark_pull_started(),
            final(self)@.wf(),
    {
        self.pull_in_progress = true;
    }

    pub fn mark_pull_completed(&mut self)
        requires
            old(self)@.wf(),
        ensures
            final(self)@ == old(self)@.mark_pull_completed(),
            final(self)@.wf(),
    {
        self.pull_in_progress = false;
        self.maybe_trigger_pull();
    }

    pub fn close(&mut self)
        requires
            old(self)@.wf(),
        ensures
            final(self)@ == old(self)@.close(),
            final(self)@.wf(),
    {
        self.closed = true;
        self.update_desired_size();
        self.wake_readers();
        self.wake_puller();
    }

    pub fn error(&mut self, error: StreamError)
        requires
            old(self)@.wf(),
        ensures
            final(self)@ == old(self)@.fail(error),
            final(self)@.wf(),
    {
        self.errored = true;
        self.error = Some(error);
        self.update_desired_size();
        self.wake_readers();
        self.wake_puller();
    }

    /// The room that is left, as long as the stream is open.
    pub fn desired_size(&self) -> (desired_size: Option<isize>)
        ensures
            desired_size == (if self@.closed || self@.errored {
                None
            } else {
                Some(self@.desired_size)
            }),
    {
        if self.closed || self.errored {
            None
        } else {
            Some(self.desired_size)
        }
    }

    pub fn is_buffer_empty(&self) -> (empty: bool)
        ensures
            empty == (self@.buffer.len() == 0),
    {
        self.buffer.len() == 0
    }

    pub fn buffer_size(&self) -> (size: usize)
        ensures
            size == self@.queue_total_size,
    {
        self.queue_total_size
    }

    pub fn is_closed(&self) -> (closed: bool)
        ensures
            closed == self@.closed,
    {
        self.closed
    }

    pub fn is_errored(&self) -> (errored: bool)
        ensures
            errored == self@.errored,
    {
        self.errored
    }

    /// Whether the source has had its start, for better or worse.
    pub fn has_started(&self) -> (started: bool)
        ensures
            started == self@.start_completed,
    {
        self.start_completed
    }

    /// Take the source out, to start it, to pull from it or to cancel it.
    pub fn take_source(&mut self) -> (source: Option<Source>)
        requires
            old(self)@.wf(),
        ensures
            source == old(self)@.source,
            final(self)@ == (ByteModel { source: None, ..old(self)@ }),
            final(self)@.wf(),
    {
        self.source.take()
    }

    /// Put the source back.
    pub fn put_source(&mut self, source: Source)
        requires
            old(self)@.wf(),
        ensures
            final(self)@ == (ByteModel { source: Some(source), ..old(self)@ }),
            final(self)@.wf(),
    {
        self.source = Some(source);
    }

    /// The source has started, or could not; whoever started it is given the outcome.
    pub fn start_source(&mut self, source: Source, outcome: StreamResult<()>) -> (result:
        StreamResult<()>)
        requires
            old(self)@.wf(),
        ensures
            final(self)@ == old(self)@.start_finished(source, outcome),
            final(self)@.wf(),
            result == outcome,
    {
        match outcome {
            Ok(unit) => {
                self.source = Some(source);
                self.mark_start_completed();
                Ok(unit)
            },
            Err(error) => {
                self.error(error.clone());
                self.mark_start_completed();
                Err(error)
            },
        }
    }

    pub fn mark_start_completed(&mut self)
        requires
            old(self)@.wf(),
        ensures
            final(self)@ == old(self)@.mark_start_completed(),
            final(self)@.wf(),
    {
        if self.start_completed {
            return ;
        }
        self.start_completed = true;
        let mut wakers = self.start_wakers.wake_all();
        self.woken.append(&mut wakers);
    }

    /// Wait for the stream to end: failed, or closed.
    pub fn closed<F: Fn(&W, &W) -> bool>(&mut self, waker: W, will_wake: F) -> (outcome: Polled<
        StreamResult<()>,
    >)
        requires
            old(self)@.wf(),
            forall|a: W, b: W| call_requires(will_wake, (&a, &b)),
        ensures
            outcome == old(self)@.closed_outcome(),
            match outcome {
                Polled::Ready(_) => final(self)@ == old(self)@,
                Polled::Pending => exists|set: Seq<W>|
                    #[trigger] registered(old(self)@.read_wakers, waker, will_wake, set)
                        && final(self)@ == (ByteModel { read_wakers: set, ..old(self)@ }),
            },
            final(self)@.wf(),
    {
        if self.errored {
            return Polled::Ready(Err(self.get_error()));
        }
        if self.closed {
            return Polled::Ready(Ok(()));
        }
        self.read_wakers.register(waker, will_wake);
        assert(registered(old(self)@.read_wakers, waker, will_wake, self.read_wakers@));
        Polled::Pending
    }
}

/// What a controller does with the state of a byte stream.
pub trait ByteStreamStateInterface {
    type Source;

    type Waker;

    /// The state as a mathematical value.
    spec fn model(&self) -> ByteModel<Self::Source, Self::Waker>;

    fn desired_size(&self) -> (desired_size: Option<isize>)
        ensures
            desired_size == (if self.model().closed || self.model().errored {
                None
            } else {
                Some(self.model().desired_size)
            }),
    ;

    fn close(&mut self)
        requires
            old(self).model().wf(),
        ensures
            final(self).model() == old(self).model().close(),
            final(self).model().wf(),
    ;

    fn enqueue_data(&mut self, data: &[u8])
        requires
            old(self).model().wf(),
            old(self).model().can_enqueue(data@),
        ensures
            final(self).model() == old(self).model().enqueue_data(data@),
            final(self).model().wf(),
    ;

    fn error(&mut self, error: StreamError)
        requires
            old(self).model().wf(),
        ensures
            final(self).model() == old(self).model().fail(error),
            final(self).model().wf(),
    ;

    fn is_buffer_empty(&self) -> (empty: bool)
        ensures
            empty == (self.model().buffer.len() == 0),
    ;

    fn buffer_size(&self) -> (size: usize)
        ensures
            size == self.model().queue_total_size,
    ;

    fn is_closed(&self) -> (closed: bool)
        ensures
            closed == self.model().closed,
    ;

    fn is_errored(&self) -> (errored: bool)
        ensures
            errored == self.model().errored,
    ;

    /// Take the source out to cancel it.
    fn cancel_source(&mut self) -> (source: Option<Self::Source>)
        requires
            old(self).model().wf(),
        ensures
            source == old(self).model().source,
            final(self).model() == (ByteModel { source: None, ..old(self).model() }),
            final(self).model().wf(),
    ;
}

impl<Source, W> ByteStreamStateInterface for ByteStreamState<Source, W> {
    type Source = Source;

    type Waker = W;

    open spec fn model(&self) -> ByteModel<Source, W> {
        self@
    }

    fn desired_size(&self) -> (desired_size: Option<isize>) {
        ByteStreamState::desired_size(self)
    }

    fn close(&mut self) {
        ByteStreamState::close(self)
    }

    fn enqueue_data(&mut self, data: &[u8]) {
        ByteStreamState::enqueue_data(self, data)
    }

    fn error(&mut self, error: StreamError) {
        ByteStreamState::error(self, error)
    }

    fn is_buffer_empty(&self) -> (empty: bool) {
        ByteStreamState::is_buffer_empty(self)
    }

    fn buffer_size(&self) -> (size: usize) {
        ByteStreamState::buffer_size(self)
    }

    fn is_closed(&self) -> (closed: bool) {
        ByteStreamState::is_closed(self)
    }

    fn is_errored(&self) -> (errored: bool) {
        ByteStreamState::is_errored(self)
    }

    fn cancel_source(&mut self) -> (source: Option<Source>) {
        self.take_source()
    }
}

/// The controller that a byte source is given, for as long as it borrows the state of the stream.
pub struct ReadableByteStreamController<'a, B: ByteStreamStateInterface> {
    pub byte_state: &'a mut B,
}

impl<'a, B: ByteStreamStateInterface> ReadableByteStreamController<'a, B> {
    pub fn new(byte_state: &'a mut B) -> (controller: Self)
        ensures
            *controller.byte_state == *old(byte_state),
            *final(controller.byte_state) == *final(byte_state),
    {
        ReadableByteStreamController { byte_state }
    }

    /// The room that is left, as long as the stream is open.
    pub fn desired_size(&self) -> (desired_size: Option<isize>)
        ensures
            desired_size == (if old(self.byte_state).model().closed || old(
                self.byte_state,
            ).model().errored {
                None
            } else {
                Some(old(self.byte_state).model().desired_size)
            }),
    {
        self.byte_state.desired_size()
    }

    /// Nothing more will come.
    pub fn close(&mut self) -> (outcome: StreamResult<()>)
        requires
            old(self).byte_state.model().wf(),
        ensures
            outcome == StreamResult::<()>::Ok(()),
            final(self).byte_state.model() == old(self).byte_state.model().close(),
            final(self).byte_state.model().wf(),
            *final(final(self).byte_state) == *final(old(self).byte_state),
    {
        self.byte_state.close();
        Ok(())
    }

    /// Give the stream bytes; a stream that has ended refuses them.
    pub fn enqueue(&mut self, chunk: Vec<u8>) -> (outcome: StreamResult<()>)
        requires
            old(self).byte_state.model().wf(),
            old(self).byte_state.model().closed || old(self).byte_state.model().errored || old(
                self,
            ).byte_state.model().can_enqueue(chunk@),
        ensures
            outcome == (if old(self).byte_state.model().closed {
                StreamResult::<()>::Err(StreamError::notice(Notice::StreamIsClosed))
            } else if old(self).byte_state.model().errored {
                Err(StreamError::notice(Notice::StreamIsErrored))
            } else {
                Ok(())
            }),
            final(self).byte_state.model() == (if outcome is Ok {
                old(self).byte_state.model().enqueue_data(chunk@)
            } else {
                old(self).byte_state.model()
            }),
            final(self).byte_state.model().wf(),
            *final(final(self).byte_state) == *final(old(self).byte_state),
    {
        if self.byte_state.is_closed() {
            return Err(StreamError::notice(Notice::StreamIsClosed));
        }
        if self.byte_state.is_errored() {
            return Err(StreamError::notice(Notice::StreamIsErrored));
        }
        self.byte_state.enqueue_data(chunk.as_slice());
        Ok(())
    }

    /// The source has failed.
    pub fn error(&mut self, error: StreamError) -> (outcome: StreamResult<()>)
        requires
            old(self).byte_state.model().wf(),
        ensures
            outcome == StreamResult::<()>::Ok(()),
            final(self).byte_state.model() == old(self).byte_state.model().fail(error),
            final(self).byte_state.model().wf(),
            *final(final(self).byte_state) == *final(old(self).byte_state),
    {
        self.byte_state.error(error);
        Ok(())
    }
}

} // verus!
