//! Piping a readable stream into a writable one: what is done next, whatever came of the last
//! thing.

use crate::error::{StreamError, StreamResult};
use vstd::prelude::*;

verus! {

/// What a pipe is not to do to its two ends when it is over.
#[derive(Clone, Copy, Debug)]
pub struct StreamPipeOptions {
    pub prevent_close: bool,
    pub prevent_abort: bool,
    pub prevent_cancel: bool,
}

impl Default for StreamPipeOptions {
    fn default() -> (options: Self)
        ensures
            options == (StreamPipeOptions {
                prevent_close: false,
                prevent_abort: false,
                prevent_cancel: false,
            }),
    {
        StreamPipeOptions { prevent_close: false, prevent_abort: false, prevent_cancel: false }
    }
}

/// What a pipe does next.
pub enum PipeStep<T> {
    /// Wait until the destination can take a chunk.
    AwaitReady,
    /// Read the source.
    Read,
    /// Write the chunk, without waiting for the answer.
    Write(T),
    /// Close the destination.
    CloseDestination,
    /// Cancel the source, for this reason.
    CancelSource(String),
    /// Abort the destination, for this reason.
    AbortDestination(String),
    /// The pipe is over.
    Over(StreamResult<()>),
}

/// What a pipe does next, with reasons as plain text.
pub enum PipeStepModel<T> {
    AwaitReady,
    Read,
    Write(T),
    CloseDestination,
    CancelSource(Seq<char>),
    AbortDestination(Seq<char>),
    Over(StreamResult<()>),
}

impl<T> View for PipeStep<T> {
    type V = PipeStepModel<T>;

    open spec fn view(&self) -> PipeStepModel<T> {
        match *self {
            PipeStep::AwaitReady => PipeStepModel::AwaitReady,
            PipeStep::Read => PipeStepModel::Read,
            PipeStep::Write(chunk) => PipeStepModel::Write(chunk),
            PipeStep::CloseDestination => PipeStepModel::CloseDestination,
            PipeStep::CancelSource(reason) => PipeStepModel::CancelSource(reason@),
            PipeStep::AbortDestination(reason) => PipeStepModel::AbortDestination(reason@),
            PipeStep::Over(outcome) => PipeStepModel::Over(outcome),
        }
    }
}

/// What came of the last thing that a pipe did.
pub enum PipeEvent<T> {
    /// The destination can take a chunk, or has failed.
    Ready(StreamResult<()>),
    /// The source gave a chunk, or has ended, or has failed.
    Read(StreamResult<Option<T>>),
    /// The chunk is on its way.
    Written,
    /// The destination has closed, or could not.
    Closed(StreamResult<()>),
    /// The source was cancelled, or the destination aborted, or that failed.
    CleanedUp(StreamResult<()>),
}

impl<T> PipeStepModel<T> {
    /// Whether an event can come of this step.
    pub open spec fn brings(self, event: PipeEvent<T>) -> bool {
        match self {
            PipeStepModel::AwaitReady => event is Ready,
            PipeStepModel::Read => event is Read,
            PipeStepModel::Write(_) => event is Written,
            PipeStepModel::CloseDestination => event is Closed,
            PipeStepModel::CancelSource(_) => event is CleanedUp,
            PipeStepModel::AbortDestination(_) => event is CleanedUp,
            PipeStepModel::Over(_) => false,
        }
    }
}

/// Where a pipe is.
pub enum PipeState {
    AwaitingReady,
    Reading,
    Writing,
    Closing,
    /// The other end is told about this error.
    CleaningUp(StreamError),
    Over,
}

/// A pipe between a source and a destination.
pub struct Pipe {
    pub options: StreamPipeOptions,
    pub state: PipeState,
}

impl Pipe {
    /// Whether an event can happen to the pipe where it is.
    pub open spec fn allows<T>(self, event: PipeEvent<T>) -> bool {
        match self.state {
            PipeState::AwaitingReady => event is Ready,
            PipeState::Reading => event is Read,
            PipeState::Writing => event is Written,
            PipeState::Closing => event is Closed,
            PipeState::CleaningUp(_) => event is CleanedUp,
            PipeState::Over => false,
        }
    }

    /// The pipe comes to `state`, and does `step` next.
    pub open spec fn goes<T>(self, state: PipeState, step: PipeStepModel<T>) -> (
        Self,
        PipeStepModel<T>,
    ) {
        (Pipe { state, ..self }, step)
    }

    /// What an event makes of the pipe, and what is done next.  A failed destination is answered
    /// by cancelling the source, a failed source by aborting the destination, and the end of the
    /// source by closing the destination, unless that is prevented.  The error that brought it
    /// about is what the pipe reports, unless telling the other end fails as well.
    pub open spec fn after<T>(self, event: PipeEvent<T>) -> (Self, PipeStepModel<T>) {
        match event {
            PipeEvent::Ready(Ok(_)) => self.goes(PipeState::Reading, PipeStepModel::Read),
            PipeEvent::Ready(Err(error)) => if self.options.prevent_cancel {
                self.goes(PipeState::Over, PipeStepModel::Over(Err(error)))
            } else {
                self.goes(
                    PipeState::CleaningUp(error),
                    PipeStepModel::CancelSource(error.words()),
                )
            },
            PipeEvent::Read(Ok(Some(chunk))) => self.goes(
                PipeState::Writing,
                PipeStepModel::Write(chunk),
            ),
            PipeEvent::Read(Ok(None)) => if self.options.prevent_close {
                self.goes(PipeState::Over, PipeStepModel::Over(Ok(())))
            } else {
                self.goes(PipeState::Closing, PipeStepModel::CloseDestination)
            },
            PipeEvent::Read(Err(error)) => if self.options.prevent_abort {
                self.goes(PipeState::Over, PipeStepModel::Over(Err(error)))
            } else {
                self.goes(
                    PipeState::CleaningUp(error),
                    PipeStepModel::AbortDestination(error.words()),
                )
            },
            PipeEvent::Written => self.goes(PipeState::AwaitingReady, PipeStepModel::AwaitReady),
            PipeEvent::Closed(outcome) => self.goes(PipeState::Over, PipeStepModel::Over(outcome)),
            PipeEvent::CleanedUp(Ok(_)) => self.goes(
                PipeState::Over,
                PipeStepModel::Over(Err(self.state->CleaningUp_0)),
            ),
            PipeEvent::CleanedUp(Err(error)) => self.goes(
                PipeState::Over,
                PipeStepModel::Over(Err(error)),
            ),
        }
    }

    /// A new pipe waits for the destination first.
    pub fn new<T>(options: StreamPipeOptions) -> (begun: (Self, PipeStep<T>))
        ensures
            begun.0 == (Pipe { options, state: PipeState::AwaitingReady }),
            begun.1@ == PipeStepModel::<T>::AwaitReady,
    {
        (Pipe { options, state: PipeState::AwaitingReady }, PipeStep::AwaitReady)
    }

    /// Something came of the last step: what is done next.
    pub fn next_step<T>(&mut self, event: PipeEvent<T>) -> (step: PipeStep<T>)
        requires
            old(self).allows(event),
        ensures
            (*final(self), step@) == old(self).after(event),
            forall|answer: PipeEvent<T>|
                #[trigger] step@.brings(answer) <==> final(self).allows(answer),
    {
        match event {
            PipeEvent::Ready(Ok(_)) => {
                self.state = PipeState::Reading;
                PipeStep::Read
            },
            PipeEvent::Ready(Err(error)) => if self.options.prevent_cancel {
                self.over(Err(error))
            } else {
                let reason = error.to_text();
                self.state = PipeState::CleaningUp(error);
                PipeStep::CancelSource(reason)
            },
            PipeEvent::Read(Ok(Some(chunk))) => {
                self.state = PipeState::Writing;
                PipeStep::Write(chunk)
            },
            PipeEvent::Read(Ok(None)) => if self.options.prevent_close {
                self.over(Ok(()))
            } else {
                self.state = PipeState::Closing;
                PipeStep::CloseDestination
            },
            PipeEvent::Read(Err(error)) => if self.options.prevent_abort {
                self.over(Err(error))
            } else {
                let reason = error.to_text();
                self.state = PipeState::CleaningUp(error);
                PipeStep::AbortDestination(reason)
            },
            PipeEvent::Written => {
                self.state = PipeState::AwaitingReady;
                PipeStep::AwaitReady
            },
            PipeEvent::Closed(outcome) => self.over(outcome),
            PipeEvent::CleanedUp(cleanup) => {
                let mut state = PipeState::Over;
                core::mem::swap(&mut state, &mut self.state);
                match (cleanup, state) {
                    (Ok(_), PipeState::CleaningUp(cause)) => PipeStep::Over(Err(cause)),
                    (outcome, _) => PipeStep::Over(outcome),
                }
            },
        }
    }

    fn over<T>(&mut self, outcome: StreamResult<()>) -> (step: PipeStep<T>)
        ensures
            (*final(self), step@) == old(self).goes(
                PipeState::Over,
                PipeStepModel::<T>::Over(outcome),
            ),
    {
        self.state = PipeState::Over;
        PipeStep::Over(outcome)
    }

    /// The pipe after some events.
    pub open spec fn run<T>(self, events: Seq<PipeEvent<T>>) -> Self
        decreases events.len(),
    {
        if events.len() == 0 {
            self
        } else {
            self.run(events.drop_last()).after(events.last()).0
        }
    }

    /// Whether some events can happen to the pipe, one after the other.
    pub open spec fn allows_all<T>(self, events: Seq<PipeEvent<T>>) -> bool
        decreases events.len(),
    {
        events.len() > 0 ==> {
            &&& self.allows_all(events.drop_last())
            &&& self.run(events.drop_last()).allows(events.last())
        }
    }

    /// What the pipe does about some events, in order.
    pub open spec fn steps<T>(self, events: Seq<PipeEvent<T>>) -> Seq<PipeStepModel<T>>
        decreases events.len(),
    {
        if events.len() == 0 {
            Seq::empty()
        } else {
            self.steps(events.drop_last()).push(
                self.run(events.drop_last()).after(events.last()).1,
            )
        }
    }
}

/// The chunks that the source gave, in order.
pub open spec fn chunks_read<T>(events: Seq<PipeEvent<T>>) -> Seq<T>
    decreases events.len(),
{
    if events.len() == 0 {
        Seq::empty()
    } else {
        let before = chunks_read(events.drop_last());
        match events.last() {
            PipeEvent::Read(Ok(Some(chunk))) => before.push(chunk),
            _ => before,
        }
    }
}

/// The chunks that the destination was given, in order.
pub open spec fn chunks_written<T>(steps: Seq<PipeStepModel<T>>) -> Seq<T>
    decreases steps.len(),
{
    if steps.len() == 0 {
        Seq::empty()
    } else {
        let before = chunks_written(steps.drop_last());
        match steps.last() {
            PipeStepModel::Write(chunk) => before.push(chunk),
            _ => before,
        }
    }
}

/// The destination is given exactly the chunks that the source gave, in their order.
pub proof fn law_chunks_are_piped_in_order<T>(pipe: Pipe, events: Seq<PipeEvent<T>>)
    requires
        pipe.allows_all(events),
    ensures
        chunks_written(pipe.steps(events)) == chunks_read(events),
    decreases events.len(),
{
    if events.len() > 0 {
        law_chunks_are_piped_in_order(pipe, events.drop_last());
        assert(pipe.steps(events).drop_last() =~= pipe.steps(events.drop_last()));
    }
}

/// What the options of a pipe prevent never happens.
pub proof fn law_options_are_respected<T>(pipe: Pipe, events: Seq<PipeEvent<T>>, i: int)
    requires
        pipe.allows_all(events),
        0 <= i < pipe.steps(events).len(),
    ensures
        pipe.run(events).options == pipe.options,
        pipe.options.prevent_close ==> !(pipe.steps(events)[i] is CloseDestination),
        pipe.options.prevent_abort ==> !(pipe.steps(events)[i] is AbortDestination),
        pipe.options.prevent_cancel ==> !(pipe.steps(events)[i] is CancelSource),
    decreases events.len(),
{
    let earlier = events.drop_last();
    lemma_options_stay(pipe, earlier);
    if i < pipe.steps(earlier).len() {
        law_options_are_respected(pipe, earlier, i);
    }
}

proof fn lemma_options_stay<T>(pipe: Pipe, events: Seq<PipeEvent<T>>)
    ensures
        pipe.run(events).options == pipe.options,
        pipe.steps(events).len() == events.len(),
    decreases events.len(),
{
    if events.len() > 0 {
        lemma_options_stay(pipe, events.drop_last());
    }
}

/// What failed, when something did.
pub open spec fn failure<T>(event: PipeEvent<T>) -> StreamError {
    match event {
        PipeEvent::Ready(Err(error)) => error,
        PipeEvent::Read(Err(error)) => error,
        PipeEvent::CleanedUp(Err(error)) => error,
        _ => arbitrary(),
    }
}

/// A pipe that is over has reported what ended it: after the end of the source, what came of closing
/// the destination, or success if it was not closed; otherwise the failure of the destination, of
/// the source, or of telling the other end; and when the other end was told, the failure before
/// that.
pub proof fn law_a_pipe_reports_what_ended_it<T>(options: StreamPipeOptions, events: Seq<PipeEvent<T>>)
    requires
        ({
            let pipe = Pipe { options, state: PipeState::AwaitingReady };
            pipe.allows_all(events) && pipe.run(events).state is Over
        }),
    ensures
        events.len() > 0,
        ({
            let pipe = Pipe { options, state: PipeState::AwaitingReady };
            pipe.steps(events).last() == PipeStepModel::<T>::Over(
                match events.last() {
                    PipeEvent::Read(Ok(_)) => Ok(()),
                    PipeEvent::Closed(outcome) => outcome,
                    PipeEvent::CleanedUp(Ok(_)) => Err(failure(events[events.len() - 2])),
                    event => Err(failure(event)),
                },
            )
        }),
        events.last() matches PipeEvent::CleanedUp(_) ==> events.len() > 1 && (
        events[events.len() - 2] matches PipeEvent::Ready(Err(_)) || events[events.len() - 2] matches
        PipeEvent::Read(Err(_))),
{
    let pipe = Pipe { options, state: PipeState::AwaitingReady };
    assert(events.len() > 0);
    let earlier = events.drop_last();
    assert(pipe.allows_all(earlier));
    if pipe.run(earlier).state is CleaningUp {
        assert(earlier.len() > 0);
        assert(pipe.run(earlier.drop_last()).allows(earlier.last()));
        assert(earlier.last() == events[events.len() - 2]);
    }
}

/// What becomes of one end reaches the other.  The failure of the source aborts the destination, in
/// the words of that failure, unless and only unless abort is prevented; the failure of the
/// destination cancels the source, in its words, unless and only unless cancel is prevented; and the
/// end of the source closes the destination unless and only unless close is prevented.  No option
/// speaks for another.  Where nothing is to be done the pipe is over at once.
pub proof fn law_each_end_learns_of_the_other<T>(pipe: Pipe, error: StreamError)
    ensures
        ({
            let (next, step) = pipe.after(PipeEvent::<T>::Read(Err(error)));
            &&& step is AbortDestination <==> !pipe.options.prevent_abort
            &&& step is Over <==> pipe.options.prevent_abort
            &&& step matches PipeStepModel::AbortDestination(reason) ==> reason == error.words()
            &&& step matches PipeStepModel::Over(outcome) ==> outcome == StreamResult::<()>::Err(error)
            &&& next.state is Over <==> step is Over
        }),
        ({
            let (next, step) = pipe.after(PipeEvent::<T>::Ready(Err(error)));
            &&& step is CancelSource <==> !pipe.options.prevent_cancel
            &&& step is Over <==> pipe.options.prevent_cancel
            &&& step matches PipeStepModel::CancelSource(reason) ==> reason == error.words()
            &&& step matches PipeStepModel::Over(outcome) ==> outcome == StreamResult::<()>::Err(error)
            &&& next.state is Over <==> step is Over
        }),
        ({
            let (next, step) = pipe.after(PipeEvent::<T>::Read(Ok(None)));
            &&& step is CloseDestination <==> !pipe.options.prevent_close
            &&& step is Over <==> pipe.options.prevent_close
            &&& step matches PipeStepModel::Over(outcome) ==> outcome == StreamResult::<()>::Ok(())
            &&& next.state is Over <==> step is Over
        }),
{
}

/// Once the other end was told, the pipe is over.  It reports the failure that the end was told of,
/// or, where telling it failed as well, that failure; and after a close, what came of the close.
pub proof fn law_a_pipe_is_over_once_the_other_end_was_told<T>(
    pipe: Pipe,
    error: StreamError,
    cleanup: StreamResult<()>,
)
    ensures
        ({
            let reported = PipeStepModel::<T>::Over(
                Err(
                    if cleanup is Err {
                        cleanup->Err_0
                    } else {
                        error
                    },
                ),
            );
            let aborting = pipe.after(PipeEvent::<T>::Read(Err(error))).0;
            let cancelling = pipe.after(PipeEvent::<T>::Ready(Err(error))).0;
            &&& !pipe.options.prevent_abort ==> {
                &&& aborting.allows(PipeEvent::<T>::CleanedUp(cleanup))
                &&& aborting.after(PipeEvent::<T>::CleanedUp(cleanup)).1 == reported
                &&& aborting.after(PipeEvent::<T>::CleanedUp(cleanup)).0.state is Over
            }
            &&& !pipe.options.prevent_cancel ==> {
                &&& cancelling.allows(PipeEvent::<T>::CleanedUp(cleanup))
                &&& cancelling.after(PipeEvent::<T>::CleanedUp(cleanup)).1 == reported
                &&& cancelling.after(PipeEvent::<T>::CleanedUp(cleanup)).0.state is Over
            }
        }),
        ({
            let closing = pipe.after(PipeEvent::<T>::Read(Ok(None))).0;
            !pipe.options.prevent_close ==> {
                &&& closing.allows(PipeEvent::<T>::Closed(cleanup))
                &&& closing.after(PipeEvent::<T>::Closed(cleanup)).1 == PipeStepModel::<T>::Over(
                    cleanup,
                )
                &&& closing.after(PipeEvent::<T>::Closed(cleanup)).0.state is Over
            }
        }),
{
}

/// As long as nothing fails and the source has not ended, the pipe goes on: it waits for room, reads
/// one chunk, writes that chunk, and waits for room again, whatever its options.
pub proof fn law_a_pipe_goes_on<T>(options: StreamPipeOptions, chunk: T)
    ensures
        ({
            let waiting = Pipe { options, state: PipeState::AwaitingReady };
            let (reading, read) = waiting.after(PipeEvent::<T>::Ready(Ok(())));
            let (writing, write) = reading.after(PipeEvent::Read(Ok(Some(chunk))));
            let (again, wait) = writing.after(PipeEvent::<T>::Written);
            &&& waiting.allows(PipeEvent::<T>::Ready(Ok(())))
            &&& read is Read && reading.allows(PipeEvent::Read(Ok(Some(chunk))))
            &&& write == PipeStepModel::Write(chunk) && writing.allows(PipeEvent::<T>::Written)
            &&& wait is AwaitReady && again == waiting
        }),
{
}

/// What a pipe says it does next is what it then expects the outcome of, and nothing else; its
/// options never change; and a pipe that is over expects nothing.
pub proof fn law_a_pipe_expects_what_it_asked_for<T>(
    pipe: Pipe,
    event: PipeEvent<T>,
    answer: PipeEvent<T>,
)
    requires
        pipe.allows(event),
    ensures
        ({
            let (next, step) = pipe.after(event);
            &&& next.options == pipe.options
            &&& next.allows(answer) <==> match step {
                PipeStepModel::AwaitReady => answer is Ready,
                PipeStepModel::Read => answer is Read,
                PipeStepModel::Write(_) => answer is Written,
                PipeStepModel::CloseDestination => answer is Closed,
                PipeStepModel::CancelSource(_) => answer is CleanedUp,
                PipeStepModel::AbortDestination(_) => answer is CleanedUp,
                PipeStepModel::Over(_) => false,
            }
            &&& step.brings(answer) <==> next.allows(answer)
            &&& step is Over <==> next.state is Over
        }),
{
}

impl StreamPipeOptions {
    /// What is to be done to the two ends when the pipe itself is aborted: whether the source is
    /// cancelled, and whether the destination is aborted.
    pub fn on_abort(&self) -> (ends: (bool, bool))
        ensures
            ends == (!self.prevent_cancel, !self.prevent_abort),
    {
        (!self.prevent_cancel, !self.prevent_abort)
    }
}

/// The reason that both ends are given when the pipe itself is aborted.
pub fn abort_reason() -> (reason: String)
    ensures
        reason@ == "Aborted"@,
{
    "Aborted".to_owned()
}

/// What a pipe that was aborted reports.
pub fn abort_outcome() -> (outcome: StreamResult<()>)
    ensures
        outcome matches Err(StreamError::Aborted(Some(reason))) && reason@
            == "Pipe operation aborted"@,
{
    Err(StreamError::Aborted(Some("Pipe operation aborted".to_owned())))
}

} // verus!
