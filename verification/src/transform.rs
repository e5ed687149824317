//! Transforming what is written to one stream into what is read from another.

use crate::channel::{asks, made_together, Outbox, Posted};
use crate::error::{Notice, OtherError, StreamError, StreamResult};
use crate::readable::controller::ReadableStreamDefaultController;
use crate::readable::effect::ControllerMsg;
use crate::strategy::{CountQueuingStrategy, QueuingStrategy};
use crate::writable::controller::{
    ControllerMsg as WritableControllerMsg, WritableStreamDefaultController,
};
use core::marker::PhantomData;
use futures::channel::mpsc::UnboundedSender;
use futures::channel::oneshot;
use vstd::prelude::*;

verus! {

/// What the writable side asks of the transformer's task.
pub enum TransformCommand<I> {
    Write { chunk: I, completion: oneshot::Sender<StreamResult<()>> },
    Close { completion: oneshot::Sender<StreamResult<()>> },
    Abort { reason: Option<String>, completion: oneshot::Sender<StreamResult<()>> },
}

/// The controller that a transformer is given: it feeds the readable side, and can fail or end
/// both sides.
#[verifier::reject_recursive_types(O)]
pub struct TransformStreamDefaultController<O> {
    readable_controller: ReadableStreamDefaultController<O>,
    writable_controller: WritableStreamDefaultController,
}

impl<O> TransformStreamDefaultController<O> {
    /// The controller of the readable side.
    pub closed spec fn readable_side(self) -> ReadableStreamDefaultController<O> {
        self.readable_controller
    }

    /// The controller of the writable side.
    pub closed spec fn writable_side(self) -> WritableStreamDefaultController {
        self.writable_controller
    }

    pub fn new(
        readable_controller: ReadableStreamDefaultController<O>,
        writable_controller: WritableStreamDefaultController,
    ) -> (controller: Self)
        ensures
            controller.readable_side() == readable_controller,
            controller.writable_side() == writable_controller,
    {
        TransformStreamDefaultController { readable_controller, writable_controller }
    }

    /// What failing both sides comes to, and makes of the controller: the readable side is told the
    /// error, and if that succeeds the writable side is told it too.
    pub open spec fn fails(
        self,
        after: Self,
        error: StreamError,
        outcome: StreamResult<()>,
    ) -> bool {
        &&& self.readable_side().tells(
            after.readable_side(),
            ControllerMsg::Error(error),
            Notice::FailedToError,
            outcome,
        )
        &&& if outcome is Ok {
            self.writable_side().tells(after.writable_side(), WritableControllerMsg::Error(error))
        } else {
            after.writable_side() == self.writable_side()
        }
    }

    /// What ending both sides comes to, and makes of the controller: the readable side is told of
    /// the end, and if that succeeds the writable side is told that it is over.
    pub open spec fn terminates(self, after: Self, outcome: StreamResult<()>) -> bool {
        &&& self.readable_side().tells(
            after.readable_side(),
            ControllerMsg::Close,
            Notice::FailedToClose,
            outcome,
        )
        &&& if outcome is Ok {
            self.writable_side().tells(
                after.writable_side(),
                WritableControllerMsg::Error(StreamError::notice(Notice::Terminated)),
            )
        } else {
            after.writable_side() == self.writable_side()
        }
    }

    /// What giving the readable side a chunk comes to, and makes of the controller.
    pub open spec fn gives(self, after: Self, chunk: O, outcome: StreamResult<()>) -> bool {
        &&& self.readable_side().gives(after.readable_side(), chunk, outcome)
        &&& after.writable_side() == self.writable_side()
    }

    /// Give the readable side a chunk.
    pub fn enqueue(&mut self, chunk: O) -> (outcome: StreamResult<()>)
        ensures
            old(self).gives(*final(self), chunk, outcome),
    {
        self.readable_controller.enqueue(chunk)
    }

    /// Fail the readable side, and then the writable side.
    pub fn error(&mut self, error: StreamError) -> (outcome: StreamResult<()>)
        ensures
            old(self).fails(*final(self), error, outcome),
    {
        match self.readable_controller.error(error.clone()) {
            Ok(_) => {
                self.writable_controller.error(error);
                Ok(())
            },
            Err(failure) => Err(failure),
        }
    }

    /// End the readable side, and then refuse further writes.
    pub fn terminate(&mut self) -> (outcome: StreamResult<()>)
        ensures
            old(self).terminates(*final(self), outcome),
    {
        match self.readable_controller.close() {
            Ok(_) => {
                self.writable_controller.error(StreamError::notice(Notice::Terminated));
                Ok(())
            },
            Err(failure) => Err(failure),
        }
    }

    /// The room that the readable side has left, as long as it is open.
    pub fn desired_size(&self) -> (reported: Option<isize>)
        ensures
            self.readable_side().reports(reported),
    {
        self.readable_controller.desired_size()
    }
}

/// What the transformer's task does to the two sides.
pub enum SideEffect {
    Nothing,
    /// Fail both sides.
    Fail(StreamError),
    /// End the readable side and refuse further writes.
    Terminate,
}

/// What follows from an event: what is done to the two sides, and what whoever asked is told, if
/// anyone asked.
pub struct TransformStep {
    pub side_effect: SideEffect,
    pub reply: Option<StreamResult<()>>,
}

/// What the transformer's task learns: what came of starting, of transforming a chunk, or of
/// flushing, or that the writable side was aborted.
pub enum TransformEvent {
    Started(StreamResult<()>),
    Transformed(StreamResult<()>),
    Flushed(StreamResult<()>),
    Aborted(Option<String>),
}

/// The error of a transformation that was aborted.
pub open spec fn aborted_with(reason: Option<String>) -> StreamError {
    match reason {
        Some(reason) => StreamError::Other(OtherError::Message(reason)),
        None => StreamError::notice(Notice::TransformAborted),
    }
}

/// The transformer's task: it starts, takes commands, and is over.
#[derive(Clone, Copy, Debug, PartialEq, Eq, Structural)]
pub enum TransformTask {
    Starting,
    Running,
    Over,
}

impl TransformTask {
    /// Whether an event can happen to the task where it is.
    pub open spec fn allows(self, event: TransformEvent) -> bool {
        match self {
            TransformTask::Starting => event is Started,
            TransformTask::Running => !(event is Started),
            TransformTask::Over => false,
        }
    }

    /// What an event makes of the task, and what follows.  A transformer that could not start,
    /// transform or flush fails both sides and is over; so is one that was aborted, and the abort
    /// itself fails.  After a flush both sides end.
    pub open spec fn after(self, event: TransformEvent) -> (Self, TransformStep) {
        match event {
            TransformEvent::Started(Ok(_)) => (
                TransformTask::Running,
                TransformStep { side_effect: SideEffect::Nothing, reply: None },
            ),
            TransformEvent::Started(Err(error)) => (
                TransformTask::Over,
                TransformStep { side_effect: SideEffect::Fail(error), reply: None },
            ),
            TransformEvent::Transformed(Ok(done)) => (
                TransformTask::Running,
                TransformStep { side_effect: SideEffect::Nothing, reply: Some(Ok(done)) },
            ),
            TransformEvent::Transformed(Err(error)) => (
                TransformTask::Over,
                TransformStep { side_effect: SideEffect::Fail(error), reply: Some(Err(error)) },
            ),
            TransformEvent::Flushed(Ok(done)) => (
                TransformTask::Over,
                TransformStep { side_effect: SideEffect::Terminate, reply: Some(Ok(done)) },
            ),
            TransformEvent::Flushed(Err(error)) => (
                TransformTask::Over,
                TransformStep { side_effect: SideEffect::Fail(error), reply: Some(Err(error)) },
            ),
            TransformEvent::Aborted(reason) => (
                TransformTask::Over,
                TransformStep {
                    side_effect: SideEffect::Fail(aborted_with(reason)),
                    reply: Some(Err(aborted_with(reason))),
                },
            ),
        }
    }

    /// A task that is to start its transformer.
    pub fn new() -> (task: Self)
        ensures
            task == TransformTask::Starting,
    {
        TransformTask::Starting
    }

    /// Whether the task is over.
    pub fn is_over(&self) -> (over: bool)
        ensures
            over == (*self == TransformTask::Over),
    {
        *self == TransformTask::Over
    }

    /// Something happened: what follows.
    pub fn next_step(&mut self, event: TransformEvent) -> (step: TransformStep)
        requires
            old(self).allows(event),
        ensures
            (*final(self), step) == old(self).after(event),
    {
        match event {
            TransformEvent::Started(Ok(_)) => {
                *self = TransformTask::Running;
                TransformStep { side_effect: SideEffect::Nothing, reply: None }
            },
            TransformEvent::Started(Err(error)) => {
                *self = TransformTask::Over;
                TransformStep { side_effect: SideEffect::Fail(error), reply: None }
            },
            TransformEvent::Transformed(Ok(done)) => {
                *self = TransformTask::Running;
                TransformStep { side_effect: SideEffect::Nothing, reply: Some(Ok(done)) }
            },
            TransformEvent::Flushed(Ok(done)) => {
                *self = TransformTask::Over;
                TransformStep { side_effect: SideEffect::Terminate, reply: Some(Ok(done)) }
            },
            TransformEvent::Transformed(Err(error)) => self.fail(error),
            TransformEvent::Flushed(Err(error)) => self.fail(error),
            TransformEvent::Aborted(Some(reason)) => self.fail(
                StreamError::Other(OtherError::Message(reason)),
            ),
            TransformEvent::Aborted(None) => self.fail(
                StreamError::notice(Notice::TransformAborted),
            ),
        }
    }

    fn fail(&mut self, error: StreamError) -> (step: TransformStep)
        ensures
            *final(self) == TransformTask::Over,
            step == (TransformStep {
                side_effect: SideEffect::Fail(error),
                reply: Some(Err(error)),
            }),
    {
        *self = TransformTask::Over;
        TransformStep { side_effect: SideEffect::Fail(error.clone()), reply: Some(Err(error)) }
    }

    /// The task after some events.
    pub open spec fn run(self, events: Seq<TransformEvent>) -> Self
        decreases events.len(),
    {
        if events.len() == 0 {
            self
        } else {
            self.run(events.drop_last()).after(events.last()).0
        }
    }

    /// Whether some events can happen to the task, one after the other.
    pub open spec fn allows_all(self, events: Seq<TransformEvent>) -> bool
        decreases events.len(),
    {
        events.len() > 0 ==> {
            &&& self.allows_all(events.drop_last())
            &&& self.run(events.drop_last()).allows(events.last())
        }
    }

    /// What follows from some events, in order.
    pub open spec fn steps(self, events: Seq<TransformEvent>) -> Seq<TransformStep>
        decreases events.len(),
    {
        if events.len() == 0 {
            Seq::empty()
        } else {
            self.steps(events.drop_last()).push(
                self.run(events.drop_last()).after(events.last()).1,
            )
        }
    }
}

/// Whoever asked is told of a failure if and only if both sides fail with it; and the task goes on
/// if and only if nothing is done to the sides.
pub proof fn law_failures_reach_everyone(task: TransformTask, event: TransformEvent, error: StreamError)
    ensures
        ({
            let (next, step) = task.after(event);
            &&& step.reply == Some(StreamResult::<()>::Err(error)) <==> step.side_effect
                == SideEffect::Fail(error) && !(event is Started)
            &&& step.side_effect is Nothing <==> next == TransformTask::Running
            &&& step.reply is None <==> event is Started
        }),
{
}

/// The two sides are failed or ended once, by the last thing that the task does; nothing that was
/// asked before failed.
pub proof fn law_a_transformation_ends_once(task: TransformTask, events: Seq<TransformEvent>, i: int)
    requires
        task.allows_all(events),
        0 <= i < events.len() - 1,
    ensures
        task.steps(events).len() == events.len(),
        task.steps(events)[i].side_effect is Nothing,
        task.steps(events)[i].reply matches Some(reply) ==> reply is Ok,
    decreases events.len(),
{
    let earlier = events.drop_last();
    lemma_steps(task, earlier);
    assert(task.allows_all(earlier));
    if i == earlier.len() - 1 {
        assert(task.run(earlier) != TransformTask::Over);
        assert(task.run(earlier) == task.run(earlier.drop_last()).after(earlier.last()).0);
        assert(task.steps(earlier)[i] == task.run(earlier.drop_last()).after(earlier.last()).1);
    } else {
        law_a_transformation_ends_once(task, earlier, i);
    }
}

/// The start decides.  A task runs after the start of its transformer if and only if the start
/// succeeded; for every error, a start that fails with it makes the task over and fails both sides
/// with exactly that error.  Nobody asked for the start, so nobody is told.
pub proof fn law_the_start_decides(outcome: StreamResult<()>)
    ensures
        ({
            let (next, step) = TransformTask::Starting.after(TransformEvent::Started(outcome));
            &&& next == TransformTask::Running <==> outcome is Ok
            &&& next == TransformTask::Over <==> outcome is Err
            &&& outcome is Ok ==> step.side_effect is Nothing
            &&& outcome matches Err(error) ==> step.side_effect == SideEffect::Fail(error)
            &&& step.reply is None
        }),
{
}

/// Whoever has a chunk transformed or the transformer flushed is told exactly what came of it; for
/// every error, a failure fails both sides with that error and ends the task; a chunk that was
/// transformed leaves the task running and the sides alone, and a flush that was done ends both.
pub proof fn law_an_answer_says_what_came_of_it(outcome: StreamResult<()>)
    ensures
        ({
            let (next, step) = TransformTask::Running.after(TransformEvent::Transformed(outcome));
            &&& step.reply == Some(outcome)
            &&& next == TransformTask::Running <==> outcome is Ok
            &&& next == TransformTask::Over <==> outcome is Err
            &&& outcome is Ok ==> step.side_effect is Nothing
            &&& outcome matches Err(error) ==> step.side_effect == SideEffect::Fail(error)
        }),
        ({
            let (next, step) = TransformTask::Running.after(TransformEvent::Flushed(outcome));
            &&& step.reply == Some(outcome)
            &&& next == TransformTask::Over
            &&& outcome is Ok ==> step.side_effect is Terminate
            &&& outcome matches Err(error) ==> step.side_effect == SideEffect::Fail(error)
        }),
{
}

/// An abort ends the task, fails both sides, and is itself answered with the failure: it reads as
/// the reason that was given, if one was.
pub proof fn law_an_abort_fails_in_its_own_words(reason: Option<String>)
    ensures
        ({
            let (next, step) = TransformTask::Running.after(TransformEvent::Aborted(reason));
            &&& next == TransformTask::Over
            &&& step.side_effect matches SideEffect::Fail(error)
            &&& step.reply == Some(StreamResult::<()>::Err(error))
            &&& error.words() == (match reason {
                Some(reason) => reason@,
                None => "Transform stream aborted"@,
            })
        }),
{
}

/// Whether an event lets a task go on: a start or a transformation that succeeded.
pub open spec fn goes_well(event: TransformEvent) -> bool {
    match event {
        TransformEvent::Started(outcome) => outcome is Ok,
        TransformEvent::Transformed(outcome) => outcome is Ok,
        _ => false,
    }
}

/// A task is started first and once, and then transforms, flushes or is aborted until it is over: it
/// runs exactly as long as its start and every transformation succeeded.
pub proof fn law_a_task_runs_while_all_goes_well(events: Seq<TransformEvent>, event: TransformEvent)
    requires
        TransformTask::Starting.allows_all(events),
    ensures
        ({
            let task = TransformTask::Starting.run(events);
            &&& events.len() == 0 <==> task == TransformTask::Starting
            &&& events.len() > 0 ==> events[0] is Started
            &&& events.len() > 0 ==> (task == TransformTask::Running <==> forall|i: int|
                0 <= i < events.len() ==> goes_well(#[trigger] events[i]))
            &&& task.allows(event) <==> {
                ||| events.len() == 0 && event is Started
                ||| task == TransformTask::Running && !(event is Started)
            }
        }),
    decreases events.len(),
{
    if events.len() > 0 {
        let earlier = events.drop_last();
        law_a_task_runs_while_all_goes_well(earlier, events.last());
        if forall|i: int| 0 <= i < events.len() ==> goes_well(#[trigger] events[i]) {
            assert forall|i: int| 0 <= i < earlier.len() implies goes_well(
                #[trigger] earlier[i],
            ) by {
                assert(earlier[i] == events[i]);
            }
            assert(goes_well(events[events.len() - 1]));
        } else if goes_well(events.last()) {
            let i = choose|i: int| 0 <= i < events.len() && !goes_well(#[trigger] events[i]);
            assert(earlier[i] == events[i]);
        } else {
            assert(!goes_well(events[events.len() - 1]));
        }
        if forall|i: int| 0 <= i < earlier.len() ==> goes_well(#[trigger] earlier[i]) {
            assert forall|i: int|
                0 <= i < events.len() && goes_well(events.last()) implies goes_well(
                #[trigger] events[i],
            ) by {
                if i < earlier.len() {
                    assert(earlier[i] == events[i]);
                }
            }
        }
    }
}

/// What doing to both sides comes to, message by message.  A chunk reaches the readable side alone;
/// a failure reaches the readable side and then, if that took it, the writable side, with the same
/// error; and an end closes the readable side and then, if that took it, refuses further writes.
pub proof fn law_both_sides_are_told<O>(
    before: TransformStreamDefaultController<O>,
    after: TransformStreamDefaultController<O>,
    chunk: O,
    error: StreamError,
    outcome: StreamResult<()>,
)
    ensures
        before.fails(after, error, outcome) ==> {
            &&& after.readable_side()@.len() == before.readable_side()@.len() + 1
            &&& after.readable_side()@.drop_last() == before.readable_side()@
            &&& after.readable_side()@.last().message == ControllerMsg::<O>::Error(error)
            &&& after.readable_side()@.last().taken == outcome is Ok
            &&& outcome is Err ==> after.writable_side()@ == before.writable_side()@
            &&& outcome is Ok ==> {
                &&& after.writable_side()@.len() == before.writable_side()@.len() + 1
                &&& after.writable_side()@.drop_last() == before.writable_side()@
                &&& after.writable_side()@.last().message == WritableControllerMsg::Error(error)
            }
        },
        before.gives(after, chunk, outcome) ==> {
            &&& before.readable_side().gives(after.readable_side(), chunk, outcome)
            &&& after.writable_side()@ == before.writable_side()@
        },
        before.terminates(after, outcome) ==> {
            &&& after.readable_side()@.len() == before.readable_side()@.len() + 1
            &&& after.readable_side()@.drop_last() == before.readable_side()@
            &&& after.readable_side()@.last().message is Close
            &&& after.readable_side()@.last().taken == outcome is Ok
            &&& outcome is Err ==> after.writable_side()@ == before.writable_side()@
            &&& outcome is Ok ==> {
                &&& after.writable_side()@.len() == before.writable_side()@.len() + 1
                &&& after.writable_side()@.drop_last() == before.writable_side()@
                &&& after.writable_side()@.last().message->0.words() == "Terminated"@
            }
        },
{
    assert(before.readable_side()@.push(
        Posted { message: ControllerMsg::<O>::Error(error), taken: outcome is Ok },
    ).drop_last() =~= before.readable_side()@);
    assert(before.readable_side()@.push(
        Posted { message: ControllerMsg::<O>::Close, taken: outcome is Ok },
    ).drop_last() =~= before.readable_side()@);
    if outcome is Ok && (before.fails(after, error, outcome) || before.terminates(after, outcome)) {
        assert(after.writable_side()@.drop_last() =~= before.writable_side()@);
    }
}

proof fn lemma_steps(task: TransformTask, events: Seq<TransformEvent>)
    ensures
        task.steps(events).len() == events.len(),
    decreases events.len(),
{
    if events.len() > 0 {
        lemma_steps(task, events.drop_last());
    }
}

/// Do to the two sides what is to be done; a side that is gone is not told.
pub fn apply<O>(controller: &mut TransformStreamDefaultController<O>, side_effect: SideEffect)
    ensures
        match side_effect {
            SideEffect::Nothing => *final(controller) == *old(controller),
            SideEffect::Fail(error) => exists|outcome: StreamResult<()>| #[trigger]
                old(controller).fails(*final(controller), error, outcome),
            SideEffect::Terminate => exists|outcome: StreamResult<()>| #[trigger]
                old(controller).terminates(*final(controller), outcome),
        },
{
    match side_effect {
        SideEffect::Nothing => {},
        SideEffect::Fail(error) => {
            let outcome = controller.error(error);
            assert(old(controller).fails(*controller, error, outcome));
        },
        SideEffect::Terminate => {
            let outcome = controller.terminate();
            assert(old(controller).terminates(*controller, outcome));
        },
    }
}

/// The readable side's source: everything it gives comes from the transformer.
pub struct TransformReadableSource<O> {
    pub phantom: PhantomData<O>,
}

impl<O> TransformReadableSource<O> {
    pub fn new() -> (source: Self)
        ensures
            source == (TransformReadableSource::<O> { phantom: PhantomData }),
    {
        TransformReadableSource { phantom: PhantomData }
    }

    /// There is nothing to pull.
    pub fn pull(&mut self) -> (outcome: StreamResult<()>)
        ensures
            outcome == StreamResult::<()>::Ok(()),
    {
        Ok(())
    }
}

/// The writable side's sink: everything it is given goes to the transformer's task.
#[verifier::reject_recursive_types(I)]
pub struct TransformWritableSink<I> {
    outbox: Outbox<TransformCommand<I>>,
}

impl<I> View for TransformWritableSink<I> {
    type V = Seq<Posted<TransformCommand<I>>>;

    /// Everything that was posted through this sink, in order.
    closed spec fn view(&self) -> Seq<Posted<TransformCommand<I>>> {
        self.outbox@
    }
}

impl<I> TransformWritableSink<I> {
    /// The end that commands go through.
    pub closed spec fn end(self) -> UnboundedSender<TransformCommand<I>> {
        self.outbox.end()
    }

    pub fn new(transform_tx: UnboundedSender<TransformCommand<I>>) -> (sink: Self)
        ensures
            sink.end() == transform_tx,
            sink@ == Seq::<Posted<TransformCommand<I>>>::empty(),
    {
        TransformWritableSink { outbox: Outbox::new(transform_tx) }
    }

    /// Send a chunk: where the answer will be, unless the task is gone.
    pub fn write(&mut self, chunk: I) -> (asked: StreamResult<oneshot::Receiver<StreamResult<()>>>)
        ensures
            exists|
                completion: oneshot::Sender<StreamResult<()>>,
                answer: oneshot::Receiver<StreamResult<()>>,
            | #[trigger]
                made_together(completion, answer) && asks(
                    old(self)@,
                    final(self)@,
                    TransformCommand::Write { chunk, completion },
                    answer,
                    StreamError::notice(Notice::TransformTaskDropped),
                    asked,
                ),
            final(self).end() == old(self).end(),
    {
        let (completion, answer) = oneshot::channel::<StreamResult<()>>();
        assert(made_together(completion, answer));
        if self.outbox.post(TransformCommand::Write { chunk, completion }) {
            Ok(answer)
        } else {
            Err(StreamError::notice(Notice::TransformTaskDropped))
        }
    }

    /// Send a close: where the answer will be, unless the task is gone.
    pub fn close(&mut self) -> (asked: StreamResult<oneshot::Receiver<StreamResult<()>>>)
        ensures
            exists|
                completion: oneshot::Sender<StreamResult<()>>,
                answer: oneshot::Receiver<StreamResult<()>>,
            | #[trigger]
                made_together(completion, answer) && asks(
                    old(self)@,
                    final(self)@,
                    TransformCommand::Close { completion },
                    answer,
                    StreamError::notice(Notice::TransformTaskDropped),
                    asked,
                ),
            final(self).end() == old(self).end(),
    {
        let (completion, answer) = oneshot::channel::<StreamResult<()>>();
        assert(made_together(completion, answer));
        if self.outbox.post(TransformCommand::Close { completion }) {
            Ok(answer)
        } else {
            Err(StreamError::notice(Notice::TransformTaskDropped))
        }
    }

    /// Send an abort: where the answer will be, unless the task is gone.
    pub fn abort(&mut self, reason: Option<String>) -> (asked: StreamResult<oneshot::Receiver<StreamResult<()>>>)
        ensures
            exists|
                completion: oneshot::Sender<StreamResult<()>>,
                answer: oneshot::Receiver<StreamResult<()>>,
            | #[trigger]
                made_together(completion, answer) && asks(
                    old(self)@,
                    final(self)@,
                    TransformCommand::Abort { reason, completion },
                    answer,
                    StreamError::notice(Notice::TransformTaskDropped),
                    asked,
                ),
            final(self).end() == old(self).end(),
    {
        let (completion, answer) = oneshot::channel::<StreamResult<()>>();
        assert(made_together(completion, answer));
        if self.outbox.post(TransformCommand::Abort { reason, completion }) {
            Ok(answer)
        } else {
            Err(StreamError::notice(Notice::TransformTaskDropped))
        }
    }
}

/// The answer to an operation of the writable side; a task that went away without an answer
/// canceled it, which `canceled` names.
pub fn answer_or_canceled(answer: Option<StreamResult<()>>, canceled: Notice) -> (outcome:
    StreamResult<()>)
    ensures
        outcome == (match answer {
            Some(outcome) => outcome,
            None => StreamResult::<()>::Err(StreamError::notice(canceled)),
        }),
{
    match answer {
        Some(outcome) => outcome,
        None => Err(StreamError::notice(canceled)),
    }
}

/// A transformer that gives back every chunk as it is.
pub struct IdentityTransformer<T> {
    pub phantom: PhantomData<T>,
}

impl<T> IdentityTransformer<T> {
    pub fn new() -> (transformer: Self)
        ensures
            transformer == (IdentityTransformer::<T> { phantom: PhantomData }),
    {
        IdentityTransformer { phantom: PhantomData }
    }

    /// Give the readable side the chunk.
    pub fn transform(
        &mut self,
        chunk: T,
        controller: &mut TransformStreamDefaultController<T>,
    ) -> (outcome: StreamResult<()>)
        ensures
            old(controller).gives(*final(controller), chunk, outcome),
            *final(self) == *old(self),
    {
        controller.enqueue(chunk)
    }
}

/// A transformation that is being put together: the transformer, and the strategies of the two
/// sides.
pub struct TransformStreamBuilder<I, O, T, WS, RS> {
    pub transformer: T,
    pub writable_strategy: WS,
    pub readable_strategy: RS,
    pub phantom: PhantomData<(I, O)>,
}

impl<I, O, T> TransformStreamBuilder<I, O, T, CountQueuingStrategy, CountQueuingStrategy> {
    /// Both sides count chunks and want one.
    pub fn new(transformer: T) -> (builder: Self)
        ensures
            builder.transformer == transformer,
            builder.writable_strategy == (CountQueuingStrategy { high_water_mark: 1 }),
            builder.readable_strategy == (CountQueuingStrategy { high_water_mark: 1 }),
    {
        TransformStreamBuilder {
            transformer,
            writable_strategy: CountQueuingStrategy::new(1),
            readable_strategy: CountQueuingStrategy::new(1),
            phantom: PhantomData,
        }
    }
}

impl<I, O, T, WS, RS> TransformStreamBuilder<I, O, T, WS, RS> {
    pub fn writable_strategy<S: QueuingStrategy<I>>(self, s: S) -> (builder: TransformStreamBuilder<
        I,
        O,
        T,
        S,
        RS,
    >)
        ensures
            builder.transformer == self.transformer,
            builder.writable_strategy == s,
            builder.readable_strategy == self.readable_strategy,
    {
        TransformStreamBuilder {
            transformer: self.transformer,
            writable_strategy: s,
            readable_strategy: self.readable_strategy,
            phantom: PhantomData,
        }
    }

    pub fn readable_strategy<S: QueuingStrategy<O>>(self, s: S) -> (builder: TransformStreamBuilder<
        I,
        O,
        T,
        WS,
        S,
    >)
        ensures
            builder.transformer == self.transformer,
            builder.writable_strategy == self.writable_strategy,
            builder.readable_strategy == s,
    {
        TransformStreamBuilder {
            transformer: self.transformer,
            writable_strategy: self.writable_strategy,
            readable_strategy: s,
            phantom: PhantomData,
        }
    }
}

} // verus!
