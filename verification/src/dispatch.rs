//! The worker's side of one request: what to run next, and what to reply.
//!
//! Handling a request is a fixed run of steps, each of which is outside work
//! (turning the message into an interpreter value, calling the function,
//! awaiting its result, turning the result back). The caller performs each
//! step and reports how it went; the decisions between the steps are made
//! here. The first step that fails ends the call with the error of its class.

use vstd::prelude::*;
use crate::envelope::{Envelope, EnvelopeKind, EnvelopeView};
use crate::tracker::{after_event, ConcurrencyTracker, TaskEvent};

verus! {

/// How a request failed, as its caller sees it.
#[derive(Debug, Clone)]
pub enum ExecutionError {
    /// The message could not be turned into an interpreter value.
    SerializationError { message: String },
    /// The result could not be turned back into a reply.
    DeserializationError { message: String },
    /// The call itself raised or returned a failure.
    CallError { function: String, message: String },
}

/// An execution error as a mathematical value.
pub enum ExecutionErrorView {
    SerializationError { message: Seq<char> },
    DeserializationError { message: Seq<char> },
    CallError { function: Seq<char>, message: Seq<char> },
}

impl View for ExecutionError {
    type V = ExecutionErrorView;

    open spec fn view(&self) -> ExecutionErrorView {
        match *self {
            ExecutionError::SerializationError { message } => ExecutionErrorView::SerializationError {
                message: message@,
            },
            ExecutionError::DeserializationError {
                message,
            } => ExecutionErrorView::DeserializationError { message: message@ },
            ExecutionError::CallError { function, message } => ExecutionErrorView::CallError {
                function: function@,
                message: message@,
            },
        }
    }
}

/// One piece of outside work in the handling of a request.
#[derive(Debug, Clone, Copy, PartialEq, Eq, Structural)]
pub enum Step {
    /// Turn the message into an interpreter value.
    Serialize,
    /// Call the function with that value.
    Call,
    /// Turn what an asynchronous function returned into something to await.
    MakeFuture,
    /// Wait for the asynchronous result.
    Await,
    /// Turn the result back into a reply.
    Deserialize,
}

/// Where the handling of a request stands.
#[derive(Debug, Clone, Copy, PartialEq, Eq, Structural)]
pub enum Phase {
    /// Nothing has been run yet.
    Ready,
    /// The step has been handed out and its outcome is awaited.
    Running { step: Step },
    /// The reply has been decided.
    Finished,
}

/// How a step went.
#[derive(Debug, Clone)]
pub enum StepOutcome {
    Succeeded,
    /// The step failed; `message` is what the interpreter or the codec said.
    Failed { message: String },
}

/// A step's outcome as a mathematical value.
pub enum StepOutcomeView {
    Succeeded,
    Failed { message: Seq<char> },
}

impl View for StepOutcome {
    type V = StepOutcomeView;

    open spec fn view(&self) -> StepOutcomeView {
        match *self {
            StepOutcome::Succeeded => StepOutcomeView::Succeeded,
            StepOutcome::Failed { message } => StepOutcomeView::Failed { message: message@ },
        }
    }
}

/// What the caller has to do next.
#[derive(Debug, Clone)]
pub enum Directive {
    /// Perform the step and report its outcome.
    Run { step: Step },
    /// Reply with the value that the last step produced.
    ReplyValue,
    /// Reply with the error.
    ReplyError { error: ExecutionError },
    /// Nothing: no step is awaited.
    Nothing,
}

/// A directive as a mathematical value.
pub enum DirectiveView {
    Run { step: Step },
    ReplyValue,
    ReplyError { error: ExecutionErrorView },
    Nothing,
}

impl View for Directive {
    type V = DirectiveView;

    open spec fn view(&self) -> DirectiveView {
        match *self {
            Directive::Run { step } => DirectiveView::Run { step },
            Directive::ReplyValue => DirectiveView::ReplyValue,
            Directive::ReplyError { error } => DirectiveView::ReplyError { error: error@ },
            Directive::Nothing => DirectiveView::Nothing,
        }
    }
}

/// Whether the interpreter's execution lock is held while `step` runs.
///
/// Every step that touches the interpreter runs under the lock. Waiting for
/// an asynchronous result does not: the lock is free for other tasks then.
pub open spec fn holds_lock(step: Step) -> bool {
    step != Step::Await
}

/// The step that follows `step` when it succeeded, if one does.
///
/// A synchronous call goes from the call straight to the result; an
/// asynchronous one makes a future of what the call returned and awaits it.
pub open spec fn step_after(step: Step, is_async: bool) -> Option<Step> {
    match step {
        Step::Serialize => Some(Step::Call),
        Step::Call => if is_async {
            Some(Step::MakeFuture)
        } else {
            Some(Step::Deserialize)
        },
        Step::MakeFuture => Some(Step::Await),
        Step::Await => Some(Step::Deserialize),
        Step::Deserialize => None,
    }
}

/// The error that a failure of `step` stands for.
pub open spec fn error_of(step: Step, function: Seq<char>, message: Seq<char>) -> ExecutionErrorView {
    match step {
        Step::Serialize => ExecutionErrorView::SerializationError { message },
        Step::Deserialize => ExecutionErrorView::DeserializationError { message },
        _ => ExecutionErrorView::CallError { function, message },
    }
}

/// What to do after `outcome`, for a call of `function` that stands at `phase`.
pub open spec fn directive_after(
    phase: Phase,
    is_async: bool,
    function: Seq<char>,
    outcome: StepOutcomeView,
) -> DirectiveView {
    match phase {
        Phase::Running { step } => match outcome {
            StepOutcomeView::Failed { message } => DirectiveView::ReplyError {
                error: error_of(step, function, message),
            },
            StepOutcomeView::Succeeded => match step_after(step, is_async) {
                Some(next) => DirectiveView::Run { step: next },
                None => DirectiveView::ReplyValue,
            },
        },
        _ => DirectiveView::Nothing,
    }
}

/// Where the call stands after `outcome`.
pub open spec fn phase_after(phase: Phase, is_async: bool, outcome: StepOutcomeView) -> Phase {
    match phase {
        Phase::Running { step } => match outcome {
            StepOutcomeView::Failed { .. } => Phase::Finished,
            StepOutcomeView::Succeeded => match step_after(step, is_async) {
                Some(next) => Phase::Running { step: next },
                None => Phase::Finished,
            },
        },
        _ => phase,
    }
}

/// The handling of one request.
#[derive(Debug)]
pub struct Call {
    function: String,
    is_async: bool,
    phase: Phase,
}

/// A call as a mathematical value.
pub struct CallView {
    pub function: Seq<char>,
    pub is_async: bool,
    pub phase: Phase,
}

impl View for Call {
    type V = CallView;

    closed spec fn view(&self) -> CallView {
        CallView { function: self.function@, is_async: self.is_async, phase: self.phase }
    }
}

impl Call {
    /// The handling of a request by `function`, before its first step.
    pub fn new(function: String, is_async: bool) -> (call: Self)
        ensures
            call@ == (CallView { function: function@, is_async, phase: Phase::Ready }),
    {
        Call { function, is_async, phase: Phase::Ready }
    }

    /// Where the call stands.
    pub fn phase(&self) -> (phase: Phase)
        ensures
            phase == self@.phase,
    {
        self.phase
    }

    /// Whether the lock must be held for the step that is awaited.
    pub fn needs_lock(&self) -> (needed: bool)
        ensures
            needed == (self@.phase matches Phase::Running { step } && holds_lock(step)),
    {
        match self.phase {
            Phase::Running { step } => match step {
                Step::Await => false,
                _ => true,
            },
            _ => false,
        }
    }

    /// Begins the call: the first step is to serialize the message.
    ///
    /// On a call that has begun already nothing happens.
    pub fn start(&mut self) -> (directive: Directive)
        ensures
            final(self)@.function == old(self)@.function,
            final(self)@.is_async == old(self)@.is_async,
            old(self)@.phase == Phase::Ready ==> directive@ == (DirectiveView::Run {
                step: Step::Serialize,
            }) && final(self)@.phase == (Phase::Running { step: Step::Serialize }),
            old(self)@.phase != Phase::Ready ==> directive@ == DirectiveView::Nothing
                && final(self)@.phase == old(self)@.phase,
    {
        match self.phase {
            Phase::Ready => {
                self.phase = Phase::Running { step: Step::Serialize };
                Directive::Run { step: Step::Serialize }
            },
            _ => Directive::Nothing,
        }
    }

    /// Takes the outcome of the step that was handed out and decides what follows.
    ///
    /// A success moves on to the next step, or to the reply after the last
    /// one. A failure ends the call with the error of the step's class, which
    /// carries the message and, for the call itself, the function's name.
    /// While no step is awaited nothing happens.
    pub fn advance(&mut self, outcome: StepOutcome) -> (directive: Directive)
        ensures
            final(self)@.function == old(self)@.function,
            final(self)@.is_async == old(self)@.is_async,
            final(self)@.phase == phase_after(old(self)@.phase, old(self)@.is_async, outcome@),
            directive@ == directive_after(
                old(self)@.phase,
                old(self)@.is_async,
                old(self)@.function,
                outcome@,
            ),
    {
        let step = match self.phase {
            Phase::Running { step } => step,
            _ => {
                return Directive::Nothing;
            },
        };
        match outcome {
            StepOutcome::Failed { message } => {
                self.phase = Phase::Finished;
                let error = match step {
                    Step::Serialize => ExecutionError::SerializationError { message },
                    Step::Deserialize => ExecutionError::DeserializationError { message },
                    _ => ExecutionError::CallError { function: self.function.clone(), message },
                };
                Directive::ReplyError { error }
            },
            StepOutcome::Succeeded => {
                let next = match step {
                    Step::Serialize => Some(Step::Call),
                    Step::Call => if self.is_async {
                        Some(Step::MakeFuture)
                    } else {
                        Some(Step::Deserialize)
                    },
                    Step::MakeFuture => Some(Step::Await),
                    Step::Await => Some(Step::Deserialize),
                    Step::Deserialize => None,
                };
                match next {
                    Some(step) => {
                        self.phase = Phase::Running { step };
                        Directive::Run { step }
                    },
                    None => {
                        self.phase = Phase::Finished;
                        Directive::ReplyValue
                    },
                }
            },
        }
    }
}

/// What the dispatch loop does with an inbound request.
#[derive(Debug, Clone, Copy, PartialEq, Eq, Structural)]
pub enum Admission {
    /// Spawn a task for it at once; the loop goes on reading.
    Spawn,
    /// Nobody waits for a reply: no task is spawned.
    Skip,
}

/// What the actor does after a task panicked.
#[derive(Debug, Clone, Copy, PartialEq, Eq, Structural)]
pub enum Supervision {
    /// The dispatch loop goes on.
    Continue,
    /// The dispatch loop stops.
    Stop,
}

/// Decides what becomes of an inbound request.
///
/// A request whose sender waits for the reply is spawned and counted in; one
/// that nobody waits for is skipped and counts nothing. A request is also
/// skipped where the count is at the top of its range.
pub fn take_request(tracker: &mut ConcurrencyTracker, wants_reply: bool) -> (admission: Admission)
    ensures
        admission == if wants_reply && old(tracker)@ < usize::MAX {
            Admission::Spawn
        } else {
            Admission::Skip
        },
        final(tracker)@ == if wants_reply {
            after_event(old(tracker)@, TaskEvent::Started)
        } else {
            old(tracker)@
        },
{
    if wants_reply {
        if tracker.begin() {
            Admission::Spawn
        } else {
            Admission::Skip
        }
    } else {
        Admission::Skip
    }
}

/// Counts a task out once its reply has been sent.
pub fn complete(tracker: &mut ConcurrencyTracker)
    ensures
        final(tracker)@ == after_event(old(tracker)@, TaskEvent::Completed),
{
    tracker.finish();
}

/// What the actor decides when a task panicked: the panic is contained, and
/// the dispatch loop goes on.
pub fn on_panic() -> (decision: Supervision)
    ensures
        decision == Supervision::Continue,
{
    Supervision::Continue
}

/// The `Reply` frame that answers request `correlation_id` with `payload`.
pub fn reply_frame(correlation_id: u64, payload: Vec<u8>) -> (frame: Envelope)
    ensures
        frame@ == (EnvelopeView { correlation_id, kind: EnvelopeKind::Reply, payload: payload@ }),
{
    Envelope { correlation_id, kind: EnvelopeKind::Reply, payload }
}

/// The `Request` frame that carries `payload` under `correlation_id`.
pub fn request_frame(correlation_id: u64, payload: Vec<u8>) -> (frame: Envelope)
    ensures
        frame@ == (EnvelopeView { correlation_id, kind: EnvelopeKind::Request, payload: payload@ }),
{
    Envelope { correlation_id, kind: EnvelopeKind::Request, payload }
}

/// Where the call stands after all of `outcomes`, in order.
pub open spec fn phase_after_all(phase: Phase, is_async: bool, outcomes: Seq<StepOutcomeView>) -> Phase
    decreases outcomes.len(),
{
    if outcomes.len() == 0 {
        phase
    } else {
        phase_after(phase_after_all(phase, is_async, outcomes.drop_last()), is_async, outcomes.last())
    }
}

/// The steps of a call in which nothing fails, in the order they run.
pub open spec fn steps_of(is_async: bool) -> Seq<Step> {
    if is_async {
        seq![Step::Serialize, Step::Call, Step::MakeFuture, Step::Await, Step::Deserialize]
    } else {
        seq![Step::Serialize, Step::Call, Step::Deserialize]
    }
}

/// A call in which every step succeeds runs its steps in order, each one
/// following the one before, and replies with the value after the last.
pub proof fn lemma_successful_call(is_async: bool, function: Seq<char>)
    ensures
        steps_of(is_async)[0] == Step::Serialize,
        forall|i: int|
            0 <= i < steps_of(is_async).len() - 1 ==> directive_after(
                Phase::Running { step: #[trigger] steps_of(is_async)[i] },
                is_async,
                function,
                StepOutcomeView::Succeeded,
            ) == (DirectiveView::Run { step: steps_of(is_async)[i + 1] }),
        directive_after(
            Phase::Running { step: steps_of(is_async).last() },
            is_async,
            function,
            StepOutcomeView::Succeeded,
        ) == DirectiveView::ReplyValue,
{
}

/// A failure ends the call at once: whatever is reported afterwards, the
/// call stays finished and nothing more is run or replied.
pub proof fn lemma_failure_ends_the_call(
    step: Step,
    is_async: bool,
    function: Seq<char>,
    message: Seq<char>,
    later: Seq<StepOutcomeView>,
)
    ensures
        directive_after(
            Phase::Running { step },
            is_async,
            function,
            StepOutcomeView::Failed { message },
        ) == (DirectiveView::ReplyError { error: error_of(step, function, message) }),
        phase_after_all(
            phase_after(Phase::Running { step }, is_async, StepOutcomeView::Failed { message }),
            is_async,
            later,
        ) == Phase::Finished,
        forall|outcome: StepOutcomeView| #[trigger]
            directive_after(Phase::Finished, is_async, function, outcome) == DirectiveView::Nothing,
    decreases later.len(),
{
    if later.len() > 0 {
        lemma_failure_ends_the_call(step, is_async, function, message, later.drop_last());
    }
}

/// The execution lock is never held while a task waits: the only step that
/// runs without it is the wait for an asynchronous result, and that step
/// comes only in asynchronous calls, between two steps that hold the lock.
pub proof fn lemma_lock_is_free_while_waiting(is_async: bool)
    ensures
        forall|i: int|
            0 <= i < steps_of(is_async).len() ==> (holds_lock(#[trigger] steps_of(is_async)[i])
                <==> steps_of(is_async)[i] != Step::Await),
        !is_async ==> forall|i: int|
            0 <= i < steps_of(is_async).len() ==> holds_lock(#[trigger] steps_of(is_async)[i]),
{
}

} // verus!
