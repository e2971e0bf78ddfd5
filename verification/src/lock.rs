//! The execution lock of a worker process and the life of a task around it.
//!
//! Only one task at a time may be inside the interpreter. A task takes the
//! lock for the call itself and gives it back before it waits for anything
//! that crosses the process boundary, so that a slow callback never keeps
//! other tasks out.

use vstd::prelude::*;

verus! {

/// Where a task stands.
#[derive(Debug, Clone, Copy, PartialEq, Eq, Structural)]
pub enum TaskState {
    /// Wants the lock.
    Waiting,
    /// Holds the lock and is inside the interpreter.
    Running,
    /// Has issued a callback and waits for its answer, without the lock.
    Suspended,
    /// Has returned or panicked.
    Finished,
}

/// What happens to a task.
#[derive(Debug, Clone, Copy, PartialEq, Eq, Structural)]
pub enum TaskSignal {
    /// The scheduler lets the task try for the lock.
    LockOffered,
    /// The task issues a callback to the supervisor.
    CallbackIssued,
    /// The callback was answered, or given up.
    CallbackAnswered,
    /// The call returned.
    Returned,
    /// The task panicked.
    Panicked,
}

/// The task that holds the lock after `signal` reached task `task` in state `state`.
pub open spec fn holder_after(
    holder: Option<u64>,
    task: u64,
    state: TaskState,
    signal: TaskSignal,
) -> Option<u64> {
    match state {
        TaskState::Waiting => if signal == TaskSignal::LockOffered && holder is None {
            Some(task)
        } else {
            holder
        },
        TaskState::Running => if (signal == TaskSignal::CallbackIssued || signal
            == TaskSignal::Returned || signal == TaskSignal::Panicked) && holder == Some(task) {
            None
        } else {
            holder
        },
        _ => holder,
    }
}

/// The state of task `task` after `signal` reached it in state `state`.
///
/// A signal that the state cannot take changes nothing.
pub open spec fn state_after(
    holder: Option<u64>,
    state: TaskState,
    signal: TaskSignal,
) -> TaskState {
    match state {
        TaskState::Waiting => match signal {
            TaskSignal::LockOffered => if holder is None {
                TaskState::Running
            } else {
                TaskState::Waiting
            },
            TaskSignal::Panicked => TaskState::Finished,
            _ => TaskState::Waiting,
        },
        TaskState::Running => match signal {
            TaskSignal::CallbackIssued => TaskState::Suspended,
            TaskSignal::Returned | TaskSignal::Panicked => TaskState::Finished,
            _ => TaskState::Running,
        },
        TaskState::Suspended => match signal {
            TaskSignal::CallbackAnswered => TaskState::Waiting,
            TaskSignal::Panicked => TaskState::Finished,
            _ => TaskState::Suspended,
        },
        TaskState::Finished => TaskState::Finished,
    }
}

/// Whether the lock and the state of task `task` agree: the task is running
/// exactly when it holds the lock.
pub open spec fn agrees(holder: Option<u64>, task: u64, state: TaskState) -> bool {
    state == TaskState::Running <==> holder == Some(task)
}

/// The execution lock of one worker process.
#[derive(Debug)]
pub struct ExecutionLock {
    holder: Option<u64>,
}

impl View for ExecutionLock {
    type V = Option<u64>;

    closed spec fn view(&self) -> Option<u64> {
        self.holder
    }
}

impl ExecutionLock {
    /// A lock that nobody holds.
    pub fn new() -> (lock: Self)
        ensures
            lock@ is None,
    {
        ExecutionLock { holder: None }
    }

    /// The task that holds the lock, if one does.
    pub fn holder(&self) -> (holder: Option<u64>)
        ensures
            holder == self@,
    {
        self.holder
    }

    /// Takes the lock for `task` if it is free. Returns whether `task` got it.
    pub fn try_acquire(&mut self, task: u64) -> (acquired: bool)
        ensures
            acquired == (old(self)@ is None),
            final(self)@ == if acquired {
                Some(task)
            } else {
                old(self)@
            },
    {
        match self.holder {
            None => {
                self.holder = Some(task);
                true
            },
            Some(_) => false,
        }
    }

    /// Gives the lock back if `task` holds it. Returns whether it did.
    pub fn release(&mut self, task: u64) -> (released: bool)
        ensures
            released == (old(self)@ == Some(task)),
            final(self)@ == if released {
                None
            } else {
                old(self)@
            },
    {
        match self.holder {
            Some(holder) => {
                if holder == task {
                    self.holder = None;
                    true
                } else {
                    false
                }
            },
            None => false,
        }
    }

    /// Moves task `task` on by one signal and takes or gives back the lock
    /// as the move demands.
    ///
    /// A waiting task that is offered the lock runs if the lock is free. A
    /// running task gives the lock back when it issues a callback, returns
    /// or panics. A suspended task whose callback was answered waits for the
    /// lock again.
    pub fn step(&mut self, task: u64, state: TaskState, signal: TaskSignal) -> (next: TaskState)
        ensures
            next == state_after(old(self)@, state, signal),
            final(self)@ == holder_after(old(self)@, task, state, signal),
    {
        match state {
            TaskState::Waiting => match signal {
                TaskSignal::LockOffered => {
                    if self.try_acquire(task) {
                        TaskState::Running
                    } else {
                        TaskState::Waiting
                    }
                },
                TaskSignal::Panicked => TaskState::Finished,
                _ => TaskState::Waiting,
            },
            TaskState::Running => match signal {
                TaskSignal::CallbackIssued => {
                    self.release(task);
                    TaskState::Suspended
                },
                TaskSignal::Returned => {
                    self.release(task);
                    TaskState::Finished
                },
                TaskSignal::Panicked => {
                    self.release(task);
                    TaskState::Finished
                },
                _ => TaskState::Running,
            },
            TaskState::Suspended => match signal {
                TaskSignal::CallbackAnswered => TaskState::Waiting,
                TaskSignal::Panicked => TaskState::Finished,
                _ => TaskState::Suspended,
            },
            TaskState::Finished => TaskState::Finished,
        }
    }
}

/// A step keeps the lock and the task in agreement, and never disturbs the
/// agreement of any other task: at every moment at most one task runs.
pub proof fn lemma_step_keeps_agreement(
    holder: Option<u64>,
    task: u64,
    state: TaskState,
    signal: TaskSignal,
    other: u64,
    other_state: TaskState,
)
    requires
        agrees(holder, task, state),
        agrees(holder, other, other_state),
        other != task,
    ensures
        agrees(holder_after(holder, task, state, signal), task, state_after(holder, state, signal)),
        agrees(holder_after(holder, task, state, signal), other, other_state),
        !(state_after(holder, state, signal) == TaskState::Running && other_state
            == TaskState::Running),
{
}

/// A task never waits for a callback with the lock in its hands, and a task
/// that returned or panicked never keeps it.
pub proof fn lemma_lock_is_given_back(
    holder: Option<u64>,
    task: u64,
    state: TaskState,
    signal: TaskSignal,
)
    requires
        agrees(holder, task, state),
    ensures
        state_after(holder, state, signal) == TaskState::Suspended ==> holder_after(
            holder,
            task,
            state,
            signal,
        ) != Some(task),
        state_after(holder, state, signal) == TaskState::Finished ==> holder_after(
            holder,
            task,
            state,
            signal,
        ) != Some(task),
        signal == TaskSignal::Panicked ==> state_after(holder, state, signal)
            == TaskState::Finished,
{
}

/// A task that issues a callback while it runs frees the lock at once, so
/// that another waiting task is let in while the callback is under way.
pub proof fn lemma_callback_lets_others_in(holder: Option<u64>, task: u64, other: u64)
    requires
        holder == Some(task),
        other != task,
    ensures
        holder_after(holder, task, TaskState::Running, TaskSignal::CallbackIssued) is None,
        state_after(
            holder_after(holder, task, TaskState::Running, TaskSignal::CallbackIssued),
            TaskState::Waiting,
            TaskSignal::LockOffered,
        ) == TaskState::Running,
{
}

} // verus!
