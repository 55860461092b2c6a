//! The termination handshake between the owner of an instance and the instance task.
//!
//! The owner holds a handle; dropping it sends a request and waits for the confirmation. The task
//! races its work against the request, and whichever ends first, releases the work before it
//! confirms. The host moves the signals; these types decide what to do at each step.
use vstd::prelude::*;

verus! {

/// Where the owner's side of the handshake stands.
#[derive(Clone, Copy, Debug, PartialEq, Eq, Structural)]
pub enum DropState {
    /// The instance runs; nothing was asked of it.
    Armed,
    /// Termination was asked for; the owner waits.
    DropRequested,
    /// The instance confirmed that it has terminated.
    Confirmed,
}

/// The owner's side of one instance.
#[derive(Debug)]
pub struct RemoteDrop {
    state: DropState,
}

impl View for RemoteDrop {
    type V = DropState;

    closed spec fn view(&self) -> DropState {
        self.state
    }
}

impl RemoteDrop {
    /// A handle of a running instance.
    pub fn new() -> (r: RemoteDrop)
        ensures
            r@ == DropState::Armed,
    {
        RemoteDrop { state: DropState::Armed }
    }

    /// Where the handshake stands.
    pub fn state(&self) -> (r: DropState)
        ensures
            r == self@,
    {
        self.state
    }

    /// Asks the instance to terminate. Only the first request is sent: the result says whether
    /// this call is the one that sends it.
    pub fn request_drop(&mut self) -> (r: bool)
        ensures
            r == (old(self)@ == DropState::Armed),
            r ==> final(self)@ == DropState::DropRequested,
            !r ==> final(self)@ == old(self)@,
    {
        if self.state == DropState::Armed {
            self.state = DropState::DropRequested;
            true
        } else {
            false
        }
    }

    /// Records the confirmation, or that the instance's side is gone, which ends the wait too.
    /// Before a request nothing changes: a confirmation only answers one.
    pub fn confirm(&mut self)
        ensures
            old(self)@ == DropState::Armed ==> final(self)@ == DropState::Armed,
            old(self)@ != DropState::Armed ==> final(self)@ == DropState::Confirmed,
    {
        if self.state != DropState::Armed {
            self.state = DropState::Confirmed;
        }
    }

    /// Whether dropping the handle is complete: the instance has terminated.
    pub fn is_done(&self) -> (r: bool)
        ensures
            r == (self@ == DropState::Confirmed),
    {
        self.state == DropState::Confirmed
    }
}

/// Where an instance task stands.
#[derive(Clone, Copy, Debug, PartialEq, Eq, Structural)]
pub enum TaskState {
    /// The work runs, raced against the termination request.
    Running,
    /// The work has ended or was cancelled, and was released; the confirmation was sent.
    Terminated,
}

/// What happens to an instance task.
#[derive(Clone, Copy, Debug, PartialEq, Eq, Structural)]
pub enum TaskEvent {
    /// The work completed.
    WorkDone,
    /// The work failed.
    WorkFailed,
    /// The owner asked for termination.
    DropRequested,
    /// The owner's side is gone without a request; this cancels the work too.
    RequestLost,
}

/// What the host does for an instance task, in order.
#[derive(Clone, Copy, Debug, PartialEq, Eq, Structural)]
pub enum TaskAction {
    /// Log the failure of the work with the instance's name.
    LogFailure,
    /// Drop the work, releasing whatever it holds.
    ReleaseWork,
    /// Send the termination confirmation; a confirmation nobody waits for is lost silently.
    SendConfirmation,
}

/// The actions for an event, in specifications.
pub open spec fn task_actions(state: TaskState, event: TaskEvent) -> Seq<TaskAction> {
    match state {
        TaskState::Running => match event {
            TaskEvent::WorkFailed => seq![
                TaskAction::LogFailure,
                TaskAction::ReleaseWork,
                TaskAction::SendConfirmation,
            ],
            _ => seq![TaskAction::ReleaseWork, TaskAction::SendConfirmation],
        },
        TaskState::Terminated => Seq::empty(),
    }
}

/// The next step of an instance task.
///
/// The first event ends a running task, whatever it is: a failure is logged, not passed on. The
/// work is released before the confirmation is sent. A terminated task ignores later events.
pub fn on_task_event(state: TaskState, event: TaskEvent) -> (r: (TaskState, Vec<TaskAction>))
    ensures
        r.0 == TaskState::Terminated,
        r.1@ == task_actions(state, event),
{
    let mut actions: Vec<TaskAction> = Vec::new();
    match state {
        TaskState::Running => {
            if event == TaskEvent::WorkFailed {
                actions.push(TaskAction::LogFailure);
            }
            actions.push(TaskAction::ReleaseWork);
            actions.push(TaskAction::SendConfirmation);
        },
        TaskState::Terminated => {},
    }
    assert(actions@ =~= task_actions(state, event));
    (TaskState::Terminated, actions)
}

/// The state after a sequence of events, starting from a running task.
pub open spec fn task_state_after(events: Seq<TaskEvent>) -> TaskState {
    if events.len() == 0 {
        TaskState::Running
    } else {
        TaskState::Terminated
    }
}

/// All actions taken over a sequence of events, starting from a running task.
pub open spec fn task_trace(events: Seq<TaskEvent>) -> Seq<TaskAction>
    decreases events.len(),
{
    if events.len() == 0 {
        Seq::empty()
    } else {
        let pre = events.drop_last();
        task_trace(pre) + task_actions(task_state_after(pre), events.last())
    }
}

proof fn lemma_trace_first(events: Seq<TaskEvent>)
    ensures
        task_trace(events) == if events.len() == 0 {
            Seq::<TaskAction>::empty()
        } else {
            task_actions(TaskState::Running, events[0])
        },
    decreases events.len(),
{
    if events.len() > 0 {
        let pre = events.drop_last();
        lemma_trace_first(pre);
        if pre.len() == 0 {
            assert(task_trace(events) =~= task_actions(TaskState::Running, events[0]));
        } else {
            assert(pre[0] == events[0]);
            assert(task_trace(events) =~= task_trace(pre));
        }
    }
}

/// Over any sequence of events, the confirmation is sent at most once, and the work has been
/// released before it: its resources are free once the owner sees the confirmation.
pub proof fn lemma_release_before_confirmation(events: Seq<TaskEvent>)
    ensures
        forall|i: int|
            0 <= i < task_trace(events).len() && #[trigger] task_trace(events)[i]
                == TaskAction::SendConfirmation ==> i > 0 && task_trace(events)[i - 1]
                == TaskAction::ReleaseWork,
        forall|i: int, k: int|
            0 <= i < task_trace(events).len() && 0 <= k < task_trace(events).len()
                && #[trigger] task_trace(events)[i] == TaskAction::SendConfirmation
                && #[trigger] task_trace(events)[k] == TaskAction::SendConfirmation ==> i == k,
{
    lemma_trace_first(events);
}

} // verus!
