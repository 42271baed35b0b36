use vstd::prelude::*;

use crate::taskstatus::{set_task_completed, TaskStatusContainer};

verus! {

/// The cooperative-abort state of a run.
#[derive(Debug, Clone, Copy, PartialEq, Eq, Structural)]
pub enum CancelStatus {
    /// Quiescent: keep going.
    NoStatus,
    /// Someone asked the run to stop at its next checkpoint.
    CancelRequested,
    /// The run observed the request and stopped.
    Cancelled,
}

/// How a task ended, or whether it may go on.
#[derive(Debug, Clone, PartialEq, Eq)]
pub enum TaskCompletion {
    Cancelled,
    Completed,
    Error(String),
}

/// The holder of a run's cancellation state.
#[derive(Debug, Clone, Copy)]
pub struct CancelContainer {
    pub status: CancelStatus,
}

impl CancelContainer {
    /// A controller in its quiescent state.
    pub fn new() -> (r: CancelContainer)
        ensures
            r.status == CancelStatus::NoStatus,
    {
        CancelContainer { status: CancelStatus::NoStatus }
    }
}

impl Default for CancelContainer {
    fn default() -> (r: CancelContainer)
        ensures
            r.status == CancelStatus::NoStatus,
    {
        CancelContainer::new()
    }
}

/// The state after a cancellation request: a run that has already stopped stays stopped.
pub open spec fn requested_from(s: CancelStatus) -> CancelStatus {
    if s == CancelStatus::Cancelled {
        CancelStatus::Cancelled
    } else {
        CancelStatus::CancelRequested
    }
}

/// Asks the run to stop at its next checkpoint. Idempotent.
pub fn set_request_cancel(cancel: &mut CancelContainer)
    ensures
        final(cancel).status == requested_from(old(cancel).status),
{
    if cancel.status != CancelStatus::Cancelled {
        cancel.status = CancelStatus::CancelRequested;
    }
}

/// Marks the run as stopped.
pub fn set_task_cancelled(cancel: &mut CancelContainer)
    ensures
        final(cancel).status == CancelStatus::Cancelled,
{
    cancel.status = CancelStatus::Cancelled;
}

/// Back to the quiescent state; done before each new run.
pub fn reset_cancel_status(cancel: &mut CancelContainer)
    ensures
        final(cancel).status == CancelStatus::NoStatus,
{
    cancel.status = CancelStatus::NoStatus;
}

/// Whether a request is pending.
pub fn is_cancel_requested(cancel: &CancelContainer) -> (r: bool)
    ensures
        r == (cancel.status == CancelStatus::CancelRequested),
{
    cancel.status == CancelStatus::CancelRequested
}

/// The checkpoint. On a pending request the run becomes `Cancelled`, the status slot is
/// emptied and `Err(Cancelled)` comes back; otherwise nothing changes and the run may go on.
pub fn check_cancel_status(
    cancel: &mut CancelContainer,
    tasks: &mut TaskStatusContainer,
) -> (r: Result<TaskCompletion, TaskCompletion>)
    ensures
        old(cancel).status == CancelStatus::CancelRequested ==> {
            &&& r == Err::<TaskCompletion, TaskCompletion>(TaskCompletion::Cancelled)
            &&& final(cancel).status == CancelStatus::Cancelled
            &&& final(tasks).status is None
        },
        old(cancel).status != CancelStatus::CancelRequested ==> {
            &&& r == Ok::<TaskCompletion, TaskCompletion>(TaskCompletion::Completed)
            &&& *final(cancel) == *old(cancel)
            &&& *final(tasks) == *old(tasks)
        },
{
    if is_cancel_requested(cancel) {
        set_task_cancelled(cancel);
        set_task_completed(tasks);
        Err(TaskCompletion::Cancelled)
    } else {
        Ok(TaskCompletion::Completed)
    }
}

} // verus!
