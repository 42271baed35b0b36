use vstd::prelude::*;

verus! {

/// A snapshot of the running task: stage label, total units, completed units.
#[derive(Debug, Clone)]
pub enum TaskStatus {
    TaskPercentage(String, usize, usize),
}

/// The single status slot that an observer polls. `None` means no run is active.
#[derive(Debug, Clone)]
pub struct TaskStatusContainer {
    pub status: Option<TaskStatus>,
}

impl TaskStatus {
    /// The snapshot as plain values: label, total units, completed units.
    pub open spec fn view(&self) -> (Seq<char>, nat, nat) {
        match self {
            TaskStatus::TaskPercentage(label, total, done) => (label@, *total as nat, *done as nat),
        }
    }
}

impl TaskStatusContainer {
    pub open spec fn view(&self) -> Option<(Seq<char>, nat, nat)> {
        match self.status {
            Some(s) => Some(s.view()),
            None => None,
        }
    }

    /// An empty slot: no run is active.
    pub fn new() -> (r: TaskStatusContainer)
        ensures
            r.status is None,
    {
        TaskStatusContainer { status: None }
    }
}

impl Default for TaskStatusContainer {
    fn default() -> (r: TaskStatusContainer)
        ensures
            r.status is None,
    {
        TaskStatusContainer::new()
    }
}

/// Whether a run is active, that is, whether the slot holds a snapshot.
pub fn is_task_running(container: &TaskStatusContainer) -> (r: bool)
    ensures
        r == container.status is Some,
{
    container.status.is_some()
}

/// A copy of the current snapshot, or `None` when the slot is empty.
pub fn get_task_status(container: &TaskStatusContainer) -> (r: Option<TaskStatus>)
    ensures
        r == container.status,
{
    match &container.status {
        Some(TaskStatus::TaskPercentage(label, total, done)) => Some(
            TaskStatus::TaskPercentage(label.clone(), *total, *done),
        ),
        None => None,
    }
}

/// Overwrites the slot with a new snapshot.
pub fn set_task_status(
    container: &mut TaskStatusContainer,
    task_name: &str,
    num_parts: usize,
    progress: usize,
)
    ensures
        final(container)@ == Some((task_name@, num_parts as nat, progress as nat)),
{
    container.status = Some(TaskStatus::TaskPercentage(task_name.to_owned(), num_parts, progress));
}

/// Empties the slot: no run is active any more.
pub fn set_task_completed(container: &mut TaskStatusContainer)
    ensures
        final(container).status is None,
{
    container.status = None;
}

/// The running count of one stage. `label` and `total` identify the stage; a tick is
/// published only while the status slot still shows this stage, so a late tick of an
/// earlier stage never overwrites a later one, nor a slot that was emptied.
#[derive(Debug, Clone)]
pub struct StageProgress {
    pub label: String,
    pub total: usize,
    pub completed: usize,
}

impl StageProgress {
    pub open spec fn wf(&self) -> bool {
        self.completed <= self.total
    }

    /// Whether `container` currently shows this stage.
    pub open spec fn shown_in(&self, container: &TaskStatusContainer) -> bool {
        match container@ {
            Some(v) => v.0 == self.label@ && v.1 == self.total as nat,
            None => false,
        }
    }

    /// The count after one more unit: one more, but never past the total.
    pub open spec fn ticked(completed: nat, total: nat) -> nat {
        if completed < total {
            completed + 1
        } else {
            total
        }
    }

    /// Starts a stage: publishes `(label, total, 0)`.
    pub fn begin(container: &mut TaskStatusContainer, label: &str, total: usize) -> (r: StageProgress)
        ensures
            r.wf(),
            r.label@ == label@,
            r.total == total,
            r.completed == 0,
            final(container)@ == Some((label@, total as nat, 0nat)),
    {
        set_task_status(container, label, total, 0);
        StageProgress { label: label.to_owned(), total, completed: 0 }
    }

    /// Counts one finished unit and republishes the stage's snapshot with the same label,
    /// if the slot still shows this stage; otherwise the slot is left alone.
    pub fn unit_done(&mut self, container: &mut TaskStatusContainer)
        requires
            old(self).wf(),
        ensures
            final(self).wf(),
            final(self).label == old(self).label,
            final(self).total == old(self).total,
            final(self).completed as nat == StageProgress::ticked(old(self).completed as nat, old(self).total as nat),
            old(self).shown_in(old(container)) ==> final(container)@ == Some(
                (old(self).label@, old(self).total as nat, final(self).completed as nat),
            ),
            !old(self).shown_in(old(container)) ==> *final(container) == *old(container),
    {
        if self.completed < self.total {
            self.completed = self.completed + 1;
        }
        let shown = match &container.status {
            Some(TaskStatus::TaskPercentage(label, total, _)) => *label == self.label && *total
                == self.total,
            None => false,
        };
        if shown {
            set_task_status(container, self.label.as_str(), self.total, self.completed);
        }
    }
}

/// The counts that a stage shows after `k` more ticks from `completed`.
pub open spec fn count_after(completed: nat, total: nat, k: nat) -> nat
    decreases k,
{
    if k == 0 {
        completed
    } else {
        StageProgress::ticked(count_after(completed, total, (k - 1) as nat), total)
    }
}

/// Within one stage the published count never goes down and never passes the total:
/// of any two moments, the later count is at least the earlier one, and both are at
/// most the stage's total.
pub proof fn lemma_stage_progress_monotone(completed: nat, total: nat, j: nat, k: nat)
    requires
        completed <= total,
        j <= k,
    ensures
        count_after(completed, total, j) <= count_after(completed, total, k) <= total,
    decreases k,
{
    if k > 0 {
        if j < k {
            lemma_stage_progress_monotone(completed, total, j, (k - 1) as nat);
        } else {
            lemma_stage_progress_monotone(completed, total, (k - 1) as nat, (k - 1) as nat);
        }
    }
}

} // verus!
