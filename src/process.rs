use vstd::prelude::*;

use crate::cancel::{check_cancel_status, requested_from, CancelContainer, CancelStatus};
use crate::taskstatus::{set_task_completed, StageProgress, TaskStatusContainer};

verus! {

/// The states of a full run, in the order they are entered.
#[derive(Debug, Clone, Copy, PartialEq, Eq, Structural)]
pub enum Stage {
    Init,
    BuildCalibration,
    QualityAnalysis,
    FrameLimiting,
    RotationAnalysis,
    Stacking,
    LimbDarkeningCorrection,
    Normalization,
    Save,
    Done,
}

/// Why a run failed.
#[derive(Debug, Clone, PartialEq, Eq)]
pub enum RunError {
    /// The calibration images or the run context could not be built.
    ContextCreation(String),
    /// An external stage function failed; the stage is kept for diagnostics.
    StageComputation(Stage, String),
    /// No frame remained after quality analysis or frame limiting.
    EmptyInput,
    /// The final image could not be written.
    SaveFailed(String),
}

/// How a run ended. Cancellation is not a failure.
#[derive(Debug, Clone, PartialEq, Eq)]
pub enum RunOutcome {
    /// The image was saved; the count of frames that were stacked.
    Completed(usize),
    Cancelled,
    Failed(RunError),
}

/// What the caller reports after performing a stage: success with the number of
/// frame records the stage left, or the stage's error message.
#[derive(Debug, Clone, PartialEq, Eq)]
pub enum StageReport {
    Succeeded(usize),
    Failed(String),
}

/// What the caller is to do next.
#[derive(Debug, Clone, PartialEq, Eq)]
pub enum Action {
    /// Perform this stage, then report how it went.
    Run(Stage),
    /// The run is over.
    Finish(RunOutcome),
}

/// The decision taken on a report, before the cancellation checkpoint.
#[derive(Debug, Clone, PartialEq, Eq)]
pub enum Transition {
    Fail(RunError),
    Enter(Stage, usize),
    Complete(usize),
}

/// The label published while `s` runs.
pub open spec fn label_of(s: Stage) -> Seq<char> {
    match s {
        Stage::Init => "starting"@,
        Stage::BuildCalibration => "building calibration"@,
        Stage::QualityAnalysis => "quality analysis"@,
        Stage::FrameLimiting => "frame limiting"@,
        Stage::RotationAnalysis => "rotation analysis"@,
        Stage::Stacking => "stacking"@,
        Stage::LimbDarkeningCorrection => "limb darkening correction"@,
        Stage::Normalization => "normalizing"@,
        Stage::Save => "saving"@,
        Stage::Done => "done"@,
    }
}

/// The unit count published when `s` is entered: the frame count for the stages
/// that work frame by frame, none for the others.
pub open spec fn total_of(s: Stage, frames: usize) -> usize {
    match s {
        Stage::QualityAnalysis | Stage::FrameLimiting | Stage::RotationAnalysis | Stage::Stacking => frames,
        _ => 0,
    }
}

/// The error that a failed stage becomes.
pub open spec fn error_of(s: Stage, msg: String) -> RunError {
    match s {
        Stage::BuildCalibration => RunError::ContextCreation(msg),
        Stage::Save => RunError::SaveFailed(msg),
        _ => RunError::StageComputation(s, msg),
    }
}

/// The stage after `s`; the limb-darkening correction is entered only when enabled.
pub open spec fn next_stage(s: Stage, ld_correction: bool) -> Stage {
    match s {
        Stage::Init => Stage::BuildCalibration,
        Stage::BuildCalibration => Stage::QualityAnalysis,
        Stage::QualityAnalysis => Stage::FrameLimiting,
        Stage::FrameLimiting => Stage::RotationAnalysis,
        Stage::RotationAnalysis => Stage::Stacking,
        Stage::Stacking => if ld_correction {
            Stage::LimbDarkeningCorrection
        } else {
            Stage::Normalization
        },
        Stage::LimbDarkeningCorrection => Stage::Normalization,
        Stage::Normalization => Stage::Save,
        _ => Stage::Done,
    }
}

/// Whether the frame count reported by `s` replaces the run's count.
pub open spec fn counts_frames(s: Stage) -> bool {
    s == Stage::BuildCalibration || s == Stage::QualityAnalysis || s == Stage::FrameLimiting
        || s == Stage::RotationAnalysis
}

/// What the report on stage `s` leads to. A failure ends the run with the stage's
/// error. Zero frames after quality analysis, frame limiting or rotation analysis ends
/// it with `EmptyInput`, before stacking. Otherwise the next stage is entered, or after
/// `Save` the run completes with the frames it used.
pub open spec fn transition(s: Stage, ld_correction: bool, frames: usize, report: StageReport) -> Transition {
    if s == Stage::Init {
        Transition::Enter(Stage::BuildCalibration, 0)
    } else {
        match report {
            StageReport::Failed(msg) => Transition::Fail(error_of(s, msg)),
            StageReport::Succeeded(n) => {
                let f = if counts_frames(s) {
                    n
                } else {
                    frames
                };
                if f == 0 && (s == Stage::QualityAnalysis || s == Stage::FrameLimiting || s
                    == Stage::RotationAnalysis) {
                    Transition::Fail(RunError::EmptyInput)
                } else if next_stage(s, ld_correction) == Stage::Done {
                    Transition::Complete(f)
                } else {
                    Transition::Enter(next_stage(s, ld_correction), f)
                }
            },
        }
    }
}

/// The outcome that a transition leads to at the checkpoint, given the cancellation
/// state found there; `None` while the run goes on.
pub open spec fn outcome_after(t: Transition, cancel: CancelStatus) -> Option<RunOutcome> {
    match t {
        Transition::Fail(e) => Some(RunOutcome::Failed(e)),
        Transition::Enter(_, _) => if cancel == CancelStatus::CancelRequested {
            Some(RunOutcome::Cancelled)
        } else {
            None
        },
        Transition::Complete(f) => if cancel == CancelStatus::CancelRequested {
            Some(RunOutcome::Cancelled)
        } else {
            Some(RunOutcome::Completed(f))
        },
    }
}

/// The stage sequencer of one run.
#[derive(Debug)]
pub struct Pipeline {
    pub stage: Stage,
    pub ld_correction: bool,
    pub frames: usize,
    pub outcome: Option<RunOutcome>,
    pub progress: StageProgress,
}

/// A copy of an outcome.
fn copy_outcome(o: &RunOutcome) -> (r: RunOutcome)
    ensures
        r == *o,
{
    match o {
        RunOutcome::Completed(n) => RunOutcome::Completed(*n),
        RunOutcome::Cancelled => RunOutcome::Cancelled,
        RunOutcome::Failed(e) => RunOutcome::Failed(
            match e {
                RunError::ContextCreation(m) => RunError::ContextCreation(m.clone()),
                RunError::StageComputation(s, m) => RunError::StageComputation(*s, m.clone()),
                RunError::EmptyInput => RunError::EmptyInput,
                RunError::SaveFailed(m) => RunError::SaveFailed(m.clone()),
            },
        ),
    }
}

impl Stage {
    /// The label published while this stage runs.
    pub fn label(self) -> (r: &'static str)
        ensures
            r@ == label_of(self),
    {
        match self {
            Stage::Init => "starting",
            Stage::BuildCalibration => "building calibration",
            Stage::QualityAnalysis => "quality analysis",
            Stage::FrameLimiting => "frame limiting",
            Stage::RotationAnalysis => "rotation analysis",
            Stage::Stacking => "stacking",
            Stage::LimbDarkeningCorrection => "limb darkening correction",
            Stage::Normalization => "normalizing",
            Stage::Save => "saving",
            Stage::Done => "done",
        }
    }
}

impl Pipeline {
    /// Well-formed: the progress tracker belongs to the current stage, a run that is
    /// over has an outcome, and from rotation analysis on at least one frame remains.
    pub open spec fn wf(&self) -> bool {
        &&& self.progress.wf()
        &&& self.outcome is None ==> {
            &&& self.stage != Stage::Done
            &&& self.progress.label@ == label_of(self.stage)
            &&& self.progress.total == total_of(self.stage, self.frames)
            &&& (self.stage == Stage::Stacking || self.stage == Stage::LimbDarkeningCorrection
                || self.stage == Stage::Normalization || self.stage == Stage::Save) ==> self.frames > 0
        }
    }

    /// A run in its `Init` state.
    pub fn new(ld_correction: bool) -> (r: Pipeline)
        ensures
            r.wf(),
            r.stage == Stage::Init,
            r.ld_correction == ld_correction,
            r.frames == 0,
            r.outcome is None,
    {
        Pipeline {
            stage: Stage::Init,
            ld_correction,
            frames: 0,
            outcome: None,
            progress: StageProgress { label: "starting".to_owned(), total: 0, completed: 0 },
        }
    }

    fn transition_of(&self, report: StageReport) -> (r: Transition)
        requires
            self.wf(),
            self.outcome is None,
        ensures
            r == transition(self.stage, self.ld_correction, self.frames, report),
    {
        if self.stage == Stage::Init {
            return Transition::Enter(Stage::BuildCalibration, 0);
        }
        match report {
            StageReport::Failed(msg) => {
                let e = match self.stage {
                    Stage::BuildCalibration => RunError::ContextCreation(msg),
                    Stage::Save => RunError::SaveFailed(msg),
                    _ => RunError::StageComputation(self.stage, msg),
                };
                Transition::Fail(e)
            },
            StageReport::Succeeded(n) => {
                let s = self.stage;
                let counts = s == Stage::BuildCalibration || s == Stage::QualityAnalysis || s
                    == Stage::FrameLimiting || s == Stage::RotationAnalysis;
                let f = if counts {
                    n
                } else {
                    self.frames
                };
                let next = match s {
                    Stage::Init => Stage::BuildCalibration,
                    Stage::BuildCalibration => Stage::QualityAnalysis,
                    Stage::QualityAnalysis => Stage::FrameLimiting,
                    Stage::FrameLimiting => Stage::RotationAnalysis,
                    Stage::RotationAnalysis => Stage::Stacking,
                    Stage::Stacking => if self.ld_correction {
                        Stage::LimbDarkeningCorrection
                    } else {
                        Stage::Normalization
                    },
                    Stage::LimbDarkeningCorrection => Stage::Normalization,
                    Stage::Normalization => Stage::Save,
                    _ => Stage::Done,
                };
                if f == 0 && (s == Stage::QualityAnalysis || s == Stage::FrameLimiting || s
                    == Stage::RotationAnalysis) {
                    Transition::Fail(RunError::EmptyInput)
                } else if next == Stage::Done {
                    Transition::Complete(f)
                } else {
                    Transition::Enter(next, f)
                }
            },
        }
    }

    /// Takes the report on the stage just performed and decides what comes next.
    ///
    /// A failure ends the run with its error. Otherwise, before the next state is
    /// entered, the cancellation checkpoint runs: a pending request ends the run as
    /// cancelled. Else the next stage is entered and published with its label, its
    /// unit count and zero completed units, or, after `Save`, the run completes. Every
    /// end of the run empties the status slot. Once the run is over, further calls
    /// change nothing and repeat the outcome.
    pub fn advance(
        &mut self,
        report: StageReport,
        cancel: &mut CancelContainer,
        tasks: &mut TaskStatusContainer,
    ) -> (r: Action)
        requires
            old(self).wf(),
        ensures
            final(self).wf(),
            final(self).ld_correction == old(self).ld_correction,
            old(self).outcome is None ==> final(self).outcome == outcome_after(
                transition(old(self).stage, old(self).ld_correction, old(self).frames, report),
                old(cancel).status,
            ),
            old(self).outcome matches Some(o) ==> {
                &&& r == Action::Finish(o)
                &&& *final(self) == *old(self)
                &&& *final(cancel) == *old(cancel)
                &&& *final(tasks) == *old(tasks)
            },
            old(self).outcome is None ==> match transition(
                old(self).stage,
                old(self).ld_correction,
                old(self).frames,
                report,
            ) {
                Transition::Fail(e) => {
                    &&& r == Action::Finish(RunOutcome::Failed(e))
                    &&& final(self).outcome == Some(RunOutcome::Failed(e))
                    &&& final(tasks).status is None
                    &&& *final(cancel) == *old(cancel)
                },
                Transition::Enter(next, f) => if old(cancel).status == CancelStatus::CancelRequested {
                    &&& r == Action::Finish(RunOutcome::Cancelled)
                    &&& final(self).outcome == Some(RunOutcome::Cancelled)
                    &&& final(tasks).status is None
                    &&& final(cancel).status == CancelStatus::Cancelled
                } else {
                    &&& r == Action::Run(next)
                    &&& final(self).outcome is None
                    &&& final(self).stage == next
                    &&& final(self).frames == f
                    &&& final(self).progress.completed == 0
                    &&& final(tasks)@ == Some((label_of(next), total_of(next, f) as nat, 0nat))
                    &&& *final(cancel) == *old(cancel)
                },
                Transition::Complete(f) => if old(cancel).status == CancelStatus::CancelRequested {
                    &&& r == Action::Finish(RunOutcome::Cancelled)
                    &&& final(self).outcome == Some(RunOutcome::Cancelled)
                    &&& final(tasks).status is None
                    &&& final(cancel).status == CancelStatus::Cancelled
                } else {
                    &&& r == Action::Finish(RunOutcome::Completed(f))
                    &&& final(self).outcome == Some(RunOutcome::Completed(f))
                    &&& final(tasks).status is None
                    &&& *final(cancel) == *old(cancel)
                },
            },
    {
        match &self.outcome {
            Some(o) => {
                return Action::Finish(copy_outcome(o));
            },
            None => {},
        }
        match self.transition_of(report) {
            Transition::Fail(e) => {
                set_task_completed(tasks);
                let o = RunOutcome::Failed(e);
                let r = copy_outcome(&o);
                self.outcome = Some(o);
                Action::Finish(r)
            },
            Transition::Enter(next, f) => {
                if check_cancel_status(cancel, tasks).is_err() {
                    self.outcome = Some(RunOutcome::Cancelled);
                    return Action::Finish(RunOutcome::Cancelled);
                }
                let total = match next {
                    Stage::QualityAnalysis | Stage::FrameLimiting | Stage::RotationAnalysis
                    | Stage::Stacking => f,
                    _ => 0,
                };
                self.progress = StageProgress::begin(tasks, next.label(), total);
                self.stage = next;
                self.frames = f;
                Action::Run(next)
            },
            Transition::Complete(f) => {
                if check_cancel_status(cancel, tasks).is_err() {
                    self.outcome = Some(RunOutcome::Cancelled);
                    return Action::Finish(RunOutcome::Cancelled);
                }
                set_task_completed(tasks);
                self.stage = Stage::Done;
                self.frames = f;
                self.outcome = Some(RunOutcome::Completed(f));
                Action::Finish(RunOutcome::Completed(f))
            },
        }
    }
}

impl Pipeline {
    /// Forwards one finished unit of `stage`'s own work to the status slot. Units of a
    /// stage that is no longer current, or of a run that is over, change nothing.
    pub fn unit_done(&mut self, stage: Stage, tasks: &mut TaskStatusContainer)
        requires
            old(self).wf(),
        ensures
            final(self).wf(),
            final(self).stage == old(self).stage,
            final(self).frames == old(self).frames,
            final(self).outcome == old(self).outcome,
            final(self).ld_correction == old(self).ld_correction,
            old(self).outcome is Some || stage != old(self).stage ==> {
                &&& *final(self) == *old(self)
                &&& *final(tasks) == *old(tasks)
            },
            old(self).outcome is None && stage == old(self).stage ==> {
                &&& final(self).progress.completed as nat == StageProgress::ticked(
                    old(self).progress.completed as nat,
                    old(self).progress.total as nat,
                )
                &&& old(self).progress.shown_in(old(tasks)) ==> final(tasks)@ == Some(
                    (label_of(stage), old(self).progress.total as nat, final(self).progress.completed as nat),
                )
                &&& !old(self).progress.shown_in(old(tasks)) ==> *final(tasks) == *old(tasks)
            },
    {
        if self.outcome.is_none() && stage == self.stage {
            self.progress.unit_done(tasks);
        }
    }
}

impl RunOutcome {
    /// Whether the run saved its image.
    pub fn was_success(&self) -> (r: bool)
        ensures
            r == (self is Completed),
    {
        match self {
            RunOutcome::Completed(_) => true,
            _ => false,
        }
    }

    /// The number of frames stacked; zero unless the run completed.
    pub fn num_frames_used(&self) -> (r: usize)
        ensures
            self matches RunOutcome::Completed(n) ==> r == n,
            !(self is Completed) ==> r == 0,
    {
        match self {
            RunOutcome::Completed(n) => *n,
            _ => 0,
        }
    }

    /// The human-readable message of a failed run; `None` for a completed or
    /// cancelled one.
    pub fn error_message(&self) -> (r: Option<String>)
        ensures
            !(self is Failed) ==> r is None,
            self matches RunOutcome::Failed(e) ==> r matches Some(m) && m@ == message_of(*e),
    {
        match self {
            RunOutcome::Failed(e) => Some(
                match e {
                    RunError::ContextCreation(m) => String::from_str("could not build the run context: ").concat(m.as_str()),
                    RunError::StageComputation(s, m) => String::from_str(s.label()).concat(": ").concat(m.as_str()),
                    RunError::EmptyInput => String::from_str("empty input: zero frames to stack"),
                    RunError::SaveFailed(m) => String::from_str("could not save the image: ").concat(m.as_str()),
                },
            ),
            _ => None,
        }
    }
}

/// The message shown for a failed run.
pub open spec fn message_of(e: RunError) -> Seq<char> {
    match e {
        RunError::ContextCreation(m) => "could not build the run context: "@ + m@,
        RunError::StageComputation(s, m) => label_of(s) + ": "@ + m@,
        RunError::EmptyInput => "empty input: zero frames to stack"@,
        RunError::SaveFailed(m) => "could not save the image: "@ + m@,
    }
}

/// A slot that holds the result of the last run until it is taken, once.
#[derive(Debug)]
pub struct ResultSlot<T> {
    pub result: Option<T>,
}

impl<T> ResultSlot<T> {
    pub fn new() -> (r: ResultSlot<T>)
        ensures
            r.result is None,
    {
        ResultSlot { result: None }
    }

    /// Stores a result, replacing any that was not taken.
    pub fn post(&mut self, value: T)
        ensures
            final(self).result == Some(value),
    {
        self.result = Some(value);
    }

    /// The stored result, which leaves the slot empty.
    pub fn take(&mut self) -> (r: Option<T>)
        ensures
            r == old(self).result,
            final(self).result is None,
    {
        self.result.take()
    }
}

/// A cancellation request made while a stage runs (and the run has not yet stopped)
/// ends the run as cancelled at the next checkpoint, unless that stage failed.
pub proof fn lemma_cancel_request_ends_run(
    s: Stage,
    ld_correction: bool,
    frames: usize,
    report: StageReport,
    prior: CancelStatus,
)
    requires
        prior != CancelStatus::Cancelled,
        !(transition(s, ld_correction, frames, report) is Fail),
    ensures
        outcome_after(transition(s, ld_correction, frames, report), requested_from(prior))
            == Some(RunOutcome::Cancelled),
{
}

/// A run whose frame limiting leaves no frame fails with `EmptyInput`, whatever came
/// before, and never reaches stacking.
pub proof fn lemma_no_frames_after_limiting_fails(ld_correction: bool, frames: usize)
    ensures
        transition(Stage::FrameLimiting, ld_correction, frames, StageReport::Succeeded(0))
            == Transition::Fail(RunError::EmptyInput),
{
}

/// Stacking is entered only with at least one frame.
pub proof fn lemma_stacking_needs_frames(s: Stage, ld_correction: bool, frames: usize, report: StageReport)
    ensures
        transition(s, ld_correction, frames, report) matches Transition::Enter(next, f) ==> (next
            == Stage::Stacking ==> f > 0),
{
}

} // verus!
