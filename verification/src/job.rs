//! The state machine of a download job.
//!
//! `Pending -> Running -> (Done | Failed | Cancelled | Paused)`, with
//! `Paused -> Running` and cancellation from every state that is not final.

use vstd::prelude::*;
use crate::text::{owned, push_str};

verus! {

/// The state of a download job.
#[derive(Debug, Clone, PartialEq, Eq)]
pub enum JobState {
    /// Waiting to start.
    Pending,
    /// Downloading.
    Running,
    /// Paused by the user.
    Paused,
    /// Cancelled by the user.
    Cancelled,
    /// Finished.
    Done,
    /// Failed, with the reason.
    Failed(String),
}

/// The view of a [`JobState`]: the same variants, the reason as characters.
pub enum JobStateView {
    /// Waiting to start.
    Pending,
    /// Downloading.
    Running,
    /// Paused by the user.
    Paused,
    /// Cancelled by the user.
    Cancelled,
    /// Finished.
    Done,
    /// Failed, with the reason.
    Failed(Seq<char>),
}

impl View for JobState {
    type V = JobStateView;

    open spec fn view(&self) -> JobStateView {
        match self {
            JobState::Pending => JobStateView::Pending,
            JobState::Running => JobStateView::Running,
            JobState::Paused => JobStateView::Paused,
            JobState::Cancelled => JobStateView::Cancelled,
            JobState::Done => JobStateView::Done,
            JobState::Failed(r) => JobStateView::Failed(r@),
        }
    }
}

/// A final state: nothing leaves it.
pub open spec fn terminal(s: JobStateView) -> bool {
    s is Done || s is Cancelled || s is Failed
}

/// The state that asking to go from `cur` to `next` leads to, or `None` when
/// that step is not allowed.
pub open spec fn step(cur: JobStateView, next: JobStateView) -> Option<JobStateView> {
    match (cur, next) {
        (JobStateView::Pending, JobStateView::Running) => Some(JobStateView::Running),
        (JobStateView::Paused, JobStateView::Running) => Some(JobStateView::Running),
        (JobStateView::Pending, JobStateView::Cancelled) => Some(JobStateView::Cancelled),
        (JobStateView::Running, JobStateView::Cancelled) => Some(JobStateView::Cancelled),
        (JobStateView::Paused, JobStateView::Cancelled) => Some(JobStateView::Cancelled),
        (JobStateView::Running, JobStateView::Paused) => Some(JobStateView::Paused),
        (JobStateView::Running, JobStateView::Done) => Some(JobStateView::Done),
        (JobStateView::Running, JobStateView::Failed(r)) => Some(JobStateView::Failed(r)),
        _ => None,
    }
}

/// Why a step was refused.
#[derive(Debug, Clone, PartialEq, Eq)]
pub enum TransitionError {
    /// The job is already in a final state.
    Terminal(JobState),
    /// The step is not one of the allowed ones.
    Invalid(JobState, JobState),
}

impl JobState {
    /// A copy of the state.
    pub fn duplicate(&self) -> (r: JobState)
        ensures
            r@ == self@,
    {
        match self {
            JobState::Pending => JobState::Pending,
            JobState::Running => JobState::Running,
            JobState::Paused => JobState::Paused,
            JobState::Cancelled => JobState::Cancelled,
            JobState::Done => JobState::Done,
            JobState::Failed(r) => JobState::Failed(r.clone()),
        }
    }

    /// Checks a step and gives the state it leads to.
    ///
    /// Allowed: `Pending -> Running | Cancelled`,
    /// `Running -> Paused | Cancelled | Done | Failed`,
    /// `Paused -> Running | Cancelled`. Every other step is refused.
    pub fn transition(&self, next: &JobState) -> (r: Result<JobState, TransitionError>)
        ensures
            r matches Ok(s) ==> step(self@, next@) == Some(s@),
            r is Err <==> step(self@, next@) is None,
            r matches Err(e) ==> (terminal(self@) <==> e is Terminal),
            r matches Err(e) ==> (e matches TransitionError::Terminal(s) ==> s@ == self@),
            r matches Err(e) ==> (e matches TransitionError::Invalid(a, b) ==> a@ == self@ && b@
                == next@),
    {
        match (self, next) {
            (JobState::Pending, JobState::Running) | (JobState::Paused, JobState::Running) => Ok(
                JobState::Running,
            ),
            (JobState::Pending, JobState::Cancelled)
            | (JobState::Running, JobState::Cancelled)
            | (JobState::Paused, JobState::Cancelled) => Ok(JobState::Cancelled),
            (JobState::Running, JobState::Paused) => Ok(JobState::Paused),
            (JobState::Running, JobState::Done) => Ok(JobState::Done),
            (JobState::Running, JobState::Failed(_)) => Ok(next.duplicate()),
            (JobState::Done, _) | (JobState::Cancelled, _) | (JobState::Failed(_), _) => Err(
                TransitionError::Terminal(self.duplicate()),
            ),
            _ => Err(TransitionError::Invalid(self.duplicate(), next.duplicate())),
        }
    }

    /// Whether the state is final (`Done`, `Cancelled` or `Failed`).
    pub fn is_terminal(&self) -> (r: bool)
        ensures
            r == terminal(self@),
    {
        match self {
            JobState::Done | JobState::Cancelled | JobState::Failed(_) => true,
            _ => false,
        }
    }

    /// The name of the state, with the reason of a failure.
    pub fn describe(&self) -> (s: String)
        ensures
            s@ == describe_state(self@),
    {
        match self {
            JobState::Pending => owned("Pending"),
            JobState::Running => owned("Running"),
            JobState::Paused => owned("Paused"),
            JobState::Cancelled => owned("Cancelled"),
            JobState::Done => owned("Done"),
            JobState::Failed(r) => {
                let mut s = owned("Failed(");
                push_str(&mut s, r.as_str());
                push_str(&mut s, ")");
                s
            },
        }
    }
}

/// The text that [`JobState::describe`] gives.
pub open spec fn describe_state(s: JobStateView) -> Seq<char> {
    match s {
        JobStateView::Pending => "Pending"@,
        JobStateView::Running => "Running"@,
        JobStateView::Paused => "Paused"@,
        JobStateView::Cancelled => "Cancelled"@,
        JobStateView::Done => "Done"@,
        JobStateView::Failed(r) => "Failed("@ + r + ")"@,
    }
}

impl TransitionError {
    /// The error message: `"<state> is a terminal state"` for a final state,
    /// `"invalid transition: <from> -> <to>"` otherwise.
    pub fn message(&self) -> (s: String)
        ensures
            s@ == match self {
                TransitionError::Terminal(st) => terminal_name(st@) + " is a terminal state"@,
                TransitionError::Invalid(a, b) => "invalid transition: "@ + describe_state(a@)
                    + " -> "@ + describe_state(b@),
            },
    {
        match self {
            TransitionError::Terminal(st) => {
                let mut s = match st {
                    JobState::Done => owned("Done"),
                    JobState::Cancelled => owned("Cancelled"),
                    JobState::Failed(_) => owned("Failed"),
                    other => other.describe(),
                };
                push_str(&mut s, " is a terminal state");
                s
            },
            TransitionError::Invalid(a, b) => {
                let mut s = owned("invalid transition: ");
                let da = a.describe();
                push_str(&mut s, da.as_str());
                push_str(&mut s, " -> ");
                let db = b.describe();
                push_str(&mut s, db.as_str());
                s
            },
        }
    }
}

/// The name used in the message for a final state.
pub open spec fn terminal_name(s: JobStateView) -> Seq<char> {
    match s {
        JobStateView::Done => "Done"@,
        JobStateView::Cancelled => "Cancelled"@,
        JobStateView::Failed(_) => "Failed"@,
        other => describe_state(other),
    }
}

/// A final state refuses every step.
pub proof fn law_terminal_is_final(s: JobStateView, next: JobStateView)
    requires
        terminal(s),
    ensures
        step(s, next) is None,
{
}

/// An allowed step always leads to the state that was asked for.
pub proof fn law_step_reaches_target(s: JobStateView, next: JobStateView)
    requires
        step(s, next) is Some,
    ensures
        step(s, next) == Some(next),
        !terminal(s),
{
}

/// The state that a request to move to `next` leaves: the new state when the
/// step is allowed, the old one otherwise.
pub open spec fn step_or_stay(cur: JobStateView, next: JobStateView) -> JobStateView {
    match step(cur, next) {
        Some(s) => s,
        None => cur,
    }
}

/// Once final, a job's state never changes again, whatever is asked of it.
pub proof fn law_final_state_stays(s: JobStateView, next: JobStateView)
    requires
        terminal(s),
    ensures
        step_or_stay(s, next) == s,
{
}

} // verus!
