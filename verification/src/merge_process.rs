//! The decisions of a branch merge: which step runs next, in which direction,
//! and how the branch ends up once the steps are done. The database work of
//! each step is performed by the caller, which reports back whether it succeeded.
use crate::branch::BranchStatus;
use crate::errors::NodecosmosError;
use crate::text::{text_concat, text_from};
use crate::merge_step::{MergeStep, step_value, step_of, valid_step_value, lemma_step_value_roundtrip, lemma_step_of_roundtrip};
use vstd::prelude::*;

verus! {

/// Where a merge stands.
#[derive(Clone, Copy, Debug, PartialEq, Eq, Structural)]
pub enum MergePhase {
    /// Running the steps forwards.
    Merging,
    /// A step failed; undoing the steps in reverse order.
    Recovering,
    /// Every step succeeded.
    Merged,
    /// A step failed and every step was undone.
    Recovered,
    /// A step failed and undoing failed too.
    RecoveryFailed,
}

/// A piece of work the caller has to perform for a merge.
#[derive(Clone, Copy, Debug, PartialEq, Eq, Structural)]
pub struct MergeTask {
    /// The step whose work is to be done (or undone).
    pub step: MergeStep,
    /// Whether the work is the step's undo.
    pub undo: bool,
    /// Whether the step is to be written to the recovery log first.
    pub log_step: bool,
}

/// The state of a merge: the current step and the phase.
#[derive(Clone, Copy, Debug, PartialEq, Eq, Structural)]
pub struct MergeRun {
    pub step: MergeStep,
    pub phase: MergePhase,
}

/// Whether a phase has no more work.
pub open spec fn is_terminal(p: MergePhase) -> bool {
    p == MergePhase::Merged || p == MergePhase::Recovered || p == MergePhase::RecoveryFailed
}

/// A state the merge can be in: forwards on `Start..=Finish`, backwards on
/// `BeforeStart..=AfterFinish`.
pub open spec fn run_wf(r: MergeRun) -> bool {
    match r.phase {
        MergePhase::Merging => 0 <= step_value(r.step) <= 23,
        _ => true,
    }
}

/// The task of a state that is not done.
pub open spec fn spec_task(r: MergeRun) -> Option<MergeTask> {
    match r.phase {
        MergePhase::Merging => Some(
            MergeTask { step: r.step, undo: false, log_step: 0 < step_value(r.step) < 23 },
        ),
        MergePhase::Recovering => Some(
            MergeTask { step: r.step, undo: true, log_step: 0 < step_value(r.step) < 23 },
        ),
        _ => None,
    }
}

/// The state after the caller reports the outcome of the current task.
pub open spec fn spec_record(r: MergeRun, ok: bool) -> MergeRun {
    match r.phase {
        MergePhase::Merging => if !ok {
            MergeRun { step: r.step, phase: MergePhase::Recovering }
        } else if step_value(r.step) >= 23 {
            MergeRun { step: MergeStep::AfterFinish, phase: MergePhase::Merged }
        } else {
            MergeRun { step: step_of(step_value(r.step) + 1), phase: MergePhase::Merging }
        },
        MergePhase::Recovering => if !ok {
            MergeRun { step: r.step, phase: MergePhase::RecoveryFailed }
        } else if step_value(r.step) <= 0 {
            MergeRun { step: MergeStep::BeforeStart, phase: MergePhase::Recovered }
        } else {
            MergeRun { step: step_of(step_value(r.step) - 1), phase: MergePhase::Recovering }
        },
        _ => r,
    }
}

/// The state after `n` tasks in a row succeed.
pub open spec fn after_successes(r: MergeRun, n: nat) -> MergeRun
    decreases n,
{
    if n == 0 {
        r
    } else {
        spec_record(after_successes(r, (n - 1) as nat), true)
    }
}

/// The status a finished merge leaves on its branch.
pub open spec fn spec_final_status(p: MergePhase) -> Option<BranchStatus> {
    match p {
        MergePhase::Merged => Some(BranchStatus::Merged),
        MergePhase::Recovered => Some(BranchStatus::Recovered),
        MergePhase::RecoveryFailed => Some(BranchStatus::RecoveryFailed),
        _ => None,
    }
}

impl MergeRun {
    /// A merge about to run its first step.
    pub fn new() -> (r: MergeRun)
        ensures
            r == (MergeRun { step: MergeStep::Start, phase: MergePhase::Merging }),
    {
        MergeRun { step: MergeStep::Start, phase: MergePhase::Merging }
    }

    /// A merge to be recovered from the step its recovery log holds.
    pub fn from_recovery_log(step: i8) -> (r: MergeRun)
        requires
            valid_step_value(step as int),
        ensures
            step >= 0 ==> r == (MergeRun { step: step_of(step as int), phase: MergePhase::Recovering }),
            step < 0 ==> r == (MergeRun { step: MergeStep::BeforeStart, phase: MergePhase::Recovered }),
    {
        if step < 0 {
            MergeRun { step: MergeStep::BeforeStart, phase: MergePhase::Recovered }
        } else {
            MergeRun { step: MergeStep::from_value(step), phase: MergePhase::Recovering }
        }
    }

    /// The work the caller performs next, or `None` when the merge is over.
    pub fn next_task(&self) -> (t: Option<MergeTask>)
        ensures
            t == spec_task(*self),
    {
        match self.phase {
            MergePhase::Merging => Some(
                MergeTask { step: self.step, undo: false, log_step: self.step.is_logged() },
            ),
            MergePhase::Recovering => Some(
                MergeTask { step: self.step, undo: true, log_step: self.step.is_logged() },
            ),
            _ => None,
        }
    }

    /// Records whether the current task succeeded and moves on.
    pub fn record(&mut self, ok: bool)
        requires
            run_wf(*old(self)),
        ensures
            *final(self) == spec_record(*old(self), ok),
            run_wf(*final(self)),
    {
        match self.phase {
            MergePhase::Merging => {
                if !ok {
                    self.phase = MergePhase::Recovering;
                } else if self.step.value() >= 23 {
                    self.step = MergeStep::AfterFinish;
                    self.phase = MergePhase::Merged;
                } else {
                    self.step.increment();
                    proof {
                        lemma_step_value_roundtrip(self.step);
                    }
                }
            },
            MergePhase::Recovering => {
                if !ok {
                    self.phase = MergePhase::RecoveryFailed;
                } else if self.step.value() <= 0 {
                    self.step = MergeStep::BeforeStart;
                    self.phase = MergePhase::Recovered;
                } else {
                    self.step.decrement();
                    proof {
                        lemma_step_value_roundtrip(self.step);
                    }
                }
            },
            _ => {},
        }
    }

    /// Whether the merge is over.
    pub fn is_done(&self) -> (b: bool)
        ensures
            b == is_terminal(self.phase),
    {
        match self.phase {
            MergePhase::Merged | MergePhase::Recovered | MergePhase::RecoveryFailed => true,
            _ => false,
        }
    }

    /// The status the branch takes once the merge is over: `Merged` when every
    /// step succeeded, `Recovered` when a step failed and all were undone,
    /// `RecoveryFailed` when undoing failed too.
    pub fn final_status(&self) -> (s: Option<BranchStatus>)
        ensures
            s == spec_final_status(self.phase),
    {
        match self.phase {
            MergePhase::Merged => Some(BranchStatus::Merged),
            MergePhase::Recovered => Some(BranchStatus::Recovered),
            MergePhase::RecoveryFailed => Some(BranchStatus::RecoveryFailed),
            _ => None,
        }
    }

    /// The error a finished merge hands back: none when every step
    /// succeeded; `failure`, the error that stopped it, when the steps done
    /// were all undone; and when undoing failed too, a fatal merge error that
    /// names `failure` (`failure_text` is how that error reads).
    pub fn merge_error(&self, failure: Option<NodecosmosError>, failure_text: &str) -> (e: Option<NodecosmosError>)
        ensures
            self.phase == MergePhase::Recovered ==> e == failure,
            self.phase == MergePhase::RecoveryFailed ==> (e matches Some(NodecosmosError::FatalMergeError(m)) && m@
                == "Failed to merge and recover: "@ + failure_text@),
            self.phase != MergePhase::Recovered && self.phase != MergePhase::RecoveryFailed ==> e is None,
    {
        match self.phase {
            MergePhase::Recovered => failure,
            MergePhase::RecoveryFailed => Some(
                NodecosmosError::FatalMergeError(text_concat(text_from("Failed to merge and recover: "), failure_text)),
            ),
            _ => None,
        }
    }
}

/// A merge whose steps all succeed runs `Start`, `RestoreNodes`, ..., `Finish`
/// in that order, each step forwards and in turn, and after the 24th it is merged.
pub proof fn lemma_merge_runs_steps_in_order(n: nat)
    requires
        n <= 24,
    ensures
        n < 24 ==> after_successes(MergeRun { step: MergeStep::Start, phase: MergePhase::Merging }, n)
            == (MergeRun { step: step_of(n as int), phase: MergePhase::Merging }),
        n < 24 ==> spec_task(
            after_successes(MergeRun { step: MergeStep::Start, phase: MergePhase::Merging }, n),
        ) == Some(MergeTask { step: step_of(n as int), undo: false, log_step: 0 < n < 23 }),
        n == 24 ==> after_successes(MergeRun { step: MergeStep::Start, phase: MergePhase::Merging }, n)
            == (MergeRun { step: MergeStep::AfterFinish, phase: MergePhase::Merged }),
    decreases n,
{
    if n > 0 {
        lemma_merge_runs_steps_in_order((n - 1) as nat);
        lemma_step_of_roundtrip((n - 1) as int);
    }
    if n < 24 {
        lemma_step_of_roundtrip(n as int);
    }
}

/// After a step fails, the recovery undoes that step and then every earlier
/// step, one at a time in reverse order, ending recovered.
pub proof fn lemma_recovery_undoes_in_reverse(k: int, j: nat)
    requires
        0 <= k <= 24,
        j <= k + 1,
    ensures
        j <= k ==> after_successes(MergeRun { step: step_of(k), phase: MergePhase::Recovering }, j)
            == (MergeRun { step: step_of(k - j), phase: MergePhase::Recovering }),
        j <= k ==> spec_task(
            after_successes(MergeRun { step: step_of(k), phase: MergePhase::Recovering }, j),
        ) == Some(MergeTask { step: step_of(k - j), undo: true, log_step: 0 < k - j < 23 }),
        j == k + 1 ==> after_successes(MergeRun { step: step_of(k), phase: MergePhase::Recovering }, j)
            == (MergeRun { step: MergeStep::BeforeStart, phase: MergePhase::Recovered }),
    decreases j,
{
    if j > 0 {
        lemma_recovery_undoes_in_reverse(k, (j - 1) as nat);
        lemma_step_of_roundtrip(k - (j - 1));
    }
    if j <= k {
        lemma_step_of_roundtrip(k - j);
    }
}

/// A failed step sends the merge into recovery at that very step, so the first
/// undo is the failed step's own, and a failed undo ends the merge as failed.
pub proof fn lemma_failure_switches_direction(r: MergeRun)
    requires
        run_wf(r),
    ensures
        r.phase == MergePhase::Merging ==> spec_record(r, false) == (MergeRun {
            step: r.step,
            phase: MergePhase::Recovering,
        }),
        r.phase == MergePhase::Merging ==> spec_task(spec_record(r, false)) == Some(
            MergeTask { step: r.step, undo: true, log_step: 0 < step_value(r.step) < 23 },
        ),
        r.phase == MergePhase::Recovering ==> spec_record(r, false).phase
            == MergePhase::RecoveryFailed,
        is_terminal(r.phase) ==> spec_record(r, true) == r && spec_record(r, false) == r,
{
}

} // verus!
