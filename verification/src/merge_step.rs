//! The steps of a branch merge, in the order in which they run, and the
//! process that runs them forwards and, after a failure, backwards.
use vstd::prelude::*;

verus! {

/// One step of a branch merge. Steps are numbered from `BeforeStart` (-1)
/// to `AfterFinish` (24); a merge runs `Start` to `Finish` in order and a
/// recovery undoes them in reverse order.
#[derive(Clone, Copy, Debug, PartialEq, Eq, Structural)]
pub enum MergeStep {
    BeforeStart,
    Start,
    RestoreNodes,
    CreateNodes,
    DeleteNodes,
    UpdateNodesTitles,
    ReorderNodes,
    RestoreFlows,
    CreateFlows,
    DeleteFlows,
    UpdateFlowsTitles,
    DeleteFlowSteps,
    RestoreFlowSteps,
    CreateFlowSteps,
    CreateFlowStepNodes,
    DeleteFlowStepNodes,
    CreateFlowStepInputs,
    DeleteFlowStepInputs,
    RestoreIos,
    CreateIos,
    DeleteIos,
    UpdateIoTitles,
    UpdateDescriptions,
    DeleteDescriptions,
    Finish,
    AfterFinish,
}

/// The number of a step.
pub open spec fn step_value(s: MergeStep) -> int {
    match s {
        MergeStep::BeforeStart => -1,
        MergeStep::Start => 0,
        MergeStep::RestoreNodes => 1,
        MergeStep::CreateNodes => 2,
        MergeStep::DeleteNodes => 3,
        MergeStep::UpdateNodesTitles => 4,
        MergeStep::ReorderNodes => 5,
        MergeStep::RestoreFlows => 6,
        MergeStep::CreateFlows => 7,
        MergeStep::DeleteFlows => 8,
        MergeStep::UpdateFlowsTitles => 9,
        MergeStep::DeleteFlowSteps => 10,
        MergeStep::RestoreFlowSteps => 11,
        MergeStep::CreateFlowSteps => 12,
        MergeStep::CreateFlowStepNodes => 13,
        MergeStep::DeleteFlowStepNodes => 14,
        MergeStep::CreateFlowStepInputs => 15,
        MergeStep::DeleteFlowStepInputs => 16,
        MergeStep::RestoreIos => 17,
        MergeStep::CreateIos => 18,
        MergeStep::DeleteIos => 19,
        MergeStep::UpdateIoTitles => 20,
        MergeStep::UpdateDescriptions => 21,
        MergeStep::DeleteDescriptions => 22,
        MergeStep::Finish => 23,
        MergeStep::AfterFinish => 24,
    }
}

/// The numbers that name a step.
pub open spec fn valid_step_value(v: int) -> bool {
    -1 <= v <= 24
}

/// The step with a given number.
pub open spec fn step_of(v: int) -> MergeStep
    recommends
        valid_step_value(v),
{
    if v <= -1 {
        MergeStep::BeforeStart
    } else if v == 0 {
        MergeStep::Start
    } else if v == 1 {
        MergeStep::RestoreNodes
    } else if v == 2 {
        MergeStep::CreateNodes
    } else if v == 3 {
        MergeStep::DeleteNodes
    } else if v == 4 {
        MergeStep::UpdateNodesTitles
    } else if v == 5 {
        MergeStep::ReorderNodes
    } else if v == 6 {
        MergeStep::RestoreFlows
    } else if v == 7 {
        MergeStep::CreateFlows
    } else if v == 8 {
        MergeStep::DeleteFlows
    } else if v == 9 {
        MergeStep::UpdateFlowsTitles
    } else if v == 10 {
        MergeStep::DeleteFlowSteps
    } else if v == 11 {
        MergeStep::RestoreFlowSteps
    } else if v == 12 {
        MergeStep::CreateFlowSteps
    } else if v == 13 {
        MergeStep::CreateFlowStepNodes
    } else if v == 14 {
        MergeStep::DeleteFlowStepNodes
    } else if v == 15 {
        MergeStep::CreateFlowStepInputs
    } else if v == 16 {
        MergeStep::DeleteFlowStepInputs
    } else if v == 17 {
        MergeStep::RestoreIos
    } else if v == 18 {
        MergeStep::CreateIos
    } else if v == 19 {
        MergeStep::DeleteIos
    } else if v == 20 {
        MergeStep::UpdateIoTitles
    } else if v == 21 {
        MergeStep::UpdateDescriptions
    } else if v == 22 {
        MergeStep::DeleteDescriptions
    } else if v == 23 {
        MergeStep::Finish
    } else {
        MergeStep::AfterFinish
    }
}

/// Every step has a number in range, and the number gives the step back.
pub proof fn lemma_step_value_roundtrip(s: MergeStep)
    ensures
        valid_step_value(step_value(s)),
        step_of(step_value(s)) == s,
{
}

/// Every number in range names a step whose number it is.
pub proof fn lemma_step_of_roundtrip(v: int)
    requires
        valid_step_value(v),
    ensures
        step_value(step_of(v)) == v,
{
}

impl MergeStep {
    /// The step's number.
    pub fn value(&self) -> (v: i8)
        ensures
            v == step_value(*self),
    {
        match self {
            MergeStep::BeforeStart => -1,
            MergeStep::Start => 0,
            MergeStep::RestoreNodes => 1,
            MergeStep::CreateNodes => 2,
            MergeStep::DeleteNodes => 3,
            MergeStep::UpdateNodesTitles => 4,
            MergeStep::ReorderNodes => 5,
            MergeStep::RestoreFlows => 6,
            MergeStep::CreateFlows => 7,
            MergeStep::DeleteFlows => 8,
            MergeStep::UpdateFlowsTitles => 9,
            MergeStep::DeleteFlowSteps => 10,
            MergeStep::RestoreFlowSteps => 11,
            MergeStep::CreateFlowSteps => 12,
            MergeStep::CreateFlowStepNodes => 13,
            MergeStep::DeleteFlowStepNodes => 14,
            MergeStep::CreateFlowStepInputs => 15,
            MergeStep::DeleteFlowStepInputs => 16,
            MergeStep::RestoreIos => 17,
            MergeStep::CreateIos => 18,
            MergeStep::DeleteIos => 19,
            MergeStep::UpdateIoTitles => 20,
            MergeStep::UpdateDescriptions => 21,
            MergeStep::DeleteDescriptions => 22,
            MergeStep::Finish => 23,
            MergeStep::AfterFinish => 24,
        }
    }

    /// The step with number `value`; values outside -1..=24 name no step.
    pub fn from_value(value: i8) -> (s: MergeStep)
        requires
            valid_step_value(value as int),
        ensures
            step_value(s) == value,
            s == step_of(value as int),
    {
        match value {
            -1 => MergeStep::BeforeStart,
            0 => MergeStep::Start,
            1 => MergeStep::RestoreNodes,
            2 => MergeStep::CreateNodes,
            3 => MergeStep::DeleteNodes,
            4 => MergeStep::UpdateNodesTitles,
            5 => MergeStep::ReorderNodes,
            6 => MergeStep::RestoreFlows,
            7 => MergeStep::CreateFlows,
            8 => MergeStep::DeleteFlows,
            9 => MergeStep::UpdateFlowsTitles,
            10 => MergeStep::DeleteFlowSteps,
            11 => MergeStep::RestoreFlowSteps,
            12 => MergeStep::CreateFlowSteps,
            13 => MergeStep::CreateFlowStepNodes,
            14 => MergeStep::DeleteFlowStepNodes,
            15 => MergeStep::CreateFlowStepInputs,
            16 => MergeStep::DeleteFlowStepInputs,
            17 => MergeStep::RestoreIos,
            18 => MergeStep::CreateIos,
            19 => MergeStep::DeleteIos,
            20 => MergeStep::UpdateIoTitles,
            21 => MergeStep::UpdateDescriptions,
            22 => MergeStep::DeleteDescriptions,
            23 => MergeStep::Finish,
            _ => MergeStep::AfterFinish,
        }
    }

    /// Moves to the next step; `AfterFinish` has none.
    pub fn increment(&mut self)
        requires
            step_value(*old(self)) < 24,
        ensures
            step_value(*final(self)) == step_value(*old(self)) + 1,
    {
        let v = self.value();
        *self = MergeStep::from_value(v + 1);
    }

    /// Moves to the previous step; `BeforeStart` has none.
    pub fn decrement(&mut self)
        requires
            step_value(*old(self)) > -1,
        ensures
            step_value(*final(self)) == step_value(*old(self)) - 1,
    {
        let v = self.value();
        *self = MergeStep::from_value(v - 1);
    }

    /// Whether the step is recorded in the recovery log before it runs:
    /// every step strictly between `Start` and `Finish`.
    pub fn is_logged(&self) -> (b: bool)
        ensures
            b == (0 < step_value(*self) < 23),
    {
        let v = self.value();
        0 < v && v < 23
    }
}

/// One step moved forwards and then backwards is the same step.
pub proof fn lemma_increment_decrement(s: MergeStep)
    requires
        step_value(s) < 24,
    ensures
        step_of(step_value(s) + 1 - 1) == s,
        step_value(step_of(step_value(s) + 1)) == step_value(s) + 1,
{
}


/// The order of a merge, as the merge and its recovery log number the steps:
/// before the start (-1), the start (0); the nodes restored, created and
/// deleted, their titles updated and their moves replayed (1 to 5); the
/// flows restored, created and deleted and their titles updated (6 to 9);
/// the flow steps deleted, restored and created, their nodes created and
/// deleted and their inputs created and deleted (10 to 16); the ios restored,
/// created and deleted and their titles updated (17 to 20); the descriptions
/// updated and deleted (21, 22); the finish (23) and after it (24). A logged
/// number names exactly that step, and no two steps share a number.
pub proof fn lemma_step_numbering()
    ensures
        step_value(MergeStep::BeforeStart) == -1,
        step_value(MergeStep::Start) == 0,
        step_value(MergeStep::RestoreNodes) == 1,
        step_value(MergeStep::CreateNodes) == 2,
        step_value(MergeStep::DeleteNodes) == 3,
        step_value(MergeStep::UpdateNodesTitles) == 4,
        step_value(MergeStep::ReorderNodes) == 5,
        step_value(MergeStep::RestoreFlows) == 6,
        step_value(MergeStep::CreateFlows) == 7,
        step_value(MergeStep::DeleteFlows) == 8,
        step_value(MergeStep::UpdateFlowsTitles) == 9,
        step_value(MergeStep::DeleteFlowSteps) == 10,
        step_value(MergeStep::RestoreFlowSteps) == 11,
        step_value(MergeStep::CreateFlowSteps) == 12,
        step_value(MergeStep::CreateFlowStepNodes) == 13,
        step_value(MergeStep::DeleteFlowStepNodes) == 14,
        step_value(MergeStep::CreateFlowStepInputs) == 15,
        step_value(MergeStep::DeleteFlowStepInputs) == 16,
        step_value(MergeStep::RestoreIos) == 17,
        step_value(MergeStep::CreateIos) == 18,
        step_value(MergeStep::DeleteIos) == 19,
        step_value(MergeStep::UpdateIoTitles) == 20,
        step_value(MergeStep::UpdateDescriptions) == 21,
        step_value(MergeStep::DeleteDescriptions) == 22,
        step_value(MergeStep::Finish) == 23,
        step_value(MergeStep::AfterFinish) == 24,
        step_of(-1) == MergeStep::BeforeStart,
        step_of(0) == MergeStep::Start,
        step_of(1) == MergeStep::RestoreNodes,
        step_of(2) == MergeStep::CreateNodes,
        step_of(3) == MergeStep::DeleteNodes,
        step_of(4) == MergeStep::UpdateNodesTitles,
        step_of(5) == MergeStep::ReorderNodes,
        step_of(6) == MergeStep::RestoreFlows,
        step_of(7) == MergeStep::CreateFlows,
        step_of(8) == MergeStep::DeleteFlows,
        step_of(9) == MergeStep::UpdateFlowsTitles,
        step_of(10) == MergeStep::DeleteFlowSteps,
        step_of(11) == MergeStep::RestoreFlowSteps,
        step_of(12) == MergeStep::CreateFlowSteps,
        step_of(13) == MergeStep::CreateFlowStepNodes,
        step_of(14) == MergeStep::DeleteFlowStepNodes,
        step_of(15) == MergeStep::CreateFlowStepInputs,
        step_of(16) == MergeStep::DeleteFlowStepInputs,
        step_of(17) == MergeStep::RestoreIos,
        step_of(18) == MergeStep::CreateIos,
        step_of(19) == MergeStep::DeleteIos,
        step_of(20) == MergeStep::UpdateIoTitles,
        step_of(21) == MergeStep::UpdateDescriptions,
        step_of(22) == MergeStep::DeleteDescriptions,
        step_of(23) == MergeStep::Finish,
        step_of(24) == MergeStep::AfterFinish,
        forall|a: MergeStep, b: MergeStep| step_value(a) == step_value(b) ==> a == b,
{
    assert forall|a: MergeStep, b: MergeStep| step_value(a) == step_value(b) implies a == b by {
        lemma_step_value_roundtrip(a);
        lemma_step_value_roundtrip(b);
    }
}

} // verus!
