use nodecosmos::errors::NodecosmosError;
use nodecosmos::branch::{Branch, BranchStatus};
use nodecosmos::flow_step::FlowStep;
use nodecosmos::merge_flow_steps::{added_inputs_delta, added_nodes_delta, removed_nodes_delta, MergeFlowSteps};
use nodecosmos::merge_process::{MergePhase, MergeRun};
use nodecosmos::merge_step::MergeStep;
use nodecosmos::merge_workflows::MergeWorkflows;
use std::collections::{HashMap, HashSet};

fn step(id: u128, node_ids: Option<Vec<u128>>) -> FlowStep {
    FlowStep {
        node_id: 1,
        branch_id: 100,
        flow_id: 2,
        id,
        root_id: 100,
        node_ids,
        input_ids_by_node_id: None,
        output_ids_by_node_id: None,
    }
}

fn empty_merge() -> MergeFlowSteps {
    MergeFlowSteps {
        restored_flow_steps: None,
        created_flow_steps: None,
        deleted_flow_steps: None,
        created_fs_nodes_flow_steps: None,
        branched_created_fs_nodes_flow_steps: None,
        deleted_fs_nodes_flow_steps: None,
        created_fs_inputs_flow_steps: None,
        branched_created_fs_inputs_flow_steps: None,
        deleted_fs_inputs_flow_steps: None,
        added_node_ids_by_flow_step: None,
        removed_node_ids_by_flow_step: None,
        added_input_ids_by_flow_step: None,
        removed_input_ids_by_flow_step: None,
        added_output_ids_by_flow_step: None,
        removed_output_ids_by_flow_step: None,
    }
}

#[test]
fn merge_step_values_and_moves() {
    let mut s = MergeStep::from_value(0);
    assert_eq!(s.value(), 0);
    s.increment();
    assert_eq!(s.value(), 1);
    s.decrement();
    assert_eq!(s.value(), 0);
    assert_eq!(MergeStep::from_value(23).value(), 23);
    assert_eq!(MergeStep::from_value(-1).value(), -1);
}

#[test]
fn successful_merge_runs_every_step_forwards() {
    let mut run = MergeRun::new();
    let mut steps = Vec::new();
    while let Some(task) = run.next_task() {
        assert!(!task.undo);
        steps.push(task.step.value());
        run.record(true);
    }
    assert_eq!(steps, (0..=23).collect::<Vec<i8>>());
    assert_eq!(run.final_status(), Some(BranchStatus::Merged));
}

#[test]
fn failed_merge_undoes_in_reverse_order() {
    let mut run = MergeRun::new();
    for _ in 0..3 {
        run.record(true);
    }
    run.record(false);
    assert_eq!(run.phase, MergePhase::Recovering);
    let mut undone = Vec::new();
    while let Some(task) = run.next_task() {
        assert!(task.undo);
        undone.push(task.step.value());
        run.record(true);
    }
    assert_eq!(undone, vec![3, 2, 1, 0]);
    assert_eq!(run.final_status(), Some(BranchStatus::Recovered));
}

#[test]
fn failed_recovery_stops() {
    let mut run = MergeRun::from_recovery_log(5);
    assert_eq!(run.next_task().unwrap().step.value(), 5);
    run.record(false);
    assert!(run.is_done());
    assert_eq!(run.final_status(), Some(BranchStatus::RecoveryFailed));
}

#[test]
fn node_deltas() {
    let branched = Some(vec![1, 2, 3]);
    let original = Some(vec![2]);
    assert_eq!(added_nodes_delta(&branched, &original), vec![1, 3]);
    assert_eq!(added_nodes_delta(&branched, &None), vec![1, 2, 3]);
    assert_eq!(added_nodes_delta(&None, &original), Vec::<u128>::new());
    let deleted: HashSet<u128> = [2, 9].into_iter().collect();
    assert_eq!(removed_nodes_delta(&deleted, &original), vec![2]);
    assert!(removed_nodes_delta(&deleted, &None).is_empty());
}

#[test]
fn input_deltas_keep_every_branch_node() {
    let mut branched = HashMap::new();
    branched.insert(1u128, vec![10, 11]);
    branched.insert(2u128, vec![20]);
    let mut original = HashMap::new();
    original.insert(1u128, vec![10]);
    let d = added_inputs_delta(&Some(branched), &Some(original));
    assert_eq!(d.get(&1), Some(&vec![11]));
    assert_eq!(d.get(&2), Some(&vec![20]));
}

#[test]
fn undo_of_created_nodes_restores_each_step() {
    let mut m = empty_merge();
    m.created_fs_nodes_flow_steps = Some(vec![step(5, Some(vec![1, 2])), step(6, Some(vec![7]))]);
    let mut branched = HashMap::new();
    branched.insert(5u128, step(5, Some(vec![2, 3, 4])));
    m.branched_created_fs_nodes_flow_steps = Some(branched);
    let changed = m.create_flow_step_nodes();
    assert_eq!(changed, vec![5]);
    let steps = m.created_fs_nodes_flow_steps.as_ref().unwrap();
    assert_eq!(steps[0].node_ids, Some(vec![1, 2, 3, 4]));
    assert_eq!(steps[1].node_ids, Some(vec![7]));
    assert_eq!(m.added_node_ids_by_flow_step.as_ref().unwrap().get(&5), Some(&vec![3, 4]));
    m.undo_create_flow_step_nodes();
    let steps = m.created_fs_nodes_flow_steps.as_ref().unwrap();
    assert_eq!(steps[0].node_ids, Some(vec![1, 2]));
    assert_eq!(steps[1].node_ids, Some(vec![7]));
}

#[test]
fn undo_of_deleted_nodes_puts_them_back() {
    let mut m = empty_merge();
    m.deleted_fs_nodes_flow_steps = Some(vec![step(5, Some(vec![1, 2, 3]))]);
    let mut b = Branch::new(100, 1, 100, 4);
    let mut deleted = HashMap::new();
    deleted.insert(5u128, [2u128, 8].into_iter().collect::<HashSet<u128>>());
    b.deleted_flow_step_nodes = Some(deleted);
    assert_eq!(m.delete_flow_step_nodes(&b), vec![5]);
    assert_eq!(m.deleted_fs_nodes_flow_steps.as_ref().unwrap()[0].node_ids, Some(vec![1, 3]));
    m.undo_delete_flow_step_nodes();
    assert_eq!(m.deleted_fs_nodes_flow_steps.as_ref().unwrap()[0].node_ids, Some(vec![1, 3, 2]));
}

#[test]
fn undo_of_created_inputs_restores_inputs() {
    let mut m = empty_merge();
    let mut original = step(5, None);
    let mut inputs = HashMap::new();
    inputs.insert(1u128, vec![10]);
    original.input_ids_by_node_id = Some(inputs);
    let mut branch_version = step(5, None);
    let mut branch_inputs = HashMap::new();
    branch_inputs.insert(1u128, vec![10, 11]);
    branch_version.input_ids_by_node_id = Some(branch_inputs);
    m.created_fs_inputs_flow_steps = Some(vec![original]);
    let mut branched = HashMap::new();
    branched.insert(5u128, branch_version);
    m.branched_created_fs_inputs_flow_steps = Some(branched);
    assert_eq!(m.create_inputs(), vec![5]);
    let after = m.created_fs_inputs_flow_steps.as_ref().unwrap()[0].input_ids_by_node_id.clone().unwrap();
    assert_eq!(after.get(&1), Some(&vec![10, 11]));
    m.undo_create_inputs();
    let undone = m.created_fs_inputs_flow_steps.as_ref().unwrap()[0].input_ids_by_node_id.clone().unwrap();
    assert_eq!(undone.get(&1), Some(&vec![10]));
}

#[test]
fn deleted_inputs_spare_those_also_created() {
    let mut m = empty_merge();
    let mut original = step(5, None);
    let mut inputs = HashMap::new();
    inputs.insert(1u128, vec![10, 11, 12]);
    original.input_ids_by_node_id = Some(inputs);
    m.deleted_fs_inputs_flow_steps = Some(vec![original]);
    let mut b = Branch::new(100, 1, 100, 4);
    let mut per_node = HashMap::new();
    per_node.insert(1u128, [10u128, 11].into_iter().collect::<HashSet<u128>>());
    let mut deleted = HashMap::new();
    deleted.insert(5u128, per_node);
    b.deleted_flow_step_inputs_by_node = Some(deleted);
    let mut created_per_node = HashMap::new();
    created_per_node.insert(1u128, [11u128].into_iter().collect::<HashSet<u128>>());
    let mut created = HashMap::new();
    created.insert(5u128, created_per_node);
    b.created_flow_step_inputs_by_node = Some(created);
    assert_eq!(m.delete_inputs(&b), vec![5]);
    let after = m.deleted_fs_inputs_flow_steps.as_ref().unwrap()[0].input_ids_by_node_id.clone().unwrap();
    assert_eq!(after.get(&1), Some(&vec![11, 12]));
    m.undo_delete_inputs();
    let undone = m.deleted_fs_inputs_flow_steps.as_ref().unwrap()[0].input_ids_by_node_id.clone().unwrap();
    assert_eq!(undone.get(&1), Some(&vec![11, 12, 10]));
}

#[test]
fn workflow_initial_inputs_merge_and_undo() {
    let mut b = Branch::new(100, 1, 100, 4);
    let mut created = HashMap::new();
    created.insert(1u128, vec![5]);
    b.created_workflow_initial_inputs = Some(created);
    let mut deleted = HashMap::new();
    deleted.insert(1u128, vec![2]);
    b.deleted_workflow_initial_inputs = Some(deleted);
    let m = MergeWorkflows::new(&b);
    assert_eq!(m.combined.len(), 2);
    let merged = m.update_initial_inputs(1, Some(vec![2, 3]));
    assert_eq!(merged, Some(vec![3, 5]));
    let undone = m.undo_update_initial_inputs(1, merged);
    assert_eq!(undone, Some(vec![3, 2]));
    assert_eq!(m.update_initial_inputs(9, None), None);
}

#[test]
fn finished_merges_hand_back_their_error() {
    let mut merged = MergeRun::new();
    while merged.next_task().is_some() {
        merged.record(true);
    }
    assert!(merged.merge_error(None, "").is_none());

    let mut recovered = MergeRun::new();
    recovered.record(true);
    recovered.record(false);
    while recovered.next_task().is_some() {
        recovered.record(true);
    }
    assert_eq!(recovered.phase, MergePhase::Recovered);
    match recovered.merge_error(Some(NodecosmosError::Conflict(String::from("boom"))), "boom") {
        Some(NodecosmosError::Conflict(m)) => assert_eq!(m, "boom"),
        _ => panic!("expected the merge's own error"),
    }

    let mut failed = MergeRun::new();
    failed.record(false);
    failed.record(false);
    assert_eq!(failed.phase, MergePhase::RecoveryFailed);
    match failed.merge_error(Some(NodecosmosError::Conflict(String::from("boom"))), "boom") {
        Some(NodecosmosError::FatalMergeError(m)) => assert_eq!(m, "Failed to merge and recover: boom"),
        _ => panic!("expected a fatal merge error"),
    }
}
