use nodecosmos::branch::Branch;
use nodecosmos::branch_update::BranchUpdate;
use nodecosmos::flow_step::FlowStep;
use nodecosmos::merge_flow_steps::MergeFlowSteps;
use std::collections::{HashMap, HashSet};

fn hset(ids: &[u128]) -> HashSet<u128> {
    ids.iter().cloned().collect()
}

fn lists(entries: &[(u128, &[u128])]) -> Option<HashMap<u128, Vec<u128>>> {
    Some(entries.iter().map(|(k, v)| (*k, v.to_vec())).collect())
}

fn flow_step(branch_id: u128, node_ids: &[u128]) -> FlowStep {
    FlowStep {
        node_id: 1,
        branch_id,
        flow_id: 2,
        id: 50,
        root_id: 100,
        node_ids: Some(node_ids.to_vec()),
        input_ids_by_node_id: None,
        output_ids_by_node_id: None,
    }
}

fn merge_with_created(steps: Vec<FlowStep>) -> MergeFlowSteps {
    MergeFlowSteps {
        restored_flow_steps: None,
        created_flow_steps: Some(steps),
        deleted_flow_steps: None,
        created_fs_nodes_flow_steps: None,
        branched_created_fs_nodes_flow_steps: None,
        deleted_fs_nodes_flow_steps: None,
        created_fs_inputs_flow_steps: None,
        branched_created_fs_inputs_flow_steps: None,
        deleted_fs_inputs_flow_steps: None,
        added_node_ids_by_flow_step: None,
        removed_node_ids_by_flow_step: None,
        added_input_ids_by_flow_step: None,
        removed_input_ids_by_flow_step: None,
        added_output_ids_by_flow_step: None,
        removed_output_ids_by_flow_step: None,
    }
}

#[test]
fn node_changes_are_recorded_per_step() {
    let new = flow_step(7, &[10, 11, 12]);
    let current = flow_step(7, &[11, 13]);
    let (created, deleted) = new.node_ids_diff(&current);
    assert_eq!(created, hset(&[10, 12]));
    assert_eq!(deleted, hset(&[13]));
    let updates = new.update_branch_nodes(&current);
    assert_eq!(updates.len(), 3);
    assert!(matches!(updates[0], BranchUpdate::EditNode(1)));
    match &updates[1] {
        BranchUpdate::CreateFlowStepNodes(m) => {
            assert_eq!(m.len(), 1);
            assert_eq!(m.get(&50), Some(&hset(&[10, 12])));
        },
        _ => panic!("expected created step nodes"),
    }
    match &updates[2] {
        BranchUpdate::DeleteFlowStepNodes(m) => assert_eq!(m.get(&50), Some(&hset(&[13]))),
        _ => panic!("expected deleted step nodes"),
    }
}

#[test]
fn input_changes_merge_the_original_inputs() {
    let mut new = flow_step(7, &[10, 11]);
    new.input_ids_by_node_id = lists(&[(10, &[1, 2]), (11, &[5])]);
    let mut current = flow_step(100, &[10, 11]);
    current.input_ids_by_node_id = lists(&[(10, &[2, 3])]);
    let updates = new.update_branch_inputs(&current);
    match &updates[1] {
        BranchUpdate::CreateFlowStepInputs(m) => {
            let per_node = m.get(&50).unwrap();
            assert_eq!(per_node.get(&10), Some(&hset(&[1])));
            assert_eq!(per_node.get(&11), Some(&hset(&[5])));
        },
        _ => panic!("expected created inputs"),
    }
    match &updates[2] {
        BranchUpdate::DeleteFlowStepInputs(m) => {
            let per_node = m.get(&50).unwrap();
            assert_eq!(per_node.get(&10), Some(&hset(&[3])));
        },
        _ => panic!("expected removed inputs"),
    }
    // The step stored is the original's, so its inputs are carried into the branch.
    let merged = new.input_ids_by_node_id.unwrap();
    assert_eq!(merged.get(&10), Some(&vec![1, 2, 3]));
    assert_eq!(merged.get(&11), Some(&vec![5]));
}

#[test]
fn output_changes_against_a_branch_step_keep_the_outputs() {
    let mut new = flow_step(7, &[10]);
    new.output_ids_by_node_id = lists(&[(10, &[4])]);
    let mut current = flow_step(7, &[10]);
    current.output_ids_by_node_id = lists(&[(10, &[4, 6])]);
    let updates = new.update_branch_outputs(&current);
    match &updates[2] {
        BranchUpdate::DeletedFlowStepOutputs(m) => {
            assert_eq!(m.get(&50).unwrap().get(&10), Some(&hset(&[6])));
        },
        _ => panic!("expected removed outputs"),
    }
    assert_eq!(new.output_ids_by_node_id.unwrap().get(&10), Some(&vec![4]));
}

#[test]
fn input_delta_spans_all_nodes() {
    let mut new = flow_step(7, &[10, 11]);
    new.input_ids_by_node_id = lists(&[(10, &[1, 2]), (11, &[3])]);
    let mut current = flow_step(7, &[10, 11]);
    current.input_ids_by_node_id = lists(&[(10, &[2]), (11, &[4])]);
    let (added, removed) = new.ios_delta(&current);
    assert_eq!(added, hset(&[1, 3]));
    assert_eq!(removed, hset(&[4]));
}

#[test]
fn removed_nodes_lose_their_inputs_and_outputs() {
    let mut s = flow_step(7, &[10]);
    s.input_ids_by_node_id = lists(&[(10, &[1]), (11, &[2])]);
    s.output_ids_by_node_id = lists(&[(10, &[3]), (12, &[4, 5])]);
    let orphaned = s.outputs_of_removed_nodes();
    assert_eq!(orphaned.len(), 1);
    assert_eq!(orphaned.get(&12), Some(&vec![4, 5]));
    s.remove_output_references_from_removed_nodes();
    s.remove_input_references_from_removed_nodes();
    let outputs = s.output_ids_by_node_id.clone().unwrap();
    let inputs = s.input_ids_by_node_id.clone().unwrap();
    assert_eq!(outputs.len(), 1);
    assert_eq!(outputs.get(&10), Some(&vec![3]));
    assert_eq!(inputs.len(), 1);
    assert_eq!(inputs.get(&10), Some(&vec![1]));
}

#[test]
fn outputs_go_with_an_original_step_only() {
    let mut original = flow_step(100, &[10]);
    original.output_ids_by_node_id = lists(&[(10, &[3, 4]), (11, &[5])]);
    assert_eq!(original.delete_outputs(), hset(&[3, 4, 5]));
    let mut branched = flow_step(7, &[10]);
    branched.output_ids_by_node_id = lists(&[(10, &[3, 4])]);
    assert!(branched.delete_outputs().is_empty());
}

#[test]
fn branch_steps_preserve_their_nodes_and_ios() {
    let mut s = flow_step(7, &[10]);
    s.input_ids_by_node_id = lists(&[(10, &[1]), (11, &[2])]);
    s.output_ids_by_node_id = lists(&[(12, &[3])]);
    let nodes: HashSet<u128> = s.preserve_flow_step_nodes().into_iter().collect();
    assert_eq!(nodes, hset(&[10, 11, 12]));
    assert_eq!(s.preserve_flow_step_ios(), hset(&[1, 2, 3]));
    let mut original = s;
    original.branch_id = 100;
    assert!(original.preserve_flow_step_nodes().is_empty());
    assert!(original.preserve_flow_step_ios().is_empty());
}

#[test]
fn creation_and_deletion_of_a_branch_step_are_recorded() {
    let s = flow_step(7, &[10]);
    let created = s.update_branch_with_creation();
    assert_eq!(created.len(), 2);
    assert!(matches!(created[0], BranchUpdate::EditNode(1)));
    assert!(matches!(created[1], BranchUpdate::CreateFlowStep(50)));
    let deleted = s.update_branch_with_deletion();
    assert!(matches!(deleted[1], BranchUpdate::DeleteFlowStep(50)));
    assert!(flow_step(100, &[10]).update_branch_with_creation().is_empty());
}

#[test]
fn original_nodes_come_first_when_merged() {
    let mut s = flow_step(7, &[12, 10]);
    let original = flow_step(100, &[10, 11]);
    s.merge_original_nodes(&original);
    assert_eq!(s.node_ids, Some(vec![10, 11, 12]));
}

#[test]
fn steps_of_one_flow_are_picked() {
    let mut a = flow_step(7, &[10]);
    a.id = 1;
    let mut b = flow_step(7, &[10]);
    b.id = 2;
    b.flow_id = 3;
    let picked = FlowStep::in_flow(vec![a, b], 2);
    assert_eq!(picked.len(), 1);
    assert_eq!(picked[0].id, 1);
}

#[test]
fn only_kept_created_steps_are_listed() {
    let mut a = flow_step(7, &[10]);
    a.id = 1;
    let mut b = flow_step(7, &[10]);
    b.id = 2;
    let merge = merge_with_created(vec![a, b]);
    let mut branch = Branch::new(7, 1, 100, 9);
    assert!(merge.kept_created_steps(&branch).is_empty());
    branch.update(BranchUpdate::KeepFlowStep(2));
    assert_eq!(merge.kept_created_steps(&branch), vec![2]);
}

#[test]
fn steps_of_deleted_records_are_filtered_out() {
    let mut a = flow_step(7, &[10]);
    a.id = 1;
    let mut b = flow_step(7, &[10]);
    b.id = 2;
    b.flow_id = 3;
    let mut branch = Branch::new(7, 1, 100, 9);
    branch.update(BranchUpdate::DeleteFlow(3));
    let left = MergeFlowSteps::filter_out_deleted_flow_steps(&branch, vec![a, b]);
    assert_eq!(left.len(), 1);
    assert_eq!(left[0].id, 1);

    let mut c = flow_step(7, &[10]);
    c.id = 4;
    let mut d = flow_step(7, &[10]);
    d.id = 5;
    let restored = hset(&[4]);
    let pending = MergeFlowSteps::not_yet_restored(vec![c, d], &restored);
    assert_eq!(pending.len(), 1);
    assert_eq!(pending[0].id, 5);
}

#[test]
fn a_later_step_with_the_same_id_wins() {
    let a = flow_step(7, &[10]);
    let b = flow_step(7, &[11]);
    let by_id = MergeFlowSteps::steps_by_id(vec![a, b]);
    assert_eq!(by_id.len(), 1);
    assert_eq!(by_id.get(&50).unwrap().node_ids, Some(vec![11]));
}

#[test]
fn a_taken_step_index_is_a_conflict() {
    assert!(FlowStep::validate_no_conflicts(false, "1.5").is_ok());
    match FlowStep::validate_no_conflicts(true, "1.5") {
        Err(nodecosmos::errors::NodecosmosError::Conflict(m)) => {
            assert_eq!(m, "Flow Step on given index 1.5 already exists")
        },
        _ => panic!("expected a conflict"),
    }
}

#[test]
fn created_nodes_are_found_on_the_branch() {
    let mut branch = Branch::new(7, 1, 100, 9);
    assert!(!branch.contains_created_node(11));
    branch.update(BranchUpdate::CreateNode((11, HashSet::new())));
    assert!(branch.contains_created_node(11));
    assert!(!branch.contains_created_node(12));
}
