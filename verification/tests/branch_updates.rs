use nodecosmos::branch::{Branch, BranchStatus, ObjectType};
use nodecosmos::branch_update::BranchUpdate;
use nodecosmos::errors::NodecosmosError;
use nodecosmos::udts::BranchReorderData;
use std::collections::{HashMap, HashSet};

fn set(ids: &[u128]) -> HashSet<u128> {
    ids.iter().cloned().collect()
}

fn ids(o: &Option<HashSet<u128>>) -> HashSet<u128> {
    o.clone().unwrap_or_default()
}

#[test]
fn new_branch_is_open_and_empty() {
    let b = Branch::new(1, 2, 3, 4);
    assert_eq!(b.status.as_deref(), Some("Open"));
    assert_eq!(BranchStatus::default().as_deref(), Some("Open"));
    assert!(b.conflict.is_none());
    assert!(b.all_edited_description_ids().is_empty());
    assert!(b.all_deleted_object_ids().is_empty());
}

#[test]
fn branch_status_names_read_back() {
    for s in [
        BranchStatus::Open,
        BranchStatus::Merged,
        BranchStatus::Recovered,
        BranchStatus::RecoveryFailed,
        BranchStatus::Closed,
    ] {
        let name = s.to_text();
        assert_eq!(BranchStatus::from_text(&name), Some(s));
    }
    assert_eq!(BranchStatus::from_text("open"), None);
}

#[test]
fn create_node_records_node_and_edits_ancestors() {
    let mut b = Branch::new(1, 2, 3, 4);
    let check = b.update(BranchUpdate::CreateNode((10, set(&[20, 30]))));
    assert!(!check);
    assert_eq!(ids(&b.created_nodes), set(&[10]));
    assert_eq!(ids(&b.edited_nodes), set(&[20, 30]));
}

#[test]
fn updates_are_idempotent() {
    let mut once = Branch::new(1, 2, 3, 4);
    let mut twice = Branch::new(1, 2, 3, 4);
    once.update(BranchUpdate::DeleteFlow(7));
    twice.update(BranchUpdate::DeleteFlow(7));
    twice.update(BranchUpdate::DeleteFlow(7));
    assert_eq!(ids(&once.deleted_flows), ids(&twice.deleted_flows));
    assert_eq!(ids(&twice.deleted_flows), set(&[7]));
}

#[test]
fn delete_and_restore_are_exclusive() {
    let mut b = Branch::new(1, 2, 3, 4);
    assert!(b.update(BranchUpdate::DeleteIo(5)));
    assert!(ids(&b.deleted_ios).contains(&5));
    assert!(b.update(BranchUpdate::RestoreIo(5)));
    assert!(ids(&b.restored_ios).contains(&5));
    assert!(!ids(&b.deleted_ios).contains(&5));
}

#[test]
fn undo_delete_nodes_reverts_deletion() {
    let mut b = Branch::new(1, 2, 3, 4);
    b.update(BranchUpdate::DeleteNodes(vec![5, 6]));
    assert_eq!(ids(&b.deleted_nodes), set(&[5, 6]));
    b.update(BranchUpdate::UndoDeleteNodes(vec![5, 6]));
    assert!(ids(&b.deleted_nodes).is_empty());
}

#[test]
fn flow_step_nodes_created_then_deleted_move_between_records() {
    let mut b = Branch::new(1, 2, 3, 4);
    let mut created = HashMap::new();
    created.insert(9u128, set(&[1, 2]));
    b.update(BranchUpdate::CreateFlowStepNodes(created));
    assert!(b.created_flow_step_nodes.as_ref().unwrap().contains_key(&9));
    let mut deleted = HashMap::new();
    deleted.insert(9u128, set(&[1]));
    b.update(BranchUpdate::DeleteFlowStepNodes(deleted));
    assert!(b.deleted_flow_step_nodes.as_ref().unwrap().contains_key(&9));
    assert!(!b.created_flow_step_nodes.as_ref().unwrap().contains_key(&9));
}

#[test]
fn reorder_keeps_only_latest_move_of_a_node() {
    let mut b = Branch::new(1, 2, 3, 4);
    let first = BranchReorderData {
        id: 8,
        new_parent_id: 1,
        new_upper_sibling_id: None,
        new_lower_sibling_id: None,
        old_parent_id: 2,
        old_order_index_bits: 0,
    };
    let second = BranchReorderData { new_parent_id: 3, ..first };
    assert!(b.update(BranchUpdate::ReorderNode(first)));
    assert!(b.update(BranchUpdate::ReorderNode(second)));
    let reorders = b.reordered_nodes.clone().unwrap();
    assert_eq!(reorders.len(), 1);
    assert_eq!(reorders[0].new_parent_id, 3);
}

#[test]
fn edit_node_workflow_records_node() {
    let mut b = Branch::new(1, 2, 3, 4);
    b.update(BranchUpdate::EditNodeWorkflow(12));
    assert_eq!(ids(&b.edited_workflow_nodes), set(&[12]));
}

#[test]
fn branch_with_conflict_cannot_merge() {
    let mut b = Branch::new(1, 2, 3, 4);
    assert!(b.validate_no_existing_conflicts().is_ok());
    b.conflict = Some(nodecosmos::udts::Conflict::default_conflict());
    match b.validate_no_existing_conflicts() {
        Err(NodecosmosError::Conflict(m)) => assert_eq!(m, "Conflicts not resolved"),
        _ => panic!("expected a conflict error"),
    }
}

#[test]
fn created_and_deleted_ids_by_type() {
    let mut b = Branch::new(1, 2, 3, 4);
    b.update(BranchUpdate::CreateFlowStep(3));
    b.update(BranchUpdate::DeleteFlowStep(4));
    assert_eq!(ids(b.created_ids(ObjectType::FlowStep)), set(&[3]));
    assert_eq!(ids(b.deleted_ids(ObjectType::FlowStep)), set(&[4]));
    assert!(b.all_deleted_object_ids().contains(&4));
}
