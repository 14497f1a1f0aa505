use nodecosmos::branch::Branch;
use nodecosmos::branch_update::BranchUpdate;
use nodecosmos::description::{Description, MergeDescriptions};
use nodecosmos::errors::NodecosmosError;
use nodecosmos::flow::{Flow, MergeFlows};
use nodecosmos::merge_nodes::{MergeNodes, ReorderParams, TitleRecord};
use nodecosmos::udts::BranchReorderData;
use std::collections::{HashMap, HashSet};

fn title(id: u128, t: &str) -> TitleRecord {
    TitleRecord { id, title: Some(String::from(t)) }
}

fn reorder(id: u128) -> BranchReorderData {
    BranchReorderData {
        id,
        new_parent_id: 2,
        new_upper_sibling_id: Some(3),
        new_lower_sibling_id: None,
        old_parent_id: 4,
        old_order_index_bits: 1.5f64.to_bits(),
    }
}

fn node_description(object_id: u128, branch_id: u128, root_id: u128) -> Description {
    Description {
        node_id: 1,
        branch_id,
        object_id,
        root_id,
        object_type: String::from("Node"),
        short_description: None,
        html: None,
        markdown: None,
        base64: None,
    }
}

#[test]
fn only_changed_titles_are_recorded() {
    let edited = Some(vec![title(1, "new"), title(2, "same"), title(3, "unknown")]);
    let mut originals = HashMap::new();
    originals.insert(1, title(1, "old"));
    originals.insert(2, title(2, "same"));
    let merge = MergeFlows { edited_title_flows: edited, original_title_flows: Some(originals) };
    let mut branch = Branch::new(7, 1, 100, 9);
    let changed = merge.update_title(&mut branch);
    assert_eq!(changed, vec![1]);
    let changes = branch.title_change_by_object.unwrap();
    assert_eq!(changes.len(), 1);
    let change = changes.get(&1).unwrap();
    assert_eq!(change.old.as_deref(), Some("old"));
    assert_eq!(change.new.as_deref(), Some("new"));
}

#[test]
fn titles_without_originals_change_nothing() {
    let merge = MergeNodes {
        restored_nodes: None,
        created_nodes: None,
        deleted_nodes: None,
        reordered_nodes_data: None,
        edited_title_nodes: Some(vec![title(1, "new")]),
        original_title_nodes: None,
    };
    let mut branch = Branch::new(7, 1, 100, 9);
    assert!(merge.update_title(&mut branch).is_empty());
    assert!(branch.title_change_by_object.is_none());
}

#[test]
fn reorders_of_created_or_deleted_nodes_are_not_replayed() {
    let mut branch = Branch::new(7, 1, 100, 9);
    assert!(MergeNodes::reordered_nodes_data(&branch).is_none());
    branch.update(BranchUpdate::ReorderNode(reorder(10)));
    branch.update(BranchUpdate::ReorderNode(reorder(11)));
    branch.update(BranchUpdate::ReorderNode(reorder(12)));
    branch.update(BranchUpdate::CreateNode((11, HashSet::new())));
    branch.update(BranchUpdate::DeleteNodes(vec![12]));
    let replayed = MergeNodes::reordered_nodes_data(&branch).unwrap();
    assert_eq!(replayed, vec![reorder(10)]);
}

#[test]
fn created_nodes_deleted_again_are_not_created() {
    let mut branch = Branch::new(7, 1, 100, 9);
    assert!(MergeNodes::created_node_ids(&branch).is_none());
    branch.update(BranchUpdate::CreateNode((11, HashSet::new())));
    branch.update(BranchUpdate::CreateNode((12, HashSet::new())));
    branch.update(BranchUpdate::DeleteNodes(vec![12]));
    assert_eq!(MergeNodes::created_node_ids(&branch), Some(vec![11]));
}

#[test]
fn reorder_parameters_forwards_and_back() {
    let data = reorder(10);
    let forwards = MergeNodes::reorder_params(&data, 100, 1);
    assert_eq!(
        forwards,
        ReorderParams {
            root_id: 100,
            branch_id: 1,
            id: 10,
            new_parent_id: 2,
            new_upper_sibling_id: Some(3),
            new_lower_sibling_id: None,
            new_order_index_bits: None,
        }
    );
    let back = MergeNodes::undo_reorder_params(&data, 100, 1);
    assert_eq!(back.new_parent_id, 4);
    assert_eq!(back.new_upper_sibling_id, None);
    assert_eq!(back.new_order_index_bits.map(f64::from_bits), Some(1.5));
    assert!(MergeNodes::reorder_failure_stops(&NodecosmosError::FatalReorderError(String::from("x"))));
    assert!(!MergeNodes::reorder_failure_stops(&NodecosmosError::Conflict(String::from("x"))));
}

#[test]
fn flow_title_edits_are_recorded_on_branches_only() {
    let flow = Flow { node_id: 1, branch_id: 7, root_id: 100, start_index: 0, id: 5, title: String::from("t") };
    let updates = flow.update_branch();
    assert_eq!(updates.len(), 2);
    assert!(matches!(updates[0], BranchUpdate::EditNode(1)));
    assert!(matches!(updates[1], BranchUpdate::EditFlowTitle(5)));
    let original = Flow { branch_id: 100, ..flow };
    assert!(original.update_branch().is_empty());
}

#[test]
fn descriptions_need_a_root_before_insert() {
    let mut d = node_description(3, 7, 0);
    assert!(matches!(d.before_insert(None), Err(NodecosmosError::ValidationError(_))));
}

#[test]
fn new_branch_description_is_recorded_as_an_edit() {
    let mut d = node_description(3, 7, 100);
    assert!(matches!(d.before_insert(None), Ok(Some(BranchUpdate::EditNodeDescription(3)))));
    let mut original = node_description(3, 100, 100);
    assert!(matches!(original.before_insert(None), Ok(None)));
}

#[test]
fn inserted_html_is_cleaned() {
    let mut d = node_description(3, 7, 100);
    d.html = Some(String::from("<p>a</p><script>x</script>"));
    assert!(d.before_insert(None).is_ok());
    assert_eq!(d.html.as_deref(), Some("<p>a</p>"));
}

#[test]
fn existing_description_takes_the_written_one() {
    let mut d = node_description(3, 7, 100);
    let mut current = node_description(4, 100, 100);
    current.html = Some(String::from("<b>b</b><script>x</script>"));
    assert!(matches!(d.before_insert(Some(current)), Ok(None)));
    assert_eq!(d.object_id, 4);
    assert_eq!(d.branch_id, 7);
    assert_eq!(d.html.as_deref(), Some("<b>b</b>"));
}

#[test]
fn descriptions_are_keyed_by_their_object() {
    let mut later = node_description(3, 7, 100);
    later.short_description = Some(String::from("later"));
    let by_object = MergeDescriptions::by_object_id(vec![
        node_description(3, 7, 100),
        node_description(4, 7, 100),
        later,
    ]);
    assert_eq!(by_object.len(), 2);
    assert_eq!(by_object.get(&3).unwrap().short_description.as_deref(), Some("later"));
}
