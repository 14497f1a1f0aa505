use nodecosmos::branch::Branch;
use nodecosmos::comment::Comment;
use nodecosmos::comment_thread::{
    CommentThread, ContributionRequestThreadLocation, ThreadLocation, ThreadObjectType,
};
use nodecosmos::commit_types::{CommitObjectTypes, CommitTypes, Committable};
use nodecosmos::conflicts::MergeConflicts;
use nodecosmos::contribution_request::status::default_status;
use nodecosmos::contribution_request::{ContributionRequest, ContributionRequestStatus};
use nodecosmos::description::{Description, MergePlan, MergedDocument};
use nodecosmos::errors::NodecosmosError;
use nodecosmos::flow::Flow;
use nodecosmos::helpers::{default_to_0, default_to_false_bool, default_to_true, ClonedRef};
use nodecosmos::merge_nodes::{MergeNodes, NodeRef};
use std::collections::HashSet;

fn thread(location: &str, object_type: &str) -> CommentThread {
    CommentThread {
        branch_id: 0x11,
        object_id: 0x22,
        id: 0x33,
        root_id: 0x44,
        title: String::from("t"),
        author_id: None,
        object_type: String::from(object_type),
        thread_location: String::from(location),
        line_number: None,
        line_content: None,
        participant_ids: None,
    }
}

#[test]
fn thread_locations_read() {
    assert!(matches!(ThreadLocation::from_str("Thread"), Ok(ThreadLocation::Thread)));
    assert!(matches!(
        ThreadLocation::from_str("ContributionRequest::FlowStep"),
        Ok(ThreadLocation::ContributionRequest(ContributionRequestThreadLocation::FlowStep))
    ));
    match ThreadLocation::from_str("ContributionRequest::Nope") {
        Err(NodecosmosError::InternalServerError(m)) => assert_eq!(m, "Invalid ContributionRequestThreadLocation"),
        _ => panic!("expected an error"),
    }
    match ThreadLocation::from_str("ContributionRequest::Node::Flow") {
        Err(NodecosmosError::InternalServerError(m)) => assert_eq!(m, "Invalid ThreadLocation"),
        _ => panic!("expected an error"),
    }
    match ThreadLocation::from_str("Other") {
        Err(NodecosmosError::InternalServerError(m)) => assert_eq!(m, "Invalid ThreadLocation"),
        _ => panic!("expected an error"),
    }
}

#[test]
fn thread_location_names_round_trip() {
    let l = ThreadLocation::ContributionRequest(ContributionRequestThreadLocation::InputOutput);
    assert_eq!(l.to_text(), "ContributionRequest::InputOutput");
    assert!(matches!(ThreadLocation::from_str(&l.to_text()), Ok(x) if x == l));
}

#[test]
fn notification_texts() {
    assert_eq!(
        ContributionRequestThreadLocation::MainThread.notification_text(),
        "commented on the main contribution request thread"
    );
    assert_eq!(ContributionRequestThreadLocation::InputOutput.notification_text(), "commented on the input/output");
    assert_eq!(ContributionRequestThreadLocation::default(), ContributionRequestThreadLocation::MainThread);
}

#[test]
fn object_types_read() {
    assert_eq!(ThreadObjectType::from_text("Thread"), Some(ThreadObjectType::Thread));
    assert_eq!(ThreadObjectType::from_text("thread"), None);
    let t = thread("Thread", "Bogus");
    match t.thread_object_type() {
        Err(NodecosmosError::NotFound(m)) => {
            assert_eq!(m, "Error getting object_type Bogus: Matching variant not found")
        }
        _ => panic!("expected an error"),
    }
}

#[test]
fn main_thread_takes_branch_id() {
    let mut t = thread("ContributionRequest::MainThread", "ContributionRequest");
    t.assign_id(99);
    assert_eq!(t.id, 0x11);
    let mut t = thread("ContributionRequest::Node", "ContributionRequest");
    t.assign_id(99);
    assert_eq!(t.id, 99);
    assert!(t.validate_branch_thread().is_ok());
    assert!(t.validate_node_thread().is_err());
}

#[test]
fn commit_type_names() {
    assert_eq!(CommitTypes::Create(CommitObjectTypes::Node(Committable::BaseObject)).to_text(), "CREATE_NODE_BASE");
    assert_eq!(CommitTypes::Update(CommitObjectTypes::Workflow(Committable::Title)).to_text(), "UPDATE_WORKFLOW_TITLE");
    assert_eq!(
        CommitTypes::Delete(CommitObjectTypes::Node(Committable::Description)).to_text(),
        "DELETE_NODE_DESCRIPTION"
    );
}

#[test]
fn contribution_request_statuses() {
    assert_eq!(ContributionRequestStatus::default().as_deref(), Some("WorkInProgress"));
    assert_eq!(ContributionRequestStatus::Published.to_text(), "Published");
    assert_eq!(default_status().as_deref(), Some("WORK_IN_PROGRESS"));
}

fn request() -> ContributionRequest {
    ContributionRequest {
        node_id: 1,
        id: 2,
        root_id: 3,
        editor_ids: None,
        title: String::from("Fix"),
        description: Some(String::from("<b>ok</b><script>alert(1)</script>")),
        status: ContributionRequestStatus::default(),
        owner_id: 4,
        branch: None,
    }
}

#[test]
fn merged_request_cannot_merge_again() {
    let mut cr = request();
    assert!(cr.validate_mergeable().is_ok());
    cr.update_status(ContributionRequestStatus::Merged);
    match cr.validate_mergeable() {
        Err(NodecosmosError::PreconditionFailed(m)) => assert_eq!(m, "Contribution request is already merged"),
        _ => panic!("expected an error"),
    }
}

#[test]
fn new_request_branch_takes_node_editors_and_owner() {
    let cr = request();
    let editors: Option<HashSet<u128>> = Some([7u128].into_iter().collect());
    let b = cr.new_branch(3, true, 8, &editors);
    assert_eq!(b.id, 2);
    assert_eq!(b.is_contribution_request, Some(true));
    assert_eq!(b.editor_ids.unwrap(), [7u128, 8].into_iter().collect::<HashSet<u128>>());
    assert_eq!(ContributionRequest::notification_receivers(8, &editors).len(), 2);
    assert_eq!(cr.notification_text(), "created new contribution request - Fix");
}

#[test]
fn sanitized_description_drops_scripts() {
    let mut cr = request();
    cr.sanitize_description();
    let d = cr.description.unwrap();
    assert!(d.contains("<b>ok</b>"));
    assert!(!d.contains("script"));
}

#[test]
fn uuid_texts_are_hyphenated() {
    let mut cr = request();
    assert_eq!(
        cr.notification_url("https://x", 1),
        "https://x/nodes/00000000-0000-0000-0000-000000000001/00000000-0000-0000-0000-000000000001/contribution_requests/00000000-0000-0000-0000-000000000002"
    );
    cr.id = 0xa1a2a3a4b1b2c1c2d1d2d3d4d5d6d7d8;
    assert!(cr.notification_url("", 1).ends_with("/a1a2a3a4-b1b2-c1c2-d1d2-d3d4d5d6d7d8"));
}

#[test]
fn comment_defaults_and_checks() {
    let mut c = Comment {
        object_id: 0,
        branch_id: 0,
        thread_id: 0,
        id: 0,
        content: String::from("hi<script>x</script>"),
        author_id: 0,
        url: String::new(),
        thread: None,
    };
    match c.set_default_values("https://x", 5, 6) {
        Err(NodecosmosError::NotFound(m)) => assert_eq!(m, "Thread not initialized"),
        _ => panic!("expected an error"),
    }
    c.assign_thread(thread("Thread", "Thread"));
    assert!(c.set_default_values("https://x", 5, 6).is_ok());
    assert_eq!(c.id, 5);
    assert_eq!(c.author_id, 6);
    assert_eq!(c.thread_id, 0x33);
    assert_eq!(c.branch_id, 0x11);
    assert_eq!(c.object_id, 0x22);
    assert_eq!(c.content, "hi");
    assert_eq!(
        c.url,
        "https://x/nodes/00000000-0000-0000-0000-000000000011/00000000-0000-0000-0000-000000000022/threads/00000000-0000-0000-0000-000000000033"
    );
    assert!(c.validate_author(6).is_ok());
    assert!(matches!(c.validate_author(7), Err(NodecosmosError::BadRequest(_))));
    assert!(c.validate_url("https://x").is_ok());
    assert!(matches!(c.validate_url("https://y"), Err(NodecosmosError::BadRequest(_))));
}

fn description(base64: Option<&str>) -> Description {
    Description {
        node_id: 1,
        branch_id: 2,
        object_id: 3,
        root_id: 2,
        object_type: String::from("Node"),
        short_description: None,
        html: Some(String::from("<p>a</p>")),
        markdown: Some(String::from("a")),
        base64: base64.map(String::from),
    }
}

#[test]
fn description_merge_cases() {
    let mut empty = description(None);
    let other = description(Some("AAA="));
    assert!(matches!(empty.merge(&other), Ok(MergePlan::Done)));
    assert_eq!(empty.base64.as_deref(), Some("AAA="));
    let mut current = description(Some("not base64!"));
    assert!(matches!(current.merge(&description(None)), Ok(MergePlan::Done)));
    assert_eq!(current.base64.as_deref(), Some("not base64!"));
    assert!(matches!(current.merge(&other), Err(NodecosmosError::DecodeError(_))));
    assert_eq!(current.base64.as_deref(), Some("not base64!"));
    let mut both = description(Some("AQID"));
    match both.merge(&other) {
        Ok(MergePlan::Documents(a, b)) => {
            assert_eq!(a, vec![1, 2, 3]);
            assert_eq!(b, vec![0, 0]);
        },
        _ => panic!("expected two documents"),
    }
    assert_eq!(both.base64.as_deref(), Some("AQID"));
}

fn merged(update: Vec<u8>) -> Option<MergedDocument> {
    Some(MergedDocument {
        update,
        html: String::from("<p>merged</p>"),
        markdown: String::from("merged"),
        short_description: String::from("m"),
    })
}

#[test]
fn merged_documents_are_stored_as_base64() {
    let mut d = description(Some("AAA="));
    assert!(d.apply_merged_document(merged(vec![1, 2, 3])).is_ok());
    assert_eq!(d.base64.as_deref(), Some("AQID"));
    assert_eq!(d.html.as_deref(), Some("<p>merged</p>"));
    assert_eq!(d.markdown.as_deref(), Some("merged"));
    assert_eq!(d.short_description.as_deref(), Some("m"));
    assert_eq!(d.object_id, 3);
    assert!(d.apply_merged_document(merged(vec![1])).is_ok());
    assert_eq!(d.base64.as_deref(), Some("AQ=="));
    assert!(d.apply_merged_document(merged(vec![255, 254, 253, 1, 2])).is_ok());
    assert_eq!(d.base64.as_deref(), Some("//79AQI="));
    assert!(d.apply_merged_document(merged(vec![1, 2, 3])).is_ok());
    match d.apply_merged_document(None) {
        Err(NodecosmosError::DecodeError(m)) => assert_eq!(m, "Invalid description document"),
        _ => panic!("expected an error"),
    }
    assert_eq!(d.base64.as_deref(), Some("AQID"));
}

#[test]
fn description_branch_updates() {
    let d = description(None);
    assert!(matches!(d.update_branch(), Ok(None)));
    let mut b = description(None);
    b.branch_id = 9;
    assert!(matches!(
        b.update_branch(),
        Ok(Some(nodecosmos::branch_update::BranchUpdate::EditNodeDescription(3)))
    ));
    b.object_type = String::from("Bogus");
    assert!(b.update_branch().is_err());
    let mut r = description(None);
    r.root_id = 0;
    assert!(matches!(r.validate_root_id(), Err(NodecosmosError::ValidationError(_))));
}

#[test]
fn conflict_check_records_missing_edited_nodes() {
    let mut b = Branch::new(1, 2, 3, 4);
    b.edited_description_nodes = Some([10u128, 11].into_iter().collect());
    b.restored_nodes = Some([11u128].into_iter().collect());
    let mut check = MergeConflicts::new(b);
    check.reset_conflicts();
    let candidates = check.edited_node_candidates();
    assert_eq!(candidates, vec![10]);
    check.record_deleted_edited_nodes(&candidates, &HashSet::new());
    let c = check.branch.conflict.clone().unwrap();
    assert_eq!(c.deleted_edited_nodes.unwrap(), [10u128].into_iter().collect::<HashSet<u128>>());
    assert!(matches!(check.check_result(), Err(NodecosmosError::Conflict(_))));
}

#[test]
fn conflict_check_without_missing_nodes_passes() {
    let mut b = Branch::new(1, 2, 3, 4);
    b.edited_description_nodes = Some([10u128].into_iter().collect());
    let mut check = MergeConflicts::new(b);
    check.reset_conflicts();
    let candidates = check.edited_node_candidates();
    let found: HashSet<u128> = [10u128].into_iter().collect();
    check.record_deleted_edited_nodes(&candidates, &found);
    assert!(check.branch.conflict.is_none());
    assert!(check.check_result().is_ok());
}

#[test]
fn colliding_flow_steps_are_conflicts_unless_original_deleted() {
    let mut b = Branch::new(1, 2, 3, 4);
    b.deleted_flow_steps = Some([50u128].into_iter().collect());
    let mut check = MergeConflicts::new(b);
    check.record_conflicting_flow_steps(&vec![(5, Some(40)), (6, Some(50)), (7, None)]);
    let c = check.branch.conflict.clone().unwrap();
    assert_eq!(c.conflicting_flow_steps.unwrap(), [5u128].into_iter().collect::<HashSet<u128>>());
}

#[test]
fn removal_skips_descendants_of_removed_nodes() {
    let nodes = Some(vec![
        NodeRef { id: 1, ancestor_ids: None },
        NodeRef { id: 2, ancestor_ids: Some(vec![1]) },
        NodeRef { id: 3, ancestor_ids: Some(vec![9]) },
    ]);
    assert_eq!(MergeNodes::nodes_to_remove(&nodes), vec![1, 3]);
}

#[test]
fn branched_flows_add_untouched_originals() {
    let f = |id: u128, branch_id: u128| Flow {
        node_id: 1,
        branch_id,
        root_id: 100,
        start_index: 0,
        id,
        title: String::from("f"),
    };
    let r = Flow::branched(7, vec![f(1, 7)], vec![f(1, 100), f(2, 100)]);
    assert_eq!(r.len(), 2);
    assert_eq!(r[1].id, 2);
    assert_eq!(r[1].branch_id, 7);
}

#[test]
fn defaults_and_cloned_ref() {
    assert_eq!(default_to_true(), Some(true));
    assert!(!default_to_false_bool());
    assert_eq!(default_to_0(), Some(0));
    let some: Option<Vec<u128>> = Some(vec![1, 2]);
    assert_eq!(some.cloned_ref(), vec![1, 2]);
    let none: Option<Vec<u128>> = None;
    assert!(none.cloned_ref().is_empty());
}
