//! Verified core of the NodeCosmos branching and merge model.
#![allow(unused_imports)]

pub mod errors;
pub mod flow;
pub mod flow_step;
pub mod ids;
pub mod input_output;
pub mod text;
pub mod udts;
pub mod merge_lists;
pub mod merge_step;
pub mod merge_process;
pub mod branch;
pub mod branch_update;
pub mod comment;
pub mod comment_thread;
pub mod commit_types;
pub mod conflicts;
pub mod contribution_request;
pub mod description;
pub mod helpers;
pub mod merge_flow_steps;
pub mod merge_nodes;
pub mod merge_workflows;
