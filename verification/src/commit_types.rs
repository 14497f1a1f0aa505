//! The kinds of commits, named as they are stored: an action, the object
//! acted on and the part of it that changed, such as `UPDATE_NODE_TITLE`.
use crate::text::{text_from, text_concat};
use vstd::prelude::*;

verus! {

/// The part of an object that a commit changed.
#[derive(Clone, Copy, Debug, PartialEq, Eq, Structural)]
pub enum Committable {
    BaseObject,
    Title,
    Description,
}

/// The object a commit changed.
#[derive(Clone, Copy, Debug, PartialEq, Eq, Structural)]
pub enum CommitObjectTypes {
    Node(Committable),
    Workflow(Committable),
}

/// What a commit did to its object.
#[derive(Clone, Copy, Debug, PartialEq, Eq, Structural)]
pub enum CommitTypes {
    Create(CommitObjectTypes),
    Update(CommitObjectTypes),
    Delete(CommitObjectTypes),
}

/// The stored name of a changed part.
pub open spec fn committable_name(c: Committable) -> Seq<char> {
    match c {
        Committable::BaseObject => "BASE"@,
        Committable::Title => "TITLE"@,
        Committable::Description => "DESCRIPTION"@,
    }
}

/// The stored name of a changed object.
pub open spec fn object_types_name(o: CommitObjectTypes) -> Seq<char> {
    match o {
        CommitObjectTypes::Node(c) => "NODE_"@ + committable_name(c),
        CommitObjectTypes::Workflow(c) => "WORKFLOW_"@ + committable_name(c),
    }
}

/// The stored name of a commit kind.
pub open spec fn commit_type_name(t: CommitTypes) -> Seq<char> {
    match t {
        CommitTypes::Create(o) => "CREATE_"@ + object_types_name(o),
        CommitTypes::Update(o) => "UPDATE_"@ + object_types_name(o),
        CommitTypes::Delete(o) => "DELETE_"@ + object_types_name(o),
    }
}

impl Committable {
    /// The part's stored name.
    pub fn to_text(&self) -> (s: String)
        ensures
            s@ == committable_name(*self),
    {
        match self {
            Committable::BaseObject => text_from("BASE"),
            Committable::Title => text_from("TITLE"),
            Committable::Description => text_from("DESCRIPTION"),
        }
    }
}

impl CommitObjectTypes {
    /// The object's stored name.
    pub fn to_text(&self) -> (s: String)
        ensures
            s@ == object_types_name(*self),
    {
        match self {
            CommitObjectTypes::Node(c) => {
                let part = c.to_text();
                text_concat(text_from("NODE_"), part.as_str())
            },
            CommitObjectTypes::Workflow(c) => {
                let part = c.to_text();
                text_concat(text_from("WORKFLOW_"), part.as_str())
            },
        }
    }
}

impl CommitTypes {
    /// The commit kind's stored name.
    pub fn to_text(&self) -> (s: String)
        ensures
            s@ == commit_type_name(*self),
    {
        match self {
            CommitTypes::Create(o) => {
                let rest = o.to_text();
                text_concat(text_from("CREATE_"), rest.as_str())
            },
            CommitTypes::Update(o) => {
                let rest = o.to_text();
                text_concat(text_from("UPDATE_"), rest.as_str())
            },
            CommitTypes::Delete(o) => {
                let rest = o.to_text();
                text_concat(text_from("DELETE_"), rest.as_str())
            },
        }
    }
}

} // verus!
