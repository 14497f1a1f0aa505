//! Comment threads: what a thread is about and where in a contribution
//! request it stands, as stored by name.
use std::collections::HashSet;
use crate::errors::NodecosmosError;
use crate::text::{text_eq, text_from, text_concat, text_starts_with};
use vstd::prelude::*;
use vstd::string::{StrSliceExecFns, StringExecFns};

verus! {

broadcast use vstd::std_specs::hash::group_hash_axioms;

/// What a thread is attached to.
#[derive(Clone, Copy, Debug, PartialEq, Eq, Structural)]
pub enum ThreadObjectType {
    ContributionRequest,
    Thread,
}

/// Where in a contribution request a thread stands.
#[derive(Clone, Copy, Debug, PartialEq, Eq, Structural)]
pub enum ContributionRequestThreadLocation {
    MainThread,
    ObjectDescription,
    Node,
    Flow,
    FlowStep,
    InputOutput,
}

/// Where a thread stands: a plain thread, or a place in a contribution request.
#[derive(Clone, Copy, Debug, PartialEq, Eq, Structural)]
pub enum ThreadLocation {
    Thread,
    ContributionRequest(ContributionRequestThreadLocation),
}

/// The stored name of an object type.
pub open spec fn object_type_name(t: ThreadObjectType) -> Seq<char> {
    match t {
        ThreadObjectType::ContributionRequest => "ContributionRequest"@,
        ThreadObjectType::Thread => "Thread"@,
    }
}

/// The object type a stored name stands for.
pub open spec fn parse_object_type(s: Seq<char>) -> Option<ThreadObjectType> {
    if s == object_type_name(ThreadObjectType::ContributionRequest) {
        Some(ThreadObjectType::ContributionRequest)
    } else if s == object_type_name(ThreadObjectType::Thread) {
        Some(ThreadObjectType::Thread)
    } else {
        None
    }
}

/// The stored name of a contribution request location.
pub open spec fn cr_location_name(l: ContributionRequestThreadLocation) -> Seq<char> {
    match l {
        ContributionRequestThreadLocation::MainThread => "MainThread"@,
        ContributionRequestThreadLocation::ObjectDescription => "ObjectDescription"@,
        ContributionRequestThreadLocation::Node => "Node"@,
        ContributionRequestThreadLocation::Flow => "Flow"@,
        ContributionRequestThreadLocation::FlowStep => "FlowStep"@,
        ContributionRequestThreadLocation::InputOutput => "InputOutput"@,
    }
}

/// The contribution request location a stored name stands for.
pub open spec fn parse_cr_location(s: Seq<char>) -> Option<ContributionRequestThreadLocation> {
    if s == cr_location_name(ContributionRequestThreadLocation::MainThread) {
        Some(ContributionRequestThreadLocation::MainThread)
    } else if s == cr_location_name(ContributionRequestThreadLocation::ObjectDescription) {
        Some(ContributionRequestThreadLocation::ObjectDescription)
    } else if s == cr_location_name(ContributionRequestThreadLocation::Node) {
        Some(ContributionRequestThreadLocation::Node)
    } else if s == cr_location_name(ContributionRequestThreadLocation::Flow) {
        Some(ContributionRequestThreadLocation::Flow)
    } else if s == cr_location_name(ContributionRequestThreadLocation::FlowStep) {
        Some(ContributionRequestThreadLocation::FlowStep)
    } else if s == cr_location_name(ContributionRequestThreadLocation::InputOutput) {
        Some(ContributionRequestThreadLocation::InputOutput)
    } else {
        None
    }
}

/// The text a notification gives for a comment at a location.
pub open spec fn notification_text_of(l: ContributionRequestThreadLocation) -> Seq<char> {
    match l {
        ContributionRequestThreadLocation::MainThread => "commented on the main contribution request thread"@,
        ContributionRequestThreadLocation::ObjectDescription => "commented on the object description"@,
        ContributionRequestThreadLocation::Node => "commented on the node"@,
        ContributionRequestThreadLocation::Flow => "commented on the flow"@,
        ContributionRequestThreadLocation::FlowStep => "commented on the flow step"@,
        ContributionRequestThreadLocation::InputOutput => "commented on the input/output"@,
    }
}

/// The prefix of a stored contribution request location.
pub open spec fn cr_prefix() -> Seq<char> {
    "ContributionRequest::"@
}

/// Whether the separator `::` starts at position `i` of `s`.
pub open spec fn separator_at(s: Seq<char>, i: int) -> bool {
    0 <= i && i + 1 < s.len() && s[i] == ':' && s[i + 1] == ':'
}

/// Whether `s` holds the separator `::` anywhere.
pub open spec fn has_separator(s: Seq<char>) -> bool {
    exists|i: int| #[trigger] separator_at(s, i)
}

/// Whether `s` is `ContributionRequest::` followed by text with no further separator.
pub open spec fn is_cr_location_text(s: Seq<char>) -> bool {
    &&& cr_prefix().len() <= s.len()
    &&& s.subrange(0, cr_prefix().len() as int) == cr_prefix()
    &&& !has_separator(s.subrange(cr_prefix().len() as int, s.len() as int))
}

/// How a stored thread location reads: `Thread`, or `ContributionRequest::`
/// followed by a location name.
pub open spec fn parse_thread_location(s: Seq<char>) -> Option<ThreadLocation> {
    if s == "Thread"@ {
        Some(ThreadLocation::Thread)
    } else if is_cr_location_text(s) {
        match parse_cr_location(s.subrange(cr_prefix().len() as int, s.len() as int)) {
            Some(l) => Some(ThreadLocation::ContributionRequest(l)),
            None => None,
        }
    } else {
        None
    }
}

/// The message of the error for a thread location that does not read: a text
/// with the prefix and no further separator names an unknown location; any
/// other text is no thread location at all.
pub open spec fn thread_location_error(s: Seq<char>) -> Seq<char> {
    if is_cr_location_text(s) {
        "Invalid ContributionRequestThreadLocation"@
    } else {
        "Invalid ThreadLocation"@
    }
}

/// Whether `s` holds the separator `::`.
fn text_has_separator(s: &str) -> (r: bool)
    ensures
        r == has_separator(s@),
{
    let n = s.unicode_len();
    let mut i: usize = 0;
    while i < n
        invariant
            n == s@.len(),
            i <= n,
            forall|j: int| 0 <= j < i ==> !#[trigger] separator_at(s@, j),
        decreases n - i,
    {
        if i + 1 < n && s.get_char(i) == ':' && s.get_char(i + 1) == ':' {
            assert(separator_at(s@, i as int));
            return true;
        }
        i = i + 1;
    }
    proof {
        assert forall|j: int| !#[trigger] separator_at(s@, j) by {
            if 0 <= j && j < i {
            }
        }
    }
    false
}

impl ThreadObjectType {
    /// The type's stored name.
    pub fn to_text(&self) -> (s: String)
        ensures
            s@ == object_type_name(*self),
    {
        match self {
            ThreadObjectType::ContributionRequest => text_from("ContributionRequest"),
            ThreadObjectType::Thread => text_from("Thread"),
        }
    }

    /// The type a stored name stands for, if any.
    pub fn from_text(s: &str) -> (r: Option<ThreadObjectType>)
        ensures
            r == parse_object_type(s@),
    {
        if text_eq(s, "ContributionRequest") {
            Some(ThreadObjectType::ContributionRequest)
        } else if text_eq(s, "Thread") {
            Some(ThreadObjectType::Thread)
        } else {
            None
        }
    }
}

impl ContributionRequestThreadLocation {
    /// The location of a thread that says no more: the main thread.
    pub fn default() -> (l: ContributionRequestThreadLocation)
        ensures
            l == ContributionRequestThreadLocation::MainThread,
    {
        ContributionRequestThreadLocation::MainThread
    }

    /// What a notification says of a comment made at this location.
    pub fn notification_text(&self) -> (s: &'static str)
        ensures
            s@ == notification_text_of(*self),
    {
        match self {
            ContributionRequestThreadLocation::MainThread => "commented on the main contribution request thread",
            ContributionRequestThreadLocation::ObjectDescription => "commented on the object description",
            ContributionRequestThreadLocation::Node => "commented on the node",
            ContributionRequestThreadLocation::Flow => "commented on the flow",
            ContributionRequestThreadLocation::FlowStep => "commented on the flow step",
            ContributionRequestThreadLocation::InputOutput => "commented on the input/output",
        }
    }

    /// The location's stored name.
    pub fn to_text(&self) -> (s: String)
        ensures
            s@ == cr_location_name(*self),
    {
        match self {
            ContributionRequestThreadLocation::MainThread => text_from("MainThread"),
            ContributionRequestThreadLocation::ObjectDescription => text_from("ObjectDescription"),
            ContributionRequestThreadLocation::Node => text_from("Node"),
            ContributionRequestThreadLocation::Flow => text_from("Flow"),
            ContributionRequestThreadLocation::FlowStep => text_from("FlowStep"),
            ContributionRequestThreadLocation::InputOutput => text_from("InputOutput"),
        }
    }

    /// The location a stored name stands for, if any.
    pub fn from_text(s: &str) -> (r: Option<ContributionRequestThreadLocation>)
        ensures
            r == parse_cr_location(s@),
    {
        if text_eq(s, "MainThread") {
            Some(ContributionRequestThreadLocation::MainThread)
        } else if text_eq(s, "ObjectDescription") {
            Some(ContributionRequestThreadLocation::ObjectDescription)
        } else if text_eq(s, "Node") {
            Some(ContributionRequestThreadLocation::Node)
        } else if text_eq(s, "Flow") {
            Some(ContributionRequestThreadLocation::Flow)
        } else if text_eq(s, "FlowStep") {
            Some(ContributionRequestThreadLocation::FlowStep)
        } else if text_eq(s, "InputOutput") {
            Some(ContributionRequestThreadLocation::InputOutput)
        } else {
            None
        }
    }
}

impl ThreadLocation {
    /// Reads a stored thread location (see `parse_thread_location`).
    pub fn from_str(s: &str) -> (r: Result<ThreadLocation, NodecosmosError>)
        ensures
            match r {
                Ok(l) => parse_thread_location(s@) == Some(l),
                Err(e) => parse_thread_location(s@) is None && (e matches NodecosmosError::InternalServerError(m)
                    && m@ == thread_location_error(s@)),
            },
    {
        if text_eq(s, "Thread") {
            return Ok(ThreadLocation::Thread);
        }
        let prefix = "ContributionRequest::";
        proof {
            reveal_strlit("ContributionRequest::");
        }
        let plen = prefix.unicode_len();
        if text_starts_with(s, prefix) {
            let rest = s.substring_char(plen, s.unicode_len());
            if !text_has_separator(rest) {
                return match ContributionRequestThreadLocation::from_text(rest) {
                    Some(l) => Ok(ThreadLocation::ContributionRequest(l)),
                    None => Err(NodecosmosError::InternalServerError(
                        text_from("Invalid ContributionRequestThreadLocation"),
                    )),
                };
            }
        }
        Err(NodecosmosError::InternalServerError(text_from("Invalid ThreadLocation")))
    }

    /// The location's stored name.
    pub fn to_text(&self) -> (s: String)
        ensures
            s@ == match *self {
                ThreadLocation::Thread => "Thread"@,
                ThreadLocation::ContributionRequest(l) => cr_prefix() + cr_location_name(l),
            },
    {
        match self {
            ThreadLocation::Thread => text_from("Thread"),
            ThreadLocation::ContributionRequest(l) => {
                let name = l.to_text();
                text_concat(text_from("ContributionRequest::"), name.as_str())
            },
        }
    }
}


/// A comment thread: what it is attached to and where it stands.
pub struct CommentThread {
    pub branch_id: u128,
    pub object_id: u128,
    pub id: u128,
    pub root_id: u128,
    pub title: String,
    pub author_id: Option<u128>,
    pub object_type: String,
    pub thread_location: String,
    pub line_number: Option<i32>,
    pub line_content: Option<String>,
    pub participant_ids: Option<HashSet<u128>>,
}

/// Whether a stored location is the main thread of a contribution request.
pub open spec fn is_main_thread(loc: Seq<char>) -> bool {
    parse_thread_location(loc) == Some(ThreadLocation::ContributionRequest(ContributionRequestThreadLocation::MainThread))
}

impl CommentThread {
    /// The type of object the thread is attached to; a stored name that does
    /// not read is reported as not found.
    pub fn thread_object_type(&self) -> (r: Result<ThreadObjectType, NodecosmosError>)
        ensures
            match r {
                Ok(t) => parse_object_type(self.object_type@) == Some(t),
                Err(e) => parse_object_type(self.object_type@) is None && (e matches NodecosmosError::NotFound(m)
                    && m@ == "Error getting object_type "@ + self.object_type@ + ": Matching variant not found"@),
            },
    {
        match ThreadObjectType::from_text(self.object_type.as_str()) {
            Some(t) => Ok(t),
            None => {
                let m = text_concat(text_from("Error getting object_type "), self.object_type.as_str());
                Err(NodecosmosError::NotFound(text_concat(m, ": Matching variant not found")))
            },
        }
    }

    /// Where the thread stands; a stored location that does not read is
    /// reported as not found, with the reason.
    pub fn thread_location(&self) -> (r: Result<ThreadLocation, NodecosmosError>)
        ensures
            match r {
                Ok(l) => parse_thread_location(self.thread_location@) == Some(l),
                Err(e) => parse_thread_location(self.thread_location@) is None && (e matches NodecosmosError::NotFound(m)
                    && m@ == "Error getting thread_location '"@ + self.thread_location@ + "': "@
                    + thread_location_error(self.thread_location@)),
            },
    {
        match ThreadLocation::from_str(self.thread_location.as_str()) {
            Ok(l) => Ok(l),
            Err(e) => {
                let reason = match e {
                    NodecosmosError::InternalServerError(m) => m,
                    _ => String::new(),
                };
                let m = text_concat(text_from("Error getting thread_location '"), self.thread_location.as_str());
                let m = text_concat(m, "': ");
                Err(NodecosmosError::NotFound(text_concat(m, reason.as_str())))
            },
        }
    }

    /// Gives a new thread its id: the main thread of a contribution request
    /// shares the id of the request's branch; any other thread takes `fresh`.
    pub fn assign_id(&mut self, fresh: u128)
        ensures
            final(self).id == if is_main_thread(old(self).thread_location@) {
                old(self).branch_id
            } else {
                fresh
            },
            final(self).branch_id == old(self).branch_id,
            final(self).object_id == old(self).object_id,
            final(self).thread_location == old(self).thread_location,
    {
        let main = match self.thread_location() {
            Ok(ThreadLocation::ContributionRequest(ContributionRequestThreadLocation::MainThread)) => true,
            _ => false,
        };
        if main {
            self.id = self.branch_id;
        } else {
            self.id = fresh;
        }
    }

    /// A thread has a branch only when it stands in a contribution request.
    pub fn validate_branch_thread(&self) -> (r: Result<(), NodecosmosError>)
        ensures
            r is Ok <==> parse_thread_location(self.thread_location@) matches Some(ThreadLocation::ContributionRequest(_)),
    {
        match self.thread_location()? {
            ThreadLocation::ContributionRequest(_) => Ok(()),
            _ => Err(NodecosmosError::InternalServerError(text_from("Branch not found for non-ContributionRequest thread"))),
        }
    }

    /// A thread has a node only when it is a plain thread.
    pub fn validate_node_thread(&self) -> (r: Result<(), NodecosmosError>)
        ensures
            r is Ok <==> parse_thread_location(self.thread_location@) == Some(ThreadLocation::Thread),
    {
        match self.thread_location()? {
            ThreadLocation::Thread => Ok(()),
            _ => Err(NodecosmosError::InternalServerError(text_from("Node not found for non-Node thread"))),
        }
    }
}


impl CommentThread {
    /// Adds a participant to the thread.
    pub fn add_participant(&mut self, user_id: u128)
        ensures
            opt_set_of(final(self).participant_ids) == opt_set_of(old(self).participant_ids).insert(user_id),
            final(self).participant_ids is Some,
            final(self).id == old(self).id,
    {
        let mut p = match self.participant_ids.take() {
            Some(p) => p,
            None => HashSet::new(),
        };
        p.insert(user_id);
        self.participant_ids = Some(p);
    }
}

/// The ids of an optional set; none when absent.
pub open spec fn opt_set_of(o: Option<HashSet<u128>>) -> Set<u128> {
    match o {
        Some(s) => s@,
        None => Set::empty(),
    }
}

} // verus!
