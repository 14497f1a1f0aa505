//! Descriptions of nodes, flows, flow steps and ios. A description is kept as
//! a collaborative document (a base64-encoded update of it) together with
//! its rendered forms; descriptions written in a branch are merged into the
//! document rather than replacing it.
use std::collections::{HashMap, HashSet};
use base64::Engine;
use crate::branch::{Branch, ObjectType};
use crate::branch_update::{BranchUpdate, branch_model, BranchModel};
use crate::errors::NodecosmosError;
use crate::ids::{opt_map, map_keys};
use crate::merge_nodes::{title_text, change_texts};
use crate::contribution_request::{clean_html, sanitized_html};
use crate::text::{text_eq, text_from};
use crate::udts::TextChange;
use vstd::prelude::*;

verus! {

broadcast use vstd::std_specs::hash::group_hash_axioms;

/// The error of decoding base64 text of the `base64` crate.
#[verifier::external_type_specification]
#[verifier::external_body]
pub struct ExDecodeError(base64::DecodeError);

/// The character of the standard base64 alphabet for a 6-bit value.
pub open spec fn base64_char(v: int) -> char {
    if v < 26 {
        (65 + v) as char
    } else if v < 52 {
        (97 + v - 26) as char
    } else if v < 62 {
        (48 + v - 52) as char
    } else if v == 62 {
        '+'
    } else {
        '/'
    }
}

/// The standard base64 text of some bytes: each group of three bytes, read
/// as four 6-bit values, gives four characters; a last group of one or two
/// bytes is filled up with zero bits and padded with `=` to four characters.
pub open spec fn base64_encoded(bytes: Seq<u8>) -> Seq<char>
    decreases bytes.len(),
{
    if bytes.len() == 0 {
        Seq::empty()
    } else if bytes.len() == 1 {
        let a = bytes[0] as int;
        seq![base64_char(a / 4), base64_char((a % 4) * 16), '=', '=']
    } else if bytes.len() == 2 {
        let a = bytes[0] as int;
        let b = bytes[1] as int;
        seq![base64_char(a / 4), base64_char((a % 4) * 16 + b / 16), base64_char((b % 16) * 4), '=']
    } else {
        let a = bytes[0] as int;
        let b = bytes[1] as int;
        let c = bytes[2] as int;
        seq![
            base64_char(a / 4),
            base64_char((a % 4) * 16 + b / 16),
            base64_char((b % 16) * 4 + c / 64),
            base64_char(c % 64),
        ] + base64_encoded(bytes.subrange(3, bytes.len() as int))
    }
}

/// Whether a text is the standard base64 text of some bytes.
pub open spec fn is_base64(text: Seq<char>) -> bool {
    exists|bytes: Seq<u8>| #[trigger] base64_encoded(bytes) == text
}

/// Decodes standard base64 text (`base64::engine::general_purpose::STANDARD.decode`,
/// which requires canonical padding and refuses trailing bits): it accepts
/// exactly the texts that `base64_encoded` gives, and gives back the bytes
/// they encode.
#[verifier::external_body]
fn decode_base64(text: &str) -> (r: Result<Vec<u8>, base64::DecodeError>)
    ensures
        r is Ok <==> is_base64(text@),
        r matches Ok(v) ==> base64_encoded(v@) == text@,
{
    base64::engine::general_purpose::STANDARD.decode(text)
}

/// Encodes bytes as standard base64 text, padded (`base64::engine::general_purpose::STANDARD.encode`),
/// which fails on no input short enough for the length of its text to be
/// counted: the result is `base64_encoded` of the bytes.
#[verifier::external_body]
fn encode_base64(bytes: &[u8]) -> (r: String)
    requires
        bytes@.len() / 3 * 4 + 4 <= usize::MAX,
    ensures
        r@ == base64_encoded(bytes@),
{
    base64::engine::general_purpose::STANDARD.encode(bytes)
}

/// The description of an object.
pub struct Description {
    pub node_id: u128,
    pub branch_id: u128,
    pub object_id: u128,
    pub root_id: u128,
    pub object_type: String,
    pub short_description: Option<String>,
    pub html: Option<String>,
    pub markdown: Option<String>,
    pub base64: Option<String>,
}

/// What a search index keeps of a node's description.
pub struct NodeDescriptionIndex {
    pub id: u128,
    pub short_description: String,
    pub description: String,
}

/// The stored name of an object type.
pub open spec fn object_type_name(t: ObjectType) -> Seq<char> {
    match t {
        ObjectType::Node => "Node"@,
        ObjectType::Flow => "Flow"@,
        ObjectType::FlowStep => "FlowStep"@,
        ObjectType::Io => "Io"@,
        ObjectType::Workflow => "Workflow"@,
    }
}

/// The object type a stored name stands for.
pub open spec fn parse_object_type(s: Seq<char>) -> Option<ObjectType> {
    if s == object_type_name(ObjectType::Node) {
        Some(ObjectType::Node)
    } else if s == object_type_name(ObjectType::Flow) {
        Some(ObjectType::Flow)
    } else if s == object_type_name(ObjectType::FlowStep) {
        Some(ObjectType::FlowStep)
    } else if s == object_type_name(ObjectType::Io) {
        Some(ObjectType::Io)
    } else if s == object_type_name(ObjectType::Workflow) {
        Some(ObjectType::Workflow)
    } else {
        None
    }
}

/// The object type a stored name stands for, if any.
pub fn object_type_from_text(s: &str) -> (r: Option<ObjectType>)
    ensures
        r == parse_object_type(s@),
{
    if text_eq(s, "Node") {
        Some(ObjectType::Node)
    } else if text_eq(s, "Flow") {
        Some(ObjectType::Flow)
    } else if text_eq(s, "FlowStep") {
        Some(ObjectType::FlowStep)
    } else if text_eq(s, "Io") {
        Some(ObjectType::Io)
    } else if text_eq(s, "Workflow") {
        Some(ObjectType::Workflow)
    } else {
        None
    }
}

/// The change a branch records when the description of an object of a type
/// is edited on it, if that type's descriptions are tracked.
pub open spec fn description_update(t: ObjectType, id: u128) -> Option<BranchUpdate> {
    match t {
        ObjectType::Node => Some(BranchUpdate::EditNodeDescription(id)),
        ObjectType::Flow => Some(BranchUpdate::EditFlowDescription(id)),
        ObjectType::FlowStep => Some(BranchUpdate::EditFlowStepDescription(id)),
        ObjectType::Io => Some(BranchUpdate::EditIoDescription(id)),
        ObjectType::Workflow => None,
    }
}

/// What is left of a merge of descriptions once their documents are read.
pub enum MergePlan {
    /// The merge is done: there were not two documents to combine.
    Done,
    /// The decoded document updates to combine, the current one first.
    Documents(Vec<u8>, Vec<u8>),
}

/// Two documents combined: the encoded combination of their updates and
/// what the combined document renders to.
pub struct MergedDocument {
    pub update: Vec<u8>,
    pub html: String,
    pub markdown: String,
    pub short_description: String,
}

/// Two descriptions of the same object, of the same type, in the same place.
pub open spec fn same_record(a: Description, b: Description) -> bool {
    &&& a.node_id == b.node_id
    &&& a.branch_id == b.branch_id
    &&& a.object_id == b.object_id
    &&& a.root_id == b.root_id
    &&& a.object_type == b.object_type
}

impl Description {
    /// Whether the description belongs to a branch rather than the original.
    pub fn is_branch(&self) -> (b: bool)
        ensures
            b == (self.branch_id != self.root_id),
    {
        self.branch_id != self.root_id
    }

    /// A description must name the original it belongs to.
    pub fn validate_root_id(&self) -> (r: Result<(), NodecosmosError>)
        ensures
            r is Err <==> self.root_id == 0,
            r matches Err(e) ==> (e matches NodecosmosError::ValidationError(m) && m@ == "Root id is required"@),
    {
        if self.root_id == 0 {
            return Err(NodecosmosError::ValidationError(text_from("Root id is required")));
        }
        Ok(())
    }

    /// The change a branch records when this description is written on it
    /// (see `description_update`); none for a description of the original.
    /// An object type that does not read is an error.
    pub fn update_branch(&self) -> (r: Result<Option<BranchUpdate>, NodecosmosError>)
        ensures
            self.branch_id == self.root_id ==> r == Ok::<Option<BranchUpdate>, NodecosmosError>(None),
            self.branch_id != self.root_id ==> match parse_object_type(self.object_type@) {
                Some(t) => r == Ok::<Option<BranchUpdate>, NodecosmosError>(description_update(t, self.object_id)),
                None => r is Err,
            },
    {
        if !self.is_branch() {
            return Ok(None);
        }
        match object_type_from_text(self.object_type.as_str()) {
            Some(ObjectType::Node) => Ok(Some(BranchUpdate::EditNodeDescription(self.object_id))),
            Some(ObjectType::Flow) => Ok(Some(BranchUpdate::EditFlowDescription(self.object_id))),
            Some(ObjectType::FlowStep) => Ok(Some(BranchUpdate::EditFlowStepDescription(self.object_id))),
            Some(ObjectType::Io) => Ok(Some(BranchUpdate::EditIoDescription(self.object_id))),
            Some(ObjectType::Workflow) => Ok(None),
            None => Err(NodecosmosError::BadRequest(text_from("Invalid object type"))),
        }
    }

    /// What the search index keeps of this description: only descriptions of
    /// nodes of the original are indexed, with absent texts as empty.
    pub fn update_elastic_index(&self) -> (r: Result<Option<NodeDescriptionIndex>, NodecosmosError>)
        ensures
            self.branch_id != self.root_id ==> r matches Ok(None),
            self.branch_id == self.root_id ==> match parse_object_type(self.object_type@) {
                Some(ObjectType::Node) => r matches Ok(Some(i)) && i.id == self.object_id
                    && i.short_description@ == match self.short_description {
                        Some(s) => s@,
                        None => Seq::<char>::empty(),
                    } && i.description@ == match self.html {
                        Some(s) => s@,
                        None => Seq::<char>::empty(),
                    },
                Some(_) => r matches Ok(None),
                None => r is Err,
            },
    {
        if self.is_branch() {
            return Ok(None);
        }
        match object_type_from_text(self.object_type.as_str()) {
            Some(ObjectType::Node) => {
                let short_description = match &self.short_description {
                    Some(s) => text_from(s.as_str()),
                    None => String::new(),
                };
                let description = match &self.html {
                    Some(s) => text_from(s.as_str()),
                    None => String::new(),
                };
                Ok(Some(NodeDescriptionIndex { id: self.object_id, short_description, description }))
            },
            Some(_) => Ok(None),
            None => Err(NodecosmosError::BadRequest(text_from("Invalid object type"))),
        }
    }

    /// Merges a newer version of the description into this one, as far as
    /// it goes without combining documents. A description without a document
    /// takes the other's document and renderings; one merged with a version
    /// without a document stays as it is. Otherwise both documents are read
    /// from their base64 text, which must be valid, and the two document
    /// updates are handed back to be combined (see `apply_merged_document`);
    /// the description stays as it is until then.
    pub fn merge(&mut self, other: &Description) -> (r: Result<MergePlan, NodecosmosError>)
        ensures
            old(self).base64 is None ==> {
                &&& r matches Ok(MergePlan::Done)
                &&& title_text(final(self).base64) == title_text(other.base64)
                &&& title_text(final(self).html) == title_text(other.html)
                &&& title_text(final(self).markdown) == title_text(other.markdown)
                &&& same_record(*final(self), *old(self))
                &&& final(self).short_description == old(self).short_description
            },
            old(self).base64 is Some && other.base64 is None ==> ((r matches Ok(MergePlan::Done)) && *final(self)
                == *old(self)),
            old(self).base64 matches Some(cur) ==> other.base64 matches Some(upd) ==> {
                &&& *final(self) == *old(self)
                &&& r is Err <==> (!is_base64(cur@) || !is_base64(upd@))
                &&& r matches Err(e) ==> (e matches NodecosmosError::DecodeError(m) && m@
                    == "Invalid base64 description"@)
                &&& r matches Ok(p) ==> (p matches MergePlan::Documents(a, b) && base64_encoded(a@) == cur@
                    && base64_encoded(b@) == upd@)
            },
    {
        let current_text = match &self.base64 {
            Some(t) => t,
            None => {
                self.html = copy_text(&other.html);
                self.markdown = copy_text(&other.markdown);
                self.base64 = copy_text(&other.base64);
                return Ok(MergePlan::Done);
            },
        };
        let update_text = match &other.base64 {
            Some(t) => t,
            None => {
                return Ok(MergePlan::Done);
            },
        };
        let current_buf = match decode_base64(current_text.as_str()) {
            Ok(b) => b,
            Err(_) => {
                return Err(NodecosmosError::DecodeError(text_from("Invalid base64 description")));
            },
        };
        let update_buf = match decode_base64(update_text.as_str()) {
            Ok(b) => b,
            Err(_) => {
                return Err(NodecosmosError::DecodeError(text_from("Invalid base64 description")));
            },
        };
        Ok(MergePlan::Documents(current_buf, update_buf))
    }

    /// Stores the outcome of combining the two documents of a merge (see
    /// `merge`): `merged` is the encoded combination of both document
    /// updates with its renderings, or `None` when the documents could not
    /// be combined or rendered, which is an error. A combination too large
    /// for its base64 text to be counted is an error too. Otherwise the
    /// combination, as base64 text, becomes this description's document and
    /// its renderings become its html, markdown and short description;
    /// nothing else changes.
    pub fn apply_merged_document(&mut self, merged: Option<MergedDocument>) -> (r: Result<(), NodecosmosError>)
        ensures
            merged is None ==> (r matches Err(e) && e matches NodecosmosError::DecodeError(m) && m@
                == "Invalid description document"@),
            merged matches Some(d) ==> (d.update@.len() / 3 > (usize::MAX - 4) / 4 <==> r is Err),
            merged matches Some(d) ==> (r matches Err(e) ==> (e matches NodecosmosError::DecodeError(m) && m@
                == "Description document too large"@)),
            r is Err ==> *final(self) == *old(self),
            r is Ok ==> {
                let d = merged.unwrap();
                &&& merged is Some
                &&& final(self).base64 matches Some(t) && t@ == base64_encoded(d.update@)
                &&& title_text(final(self).html) == Some(d.html@)
                &&& title_text(final(self).markdown) == Some(d.markdown@)
                &&& title_text(final(self).short_description) == Some(d.short_description@)
                &&& same_record(*final(self), *old(self))
            },
    {
        let d = match merged {
            Some(d) => d,
            None => {
                return Err(NodecosmosError::DecodeError(text_from("Invalid description document")));
            },
        };
        if d.update.len() / 3 > (usize::MAX - 4) / 4 {
            return Err(NodecosmosError::DecodeError(text_from("Description document too large")));
        }
        let encoded = encode_base64(d.update.as_slice());
        self.short_description = Some(d.short_description);
        self.html = Some(d.html);
        self.markdown = Some(d.markdown);
        self.base64 = Some(encoded);
        Ok(())
    }
}

/// A copy of an optional text.
fn copy_text(t: &Option<String>) -> (r: Option<String>)
    ensures
        title_text(r) == title_text(*t),
{
    match t {
        Some(s) => Some(text_from(s.as_str())),
        None => None,
    }
}

/// What the merge of descriptions works on: the descriptions the branch
/// edited and deleted, and the original's descriptions of those objects.
pub struct MergeDescriptions {
    pub edited_descriptions: Vec<Description>,
    pub deleted_descriptions: Vec<Description>,
    pub original_descriptions: HashMap<u128, Description>,
}

/// Whether the merge writes an edited description: always, unless the
/// original's description renders to the same html.
pub open spec fn writes_description(d: Description, originals: Map<u128, Description>) -> bool {
    !(originals.contains_key(d.object_id) && title_text(originals[d.object_id].html) == title_text(d.html))
}

/// The change recorded for a written description: the original's markdown
/// before (none without an original) and the written markdown after.
pub open spec fn description_change(
    d: Description,
    originals: Map<u128, Description>,
) -> (Option<Seq<char>>, Option<Seq<char>>) {
    (
        if originals.contains_key(d.object_id) {
            title_text(originals[d.object_id].markdown)
        } else {
            None
        },
        title_text(d.markdown),
    )
}

/// The recorded description changes of a branch, as texts.
pub open spec fn description_changes(o: Option<HashMap<u128, TextChange>>) -> Map<
    u128,
    (Option<Seq<char>>, Option<Seq<char>>),
> {
    opt_map(o).map_values(|c: TextChange| change_texts(c))
}

impl MergeDescriptions {
    /// Whether the merge writes the edited description at `i` (see `writes_description`).
    pub fn writes(&self, i: usize) -> (b: bool)
        requires
            i < self.edited_descriptions@.len(),
        ensures
            b == writes_description(self.edited_descriptions@[i as int], self.original_descriptions@),
    {
        let d = &self.edited_descriptions[i];
        match self.original_descriptions.get(&d.object_id) {
            Some(o) => !same_text(&o.html, &d.html),
            None => true,
        }
    }

    /// Records on the branch the change of a written description (see
    /// `description_change`); `written` is the description as written.
    pub fn record_description_change(&self, written: &Description, branch: &mut Branch)
        ensures
            description_changes(final(branch).description_change_by_object) == description_changes(
                old(branch).description_change_by_object,
            ).insert(written.object_id, description_change(*written, self.original_descriptions@)),
            (BranchModel { description_change_by_object: final(branch).description_change_by_object, ..branch_model(
                old(branch),
            ) }) == branch_model(final(branch)),
    {
        let mut change = TextChange::new();
        if let Some(o) = self.original_descriptions.get(&written.object_id) {
            change.assign_old(copy_text(&o.markdown));
        }
        change.assign_new(copy_text(&written.markdown));
        let ghost before = branch.description_change_by_object;
        let mut m = match branch.description_change_by_object.take() {
            Some(m) => m,
            None => HashMap::new(),
        };
        m.insert(written.object_id, change);
        branch.description_change_by_object = Some(m);
        proof {
            assert(description_changes(branch.description_change_by_object) =~= description_changes(before).insert(
                written.object_id,
                description_change(*written, self.original_descriptions@),
            ));
            assert(branch_model(branch) =~= (BranchModel {
                description_change_by_object: branch.description_change_by_object,
                ..branch_model(old(branch))
            }));
        }
    }

    /// The objects whose descriptions the merge looks up: those the branch
    /// edited or deleted, as `(edited, deleted, both)`.
    pub fn lookup_ids(branch: &Branch) -> (r: (HashSet<u128>, HashSet<u128>, HashSet<u128>))
        ensures
            r.0@ == crate::branch::spec_edited_description_ids(branch),
            r.1@ == crate::branch::spec_deleted_object_ids(branch),
            r.2@ == r.0@ + r.1@,
    {
        let edited = branch.all_edited_description_ids();
        let deleted = branch.all_deleted_object_ids();
        let mut both: HashSet<u128> = HashSet::new();
        let e = crate::ids::set_to_vec(&edited);
        crate::ids::add_all(&mut both, &e);
        let d = crate::ids::set_to_vec(&deleted);
        crate::ids::add_all(&mut both, &d);
        proof {
            assert(both@ =~= edited@ + deleted@);
        }
        (edited, deleted, both)
    }
}

/// Whether two optional texts are the same.
fn same_text(a: &Option<String>, b: &Option<String>) -> (r: bool)
    ensures
        r == (title_text(*a) == title_text(*b)),
{
    match (a, b) {
        (Some(x), Some(y)) => text_eq(x.as_str(), y.as_str()),
        (None, None) => true,
        _ => false,
    }
}


impl Description {
    /// Prepares a description for writing: it must name its original. When
    /// the object already has a description in this branch, `merged_current`
    /// is that description with this one merged into it (see `merge` and
    /// `apply_merged_document`), and it is written instead, staying in this
    /// description's branch; otherwise the change the branch records for
    /// this one is given back (see `update_branch`). Either way the html
    /// written is cleaned down to a safe subset.
    pub fn before_insert(&mut self, merged_current: Option<Description>) -> (r: Result<Option<BranchUpdate>, NodecosmosError>)
        ensures
            old(self).root_id == 0 ==> (r matches Err(e) && e matches NodecosmosError::ValidationError(m) && m@
                == "Root id is required"@),
            r is Err ==> *final(self) == *old(self),
            old(self).root_id != 0 && merged_current is None ==> match parse_object_type(old(self).object_type@) {
                Some(t) => r == Ok::<Option<BranchUpdate>, NodecosmosError>(
                    if old(self).branch_id != old(self).root_id {
                        description_update(t, old(self).object_id)
                    } else {
                        None
                    },
                ),
                None => old(self).branch_id != old(self).root_id <==> r is Err,
            },
            old(self).root_id != 0 && merged_current is None && r is Ok ==> {
                &&& same_record(*final(self), *old(self))
                &&& final(self).short_description == old(self).short_description
                &&& final(self).markdown == old(self).markdown
                &&& final(self).base64 == old(self).base64
                &&& title_text(final(self).html) == cleaned_html(old(self).html)
            },
            (old(self).root_id != 0 && merged_current is Some) ==> {
                let c = merged_current.unwrap();
                &&& r == Ok::<Option<BranchUpdate>, NodecosmosError>(None)
                &&& final(self).branch_id == old(self).branch_id
                &&& final(self).node_id == c.node_id
                &&& final(self).object_id == c.object_id
                &&& final(self).root_id == c.root_id
                &&& final(self).object_type == c.object_type
                &&& final(self).short_description == c.short_description
                &&& final(self).markdown == c.markdown
                &&& final(self).base64 == c.base64
                &&& title_text(final(self).html) == cleaned_html(c.html)
            },
    {
        self.validate_root_id()?;
        let r = match merged_current {
            Some(c) => {
                let branch_id = self.branch_id;
                *self = c;
                self.branch_id = branch_id;
                None
            },
            None => self.update_branch()?,
        };
        if let Some(h) = &self.html {
            let cleaned = clean_html(h.as_str());
            self.html = Some(cleaned);
        }
        Ok(r)
    }
}

/// Html as written: cleaned down to a safe subset (see `sanitized_html`).
pub open spec fn cleaned_html(h: Option<String>) -> Option<Seq<char>> {
    match h {
        Some(s) => Some(sanitized_html(s@)),
        None => None,
    }
}

impl MergeDescriptions {
    /// Descriptions by the object they describe, a later one replacing an
    /// earlier one of the same object.
    pub fn by_object_id(descriptions: Vec<Description>) -> (r: HashMap<u128, Description>)
        ensures
            r@ == descriptions_by_object(descriptions@),
    {
        let mut m: HashMap<u128, Description> = HashMap::new();
        let mut rest = descriptions;
        let ghost all = rest@;
        let n = rest.len();
        let mut k: usize = 0;
        while rest.len() > 0
            invariant
                all.len() == n,
                k + rest@.len() == all.len(),
                rest@ == all.subrange(k as int, all.len() as int),
                m@ == descriptions_by_object(all.take(k as int)),
            decreases rest@.len(),
        {
            let d = rest.remove(0);
            proof {
                assert(d == all[k as int]);
                assert(all.take(k as int + 1).drop_last() =~= all.take(k as int));
                assert(all.take(k as int + 1).last() == all[k as int]);
            }
            m.insert(d.object_id, d);
            proof {
                assert(rest@ =~= all.subrange(k as int + 1, all.len() as int));
            }
            k = k + 1;
        }
        proof {
            assert(all.take(all.len() as int) =~= all);
        }
        m
    }
}

/// Descriptions by the object they describe, a later one replacing an
/// earlier one.
pub open spec fn descriptions_by_object(v: Seq<Description>) -> Map<u128, Description>
    decreases v.len(),
{
    if v.len() == 0 {
        Map::empty()
    } else {
        descriptions_by_object(v.drop_last()).insert(v.last().object_id, v.last())
    }
}

} // verus!
