//! Inputs and outputs of workflow steps: copies of an original io take over
//! its values, and an io leaves the initial inputs of its workflow.
use crate::ids::vec_contains;
use crate::merge_nodes::title_text;
use crate::text::text_from;
use vstd::prelude::*;

verus! {

/// An input or output of a workflow. Copies made for each node of a flow
/// step share the id of the io they were copied from as `original_id`.
pub struct Io {
    pub root_node_id: u128,
    pub node_id: u128,
    pub workflow_id: u128,
    pub id: u128,
    pub original_id: Option<u128>,
    /// The flow step that outputs the io, if any.
    pub flow_step_id: Option<u128>,
    pub title: Option<String>,
    pub unit: Option<String>,
    pub data_type: Option<String>,
    pub value: Option<String>,
    pub description: Option<String>,
    pub description_markdown: Option<String>,
}

/// A copy of an optional text.
fn copy_text(t: &Option<String>) -> (r: Option<String>)
    ensures
        title_text(r) == title_text(*t),
{
    match t {
        Some(s) => Some(text_from(s.as_str())),
        None => None,
    }
}

impl Io {
    /// Takes over the values of the original io, `original`, if there is
    /// one, together with its original id; an io without an original is its
    /// own original.
    pub fn copy_vals_from_original(&mut self, original: &Option<Io>)
        ensures
            match original {
                Some(o) => {
                    &&& title_text(final(self).title) == title_text(o.title)
                    &&& title_text(final(self).unit) == title_text(o.unit)
                    &&& title_text(final(self).data_type) == title_text(o.data_type)
                    &&& title_text(final(self).description) == title_text(o.description)
                    &&& title_text(final(self).description_markdown) == title_text(o.description_markdown)
                    &&& final(self).original_id == o.original_id
                    &&& final(self).value == old(self).value
                },
                None => final(self).original_id == Some(old(self).id) && final(self).title == old(self).title
                    && final(self).description == old(self).description,
            },
            final(self).id == old(self).id,
            final(self).node_id == old(self).node_id,
            final(self).workflow_id == old(self).workflow_id,
            final(self).flow_step_id == old(self).flow_step_id,
    {
        match original {
            Some(o) => {
                self.title = copy_text(&o.title);
                self.unit = copy_text(&o.unit);
                self.data_type = copy_text(&o.data_type);
                self.description = copy_text(&o.description);
                self.description_markdown = copy_text(&o.description_markdown);
                self.original_id = o.original_id;
            },
            None => {
                self.original_id = Some(self.id);
            },
        }
    }

    /// Whether the io is among a workflow's initial inputs, so that it must
    /// be taken out of them.
    pub fn pull_from_initial_input_ids(&self, initial_input_ids: &Vec<u128>) -> (b: bool)
        ensures
            b == initial_input_ids@.contains(self.id),
    {
        vec_contains(initial_input_ids, self.id)
    }
}

} // verus!
