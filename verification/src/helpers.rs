//! Small helpers shared by the models: default field values, copying an
//! optional list, and the deletion of attachments.
use crate::errors::NodecosmosError;
use vstd::prelude::*;

verus! {

/// A flag that is on unless said otherwise.
pub fn default_to_true() -> (b: Option<bool>)
    ensures
        b == Some(true),
{
    Some(true)
}

/// A flag that is off unless said otherwise.
pub fn default_to_false_bool() -> (b: bool)
    ensures
        b == false,
{
    false
}

/// A counter that starts at zero.
pub fn default_to_0() -> (n: Option<i64>)
    ensures
        n == Some(0i64),
{
    Some(0)
}

/// A copy of the items of an optional list; an absent list gives no items.
pub trait ClonedRef<T> {
    fn cloned_ref(&self) -> Vec<T>;
}

impl<T: Clone> ClonedRef<T> for Option<Vec<T>> {
    fn cloned_ref(&self) -> (r: Vec<T>)
        ensures
            match self {
                Some(v) => r.len() == v.len() && forall|i: int| 0 <= i < v.len() ==> cloned::<T>(v[i], #[trigger] r[i]),
                None => r.len() == 0,
            },
    {
        match self {
            Some(v) => v.clone(),
            None => Vec::new(),
        }
    }
}

/// Deleting a batch of attachments, with what the deletion needs to reach
/// the stores that hold them.
pub trait AttachmentsDelete<D> {
    fn delete_all(self, data: &D) -> Result<(), NodecosmosError>;
}

} // verus!
