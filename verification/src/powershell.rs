//! Handles to pipelines of a runspace pool.
use vstd::prelude::*;

verus! {

/// A lightweight, copyable identifier of one pipeline. All operations on the
/// pipeline go through the runspace pool, which takes this handle.
#[derive(Debug, Clone, Copy, PartialEq, Eq, Hash, Structural)]
pub struct PipelineHandle {
    pub id: u128,
}

impl PipelineHandle {
    /// The pipeline's unique id.
    pub fn id(&self) -> (r: u128)
        ensures
            r == self.id,
    {
        self.id
    }

    pub fn new(id: u128) -> (r: Self)
        ensures
            r.id == id,
    {
        Self { id }
    }
}

} // verus!
