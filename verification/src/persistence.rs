//! Typed outcomes of leased, durable file replacement.
use vstd::prelude::*;

verus! {

/// The resource is busy, or changed while a decision was awaited; retry the operation.
#[derive(Debug, Clone, PartialEq, Eq)]
pub struct Busy {
    pub resource: String,
}

impl Busy {
    pub fn message(&self) -> (r: String)
        ensures
            r@ == self.resource@ + " is busy or changed while awaiting a decision; retry the operation"@,
    {
        crate::text::cat2(self.resource.as_str(), " is busy or changed while awaiting a decision; retry the operation")
    }
}

/// The file was replaced, but synchronizing its directory failed.
#[derive(Debug, Clone, PartialEq, Eq)]
pub struct DurabilityUncertain {
    pub path: String,
    pub diagnostic: String,
}

} // verus!
