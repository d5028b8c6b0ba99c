//! Traits shared by the handles.

use vstd::prelude::*;

verus! {

/// Something that gives access to a handle of type `H`.
pub trait HasHandle<H> {
    fn handle(&self) -> (r: &H);
}

/// Every handle gives access to itself.
impl<H> HasHandle<H> for H {
    fn handle(&self) -> (r: &H)
        ensures
            r == self,
    {
        self
    }
}

} // verus!
