//! Things that have a length.
use vstd::prelude::*;

verus! {

/// A thing with a number of elements.
pub trait Len {
    /// The number of elements, read in contracts.
    spec fn spec_len(&self) -> nat;

    /// The number of elements.
    fn len(&self) -> (r: usize)
        ensures
            r == self.spec_len(),
    ;

    /// Whether there are no elements.
    fn is_empty(&self) -> (r: bool)
        ensures
            r == (self.spec_len() == 0),
    {
        self.len() == 0
    }
}

} // verus!
