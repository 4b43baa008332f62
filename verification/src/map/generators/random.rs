use vstd::prelude::*;

verus! {

/// The generator that colours every tile with fresh randomness.
pub struct Random {}

impl Random {
    pub fn new() -> (r: Self)
        ensures
            r == (Random {}),
    {
        Random {}
    }
}

} // verus!
