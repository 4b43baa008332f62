use vstd::prelude::*;

verus! {

/// The wave-function-collapse generator; as yet it colours every tile black.
pub struct WFC {}

impl WFC {
    pub fn new() -> (r: Self)
        ensures
            r == (WFC {}),
    {
        WFC {}
    }
}

} // verus!
