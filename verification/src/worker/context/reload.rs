use vstd::prelude::*;

verus! {

#[derive(Debug, Clone, Copy, PartialEq, Eq, Hash, Structural)]
pub struct Reload {
    pub requested: bool,
}

impl Reload {
    pub fn new() -> (out: Self)
        ensures
            !out.requested,
    {
        Self { requested: false }
    }
}

} // verus!
