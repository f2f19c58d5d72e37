use vstd::prelude::*;

verus! {

#[derive(Debug, Clone, Copy, PartialEq, Eq, Hash, Structural)]
pub struct Kill {
    pub requested: bool,
}

impl Kill {
    pub fn new() -> (out: Self)
        ensures
            !out.requested,
    {
        Self { requested: false }
    }
}

} // verus!
