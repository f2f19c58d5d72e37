use vstd::prelude::*;
use vstd::string::StringExecFns;

verus! {

#[derive(Debug, Clone, Copy, PartialEq, Eq, Hash)]
pub enum CommandError {
    UnmatchingCommand,
}

impl CommandError {
    /// The sentence for this error.
    pub fn to_string(&self) -> (out: String)
        ensures
            out@ == "Given String doesn't match."@,
    {
        String::from_str("Given String doesn't match.")
    }
}

} // verus!
