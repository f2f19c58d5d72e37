use vstd::prelude::*;

verus! {

/// A command as text: what crosses to another process and back.
#[derive(Debug, PartialEq, Eq, Hash)]
pub struct NormalizedCommand(pub String);

impl View for NormalizedCommand {
    type V = Seq<char>;

    open spec fn view(&self) -> Seq<char> {
        self.0@
    }
}

impl Clone for NormalizedCommand {
    fn clone(&self) -> (out: Self)
        ensures
            out@ == self@,
    {
        NormalizedCommand(self.0.clone())
    }
}

impl NormalizedCommand {
    /// Takes any text; whether it denotes a command is found out later.
    pub fn try_from(value: String) -> (out: core::result::Result<Self, ()>)
        ensures
            out matches Ok(n) && n@ == value@,
    {
        Ok(NormalizedCommand(value))
    }

    /// The text.
    pub fn to_string(&self) -> (out: String)
        ensures
            out@ == self@,
    {
        self.0.clone()
    }
}

} // verus!
