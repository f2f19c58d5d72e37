use crate::config::command::utils::normalized_command::NormalizedCommand;
use crate::text::copy_strings;
use vstd::prelude::*;

verus! {

/// One binding: the command to run when `key` goes down while exactly the
/// keys of `modifier` are held.
#[derive(Debug, PartialEq, Eq)]
pub struct Keybind {
    pub command: NormalizedCommand,
    pub modifier: Vec<String>,
    pub key: String,
}

/// A binding, as plain text.
pub ghost struct Binding {
    pub command: Seq<char>,
    pub modifier: Seq<Seq<char>>,
    pub key: Seq<char>,
}

impl View for Keybind {
    type V = Binding;

    open spec fn view(&self) -> Binding {
        Binding { command: self.command@, modifier: self.modifier.deep_view(), key: self.key@ }
    }
}

impl DeepView for Keybind {
    type V = Binding;

    open spec fn deep_view(&self) -> Binding {
        self@
    }
}

impl Clone for Keybind {
    fn clone(&self) -> (out: Self)
        ensures
            out@ == self@,
    {
        Keybind {
            command: self.command.clone(),
            modifier: copy_strings(&self.modifier),
            key: self.key.clone(),
        }
    }
}

/// A copy of a list of bindings.
pub fn copy_keybinds(list: &Vec<Keybind>) -> (out: Vec<Keybind>)
    ensures
        out.deep_view() == list.deep_view(),
{
    let mut out: Vec<Keybind> = Vec::new();
    let mut i: usize = 0;
    while i < list.len()
        invariant
            i <= list.len(),
            out.len() == i,
            forall|k: int| 0 <= k < i ==> out[k]@ == list[k]@,
        decreases list.len() - i,
    {
        out.push(list[i].clone());
        i = i + 1;
    }
    assert(out.deep_view() =~= list.deep_view());
    out
}

/// What turns one kind of binding into bindings of this kind.
pub trait CoreKeybind {
    fn to_core_keybind(&self) -> Vec<Keybind>;
}

} // verus!
