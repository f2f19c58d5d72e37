pub mod command;
pub mod keybind;

pub use command::Command;
pub use keybind::{CoreKeybind, Keybind};

use crate::config::keybind::Binding;
use vstd::prelude::*;

verus! {

/// Settings of any kind: what can say which bindings are to be in force.
pub trait Config {
    /// The bindings that the settings stand for.
    spec fn bindings(&self) -> Seq<Binding>;

    fn mapped_bindings(&self) -> (out: Vec<Keybind>)
        ensures
            out.deep_view() == self.bindings(),
    ;
}

} // verus!
