use crate::config::keybind::{Binding, Keybind};
use crate::worker::{settle, Worker};
use vstd::prelude::*;

verus! {

/// The chord that is open, if one is: its bindings, and whether it has run
/// its course and is to be closed before the next event.
#[derive(Debug, PartialEq, Eq)]
pub struct Chord {
    pub keybinds: Option<Vec<Keybind>>,
    pub elapsed: bool,
}

impl Chord {
    /// The bindings of the open chord.
    pub open spec fn bindings(&self) -> Option<Seq<Binding>> {
        match self.keybinds {
            Some(list) => Some(list.deep_view()),
            None => None,
        }
    }

    pub fn new() -> (out: Self)
        ensures
            out.keybinds is None,
            !out.elapsed,
    {
        Self { keybinds: None, elapsed: false }
    }
}

impl Default for Chord {
    fn default() -> (out: Self)
        ensures
            out.keybinds is None,
            !out.elapsed,
    {
        Self::new()
    }
}

impl Worker {
    /// Closes the chord if it has run its course.
    pub fn evaluate_chord(&mut self)
        ensures
            final(self)@ == settle(old(self)@),
    {
        if self.chord_ctx.elapsed {
            self.chord_ctx.keybinds = None;
            self.chord_ctx.elapsed = false;
        }
    }
}

} // verus!
