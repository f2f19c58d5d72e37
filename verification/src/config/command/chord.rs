use crate::config::command::form::{write_chord, Action};
use crate::config::command::utils::normalized_command::NormalizedCommand;
use crate::config::command::{decode, AnyCommand, Command};
use crate::config::keybind::{copy_keybinds, Keybind};
use crate::errors::Error;
use crate::worker::Worker;
use vstd::prelude::*;

verus! {

/// Opens a chord: from now on only its own bindings are in force.
#[derive(Debug, PartialEq, Eq)]
pub struct Chord(pub Vec<Keybind>);

impl Clone for Chord {
    fn clone(&self) -> (out: Self)
        ensures
            out.action() == self.action(),
    {
        Chord(copy_keybinds(&self.0))
    }
}

impl Chord {
    pub fn new(keybinds: Vec<Keybind>) -> (out: Self)
        ensures
            out.action() == Action::Chord(keybinds.deep_view()),
    {
        Self(keybinds)
    }
}

impl Command for Chord {
    open spec fn action(&self) -> Action {
        Action::Chord(self.0.deep_view())
    }

    open spec fn owns(a: Action) -> bool {
        a is Chord
    }

    fn normalize(&self) -> (out: NormalizedCommand) {
        NormalizedCommand(write_chord(&self.0))
    }

    fn denormalize(generalized: &NormalizedCommand) -> (out: Option<Self>) {
        match decode(generalized) {
            Some(AnyCommand::Chord(c)) => Some(c),
            _ => None,
        }
    }

    fn execute(&self, worker: &mut Worker) -> (out: Error) {
        worker.chord_ctx.keybinds = Some(copy_keybinds(&self.0));
        Ok(())
    }

    fn get_name(&self) -> (out: &'static str) {
        "Chord"
    }
}

} // verus!
