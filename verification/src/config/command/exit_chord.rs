use crate::config::command::form::Action;
use crate::config::command::utils::normalized_command::NormalizedCommand;
use crate::config::command::{decode, AnyCommand, Command};
use crate::errors::Error;
use crate::worker::Worker;
use vstd::prelude::*;
use vstd::string::StringExecFns;

verus! {

/// Leaves the open chord without doing anything else.
#[derive(Debug, Clone, Copy, PartialEq, Eq, Hash, Default)]
pub struct ExitChord;

impl ExitChord {
    pub fn new() -> (out: Self)
        ensures
            out.action() == Action::ExitChord,
    {
        Self
    }
}

impl Command for ExitChord {
    open spec fn action(&self) -> Action {
        Action::ExitChord
    }

    open spec fn owns(a: Action) -> bool {
        a is ExitChord
    }

    fn normalize(&self) -> (out: NormalizedCommand) {
        NormalizedCommand(String::from_str("ExitChord"))
    }

    fn denormalize(generalized: &NormalizedCommand) -> (out: Option<Self>) {
        match decode(generalized) {
            Some(AnyCommand::ExitChord(c)) => Some(c),
            _ => None,
        }
    }

    fn execute(&self, worker: &mut Worker) -> (out: Error) {
        if worker.chord_ctx.keybinds.is_some() {
            worker.chord_ctx.elapsed = true;
        }
        Ok(())
    }

    fn get_name(&self) -> (out: &'static str) {
        "ExitChord"
    }
}

} // verus!
