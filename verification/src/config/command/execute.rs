use crate::config::command::form::{write_execute, Action};
use crate::config::command::utils::normalized_command::NormalizedCommand;
use crate::config::command::{decode, AnyCommand, Command};
use crate::errors::Error;
use crate::worker::Worker;
use vstd::prelude::*;
use vstd::string::StringExecFns;

verus! {

/// Runs a line in a shell.
#[derive(Debug, PartialEq, Eq, Hash)]
pub struct Execute(pub String);

impl Clone for Execute {
    fn clone(&self) -> (out: Self)
        ensures
            out.action() == self.action(),
    {
        Execute(self.0.clone())
    }
}

impl Execute {
    pub fn new(shell_command: &str) -> (out: Self)
        ensures
            out.action() == Action::Execute(shell_command@),
    {
        Self(String::from_str(shell_command))
    }
}

impl Command for Execute {
    open spec fn action(&self) -> Action {
        Action::Execute(self.0@)
    }

    open spec fn owns(a: Action) -> bool {
        a is Execute
    }

    fn normalize(&self) -> (out: NormalizedCommand) {
        NormalizedCommand(write_execute(self.0.as_str()))
    }

    fn denormalize(generalized: &NormalizedCommand) -> (out: Option<Self>) {
        match decode(generalized) {
            Some(AnyCommand::Execute(c)) => Some(c),
            _ => None,
        }
    }

    fn execute(&self, worker: &mut Worker) -> (out: Error) {
        worker.chord_ctx.elapsed = worker.chord_ctx.keybinds.is_some();
        worker.exec(self.0.as_str())
    }

    fn get_name(&self) -> (out: &'static str) {
        "Execute"
    }
}

} // verus!
