use crate::config::command::form::Action;
use crate::config::command::utils::normalized_command::NormalizedCommand;
use crate::config::command::{decode, AnyCommand, Command};
use crate::errors::Error;
use crate::worker::{Status, Worker};
use vstd::prelude::*;
use vstd::string::StringExecFns;

verus! {

/// Ends the loop so that the settings are read anew.
#[derive(Debug, Clone, Copy, PartialEq, Eq, Hash, Default)]
pub struct Reload;

impl Reload {
    pub fn new() -> (out: Self)
        ensures
            out.action() == Action::Reload,
    {
        Self
    }
}

impl Command for Reload {
    open spec fn action(&self) -> Action {
        Action::Reload
    }

    open spec fn owns(a: Action) -> bool {
        a is Reload
    }

    fn normalize(&self) -> (out: NormalizedCommand) {
        NormalizedCommand(String::from_str("Reload"))
    }

    fn denormalize(generalized: &NormalizedCommand) -> (out: Option<Self>) {
        match decode(generalized) {
            Some(AnyCommand::Reload(c)) => Some(c),
            _ => None,
        }
    }

    fn execute(&self, worker: &mut Worker) -> (out: Error) {
        worker.status = Status::Reload;
        Ok(())
    }

    fn get_name(&self) -> (out: &'static str) {
        "Reload"
    }
}

} // verus!
