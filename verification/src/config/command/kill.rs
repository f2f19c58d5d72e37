use crate::config::command::form::Action;
use crate::config::command::utils::normalized_command::NormalizedCommand;
use crate::config::command::{decode, AnyCommand, Command};
use crate::errors::Error;
use crate::worker::{Status, Worker};
use vstd::prelude::*;
use vstd::string::StringExecFns;

verus! {

/// Ends the daemon.
#[derive(Debug, Clone, Copy, PartialEq, Hash, Eq, Default)]
pub struct Kill;

impl Kill {
    pub fn new() -> (out: Self)
        ensures
            out.action() == Action::Kill,
    {
        Self
    }
}

impl Command for Kill {
    open spec fn action(&self) -> Action {
        Action::Kill
    }

    open spec fn owns(a: Action) -> bool {
        a is Kill
    }

    fn normalize(&self) -> (out: NormalizedCommand) {
        NormalizedCommand(String::from_str("Kill"))
    }

    fn denormalize(generalized: &NormalizedCommand) -> (out: Option<Self>) {
        match decode(generalized) {
            Some(AnyCommand::Kill(c)) => Some(c),
            _ => None,
        }
    }

    fn execute(&self, worker: &mut Worker) -> (out: Error) {
        worker.status = Status::Kill;
        Ok(())
    }

    fn get_name(&self) -> (out: &'static str) {
        "Kill"
    }
}

} // verus!
