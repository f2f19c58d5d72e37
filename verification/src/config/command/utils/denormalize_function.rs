use crate::config::command::form::{action_of, Action};
use crate::config::command::utils::normalized_command::NormalizedCommand;
use crate::config::command::{AnyCommand, Chord, Command, Execute, ExitChord, Kill, Reload};
use vstd::prelude::*;

verus! {

/// The kinds of command that there are.
#[derive(Debug, Clone, Copy, PartialEq, Eq, Hash, Structural)]
pub enum Kind {
    Chord,
    Execute,
    ExitChord,
    Kill,
    Reload,
}

/// The kind of a command.
pub open spec fn kind_of(a: Action) -> Kind {
    match a {
        Action::Chord(_) => Kind::Chord,
        Action::Execute(_) => Kind::Execute,
        Action::ExitChord => Kind::ExitChord,
        Action::Kill => Kind::Kill,
        Action::Reload => Kind::Reload,
    }
}

/// One entry of the registry: the attempt to read a text as a command of
/// one kind.
#[derive(Debug, Clone, Copy, PartialEq, Eq)]
pub struct DenormalizeCommandFunction(pub Kind);

impl DenormalizeCommandFunction {
    pub fn new(kind: Kind) -> (out: Self)
        ensures
            out.0 == kind,
    {
        DenormalizeCommandFunction(kind)
    }

    /// Reads `normalized` as a command of this entry's kind.
    pub fn call(&self, normalized: &NormalizedCommand) -> (out: Option<AnyCommand>)
        ensures
            match action_of(normalized@) {
                Some(a) => if kind_of(a) == self.0 {
                    out matches Some(c) && c.action() == a
                } else {
                    out is None
                },
                None => out is None,
            },
    {
        match self.0 {
            Kind::Chord => match Chord::denormalize(normalized) {
                Some(c) => Some(AnyCommand::Chord(c)),
                None => None,
            },
            Kind::Execute => match Execute::denormalize(normalized) {
                Some(c) => Some(AnyCommand::Execute(c)),
                None => None,
            },
            Kind::ExitChord => match ExitChord::denormalize(normalized) {
                Some(c) => Some(AnyCommand::ExitChord(c)),
                None => None,
            },
            Kind::Kill => match Kill::denormalize(normalized) {
                Some(c) => Some(AnyCommand::Kill(c)),
                None => None,
            },
            Kind::Reload => match Reload::denormalize(normalized) {
                Some(c) => Some(AnyCommand::Reload(c)),
                None => None,
            },
        }
    }
}

} // verus!
