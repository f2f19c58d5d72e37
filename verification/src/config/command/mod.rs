//! The commands, and the registry that tells which command a text denotes.

mod chord;
mod execute;
mod exit_chord;
pub mod form;
pub mod laws;
mod kill;
mod reload;

pub mod utils;

pub use self::chord::Chord;
pub use self::execute::Execute;
pub use self::exit_chord::ExitChord;
pub use self::kill::Kill;
pub use self::reload::Reload;

use self::form::{action_of, node_bindings, node_text, normal_form, same, Action};
use self::utils::denormalize_function::{kind_of, DenormalizeCommandFunction, Kind};
use self::utils::normalized_command::NormalizedCommand;
use crate::errors::{Error, LeftError, Result};
use crate::notation::{read_document, Node};
use crate::text::{chars_of, headless, without_head};
use crate::worker::{run, Worker};
use vstd::prelude::*;

verus! {

/// What every command can do: turn into text and back, and run.
pub trait Command: Sized {
    /// What the command is.
    spec fn action(&self) -> Action;

    /// Whether commands of this type are of the kind of `a`.
    spec fn owns(a: Action) -> bool;

    /// The command as text.
    fn normalize(&self) -> (out: NormalizedCommand)
        ensures
            out@ == normal_form(self.action()),
    ;

    /// The command of this type that the text denotes, if it denotes one.
    fn denormalize(generalized: &NormalizedCommand) -> (out: Option<Self>)
        ensures
            match action_of(generalized@) {
                Some(a) => if Self::owns(a) {
                    out matches Some(c) && c.action() == a
                } else {
                    out is None
                },
                None => out is None,
            },
    ;

    /// Runs the command on the worker.
    fn execute(&self, worker: &mut Worker) -> (out: Error)
        ensures
            out is Ok,
            final(worker)@ == run(self.action(), old(worker)@),
    ;

    /// The name of the command's kind.
    fn get_name(&self) -> (out: &'static str)
        ensures
            out@ == name_of(self.action()),
    ;
}

/// The name of the kind of a command.
pub open spec fn name_of(a: Action) -> Seq<char> {
    match a {
        Action::Chord(_) => "Chord"@,
        Action::Execute(_) => "Execute"@,
        Action::ExitChord => "ExitChord"@,
        Action::Reload => "Reload"@,
        Action::Kill => "Kill"@,
    }
}

/// A command of any kind.
#[derive(Debug, PartialEq, Eq)]
pub enum AnyCommand {
    Chord(Chord),
    Execute(Execute),
    ExitChord(ExitChord),
    Reload(Reload),
    Kill(Kill),
}

impl Command for AnyCommand {
    open spec fn action(&self) -> Action {
        match self {
            AnyCommand::Chord(c) => c.action(),
            AnyCommand::Execute(c) => c.action(),
            AnyCommand::ExitChord(c) => c.action(),
            AnyCommand::Reload(c) => c.action(),
            AnyCommand::Kill(c) => c.action(),
        }
    }

    open spec fn owns(a: Action) -> bool {
        true
    }

    fn normalize(&self) -> (out: NormalizedCommand) {
        match self {
            AnyCommand::Chord(c) => c.normalize(),
            AnyCommand::Execute(c) => c.normalize(),
            AnyCommand::ExitChord(c) => c.normalize(),
            AnyCommand::Reload(c) => c.normalize(),
            AnyCommand::Kill(c) => c.normalize(),
        }
    }

    fn denormalize(generalized: &NormalizedCommand) -> (out: Option<Self>) {
        decode(generalized)
    }

    fn execute(&self, worker: &mut Worker) -> (out: Error) {
        match self {
            AnyCommand::Chord(c) => c.execute(worker),
            AnyCommand::Execute(c) => c.execute(worker),
            AnyCommand::ExitChord(c) => c.execute(worker),
            AnyCommand::Reload(c) => c.execute(worker),
            AnyCommand::Kill(c) => c.execute(worker),
        }
    }

    fn get_name(&self) -> (out: &'static str) {
        match self {
            AnyCommand::Chord(c) => c.get_name(),
            AnyCommand::Execute(c) => c.get_name(),
            AnyCommand::ExitChord(c) => c.get_name(),
            AnyCommand::Reload(c) => c.get_name(),
            AnyCommand::Kill(c) => c.get_name(),
        }
    }
}

/// Reads a text as a command.
pub fn decode(text: &NormalizedCommand) -> (out: Option<AnyCommand>)
    ensures
        out matches Some(c) ==> action_of(text@) == Some(c.action()),
        out is None ==> action_of(text@) is None,
{
    let chars = chars_of(text.0.as_str());
    let node = match read_document(&chars) {
        Some(node) => node,
        None => {
            return None;
        },
    };
    match &node {
        Node::Name(name) => {
            if same(name.as_str(), "Kill") {
                Some(AnyCommand::Kill(Kill::new()))
            } else if same(name.as_str(), "Reload") {
                Some(AnyCommand::Reload(Reload::new()))
            } else if same(name.as_str(), "ExitChord") {
                Some(AnyCommand::ExitChord(ExitChord::new()))
            } else {
                None
            }
        },
        Node::Form(name, items) => {
            proof {
                crate::notation::lemma_form_view(*name, *items);
            }
            if same(name.as_str(), "Execute") && items.len() == 1 {
                match node_text(&items[0]) {
                    Some(line) => Some(AnyCommand::Execute(Execute(line))),
                    None => None,
                }
            } else if same(name.as_str(), "Chord") && items.len() == 1 {
                match &items[0] {
                    Node::List(children) => {
                        proof {
                            crate::notation::lemma_list_view(*children);
                        }
                        match node_bindings(children) {
                            Some(bindings) => Some(AnyCommand::Chord(Chord(bindings))),
                            None => None,
                        }
                    },
                    _ => None,
                }
            } else {
                None
            }
        },
        _ => None,
    }
}

/// The entries of the registry, in the order in which they are tried.
pub fn registry() -> (out: Vec<DenormalizeCommandFunction>)
    ensures
        out@ == seq![
            DenormalizeCommandFunction(Kind::Chord),
            DenormalizeCommandFunction(Kind::Execute),
            DenormalizeCommandFunction(Kind::ExitChord),
            DenormalizeCommandFunction(Kind::Kill),
            DenormalizeCommandFunction(Kind::Reload),
        ],
{
    let mut out: Vec<DenormalizeCommandFunction> = Vec::new();
    out.push(DenormalizeCommandFunction::new(Kind::Chord));
    out.push(DenormalizeCommandFunction::new(Kind::Execute));
    out.push(DenormalizeCommandFunction::new(Kind::ExitChord));
    out.push(DenormalizeCommandFunction::new(Kind::Kill));
    out.push(DenormalizeCommandFunction::new(Kind::Reload));
    assert(out@ =~= seq![
        DenormalizeCommandFunction(Kind::Chord),
        DenormalizeCommandFunction(Kind::Execute),
        DenormalizeCommandFunction(Kind::ExitChord),
        DenormalizeCommandFunction(Kind::Kill),
        DenormalizeCommandFunction(Kind::Reload),
    ]);
    out
}

/// Tries the entries of `entries` in order and returns what the first one
/// that succeeds has read.
pub fn denormalize_with(entries: &Vec<DenormalizeCommandFunction>, normalized: &NormalizedCommand)
    -> (out: Result<AnyCommand>)
    ensures
        match action_of(normalized@) {
            Some(a) => if exists|i: int| 0 <= i < entries.len() && entries[i].0 == kind_of(a) {
                out matches Ok(c) && c.action() == a
            } else {
                out == Err::<AnyCommand, LeftError>(LeftError::UnmatchingCommand)
            },
            None => out == Err::<AnyCommand, LeftError>(LeftError::UnmatchingCommand),
        },
{
    let mut i: usize = 0;
    while i < entries.len()
        invariant
            i <= entries.len(),
            action_of(normalized@) matches Some(a) ==> forall|k: int|
                0 <= k < i ==> entries[k].0 != kind_of(a),
        decreases entries.len() - i,
    {
        if let Some(command) = entries[i].call(normalized) {
            return Ok(command);
        }
        i = i + 1;
    }
    Err(LeftError::UnmatchingCommand)
}

/// The command that a text denotes, whatever its kind.
pub fn denormalize(normalized: &NormalizedCommand) -> (out: Result<AnyCommand>)
    ensures
        match action_of(normalized@) {
            Some(a) => out matches Ok(c) && c.action() == a,
            None => out == Err::<AnyCommand, LeftError>(LeftError::UnmatchingCommand),
        },
{
    let entries = registry();
    proof {
        if let Some(a) = action_of(normalized@) {
            match kind_of(a) {
                Kind::Chord => assert(entries[0].0 == kind_of(a)),
                Kind::Execute => assert(entries[1].0 == kind_of(a)),
                Kind::ExitChord => assert(entries[2].0 == kind_of(a)),
                Kind::Kill => assert(entries[3].0 == kind_of(a)),
                Kind::Reload => assert(entries[4].0 == kind_of(a)),
            }
        }
    }
    denormalize_with(&entries, normalized)
}

/// The command that runs what is left of `raw` without the word
/// `Execute` and a space before it.
pub fn build_execute(raw: &str) -> (out: Result<AnyCommand>)
    ensures
        out matches Ok(c) && c.action() == Action::Execute(headless(raw@, "Execute "@)),
{
    let headless = without_head(raw, "Execute ");
    Ok(AnyCommand::Execute(Execute::new(headless)))
}

/// The command that a bare word names.
pub open spec fn named_by(word: Seq<char>) -> Option<Action> {
    if word == "Execute"@ {
        Some(Action::Execute(headless(word, "Execute "@)))
    } else if word == "ExitChord"@ {
        Some(Action::ExitChord)
    } else if word == "Reload"@ {
        Some(Action::Reload)
    } else if word == "Kill"@ {
        Some(Action::Kill)
    } else {
        None
    }
}

impl AnyCommand {
    /// The command that a bare word names.
    pub fn try_from(value: &str) -> (out: Result<Self>)
        ensures
            match named_by(value@) {
                Some(a) => out matches Ok(c) && c.action() == a,
                None => out == Err::<AnyCommand, LeftError>(LeftError::CommandNotFound),
            },
    {
        if same(value, "Execute") {
            build_execute(value)
        } else if same(value, "ExitChord") {
            Ok(AnyCommand::ExitChord(ExitChord::new()))
        } else if same(value, "Reload") {
            Ok(AnyCommand::Reload(Reload::new()))
        } else if same(value, "Kill") {
            Ok(AnyCommand::Kill(Kill::new()))
        } else {
            Err(LeftError::CommandNotFound)
        }
    }
}

} // verus!
