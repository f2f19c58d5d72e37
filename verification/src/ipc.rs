//! The channel on which other processes send commands: one command to a
//! line.

use crate::config::command::form::{action_of, same, Action};
use crate::config::command::utils::normalized_command::NormalizedCommand;
use crate::config::command::{denormalize, AnyCommand, Command, Kill, Reload};
use crate::errors::{LeftError, Result};
use crate::notation::{end_of_line, line_end};
use crate::text::{chars_of, string_of};
use vstd::prelude::*;
use vstd::string::StringExecFns;

verus! {

/// The place of the last colon of `s`.
pub open spec fn last_colon(s: Seq<char>) -> Option<int>
    decreases s.len(),
{
    if s.len() == 0 {
        None
    } else if s.last() == ':' {
        Some(s.len() - 1)
    } else {
        last_colon(s.drop_last())
    }
}

/// The number of the display: what follows the last colon of the display's
/// name, and `0` where there is no name or no colon in it.
pub open spec fn display_number(display: Option<Seq<char>>) -> Seq<char> {
    match display {
        Some(d) => match last_colon(d) {
            Some(i) => d.subrange(i + 1, d.len() as int),
            None => "0"@,
        },
        None => "0"@,
    }
}

/// A line is taken when it denotes a command.
pub open spec fn accepted(line: Seq<char>) -> bool {
    action_of(line) is Some
}

/// The complete lines of `s` from `i` on that are taken, in order. A line
/// is complete when a newline ends it.
pub open spec fn commands_from(s: Seq<char>, i: int) -> Seq<Seq<char>>
    decreases s.len() - i,
{
    let e = line_end(s, i);
    if i < 0 || e < i || e >= s.len() {
        Seq::empty()
    } else {
        let line = s.subrange(i, e);
        if accepted(line) {
            seq![line] + commands_from(s, e + 1)
        } else {
            commands_from(s, e + 1)
        }
    }
}

/// The complete lines of `s` from `i` on that are not taken, in order.
pub open spec fn discarded_from(s: Seq<char>, i: int) -> Seq<Seq<char>>
    decreases s.len() - i,
{
    let e = line_end(s, i);
    if i < 0 || e < i || e >= s.len() {
        Seq::empty()
    } else {
        let line = s.subrange(i, e);
        if accepted(line) {
            discarded_from(s, e + 1)
        } else {
            seq![line] + discarded_from(s, e + 1)
        }
    }
}

/// What follows the last complete line of `s` from `i` on.
pub open spec fn rest_from(s: Seq<char>, i: int) -> Seq<char>
    decreases s.len() - i,
{
    let e = line_end(s, i);
    if i < 0 || i > s.len() {
        Seq::empty()
    } else if e < i || e >= s.len() {
        s.subrange(i, s.len() as int)
    } else {
        rest_from(s, e + 1)
    }
}

/// The channel, as seen from the worker: the commands that have come in
/// and wait, and the beginning of a line whose end has not come yet.
#[derive(Debug)]
pub struct Pipe {
    pub partial: String,
    pub waiting: Vec<NormalizedCommand>,
}

pub ghost struct Channel {
    pub partial: Seq<char>,
    pub waiting: Seq<Seq<char>>,
}

impl View for Pipe {
    type V = Channel;

    open spec fn view(&self) -> Channel {
        Channel { partial: self.partial@, waiting: self.waiting.deep_view() }
    }
}

impl DeepView for NormalizedCommand {
    type V = Seq<char>;

    open spec fn deep_view(&self) -> Seq<char> {
        self@
    }
}

impl Pipe {
    /// An empty channel.
    pub fn new() -> (out: Self)
        ensures
            out@ == (Channel { partial: Seq::empty(), waiting: Seq::empty() }),
    {
        let out = Pipe { partial: String::new(), waiting: Vec::new() };
        assert(out.waiting.deep_view() =~= Seq::<Seq<char>>::empty());
        out
    }

    /// The name of the channel's file for a display.
    pub fn pipe_name(display: Option<&str>) -> (out: String)
        ensures
            out@ == "command-"@ + display_number(
                match display {
                    Some(d) => Some(d@),
                    None => None,
                },
            ) + ".pipe"@,
    {
        let mut out = String::from_str("command-");
        match display {
            Some(d) => {
                let chars = chars_of(d);
                let mut i: usize = chars.len();
                assert(chars@.take(i as int) =~= chars@);
                while i > 0 && chars[i - 1] != ':'
                    invariant
                        i <= chars.len(),
                        last_colon(chars@) == last_colon(chars@.take(i as int)),
                    decreases i,
                {
                    assert(chars@.take(i as int).drop_last() =~= chars@.take(i - 1));
                    i = i - 1;
                }
                if i == 0 {
                    out.append("0");
                } else {
                    assert(chars@.take(i as int).last() == ':');
                    let number = string_of(&chars, i, chars.len());
                    out.append(number.as_str());
                }
            },
            None => {
                out.append("0");
            },
        }
        out.append(".pipe");
        out
    }

    /// Takes a line if it denotes a command.
    pub fn accept(content: String) -> (out: Option<NormalizedCommand>)
        ensures
            accepted(content@) ==> (out matches Some(n) && n@ == content@),
            !accepted(content@) ==> out is None,
    {
        match NormalizedCommand::try_from(content) {
            Ok(normalized) => {
                if denormalize(&normalized).is_ok() {
                    Some(normalized)
                } else {
                    None
                }
            },
            Err(_) => None,
        }
    }

    /// Takes in what was written to the channel: every line that is now
    /// complete and denotes a command joins those that wait; what follows
    /// the last newline is kept for later. Returns the complete lines that
    /// denote no command: they are dropped, and the caller may want to say
    /// so.
    pub fn write(&mut self, text: &str) -> (discarded: Vec<String>)
        ensures
            final(self)@.waiting == old(self)@.waiting + commands_from(
                old(self)@.partial + text@,
                0,
            ),
            final(self)@.partial == rest_from(old(self)@.partial + text@, 0),
            discarded.deep_view() == discarded_from(old(self)@.partial + text@, 0),
    {
        let mut all = chars_of(self.partial.as_str());
        let mut more = chars_of(text);
        all.append(&mut more);
        assert(all@ =~= old(self)@.partial + text@);
        let ghost before = self.waiting.deep_view();
        let mut discarded: Vec<String> = Vec::new();
        let mut i: usize = 0;
        assert(before + Seq::<Seq<char>>::empty() =~= before);
        assert(discarded.deep_view() =~= Seq::<Seq<char>>::empty());
        assert(discarded.deep_view() + discarded_from(all@, 0) =~= discarded_from(all@, 0));
        loop
            invariant_except_break
                i <= all.len(),
                before == old(self)@.waiting,
                self.waiting.deep_view() + commands_from(all@, i as int) == before + commands_from(
                    all@,
                    0,
                ),
                discarded.deep_view() + discarded_from(all@, i as int) == discarded_from(all@, 0),
                rest_from(all@, i as int) == rest_from(all@, 0),
            ensures
                i <= all.len(),
                self.waiting.deep_view() == before + commands_from(all@, 0),
                discarded.deep_view() == discarded_from(all@, 0),
                all@.subrange(i as int, all@.len() as int) == rest_from(all@, 0),
                before == old(self)@.waiting,
            decreases all.len() - i,
        {
            let e = end_of_line(&all, i);
            if e >= all.len() {
                assert(self.waiting.deep_view() + Seq::<Seq<char>>::empty()
                    =~= self.waiting.deep_view());
                assert(discarded.deep_view() + Seq::<Seq<char>>::empty()
                    =~= discarded.deep_view());
                break ;
            }
            let line = string_of(&all, i, e);
            let ghost held = self.waiting.deep_view();
            let ghost dropped = discarded.deep_view();
            let ghost this = all@.subrange(i as int, e as int);
            let copy = line.clone();
            match Pipe::accept(line) {
                Some(normalized) => {
                    self.waiting.push(normalized);
                    assert(self.waiting.deep_view() =~= held.push(this));
                    assert(self.waiting.deep_view() + commands_from(all@, e + 1) =~= held + (
                    seq![this] + commands_from(all@, e + 1)));
                },
                None => {
                    discarded.push(copy);
                    assert(discarded.deep_view() =~= dropped.push(this));
                    assert(discarded.deep_view() + discarded_from(all@, e + 1) =~= dropped + (
                    seq![this] + discarded_from(all@, e + 1)));
                },
            }
            i = e + 1;
        }
        self.partial = string_of(&all, i, all.len());
        discarded
    }

    /// The command that has waited longest, read: nothing where none waits.
    pub fn get_next_command(&mut self) -> (out: Option<AnyCommand>)
        ensures
            old(self)@.waiting.len() == 0 ==> out is None && final(self)@ == old(self)@,
            old(self)@.waiting.len() > 0 ==> final(self)@ == (Channel {
                waiting: old(self)@.waiting.drop_first(),
                ..old(self)@
            }) && match action_of(old(self)@.waiting[0]) {
                Some(a) => out matches Some(c) && c.action() == a,
                None => out is None,
            },
    {
        if self.waiting.len() == 0 {
            return None;
        }
        let ghost before = self.waiting.deep_view();
        let first = self.waiting.remove(0);
        assert(self.waiting.deep_view() =~= before.drop_first());
        assert(first@ == before[0]);
        match denormalize(&first) {
            Ok(command) => Some(command),
            Err(_) => None,
        }
    }
}

/// Reads one of the two words that end or restart the daemon.
pub fn parse_command(string: &str) -> (out: Result<AnyCommand>)
    ensures
        string@ == "Reload"@ ==> (out matches Ok(c) && c.action() == Action::Reload),
        string@ != "Reload"@ && string@ == "Kill"@ ==> (out matches Ok(c) && c.action()
            == Action::Kill),
        string@ != "Reload"@ && string@ != "Kill"@ ==> out == Err::<AnyCommand, LeftError>(
            LeftError::CommandNotFound,
        ),
{
    if same(string, "Reload") {
        Ok(AnyCommand::Reload(Reload::new()))
    } else if same(string, "Kill") {
        Ok(AnyCommand::Kill(Kill::new()))
    } else {
        Err(LeftError::CommandNotFound)
    }
}

} // verus!
