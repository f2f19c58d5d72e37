use crate::config::command::form::{normal_form, Action};
use crate::config::command::{Chord, Command as CoreCommand, Execute, ExitChord, Kill, Reload};
use crate::config::keybind::{Binding, Keybind as CoreKeybind};
use crate::errors::{LeftError, Result};
use crate::settings::key::{Key, KeyView};
use crate::text::copy_strings;
use vstd::prelude::*;

verus! {

/// A command as it is written in the settings.
#[derive(Debug, PartialEq, Eq)]
pub enum Command {
    Chord(Vec<Keybind>),
    Execute(String),
    /// Several lines, one for each key of the binding.
    Executes(Vec<String>),
    ExitChord,
    Reload,
    Kill,
}

/// A binding as it is written in the settings. Without modifiers of its
/// own it takes the default ones.
#[derive(Debug, PartialEq, Eq)]
pub struct Keybind {
    pub command: Command,
    pub modifier: Option<Vec<String>>,
    pub key: Key,
}

pub type Keybinds = Vec<Keybind>;

pub ghost enum CommandView {
    Chord(Seq<KeybindView>),
    Execute(Seq<char>),
    Executes(Seq<Seq<char>>),
    ExitChord,
    Reload,
    Kill,
}

pub ghost struct KeybindView {
    pub command: CommandView,
    pub modifier: Option<Seq<Seq<char>>>,
    pub key: KeyView,
}

/// A modifier list as plain text.
pub open spec fn modifier_view(modifier: Option<Vec<String>>) -> Option<Seq<Seq<char>>> {
    match modifier {
        Some(list) => Some(list.deep_view()),
        None => None,
    }
}

impl Command {
    pub open spec fn view(&self) -> CommandView
        decreases self,
    {
        match self {
            Command::Chord(children) => CommandView::Chord(
                Seq::new(
                    children@.len(),
                    |i: int|
                        if 0 <= i < children@.len() {
                            children@[i].view()
                        } else {
                            arbitrary()
                        },
                ),
            ),
            Command::Execute(line) => CommandView::Execute(line@),
            Command::Executes(lines) => CommandView::Executes(lines.deep_view()),
            Command::ExitChord => CommandView::ExitChord,
            Command::Reload => CommandView::Reload,
            Command::Kill => CommandView::Kill,
        }
    }
}

impl Keybind {
    pub open spec fn view(&self) -> KeybindView
        decreases self,
    {
        KeybindView {
            command: self.command.view(),
            modifier: modifier_view(self.modifier),
            key: self.key@,
        }
    }
}

/// A list of bindings as plain values.
pub open spec fn views(list: Seq<Keybind>) -> Seq<KeybindView> {
    Seq::new(list.len(), |i: int| list[i]@)
}

pub proof fn lemma_chord_view(children: Vec<Keybind>)
    ensures
        Command::Chord(children)@ == CommandView::Chord(views(children@)),
{
    assert(Command::Chord(children)@->Chord_0 =~= views(children@));
}

fn copy_modifier(modifier: &Option<Vec<String>>) -> (out: Option<Vec<String>>)
    ensures
        modifier_view(out) == modifier_view(*modifier),
{
    match modifier {
        Some(list) => Some(copy_strings(list)),
        None => None,
    }
}

impl Command {
    /// A copy of the command.
    pub fn copy(&self) -> (out: Self)
        ensures
            out@ == self@,
        decreases self, 1int,
    {
        match self {
            Command::Chord(children) => {
                let copied = copy_all(children);
                proof {
                    lemma_chord_view(*children);
                    lemma_chord_view(copied);
                }
                Command::Chord(copied)
            },
            Command::Execute(line) => Command::Execute(line.clone()),
            Command::Executes(lines) => Command::Executes(copy_strings(lines)),
            Command::ExitChord => Command::ExitChord,
            Command::Reload => Command::Reload,
            Command::Kill => Command::Kill,
        }
    }
}

impl Keybind {
    /// A copy of the binding.
    pub fn copy(&self) -> (out: Self)
        ensures
            out@ == self@,
        decreases self, 0int,
    {
        Keybind {
            command: self.command.copy(),
            modifier: copy_modifier(&self.modifier),
            key: self.key.clone(),
        }
    }
}

/// A copy of a list of bindings.
pub fn copy_all(list: &Vec<Keybind>) -> (out: Vec<Keybind>)
    ensures
        views(out@) == views(list@),
    decreases list, 0int,
{
    let mut out: Vec<Keybind> = Vec::new();
    let mut i: usize = 0;
    while i < list.len()
        invariant
            i <= list.len(),
            out.len() == i,
            forall|k: int| 0 <= k < i ==> out[k]@ == list[k]@,
        decreases list.len() - i,
    {
        out.push(list[i].copy());
        i = i + 1;
    }
    assert(views(out@) =~= views(list@));
    out
}

impl Clone for Command {
    fn clone(&self) -> (out: Self)
        ensures
            out@ == self@,
    {
        self.copy()
    }
}

impl Clone for Keybind {
    fn clone(&self) -> (out: Self)
        ensures
            out@ == self@,
    {
        self.copy()
    }
}

/// The modifiers of a binding: its own, else the default ones.
pub open spec fn modifier_or(modifier: Option<Seq<Seq<char>>>, default: Seq<Seq<char>>) -> Seq<
    Seq<char>,
> {
    match modifier {
        Some(m) => m,
        None => default,
    }
}

/// The one binding that a command with a single key becomes.
pub open spec fn single(a: Action, kb: KeybindView, default: Seq<Seq<char>>) -> core::result::Result<
    Seq<Binding>,
    LeftError,
> {
    match kb.key {
        KeyView::Key(key) => Ok(
            seq![
                Binding {
                    command: normal_form(a),
                    modifier: modifier_or(kb.modifier, default),
                    key,
                },
            ],
        ),
        KeyView::Keys(_) => Err(LeftError::SingleKeyNeeded),
    }
}

/// The bindings that a binding of the settings becomes.
///
/// A chord becomes one binding whose command holds what its children
/// become; a child that cannot be converted is left out. `Executes` becomes
/// one binding for each line, with the key at the same place.
pub open spec fn converted(kb: KeybindView, default: Seq<Seq<char>>) -> core::result::Result<
    Seq<Binding>,
    LeftError,
>
    decreases kb, 0int,
{
    match kb.command {
        CommandView::Chord(children) => if children.len() == 0 {
            Err(LeftError::ChildrenNotFound)
        } else {
            single(
                Action::Chord(converted_upto(children, default, children.len() as int)),
                kb,
                default,
            )
        },
        CommandView::Execute(value) => if value.len() == 0 {
            Err(LeftError::ValueNotFound)
        } else {
            single(Action::Execute(value), kb, default)
        },
        CommandView::Executes(values) => if values.len() == 0 {
            Err(LeftError::ValuesNotFound)
        } else {
            match kb.key {
                KeyView::Key(_) => Err(LeftError::MultipleKeysNeeded),
                KeyView::Keys(keys) => if keys.len() != values.len() {
                    Err(LeftError::NumberOfKeysDiffersFromValues)
                } else {
                    Ok(
                        Seq::new(
                            values.len(),
                            |i: int|
                                Binding {
                                    command: normal_form(Action::Execute(values[i])),
                                    modifier: modifier_or(kb.modifier, default),
                                    key: keys[i],
                                },
                        ),
                    )
                },
            }
        },
        CommandView::ExitChord => single(Action::ExitChord, kb, default),
        CommandView::Reload => single(Action::Reload, kb, default),
        CommandView::Kill => single(Action::Kill, kb, default),
    }
}

/// What the first `n` bindings of a list become, one after the other; a
/// binding that cannot be converted adds nothing.
pub open spec fn converted_upto(children: Seq<KeybindView>, default: Seq<Seq<char>>, n: int)
    -> Seq<Binding>
    decreases children, n,
{
    if n <= 0 || n > children.len() {
        Seq::empty()
    } else {
        converted_upto(children, default, n - 1) + (match converted(children[n - 1], default) {
            Ok(list) => list,
            Err(_) => Seq::empty(),
        })
    }
}

fn modifier_of(kb: &Keybind, default_modifier: &Vec<String>) -> (out: Vec<String>)
    ensures
        out.deep_view() == modifier_or(kb@.modifier, default_modifier.deep_view()),
{
    match &kb.modifier {
        Some(m) => copy_strings(m),
        None => copy_strings(default_modifier),
    }
}

fn one<C: CoreCommand>(command: &C, kb: &Keybind, default_modifier: &Vec<String>) -> (out: Result<
    Vec<CoreKeybind>,
>)
    ensures
        out matches Ok(list) ==> single(command.action(), kb@, default_modifier.deep_view()) == Ok::<
            Seq<Binding>,
            LeftError,
        >(list.deep_view()),
        out matches Err(e) ==> single(command.action(), kb@, default_modifier.deep_view()) == Err::<
            Seq<Binding>,
            LeftError,
        >(e),
{
    match &kb.key {
        Key::Key(key) => {
            let mut list: Vec<CoreKeybind> = Vec::new();
            let binding = CoreKeybind {
                command: command.normalize(),
                modifier: modifier_of(kb, default_modifier),
                key: key.clone(),
            };
            let ghost b = binding@;
            list.push(binding);
            assert(list.deep_view() =~= seq![b]);
            Ok(list)
        },
        Key::Keys(_) => Err(LeftError::SingleKeyNeeded),
    }
}

/// Converts the bindings of a list, one after the other.
pub fn convert_all(children: &Vec<Keybind>, default_modifier: &Vec<String>) -> (out: Vec<
    CoreKeybind,
>)
    ensures
        out.deep_view() == converted_upto(
            views(children@),
            default_modifier.deep_view(),
            children.len() as int,
        ),
    decreases children, 0int,
{
    let mut out: Vec<CoreKeybind> = Vec::new();
    let mut i: usize = 0;
    assert(out.deep_view() =~= Seq::<Binding>::empty());
    while i < children.len()
        invariant
            i <= children.len(),
            out.deep_view() == converted_upto(
                views(children@),
                default_modifier.deep_view(),
                i as int,
            ),
        decreases children.len() - i,
    {
        let ghost before = out.deep_view();
        match try_from(&children[i], default_modifier) {
            Ok(mut list) => {
                let ghost added = list.deep_view();
                out.append(&mut list);
                assert(out.deep_view() =~= before + added);
            },
            Err(_) => {
                assert(out.deep_view() =~= before + Seq::<Binding>::empty());
            },
        }
        i = i + 1;
    }
    out
}

/// Converts a binding of the settings into the bindings that the worker
/// runs on.
pub fn try_from(kb: &Keybind, default_modifier: &Vec<String>) -> (out: Result<Vec<CoreKeybind>>)
    ensures
        out matches Ok(list) ==> converted(kb@, default_modifier.deep_view()) == Ok::<
            Seq<Binding>,
            LeftError,
        >(list.deep_view()),
        out matches Err(e) ==> converted(kb@, default_modifier.deep_view()) == Err::<
            Seq<Binding>,
            LeftError,
        >(e),
    decreases kb, 1int,
{
    match &kb.command {
        Command::Chord(children) => {
            proof {
                lemma_chord_view(*children);
            }
            if children.len() == 0 {
                return Err(LeftError::ChildrenNotFound);
            }
            let converted_children = convert_all(children, default_modifier);
            one(&Chord::new(converted_children), kb, default_modifier)
        },
        Command::Execute(value) => {
            if value.as_str().unicode_len() == 0 {
                return Err(LeftError::ValueNotFound);
            }
            one(&Execute::new(value.as_str()), kb, default_modifier)
        },
        Command::Executes(values) => {
            if values.len() == 0 {
                return Err(LeftError::ValuesNotFound);
            }
            let keys = match &kb.key {
                Key::Key(_) => {
                    return Err(LeftError::MultipleKeysNeeded);
                },
                Key::Keys(keys) => keys,
            };
            if keys.len() != values.len() {
                return Err(LeftError::NumberOfKeysDiffersFromValues);
            }
            let mut list: Vec<CoreKeybind> = Vec::new();
            let mut i: usize = 0;
            while i < values.len()
                invariant
                    i <= values.len(),
                    keys.len() == values.len(),
                    list.len() == i,
                    forall|k: int|
                        0 <= k < i ==> list[k]@ == (Binding {
                            command: normal_form(Action::Execute(values[k]@)),
                            modifier: modifier_or(kb@.modifier, default_modifier.deep_view()),
                            key: keys[k]@,
                        }),
                decreases values.len() - i,
            {
                let binding = CoreKeybind {
                    command: Execute::new(values[i].as_str()).normalize(),
                    modifier: modifier_of(kb, default_modifier),
                    key: keys[i].clone(),
                };
                list.push(binding);
                i = i + 1;
            }
            assert(converted(kb@, default_modifier.deep_view()).unwrap() =~= list.deep_view());
            Ok(list)
        },
        Command::ExitChord => one(&ExitChord::new(), kb, default_modifier),
        Command::Reload => one(&Reload::new(), kb, default_modifier),
        Command::Kill => one(&Kill::new(), kb, default_modifier),
    }
}

} // verus!
