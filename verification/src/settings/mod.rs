//! The settings as their file holds them, and how they become the
//! bindings that the worker runs on.

pub mod command;
pub mod key;
pub mod keybind;
pub mod laws;
pub mod read;

use self::keybind::{
    convert_all, converted_upto, copy_all, lemma_chord_view, views, Command, CommandView, Keybind,
    KeybindView, Keybinds,
};
use self::read::{
    config_tree, find_from, read_keybinds, settings_from, settings_of, switches_implicit,
    ConfigView,
};
use crate::config::command::form::{node_text_list, same};
use crate::config::keybind::Binding;
use crate::errors::{LeftError, Result};
use crate::notation::{after_space, lemma_form_view, lemma_list_view, read_value, Node, Tree};
use crate::text::{chars_of, copy_strings};
use vstd::prelude::*;

verus! {

/// The settings: the modifiers of bindings that name none, and the
/// bindings.
#[derive(Debug, PartialEq, Eq)]
pub struct Config {
    pub default_modifier: Vec<String>,
    pub keybinds: Keybinds,
}

impl View for Config {
    type V = ConfigView;

    open spec fn view(&self) -> ConfigView {
        ConfigView {
            default_modifier: self.default_modifier.deep_view(),
            keybinds: views(self.keybinds@),
        }
    }
}

impl Clone for Config {
    fn clone(&self) -> (out: Self)
        ensures
            out@ == self@,
    {
        Config {
            default_modifier: copy_strings(&self.default_modifier),
            keybinds: copy_all(&self.keybinds),
        }
    }
}

/// The first binding, from `i` on, that leaves a chord.
pub open spec fn first_exit_from(list: Seq<KeybindView>, i: int) -> Option<KeybindView>
    decreases list.len() - i,
{
    if i < 0 || i >= list.len() {
        None
    } else if list[i].command is ExitChord {
        Some(list[i])
    } else {
        first_exit_from(list, i + 1)
    }
}

/// The first binding of a list that leaves a chord.
pub open spec fn first_exit(list: Seq<KeybindView>) -> Option<KeybindView> {
    first_exit_from(list, 0)
}

/// A binding with the way out handed down: a chord without a binding that
/// leaves it gets `exit` as its last binding, and every chord inside it is
/// handed the way out of the chord around it in turn. Anything but a chord
/// stays as it is.
pub open spec fn propagated(kb: KeybindView, exit: Option<KeybindView>) -> KeybindView
    decreases kb, 0int,
{
    match kb.command {
        CommandView::Chord(children) => {
            let own = first_exit(children);
            let parent = if own is Some {
                own
            } else {
                exit
            };
            let inner = propagated_upto(children, parent, children.len() as int);
            KeybindView {
                command: CommandView::Chord(
                    if own is None && exit is Some {
                        inner.push(exit.unwrap())
                    } else {
                        inner
                    },
                ),
                ..kb
            }
        },
        _ => kb,
    }
}

/// The first `n` bindings of a list, each with the way out handed down.
pub open spec fn propagated_upto(list: Seq<KeybindView>, exit: Option<KeybindView>, n: int)
    -> Seq<KeybindView>
    decreases list, n,
{
    if n <= 0 || n > list.len() {
        Seq::empty()
    } else {
        propagated_upto(list, exit, n - 1).push(propagated(list[n - 1], exit))
    }
}

/// The settings with the way out of the top level handed down into every
/// chord.
pub open spec fn with_exits(c: ConfigView) -> ConfigView {
    ConfigView {
        keybinds: propagated_upto(c.keybinds, first_exit(c.keybinds), c.keybinds.len() as int),
        ..c
    }
}

/// The first binding of a list that leaves a chord.
pub fn find_exit(list: &Vec<Keybind>) -> (out: Option<Keybind>)
    ensures
        out matches Some(kb) ==> first_exit(views(list@)) == Some(kb@),
        out is None ==> first_exit(views(list@)) is None,
{
    let mut i: usize = 0;
    while i < list.len()
        invariant
            i <= list.len(),
            first_exit(views(list@)) == first_exit_from(views(list@), i as int),
        decreases list.len() - i,
    {
        match &list[i].command {
            Command::ExitChord => {
                return Some(list[i].clone());
            },
            _ => {},
        }
        i = i + 1;
    }
    None
}

/// Hands the way out down into one binding.
pub fn propagate_into(kb: &Keybind, exit_chord: &Option<Keybind>) -> (out: Keybind)
    ensures
        out@ == propagated(
            kb@,
            match *exit_chord {
                Some(e) => Some(e@),
                None => None,
            },
        ),
    decreases kb, 1int,
{
    match &kb.command {
        Command::Chord(children) => {
            proof {
                lemma_chord_view(*children);
            }
            let own = find_exit(children);
            let mut inner = match &own {
                Some(_) => propagate_exit_chord(children, &own),
                None => propagate_exit_chord(children, exit_chord),
            };
            let ghost before = views(inner@);
            if own.is_none() {
                if let Some(e) = exit_chord {
                    inner.push(e.clone());
                    assert(views(inner@) =~= before.push(e@));
                }
            }
            proof {
                lemma_chord_view(inner);
            }
            Keybind {
                command: Command::Chord(inner),
                modifier: match &kb.modifier {
                    Some(m) => Some(copy_strings(m)),
                    None => None,
                },
                key: kb.key.clone(),
            }
        },
        _ => kb.clone(),
    }
}

/// Hands the way out down into every chord of a list.
pub fn propagate_exit_chord(chords: &Vec<Keybind>, exit_chord: &Option<Keybind>) -> (out: Vec<
    Keybind,
>)
    ensures
        views(out@) == propagated_upto(
            views(chords@),
            match *exit_chord {
                Some(e) => Some(e@),
                None => None,
            },
            chords.len() as int,
        ),
    decreases chords, 0int,
{
    let mut out: Vec<Keybind> = Vec::new();
    let mut i: usize = 0;
    assert(views(out@) =~= Seq::<KeybindView>::empty());
    while i < chords.len()
        invariant
            i <= chords.len(),
            views(out@) == propagated_upto(
                views(chords@),
                match *exit_chord {
                    Some(e) => Some(e@),
                    None => None,
                },
                i as int,
            ),
        decreases chords.len() - i,
    {
        let ghost before = views(out@);
        let kb = propagate_into(&chords[i], exit_chord);
        let ghost v = kb@;
        out.push(kb);
        assert(views(out@) =~= before.push(v));
        i = i + 1;
    }
    out
}

fn read_config(node: &Node, implicit: bool) -> (out: Option<Config>)
    ensures
        out matches Some(c) ==> config_tree(node@, implicit) == Some(c@),
        out is None ==> config_tree(node@, implicit) is None,
{
    match node {
        Node::Form(name, items) => {
            proof {
                lemma_form_view(*name, *items);
            }
            if !(same(name.as_str(), "Config") || name.as_str().unicode_len() == 0) {
                return None;
            }
            let d = match find_from(items, "default_modifier") {
                Some(d) => d,
                None => {
                    return None;
                },
            };
            let k = match find_from(items, "keybinds") {
                Some(k) => k,
                None => {
                    return None;
                },
            };
            let default_modifier = match &items[d] {
                Node::Field(_, dv) => match node_text_list(dv) {
                    Some(list) => list,
                    None => {
                        return None;
                    },
                },
                _ => {
                    return None;
                },
            };
            match &items[k] {
                Node::Field(_, kv) => match &**kv {
                    Node::List(kids) => {
                        proof {
                            lemma_list_view(*kids);
                        }
                        match read_keybinds(kids, implicit) {
                            Some(keybinds) => Some(Config { default_modifier, keybinds }),
                            None => None,
                        }
                    },
                    _ => {
                        assert(!(kv@ is List));
                        None
                    },
                },
                _ => None,
            }
        },
        _ => None,
    }
}

#[verifier::loop_isolation(false)]
fn switches(node: &Node) -> (r: bool)
    ensures
        r == switches_implicit(node@),
{
    match node {
        Node::List(items) => {
            proof {
                lemma_list_view(*items);
            }
            if items.len() != 1 {
                return false;
            }
            match &items[0] {
                Node::Form(n, names) => {
                    proof {
                        lemma_form_view(*n, *names);
                    }
                    if !same(n.as_str(), "enable") {
                        return false;
                    }
                    let mut k: usize = 0;
                    while k < names.len()
                        invariant
                            k <= names.len(),
                            forall|j: int|
                                0 <= j < k ==> crate::notation::trees(names@)[j] != Tree::Name(
                                    "implicit_some"@,
                                ),
                        decreases names.len() - k,
                    {
                        match &names[k] {
                            Node::Name(name) => {
                                if same(name.as_str(), "implicit_some") {
                                    assert(crate::notation::trees(names@)[k as int] == Tree::Name(
                                        "implicit_some"@,
                                    ));
                                    assert(crate::notation::trees(items@)[0] == Tree::Form(
                                        n@,
                                        crate::notation::trees(names@),
                                    ));
                                    return true;
                                }
                            },
                            _ => {},
                        }
                        k = k + 1;
                    }
                    false
                },
                _ => false,
            }
        },
        _ => false,
    }
}

fn read_settings(s: &Vec<char>) -> (out: Option<Config>)
    ensures
        out matches Some(c) ==> settings_of(s@) == Some(c@),
        out is None ==> settings_of(s@) is None,
{
    let mut j: usize = after_space(s, 0);
    let mut implicit = false;
    loop
        invariant
            j <= s.len(),
            settings_of(s@) == settings_from(s@, j as int, implicit),
        decreases s.len() - j,
    {
        if j >= s.len() {
            return None;
        }
        if s[j] == '#' {
            if j + 1 < s.len() && s[j + 1] == '!' {
                match read_value(s, j + 2) {
                    Some((head, n)) => {
                        let next = after_space(s, n);
                        if switches(&head) {
                            implicit = true;
                        }
                        j = next;
                    },
                    None => {
                        return None;
                    },
                }
            } else {
                return None;
            }
        } else {
            return match read_value(s, j) {
                Some((node, n)) => {
                    if after_space(s, n) == s.len() {
                        read_config(&node, implicit)
                    } else {
                        None
                    }
                },
                None => None,
            };
        }
    }
}

impl Config {
    /// Reads the settings from their text, and hands the way out of the
    /// top level down into every chord.
    pub fn try_from(contents: String) -> (out: Result<Config>)
        ensures
            match settings_of(contents@) {
                Some(c) => out matches Ok(config) && config@ == with_exits(c),
                None => out == Err::<Config, LeftError>(LeftError::InvalidConfig),
            },
    {
        let chars = chars_of(contents.as_str());
        match read_settings(&chars) {
            Some(config) => {
                let global_exit_chord = find_exit(&config.keybinds);
                let keybinds = propagate_exit_chord(&config.keybinds, &global_exit_chord);
                Ok(Config { default_modifier: config.default_modifier, keybinds })
            },
            None => Err(LeftError::InvalidConfig),
        }
    }
}

impl crate::config::Config for Config {
    open spec fn bindings(&self) -> Seq<Binding> {
        converted_upto(self@.keybinds, self@.default_modifier, self@.keybinds.len() as int)
    }

    fn mapped_bindings(&self) -> (out: Vec<crate::config::Keybind>) {
        convert_all(&self.keybinds, &self.default_modifier)
    }
}

} // verus!
