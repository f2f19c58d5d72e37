//! Reading the settings from the notation they are written in.

use crate::config::command::form::{
    node_text, node_text_list, same, text_list_of, text_of,
};
use crate::notation::{
    lemma_form_view, lemma_list_view, skip_space, trees, value_at, Node, Tree,
};
use crate::settings::key::{Key, KeyView};
use crate::settings::keybind::{
    lemma_chord_view, views, Command, CommandView, Keybind, KeybindView,
};
use vstd::prelude::*;

verus! {

/// The settings as plain values.
pub ghost struct ConfigView {
    pub default_modifier: Seq<Seq<char>>,
    pub keybinds: Seq<KeybindView>,
}

/// The place, from `i` on, of the first field with this label.
pub open spec fn field_from(items: Seq<Tree>, label: Seq<char>, i: int) -> Option<int>
    decreases items.len() - i,
{
    if i < 0 || i >= items.len() {
        None
    } else {
        match items[i] {
            Tree::Field(l, _) => if l == label {
                Some(i)
            } else {
                field_from(items, label, i + 1)
            },
            _ => field_from(items, label, i + 1),
        }
    }
}

/// A form may go without its name.
pub open spec fn named(name: Seq<char>, wanted: Seq<char>) -> bool {
    name == wanted || name.len() == 0
}

/// The one item of a form of this name.
pub open spec fn inner_of(t: Tree, name: Seq<char>) -> Option<Tree> {
    match t {
        Tree::Form(n, items) => if n == name && items.len() == 1 {
            Some(items[0])
        } else {
            None
        },
        _ => None,
    }
}

/// The key of a binding: `Key("x")` or `Keys(["x", "y"])`.
pub open spec fn key_tree(t: Tree) -> Option<KeyView> {
    match inner_of(t, "Key"@) {
        Some(inner) => match text_of(inner) {
            Some(k) => Some(KeyView::Key(k)),
            None => None,
        },
        None => match inner_of(t, "Keys"@) {
            Some(inner) => match text_list_of(inner) {
                Some(ks) => Some(KeyView::Keys(ks)),
                None => None,
            },
            None => None,
        },
    }
}

/// The modifiers of a binding: `None`, `Some([..])`, or the bare list
/// where the text has switched that on.
pub open spec fn modifier_tree(t: Tree, implicit: bool) -> Option<Option<Seq<Seq<char>>>> {
    match t {
        Tree::Name(n) => if n == "None"@ {
            Some(None)
        } else {
            None
        },
        Tree::List(_) => if implicit {
            match text_list_of(t) {
                Some(list) => Some(Some(list)),
                None => None,
            }
        } else {
            None
        },
        _ => match inner_of(t, "Some"@) {
            Some(inner) => match text_list_of(inner) {
                Some(list) => Some(Some(list)),
                None => None,
            },
            None => None,
        },
    }
}

/// The command of a binding.
pub open spec fn command_tree(t: Tree, implicit: bool) -> Option<CommandView>
    decreases t, 0int,
{
    match t {
        Tree::Name(n) => if n == "ExitChord"@ {
            Some(CommandView::ExitChord)
        } else if n == "Reload"@ {
            Some(CommandView::Reload)
        } else if n == "Kill"@ {
            Some(CommandView::Kill)
        } else {
            None
        },
        Tree::Form(n, items) => if items.len() != 1 {
            None
        } else if n == "Execute"@ {
            match text_of(items[0]) {
                Some(line) => Some(CommandView::Execute(line)),
                None => None,
            }
        } else if n == "Executes"@ {
            match text_list_of(items[0]) {
                Some(lines) => Some(CommandView::Executes(lines)),
                None => None,
            }
        } else if n == "Chord"@ {
            match items[0] {
                Tree::List(kids) => match keybind_trees(kids, implicit, kids.len() as int) {
                    Some(children) => Some(CommandView::Chord(children)),
                    None => None,
                },
                _ => None,
            }
        } else {
            None
        },
        _ => None,
    }
}

/// A binding: a form named `Keybind` with the fields `command` and `key`,
/// and `modifier` if it has modifiers of its own.
pub open spec fn keybind_tree(t: Tree, implicit: bool) -> Option<KeybindView>
    decreases t, 0int,
{
    match t {
        Tree::Form(name, items) => if !named(name, "Keybind"@) {
            None
        } else {
            let c = field_from(items, "command"@, 0);
            let m = field_from(items, "modifier"@, 0);
            let k = field_from(items, "key"@, 0);
            let command = match c {
                Some(i) => if 0 <= i < items.len() {
                    match items[i] {
                        Tree::Field(_, v) => command_tree(*v, implicit),
                        _ => None,
                    }
                } else {
                    None
                },
                None => None,
            };
            let modifier = match m {
                Some(i) => if 0 <= i < items.len() {
                    match items[i] {
                        Tree::Field(_, v) => modifier_tree(*v, implicit),
                        _ => None,
                    }
                } else {
                    None
                },
                None => Some(None),
            };
            let key = match k {
                Some(i) => if 0 <= i < items.len() {
                    match items[i] {
                        Tree::Field(_, v) => key_tree(*v),
                        _ => None,
                    }
                } else {
                    None
                },
                None => None,
            };
            match (command, modifier, key) {
                (Some(command), Some(modifier), Some(key)) => Some(
                    KeybindView { command, modifier, key },
                ),
                _ => None,
            }
        },
        _ => None,
    }
}

/// The first `n` bindings of a list, if every one of them is a binding.
pub open spec fn keybind_trees(kids: Seq<Tree>, implicit: bool, n: int) -> Option<
    Seq<KeybindView>,
>
    decreases kids, n,
{
    if n <= 0 || n > kids.len() {
        Some(Seq::empty())
    } else {
        match (keybind_trees(kids, implicit, n - 1), keybind_tree(kids[n - 1], implicit)) {
            (Some(before), Some(kb)) => Some(before.push(kb)),
            _ => None,
        }
    }
}

/// The settings: a form named `Config` with the fields `default_modifier`
/// and `keybinds`.
pub open spec fn config_tree(t: Tree, implicit: bool) -> Option<ConfigView> {
    match t {
        Tree::Form(name, items) => if !named(name, "Config"@) {
            None
        } else {
            match (field_from(items, "default_modifier"@, 0), field_from(items, "keybinds"@, 0)) {
                (Some(d), Some(k)) => if 0 <= d < items.len() && 0 <= k < items.len() {
                    match (items[d], items[k]) {
                        (Tree::Field(_, dv), Tree::Field(_, kv)) => match (
                            text_list_of(*dv),
                            *kv,
                        ) {
                            (Some(default_modifier), Tree::List(kids)) => match keybind_trees(
                                kids,
                                implicit,
                                kids.len() as int,
                            ) {
                                Some(keybinds) => Some(ConfigView { default_modifier, keybinds }),
                                None => None,
                            },
                            _ => None,
                        },
                        _ => None,
                    }
                } else {
                    None
                },
                _ => None,
            }
        },
        _ => None,
    }
}

/// Whether a line at the head of the text switches on that a list may
/// stand where `Some(list)` is meant: `#![enable(implicit_some)]`, with or
/// without other names beside it.
pub open spec fn switches_implicit(t: Tree) -> bool {
    match t {
        Tree::List(items) => items.len() == 1 && match items[0] {
            Tree::Form(n, names) => n == "enable"@ && exists|k: int|
                0 <= k < names.len() && #[trigger] names[k] == Tree::Name("implicit_some"@),
            _ => false,
        },
        _ => false,
    }
}

/// The settings that the text from `j` on denotes: lines that begin with
/// `#!`, then one value, then nothing but space.
pub open spec fn settings_from(s: Seq<char>, j: int, implicit: bool) -> Option<ConfigView>
    decreases s.len() - j,
{
    if j < 0 || j >= s.len() {
        None
    } else if s[j] == '#' {
        if j + 1 < s.len() && s[j + 1] == '!' {
            match value_at(s, j + 2) {
                Some((head, n)) => {
                    let next = skip_space(s, n);
                    if next <= j || next > s.len() {
                        None
                    } else {
                        settings_from(s, next, implicit || switches_implicit(head))
                    }
                },
                None => None,
            }
        } else {
            None
        }
    } else {
        match value_at(s, j) {
            Some((t, n)) => if skip_space(s, n) == s.len() {
                config_tree(t, implicit)
            } else {
                None
            },
            None => None,
        }
    }
}

/// The settings that a text denotes.
pub open spec fn settings_of(s: Seq<char>) -> Option<ConfigView> {
    settings_from(s, skip_space(s, 0), false)
}

/// Finds the first field with this label, from `i` on.
pub fn find_from(items: &Vec<Node>, label: &str) -> (r: Option<usize>)
    ensures
        r matches Some(i) ==> field_from(trees(items@), label@, 0) == Some(i as int) && i
            < items.len() && trees(items@)[i as int] is Field,
        r is None ==> field_from(trees(items@), label@, 0) is None,
{
    let mut i: usize = 0;
    while i < items.len()
        invariant
            i <= items.len(),
            field_from(trees(items@), label@, 0) == field_from(trees(items@), label@, i as int),
        decreases items.len() - i,
    {
        match &items[i] {
            Node::Field(l, _) => {
                if same(l.as_str(), label) {
                    return Some(i);
                }
            },
            _ => {},
        }
        i = i + 1;
    }
    None
}

/// The one item of a form of this name.
pub fn node_inner<'a>(node: &'a Node, name: &str) -> (r: Option<&'a Node>)
    ensures
        r matches Some(inner) ==> inner_of(node@, name@) == Some(inner@),
        r is None ==> inner_of(node@, name@) is None,
{
    match node {
        Node::Form(n, items) => {
            proof {
                lemma_form_view(*n, *items);
            }
            if same(n.as_str(), name) && items.len() == 1 {
                Some(&items[0])
            } else {
                None
            }
        },
        _ => None,
    }
}

/// Reads a key.
pub fn read_key(node: &Node) -> (r: Option<Key>)
    ensures
        r matches Some(k) ==> key_tree(node@) == Some(k@),
        r is None ==> key_tree(node@) is None,
{
    match node_inner(node, "Key") {
        Some(inner) => match node_text(inner) {
            Some(k) => Some(Key::Key(k)),
            None => None,
        },
        None => match node_inner(node, "Keys") {
            Some(inner) => match node_text_list(inner) {
                Some(ks) => Some(Key::Keys(ks)),
                None => None,
            },
            None => None,
        },
    }
}

/// Reads the modifiers of a binding.
pub fn read_modifier(node: &Node, implicit: bool) -> (r: Option<Option<Vec<String>>>)
    ensures
        r matches Some(m) ==> modifier_tree(node@, implicit) == Some(
            crate::settings::keybind::modifier_view(m),
        ),
        r is None ==> modifier_tree(node@, implicit) is None,
{
    match node {
        Node::Name(n) => {
            if same(n.as_str(), "None") {
                Some(None)
            } else {
                None
            }
        },
        Node::List(items) => {
            proof {
                lemma_list_view(*items);
            }
            if implicit {
                match node_text_list(node) {
                    Some(list) => Some(Some(list)),
                    None => None,
                }
            } else {
                None
            }
        },
        _ => match node_inner(node, "Some") {
            Some(inner) => match node_text_list(inner) {
                Some(list) => Some(Some(list)),
                None => None,
            },
            None => None,
        },
    }
}

/// Reads a command.
pub fn read_command(node: &Node, implicit: bool) -> (r: Option<Command>)
    ensures
        r matches Some(c) ==> command_tree(node@, implicit) == Some(c@),
        r is None ==> command_tree(node@, implicit) is None,
    decreases node, 0int,
{
    match node {
        Node::Name(n) => {
            if same(n.as_str(), "ExitChord") {
                Some(Command::ExitChord)
            } else if same(n.as_str(), "Reload") {
                Some(Command::Reload)
            } else if same(n.as_str(), "Kill") {
                Some(Command::Kill)
            } else {
                None
            }
        },
        Node::Form(n, items) => {
            proof {
                lemma_form_view(*n, *items);
            }
            if items.len() != 1 {
                None
            } else if same(n.as_str(), "Execute") {
                match node_text(&items[0]) {
                    Some(line) => Some(Command::Execute(line)),
                    None => None,
                }
            } else if same(n.as_str(), "Executes") {
                match node_text_list(&items[0]) {
                    Some(lines) => Some(Command::Executes(lines)),
                    None => None,
                }
            } else if same(n.as_str(), "Chord") {
                match &items[0] {
                    Node::List(kids) => {
                        proof {
                            lemma_list_view(*kids);
                        }
                        match read_keybinds(kids, implicit) {
                            Some(children) => {
                                proof {
                                    lemma_chord_view(children);
                                }
                                Some(Command::Chord(children))
                            },
                            None => None,
                        }
                    },
                    _ => None,
                }
            } else {
                None
            }
        },
        _ => None,
    }
}

/// Reads a binding.
pub fn read_keybind(node: &Node, implicit: bool) -> (r: Option<Keybind>)
    ensures
        r matches Some(kb) ==> keybind_tree(node@, implicit) == Some(kb@),
        r is None ==> keybind_tree(node@, implicit) is None,
    decreases node, 0int,
{
    match node {
        Node::Form(name, items) => {
            proof {
                lemma_form_view(*name, *items);
            }
            if !(same(name.as_str(), "Keybind") || name.as_str().unicode_len() == 0) {
                return None;
            }
            let command = match find_from(items, "command") {
                Some(i) => match &items[i] {
                    Node::Field(_, v) => read_command(v, implicit),
                    _ => None,
                },
                None => None,
            };
            let modifier = match find_from(items, "modifier") {
                Some(i) => match &items[i] {
                    Node::Field(_, v) => read_modifier(v, implicit),
                    _ => None,
                },
                None => Some(None),
            };
            let key = match find_from(items, "key") {
                Some(i) => match &items[i] {
                    Node::Field(_, v) => read_key(v),
                    _ => None,
                },
                None => None,
            };
            match (command, modifier, key) {
                (Some(command), Some(modifier), Some(key)) => Some(
                    Keybind { command, modifier, key },
                ),
                _ => None,
            }
        },
        _ => None,
    }
}

/// Reads a list of bindings.
pub fn read_keybinds(kids: &Vec<Node>, implicit: bool) -> (r: Option<Vec<Keybind>>)
    ensures
        r matches Some(list) ==> keybind_trees(trees(kids@), implicit, kids.len() as int) == Some(
            views(list@),
        ),
        r is None ==> keybind_trees(trees(kids@), implicit, kids.len() as int) is None,
    decreases kids, 0int,
{
    let mut out: Vec<Keybind> = Vec::new();
    let mut i: usize = 0;
    assert(views(out@) =~= Seq::<KeybindView>::empty());
    while i < kids.len()
        invariant
            i <= kids.len(),
            keybind_trees(trees(kids@), implicit, i as int) == Some(views(out@)),
        decreases kids.len() - i,
    {
        let ghost before = views(out@);
        match read_keybind(&kids[i], implicit) {
            Some(kb) => {
                let ghost v = kb@;
                out.push(kb);
                assert(views(out@) =~= before.push(v));
            },
            None => {
                proof {
                    lemma_failed_stays(trees(kids@), implicit, i + 1, kids.len() as int);
                }
                return None;
            },
        }
        i = i + 1;
    }
    Some(out)
}

/// Once a binding of a list cannot be read, no longer part of the list can.
pub proof fn lemma_failed_stays(kids: Seq<Tree>, implicit: bool, n: int, m: int)
    requires
        0 < n <= m <= kids.len(),
        keybind_trees(kids, implicit, n) is None,
    ensures
        keybind_trees(kids, implicit, m) is None,
    decreases m - n,
{
    if n < m {
        lemma_failed_stays(kids, implicit, n, m - 1);
    }
}

} // verus!
