//! The written form of commands: how each is laid out as text, and which
//! texts denote which command.

use crate::config::command::utils::normalized_command::NormalizedCommand;
use crate::config::keybind::{Binding, Keybind};
use crate::notation::{document, print, trees, write_document, Node, Tree};
use vstd::prelude::*;
use vstd::string::StringExecFns;

verus! {

/// What a command is, apart from how it is held in memory.
pub ghost enum Action {
    /// Enter the chord that has these bindings.
    Chord(Seq<Binding>),
    /// Run this line in a shell.
    Execute(Seq<char>),
    ExitChord,
    Reload,
    Kill,
}

/// The strings of a list, as trees.
pub open spec fn text_trees(list: Seq<Seq<char>>) -> Seq<Tree> {
    Seq::new(list.len(), |i: int| Tree::Text(list[i]))
}

/// A binding of a chord, as a tree.
pub open spec fn binding_tree(b: Binding) -> Tree {
    Tree::Form(
        "Keybind"@,
        seq![
            Tree::Field(
                "command"@,
                Box::new(Tree::Form("NormalizedCommand"@, seq![Tree::Text(b.command)])),
            ),
            Tree::Field("modifier"@, Box::new(Tree::List(text_trees(b.modifier)))),
            Tree::Field("key"@, Box::new(Tree::Text(b.key))),
        ],
    )
}

/// The bindings of a chord, as trees.
pub open spec fn binding_trees(bindings: Seq<Binding>) -> Seq<Tree> {
    Seq::new(bindings.len(), |i: int| binding_tree(bindings[i]))
}

/// A command, as a tree: its name, and in brackets what it holds.
pub open spec fn tree_of(a: Action) -> Tree {
    match a {
        Action::Chord(bindings) => Tree::Form(
            "Chord"@,
            seq![Tree::List(binding_trees(bindings))],
        ),
        Action::Execute(line) => Tree::Form("Execute"@, seq![Tree::Text(line)]),
        Action::ExitChord => Tree::Name("ExitChord"@),
        Action::Reload => Tree::Name("Reload"@),
        Action::Kill => Tree::Name("Kill"@),
    }
}

/// The text of a command.
pub open spec fn normal_form(a: Action) -> Seq<char> {
    print(tree_of(a), Seq::empty())
}

/// The value of the first field of `items` that has this label.
pub open spec fn field(items: Seq<Tree>, label: Seq<char>) -> Option<Tree>
    decreases items.len(),
{
    if items.len() == 0 {
        None
    } else {
        match items[0] {
            Tree::Field(l, v) => if l == label {
                Some(*v)
            } else {
                field(items.drop_first(), label)
            },
            _ => field(items.drop_first(), label),
        }
    }
}

/// The string that a tree is, if it is one.
pub open spec fn text_of(t: Tree) -> Option<Seq<char>> {
    match t {
        Tree::Text(s) => Some(s),
        _ => None,
    }
}

/// The strings of a list of trees, if all of them are strings.
pub open spec fn texts_of(items: Seq<Tree>) -> Option<Seq<Seq<char>>> {
    if forall|i: int| 0 <= i < items.len() ==> (#[trigger] text_of(items[i])) is Some {
        Some(Seq::new(items.len(), |i: int| text_of(items[i]).unwrap()))
    } else {
        None
    }
}

/// The strings of a tree that is a list of strings.
pub open spec fn text_list_of(t: Tree) -> Option<Seq<Seq<char>>> {
    match t {
        Tree::List(items) => texts_of(items),
        _ => None,
    }
}

/// The string inside `name("...")`.
pub open spec fn wrapped_text_of(t: Tree, name: Seq<char>) -> Option<Seq<char>> {
    match t {
        Tree::Form(n, items) => if n == name && items.len() == 1 {
            text_of(items[0])
        } else {
            None
        },
        _ => None,
    }
}

/// The binding that a tree denotes: a form named `Keybind` with the three
/// fields `command`, `modifier` and `key` and nothing else.
pub open spec fn binding_of(t: Tree) -> Option<Binding> {
    match t {
        Tree::Form(name, items) => if name == "Keybind"@ && items.len() == 3 {
            match (field(items, "command"@), field(items, "modifier"@), field(items, "key"@)) {
                (Some(c), Some(m), Some(k)) => match (
                    wrapped_text_of(c, "NormalizedCommand"@),
                    text_list_of(m),
                    text_of(k),
                ) {
                    (Some(command), Some(modifier), Some(key)) => Some(
                        Binding { command, modifier, key },
                    ),
                    _ => None,
                },
                _ => None,
            }
        } else {
            None
        },
        _ => None,
    }
}

/// The bindings of a list of trees, if all of them are bindings.
pub open spec fn bindings_of(items: Seq<Tree>) -> Option<Seq<Binding>> {
    if forall|i: int| 0 <= i < items.len() ==> (#[trigger] binding_of(items[i])) is Some {
        Some(Seq::new(items.len(), |i: int| binding_of(items[i]).unwrap()))
    } else {
        None
    }
}

/// The command that a tree denotes.
pub open spec fn action_of_tree(t: Tree) -> Option<Action> {
    match t {
        Tree::Name(n) => if n == "Kill"@ {
            Some(Action::Kill)
        } else if n == "Reload"@ {
            Some(Action::Reload)
        } else if n == "ExitChord"@ {
            Some(Action::ExitChord)
        } else {
            None
        },
        Tree::Form(n, items) => if n == "Execute"@ && items.len() == 1 {
            match text_of(items[0]) {
                Some(line) => Some(Action::Execute(line)),
                None => None,
            }
        } else if n == "Chord"@ && items.len() == 1 {
            match items[0] {
                Tree::List(children) => match bindings_of(children) {
                    Some(bindings) => Some(Action::Chord(bindings)),
                    None => None,
                },
                _ => None,
            }
        } else {
            None
        },
        _ => None,
    }
}

/// The command that a text denotes.
pub open spec fn action_of(text: Seq<char>) -> Option<Action> {
    match document(text) {
        Some(t) => action_of_tree(t),
        None => None,
    }
}

/// Whether two strings hold the same characters.
pub fn same(a: &str, b: &str) -> (r: bool)
    ensures
        r == (a@ == b@),
{
    String::from_str(a) == String::from_str(b)
}

/// Looks up a field by its label.
pub fn find_field<'a>(items: &'a Vec<Node>, label: &str) -> (r: Option<&'a Node>)
    ensures
        r matches Some(node) ==> field(trees(items@), label@) == Some(node@),
        r is None ==> field(trees(items@), label@) is None,
{
    let mut i: usize = 0;
    assert(trees(items@).skip(0) =~= trees(items@));
    while i < items.len()
        invariant
            i <= items.len(),
            field(trees(items@), label@) == field(trees(items@).skip(i as int), label@),
        decreases items.len() - i,
    {
        let ghost rest = trees(items@).skip(i as int);
        assert(rest[0] == items@[i as int]@);
        assert(rest.drop_first() =~= trees(items@).skip(i + 1));
        match &items[i] {
            Node::Field(l, v) => {
                if same(l.as_str(), label) {
                    return Some(&**v);
                }
            },
            _ => {},
        }
        i = i + 1;
    }
    None
}

/// The string of a node that is one.
pub fn node_text(node: &Node) -> (r: Option<String>)
    ensures
        r matches Some(s) ==> text_of(node@) == Some(s@),
        r is None ==> text_of(node@) is None,
{
    match node {
        Node::Text(s) => Some(s.clone()),
        _ => None,
    }
}

/// The strings of nodes that all are strings.
pub fn node_texts(items: &Vec<Node>) -> (r: Option<Vec<String>>)
    ensures
        r matches Some(list) ==> texts_of(trees(items@)) == Some(list.deep_view()),
        r is None ==> texts_of(trees(items@)) is None,
{
    let mut out: Vec<String> = Vec::new();
    let mut i: usize = 0;
    while i < items.len()
        invariant
            i <= items.len(),
            out.len() == i,
            forall|k: int|
                0 <= k < i ==> (#[trigger] text_of(trees(items@)[k])) == Some(out[k]@),
        decreases items.len() - i,
    {
        match node_text(&items[i]) {
            Some(s) => out.push(s),
            None => {
                assert(text_of(trees(items@)[i as int]) is None);
                return None;
            },
        }
        i = i + 1;
    }
    assert(texts_of(trees(items@)).unwrap() =~= out.deep_view());
    Some(out)
}

/// The strings of a node that is a list of strings.
pub fn node_text_list(node: &Node) -> (r: Option<Vec<String>>)
    ensures
        r matches Some(list) ==> text_list_of(node@) == Some(list.deep_view()),
        r is None ==> text_list_of(node@) is None,
{
    match node {
        Node::List(items) => {
            proof {
                crate::notation::lemma_list_view(*items);
            }
            node_texts(items)
        },
        _ => None,
    }
}

/// The string inside a form of this name.
pub fn node_wrapped_text(node: &Node, name: &str) -> (r: Option<String>)
    ensures
        r matches Some(s) ==> wrapped_text_of(node@, name@) == Some(s@),
        r is None ==> wrapped_text_of(node@, name@) is None,
{
    match node {
        Node::Form(n, items) => {
            proof {
                crate::notation::lemma_form_view(*n, *items);
            }
            if same(n.as_str(), name) && items.len() == 1 {
                node_text(&items[0])
            } else {
                None
            }
        },
        _ => None,
    }
}

/// The binding that a node denotes.
pub fn node_binding(node: &Node) -> (r: Option<Keybind>)
    ensures
        r matches Some(k) ==> binding_of(node@) == Some(k@),
        r is None ==> binding_of(node@) is None,
{
    match node {
        Node::Form(name, items) => {
            proof {
                crate::notation::lemma_form_view(*name, *items);
            }
            if !same(name.as_str(), "Keybind") || items.len() != 3 {
                return None;
            }
            match (
                find_field(items, "command"),
                find_field(items, "modifier"),
                find_field(items, "key"),
            ) {
                (Some(c), Some(m), Some(k)) => {
                    match (
                        node_wrapped_text(c, "NormalizedCommand"),
                        node_text_list(m),
                        node_text(k),
                    ) {
                        (Some(command), Some(modifier), Some(key)) => Some(
                            Keybind { command: NormalizedCommand(command), modifier, key },
                        ),
                        _ => None,
                    }
                },
                _ => None,
            }
        },
        _ => None,
    }
}

/// The bindings of nodes that all denote one.
pub fn node_bindings(items: &Vec<Node>) -> (r: Option<Vec<Keybind>>)
    ensures
        r matches Some(list) ==> bindings_of(trees(items@)) == Some(list.deep_view()),
        r is None ==> bindings_of(trees(items@)) is None,
{
    let mut out: Vec<Keybind> = Vec::new();
    let mut i: usize = 0;
    while i < items.len()
        invariant
            i <= items.len(),
            out.len() == i,
            forall|k: int|
                0 <= k < i ==> (#[trigger] binding_of(trees(items@)[k])) == Some(out[k]@),
        decreases items.len() - i,
    {
        match node_binding(&items[i]) {
            Some(b) => out.push(b),
            None => {
                assert(binding_of(trees(items@)[i as int]) is None);
                return None;
            },
        }
        i = i + 1;
    }
    assert(bindings_of(trees(items@)).unwrap() =~= out.deep_view());
    Some(out)
}

fn text_nodes(list: &Vec<String>) -> (out: Vec<Node>)
    ensures
        trees(out@) == text_trees(list.deep_view()),
{
    let mut out: Vec<Node> = Vec::new();
    let mut i: usize = 0;
    while i < list.len()
        invariant
            i <= list.len(),
            out.len() == i,
            forall|k: int| 0 <= k < i ==> out[k]@ == Tree::Text(list[k]@),
        decreases list.len() - i,
    {
        out.push(Node::Text(list[i].clone()));
        i = i + 1;
    }
    assert(trees(out@) =~= text_trees(list.deep_view()));
    out
}

fn one_item(node: Node) -> (out: Vec<Node>)
    ensures
        trees(out@) == seq![node@],
{
    let ghost t = node@;
    let mut out: Vec<Node> = Vec::new();
    out.push(node);
    assert(trees(out@) =~= seq![t]);
    out
}

fn form(name: &str, items: Vec<Node>) -> (out: Node)
    ensures
        out@ == Tree::Form(name@, trees(items@)),
{
    let name = String::from_str(name);
    proof {
        crate::notation::lemma_form_view(name, items);
    }
    Node::Form(name, items)
}

fn list(items: Vec<Node>) -> (out: Node)
    ensures
        out@ == Tree::List(trees(items@)),
{
    proof {
        crate::notation::lemma_list_view(items);
    }
    Node::List(items)
}

fn labelled(label: &str, value: Node) -> (out: Node)
    ensures
        out@ == Tree::Field(label@, Box::new(value@)),
{
    Node::Field(String::from_str(label), Box::new(value))
}

/// A binding of a chord, as a node.
pub fn binding_node(b: &Keybind) -> (out: Node)
    ensures
        out@ == binding_tree(b@),
{
    let command = labelled(
        "command",
        form("NormalizedCommand", one_item(Node::Text(b.command.0.clone()))),
    );
    let modifier = labelled("modifier", list(text_nodes(&b.modifier)));
    let key = labelled("key", Node::Text(b.key.clone()));
    let ghost c = command@;
    let ghost m = modifier@;
    let ghost k = key@;
    let mut items: Vec<Node> = Vec::new();
    items.push(command);
    items.push(modifier);
    items.push(key);
    assert(trees(items@) =~= seq![c, m, k]);
    form("Keybind", items)
}

/// Writes a chord with these bindings.
pub fn write_chord(children: &Vec<Keybind>) -> (out: String)
    ensures
        out@ == normal_form(Action::Chord(children.deep_view())),
{
    let mut nodes: Vec<Node> = Vec::new();
    let mut i: usize = 0;
    while i < children.len()
        invariant
            i <= children.len(),
            nodes.len() == i,
            forall|k: int| 0 <= k < i ==> nodes[k]@ == binding_tree(children[k]@),
        decreases children.len() - i,
    {
        nodes.push(binding_node(&children[i]));
        i = i + 1;
    }
    assert(trees(nodes@) =~= binding_trees(children.deep_view()));
    let node = form("Chord", one_item(list(nodes)));
    write_document(&node)
}

/// Writes the command that runs `line`.
pub fn write_execute(line: &str) -> (out: String)
    ensures
        out@ == normal_form(Action::Execute(line@)),
{
    let node = form("Execute", one_item(Node::Text(String::from_str(line))));
    write_document(&node)
}

} // verus!
