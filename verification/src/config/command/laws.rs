//! What holds of the commands and their texts.

use crate::config::command::form::{
    action_of, action_of_tree, binding_of, binding_tree, binding_trees, bindings_of, field,
    normal_form, text_of, text_trees, texts_of, tree_of, wrapped_text_of, Action,
};
use crate::config::command::{AnyCommand, Command};
use crate::config::keybind::{Binding, Keybind};
use crate::notation::Tree;
use crate::roundtrip::{check_survives, lemma_document_back, printable, survives, valid_name};
use vstd::prelude::*;

verus! {

/// A binding survives being written when its strings do.
pub open spec fn binding_survives(b: Binding) -> bool {
    &&& survives(b.command)
    &&& survives(b.key)
    &&& forall|j: int| 0 <= j < b.modifier.len() ==> survives(#[trigger] b.modifier[j])
}

/// A command survives being written when the strings that it holds do.
pub open spec fn action_survives(a: Action) -> bool {
    match a {
        Action::Chord(bindings) => forall|i: int|
            0 <= i < bindings.len() ==> binding_survives(#[trigger] bindings[i]),
        Action::Execute(line) => survives(line),
        _ => true,
    }
}

proof fn lemma_names()
    ensures
        valid_name("Kill"@),
        valid_name("Reload"@),
        valid_name("ExitChord"@),
        valid_name("Execute"@),
        valid_name("Chord"@),
        valid_name("Keybind"@),
        valid_name("NormalizedCommand"@),
        valid_name("command"@),
        valid_name("modifier"@),
        valid_name("key"@),
        "Kill"@.len() == 4,
        "Reload"@.len() == 6,
        "ExitChord"@.len() == 9,
        "Execute"@.len() == 7,
        "Chord"@.len() == 5,
        "command"@.len() == 7,
        "modifier"@.len() == 8,
        "key"@.len() == 3,
{
    reveal_strlit("Kill");
    reveal_strlit("Reload");
    reveal_strlit("ExitChord");
    reveal_strlit("Execute");
    reveal_strlit("Chord");
    reveal_strlit("Keybind");
    reveal_strlit("NormalizedCommand");
    reveal_strlit("command");
    reveal_strlit("modifier");
    reveal_strlit("key");
}

proof fn lemma_binding_printable(b: Binding)
    requires
        binding_survives(b),
    ensures
        printable(binding_tree(b)),
{
    lemma_names();
    let m = Tree::List(text_trees(b.modifier));
    assert(printable(m)) by {
        assert forall|i: int| 0 <= i < text_trees(b.modifier).len() implies printable(
            #[trigger] text_trees(b.modifier)[i],
        ) by {
            assert(survives(b.modifier[i]));
        }
    }
    let c = Tree::Form("NormalizedCommand"@, seq![Tree::Text(b.command)]);
    assert(printable(c)) by {
        assert forall|i: int| 0 <= i < seq![Tree::Text(b.command)].len() implies printable(
            #[trigger] seq![Tree::Text(b.command)][i],
        ) by {}
    }
    let items = seq![
        Tree::Field("command"@, Box::new(c)),
        Tree::Field("modifier"@, Box::new(m)),
        Tree::Field("key"@, Box::new(Tree::Text(b.key))),
    ];
    assert(printable(Tree::Text(b.key)));
    assert(printable(items[0]));
    assert(printable(items[1]));
    assert(printable(items[2]));
    assert(binding_tree(b) == Tree::Form("Keybind"@, items));
    assert forall|i: int| 0 <= i < items.len() implies printable(#[trigger] items[i]) by {}
}

proof fn lemma_printable(a: Action)
    requires
        action_survives(a),
    ensures
        printable(tree_of(a)),
        !(tree_of(a) is Field),
{
    lemma_names();
    match a {
        Action::Chord(bindings) => {
            let kids = binding_trees(bindings);
            assert forall|i: int| 0 <= i < kids.len() implies printable(#[trigger] kids[i]) by {
                lemma_binding_printable(bindings[i]);
            }
            let items = seq![Tree::List(kids)];
            assert(printable(items[0]));
            assert forall|i: int| 0 <= i < items.len() implies printable(#[trigger] items[i]) by {}
        },
        Action::Execute(line) => {
            let items = seq![Tree::Text(line)];
            assert(printable(items[0]));
            assert forall|i: int| 0 <= i < items.len() implies printable(#[trigger] items[i]) by {}
        },
        _ => {},
    }
}

proof fn lemma_binding_read(b: Binding)
    ensures
        binding_of(binding_tree(b)) == Some(b),
{
    lemma_names();
    reveal_with_fuel(field, 4);
    let c = Tree::Form("NormalizedCommand"@, seq![Tree::Text(b.command)]);
    let m = Tree::List(text_trees(b.modifier));
    let items = seq![
        Tree::Field("command"@, Box::new(c)),
        Tree::Field("modifier"@, Box::new(m)),
        Tree::Field("key"@, Box::new(Tree::Text(b.key))),
    ];
    assert(items.drop_first() =~= seq![
        Tree::Field("modifier"@, Box::new(m)),
        Tree::Field("key"@, Box::new(Tree::Text(b.key))),
    ]);
    assert(items.drop_first().drop_first() =~= seq![
        Tree::Field("key"@, Box::new(Tree::Text(b.key))),
    ]);
    assert(field(items, "command"@) == Some(c));
    assert(field(items, "modifier"@) == Some(m));
    assert(field(items, "key"@) == Some(Tree::Text(b.key)));
    assert(texts_of(text_trees(b.modifier)) == Some(b.modifier)) by {
        assert forall|i: int| 0 <= i < text_trees(b.modifier).len() implies (#[trigger] text_of(
            text_trees(b.modifier)[i],
        )) is Some by {}
        assert(texts_of(text_trees(b.modifier)).unwrap() =~= b.modifier);
    }
    assert(wrapped_text_of(c, "NormalizedCommand"@) == Some(b.command));
}

/// The tree of a command denotes the command.
pub proof fn lemma_tree_read(a: Action)
    ensures
        action_of_tree(tree_of(a)) == Some(a),
{
    lemma_names();
    match a {
        Action::Chord(bindings) => {
            let kids = binding_trees(bindings);
            assert forall|i: int| 0 <= i < kids.len() implies (#[trigger] binding_of(kids[i]))
                == Some(bindings[i]) by {
                lemma_binding_read(bindings[i]);
            }
            assert(bindings_of(kids).unwrap() =~= bindings);
        },
        _ => {},
    }
}

/// A command that is turned into text and read again is the same command,
/// provided that every string it holds survives being written.
pub proof fn lemma_round_trip(a: Action)
    requires
        action_survives(a),
    ensures
        action_of(normal_form(a)) == Some(a),
{
    lemma_printable(a);
    lemma_document_back(tree_of(a));
    lemma_tree_read(a);
}

/// The three commands that hold nothing are read back whatever else holds.
pub proof fn lemma_round_trip_plain()
    ensures
        action_of(normal_form(Action::Kill)) == Some(Action::Kill),
        action_of(normal_form(Action::Reload)) == Some(Action::Reload),
        action_of(normal_form(Action::ExitChord)) == Some(Action::ExitChord),
{
    lemma_round_trip(Action::Kill);
    lemma_round_trip(Action::Reload);
    lemma_round_trip(Action::ExitChord);
}

/// Whether a binding survives being written.
pub fn check_binding(b: &Keybind) -> (r: bool)
    ensures
        r == binding_survives(b@),
{
    if !check_survives(b.command.0.as_str()) || !check_survives(b.key.as_str()) {
        return false;
    }
    let mut j: usize = 0;
    while j < b.modifier.len()
        invariant
            j <= b.modifier.len(),
            forall|k: int| 0 <= k < j ==> survives(#[trigger] b@.modifier[k]),
        decreases b.modifier.len() - j,
    {
        if !check_survives(b.modifier[j].as_str()) {
            assert(!survives(b@.modifier[j as int]));
            return false;
        }
        j = j + 1;
    }
    true
}

/// Whether a command survives being written. If it does, the text that it
/// is turned into is read as the same command again.
pub fn check_command(command: &AnyCommand) -> (r: bool)
    ensures
        r == action_survives(command.action()),
        r ==> action_of(normal_form(command.action())) == Some(command.action()),
{
    let r = match command {
        AnyCommand::Chord(chord) => {
            let mut i: usize = 0;
            let mut all = true;
            while i < chord.0.len()
                invariant_except_break
                    i <= chord.0.len(),
                    all,
                    forall|k: int|
                        0 <= k < i ==> binding_survives(#[trigger] chord.0.deep_view()[k]),
                ensures
                    all ==> forall|k: int|
                        0 <= k < chord.0.len() ==> binding_survives(
                            #[trigger] chord.0.deep_view()[k],
                        ),
                    !all ==> exists|k: int|
                        0 <= k < chord.0.len() && !binding_survives(
                            #[trigger] chord.0.deep_view()[k],
                        ),
                decreases chord.0.len() - i,
            {
                if !check_binding(&chord.0[i]) {
                    assert(!binding_survives(chord.0.deep_view()[i as int]));
                    all = false;
                    break ;
                }
                i = i + 1;
            }
            all
        },
        AnyCommand::Execute(execute) => check_survives(execute.0.as_str()),
        _ => true,
    };
    proof {
        if r {
            lemma_round_trip(command.action());
        }
    }
    r
}

} // verus!
