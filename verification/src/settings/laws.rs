//! What holds of the settings once the way out has been handed down.

use crate::settings::keybind::{CommandView, KeybindView};
use crate::settings::read::ConfigView;
use crate::settings::{first_exit, first_exit_from, propagated, propagated_upto, with_exits};
use vstd::prelude::*;

verus! {

/// Whether a binding has a way out wherever it needs one: if it is a chord,
/// one of its bindings leaves it, and the same holds of every binding
/// inside it.
pub open spec fn has_way_out(kb: KeybindView) -> bool
    decreases kb,
{
    match kb.command {
        CommandView::Chord(children) => first_exit(children) is Some && forall|i: int|
            0 <= i < children.len() ==> has_way_out(#[trigger] children[i]),
        _ => true,
    }
}

/// The binding that is found as the way out is one of the list and leaves
/// a chord; nothing is found only where no binding of the list does.
pub proof fn lemma_first_exit(list: Seq<KeybindView>, i: int)
    requires
        0 <= i <= list.len(),
    ensures
        match first_exit_from(list, i) {
            Some(e) => e.command is ExitChord && exists|j: int|
                i <= j < list.len() && list[j] == e,
            None => forall|j: int| i <= j < list.len() ==> !((#[trigger] list[j]).command is ExitChord),
        },
    decreases list.len() - i,
{
    if i < list.len() {
        if list[i].command is ExitChord {
            assert(i <= i < list.len() && list[i] == list[i]);
        } else {
            lemma_first_exit(list, i + 1);
            match first_exit_from(list, i + 1) {
                Some(e) => {
                    let j = choose|j: int| i + 1 <= j < list.len() && list[j] == e;
                    assert(i <= j < list.len() && list[j] == e);
                },
                None => {},
            }
        }
    }
}

/// Handing the way out down keeps the number and the order of the bindings
/// of a list, and does to each what it does to one.
pub proof fn lemma_propagated_each(list: Seq<KeybindView>, exit: Option<KeybindView>, n: int)
    requires
        0 <= n <= list.len(),
    ensures
        propagated_upto(list, exit, n).len() == n,
        forall|i: int|
            0 <= i < n ==> (#[trigger] propagated_upto(list, exit, n)[i]) == propagated(
                list[i],
                exit,
            ),
    decreases n,
{
    if n > 0 {
        lemma_propagated_each(list, exit, n - 1);
    }
}

/// Nothing but chords is changed.
pub proof fn lemma_only_chords_change(kb: KeybindView, exit: Option<KeybindView>)
    ensures
        !(kb.command is Chord) ==> propagated(kb, exit) == kb,
        propagated(kb, exit).modifier == kb.modifier,
        propagated(kb, exit).key == kb.key,
        kb.command is Chord <==> propagated(kb, exit).command is Chord,
{
}

/// A chord that has a binding of its own to leave it keeps its bindings as
/// they are, but for what is handed down into the chords inside it; a
/// chord without one gets the inherited one as its last binding.
pub proof fn lemma_inherits(kb: KeybindView, exit: KeybindView)
    requires
        kb.command is Chord,
    ensures
        ({
            let children = kb.command->Chord_0;
            let after = propagated(kb, Some(exit)).command->Chord_0;
            if first_exit(children) is None {
                after.len() == children.len() + 1 && after.last() == exit
            } else {
                after.len() == children.len()
            }
        }),
{
    let children = kb.command->Chord_0;
    let own = first_exit(children);
    let parent = if own is Some {
        own
    } else {
        Some(exit)
    };
    lemma_propagated_each(children, parent, children.len() as int);
}

/// Once a way out is handed down, every chord has one, however deep it
/// lies.
pub proof fn lemma_way_out(kb: KeybindView, exit: KeybindView)
    requires
        exit.command is ExitChord,
    ensures
        has_way_out(propagated(kb, Some(exit))),
    decreases kb,
{
    match kb.command {
        CommandView::Chord(children) => {
            let own = first_exit(children);
            let parent = if own is Some {
                own
            } else {
                Some(exit)
            };
            lemma_first_exit(children, 0);
            let inner = propagated_upto(children, parent, children.len() as int);
            lemma_propagated_each(children, parent, children.len() as int);
            let after = if own is None {
                inner.push(exit)
            } else {
                inner
            };
            assert(propagated(kb, Some(exit)).command == CommandView::Chord(after));
            assert forall|i: int| 0 <= i < after.len() implies has_way_out(#[trigger] after[i]) by {
                if i < children.len() {
                    lemma_way_out(children[i], parent.unwrap());
                    assert(after[i] == propagated(children[i], parent));
                } else {
                    assert(after[i] == exit);
                }
            }
            assert(first_exit(after) is Some) by {
                lemma_first_exit(after, 0);
                if own is Some {
                    let j = choose|j: int| 0 <= j < children.len() && children[j] == own.unwrap();
                    assert(after[j] == propagated(children[j], parent));
                    assert(after[j].command is ExitChord);
                } else {
                    assert(after[children.len() as int].command is ExitChord);
                }
            }
        },
        _ => {},
    }
}

/// With a binding at the top level that leaves a chord, every chord of the
/// settings has a way out after it was handed down.
pub proof fn lemma_settings_have_way_out(c: ConfigView, i: int)
    requires
        first_exit(c.keybinds) is Some,
        0 <= i < c.keybinds.len(),
    ensures
        with_exits(c).keybinds.len() == c.keybinds.len(),
        has_way_out(with_exits(c).keybinds[i]),
{
    lemma_first_exit(c.keybinds, 0);
    lemma_propagated_each(c.keybinds, first_exit(c.keybinds), c.keybinds.len() as int);
    lemma_way_out(c.keybinds[i], first_exit(c.keybinds).unwrap());
}

} // verus!
