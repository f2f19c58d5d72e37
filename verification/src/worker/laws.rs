//! What holds of the worker whatever the events are.

use crate::config::command::form::Action;
use crate::evdev::{KeyCode, KeyEvent};
use crate::config::command::{AnyCommand, Command};
use crate::worker::{
    after_event, after_turn, after_turns, binding_matches, bound, is_new, kind_of, passed,
    pressed, resolve, run, scope, settle, Event, KeyEventType, Order, State, Status, Verdict,
};
use crate::config::keybind::Binding;
use crate::keysym_lookup::{code_of, codes_of, Tables};
use vstd::prelude::*;

verus! {

/// Whether the key is held and marked as eaten.
pub open spec fn held_eaten(s: State, code: KeyCode) -> bool {
    match code {
        KeyCode::Modifier(m) => s.mods.contains(m) && s.eaten_mods.contains(m),
        KeyCode::Key(k) => s.keys.contains(k) && s.eaten_keys.contains(k),
    }
}

/// Whether the key is held.
pub open spec fn held(s: State, code: KeyCode) -> bool {
    match code {
        KeyCode::Modifier(m) => s.mods.contains(m),
        KeyCode::Key(k) => s.keys.contains(k),
    }
}

/// Whether the event is the release of this key.
pub open spec fn releases(event: KeyEvent, code: KeyCode) -> bool {
    kind_of(event.value) == KeyEventType::Release && event.code == Some(code)
}

/// The worker after a run of events of keyboards, each with the path of
/// its keyboard.
pub open spec fn after_events(s: State, events: Seq<(Seq<char>, KeyEvent)>) -> State
    decreases events.len(),
{
    if events.len() == 0 {
        s
    } else {
        after_events(after_event(s, events[0].0, events[0].1).0, events.drop_first())
    }
}

/// A binding matches only when the keys held are exactly its own: its key
/// and nothing else, its modifiers and nothing else.
pub proof fn lemma_exact_match(b: Binding, t: Tables, keys: Set<u32>, mods: Set<u32>)
    requires
        binding_matches(b, t, keys, mods),
    ensures
        code_of(t.keys, b.key) is Some,
        codes_of(t.modifiers, b.modifier) is Some,
        forall|k: u32| keys.contains(k) <==> k == code_of(t.keys, b.key).unwrap(),
        forall|m: u32|
            mods.contains(m) <==> codes_of(t.modifiers, b.modifier).unwrap().contains(m),
{
}

/// One modifier more or one modifier less than a binding names, and the
/// binding does not match.
pub proof fn lemma_no_partial_match(
    b: Binding,
    t: Tables,
    keys: Set<u32>,
    mods: Set<u32>,
    other: u32,
)
    requires
        binding_matches(b, t, keys, mods),
    ensures
        !mods.contains(other) ==> !binding_matches(b, t, keys, mods.insert(other)),
        mods.contains(other) ==> !binding_matches(b, t, keys, mods.remove(other)),
{
    if !mods.contains(other) {
        assert(mods.insert(other).contains(other));
    } else {
        assert(!mods.remove(other).contains(other));
    }
}

/// The binding that is found is one of those in force, it matches, and none
/// before it does.
pub proof fn lemma_resolve_first(bindings: Seq<Binding>, t: Tables, keys: Set<u32>, mods: Set<u32>)
    ensures
        match resolve(bindings, t, keys, mods) {
            Some(b) => exists|i: int|
                0 <= i < bindings.len() && bindings[i] == b && binding_matches(b, t, keys, mods)
                    && forall|j: int|
                    0 <= j < i ==> !binding_matches(#[trigger] bindings[j], t, keys, mods),
            None => forall|j: int|
                0 <= j < bindings.len() ==> !binding_matches(#[trigger] bindings[j], t, keys, mods),
        },
    decreases bindings.len(),
{
    if bindings.len() > 0 {
        if binding_matches(bindings[0], t, keys, mods) {
            assert(0 <= 0 < bindings.len() && bindings[0] == bindings[0]);
        } else {
            let rest = bindings.drop_first();
            lemma_resolve_first(rest, t, keys, mods);
            match resolve(rest, t, keys, mods) {
                Some(b) => {
                    let i = choose|i: int|
                        0 <= i < rest.len() && rest[i] == b && binding_matches(b, t, keys, mods)
                            && forall|j: int|
                            0 <= j < i ==> !binding_matches(#[trigger] rest[j], t, keys, mods);
                    assert forall|j: int| 0 <= j < i + 1 implies !binding_matches(
                        #[trigger] bindings[j],
                        t,
                        keys,
                        mods,
                    ) by {
                        if j > 0 {
                            assert(bindings[j] == rest[j - 1]);
                        }
                    }
                    assert(bindings[i + 1] == b);
                },
                None => {
                    assert forall|j: int| 0 <= j < bindings.len() implies !binding_matches(
                        #[trigger] bindings[j],
                        t,
                        keys,
                        mods,
                    ) by {
                        if j > 0 {
                            assert(bindings[j] == rest[j - 1]);
                        }
                    }
                },
            }
        }
    }
}

/// While no chord is open only the global bindings are in force; once a
/// chord is entered only its own are.
pub proof fn lemma_chord_scope(s: State, children: Seq<Binding>)
    ensures
        s.chord is None ==> scope(s) == s.keybinds,
        scope(run(Action::Chord(children), s)) == children,
{
}

/// A command that is run inside a chord ends the chord: at the next round
/// the global bindings are in force again. So does leaving the chord.
pub proof fn lemma_chord_ends(s: State, line: Seq<char>)
    requires
        s.chord is Some,
    ensures
        scope(settle(run(Action::Execute(line), s))) == s.keybinds,
        scope(settle(run(Action::ExitChord, s))) == s.keybinds,
        settle(run(Action::ExitChord, s)).chord is None,
{
}

/// The status changes only when `Reload` or `Kill` is run, and then to
/// that.
pub proof fn lemma_status(a: Action, s: State)
    ensures
        run(Action::Reload, s).status == Status::Reload,
        run(Action::Kill, s).status == Status::Kill,
        !(a is Reload) && !(a is Kill) ==> run(a, s).status == s.status,
{
}

/// An event of a key changes the status only by the command it runs.
pub proof fn lemma_event_keeps_what_it_does_not_touch(s: State, path: Seq<char>, event: KeyEvent)
    ensures
        after_event(s, path, event).0.keybinds == s.keybinds,
        after_event(s, path, event).0.tables == s.tables,
        after_event(s, path, event).0.devices == s.devices,
        after_event(s, path, event).0.children == s.children,
{
}

/// The press that completes a binding is not passed on, and every key that
/// is held at that moment is marked as eaten.
pub proof fn lemma_match_eats(s: State, path: Seq<char>, event: KeyEvent, code: KeyCode)
    requires
        kind_of(event.value) == KeyEventType::Press,
        event.code == Some(code),
        is_new(s, code),
        bound(pressed(s, code)) is Some,
    ensures
        after_event(s, path, event).1 != Verdict::Forward,
        held_eaten(after_event(s, path, event).0, code),
        forall|other: KeyCode|
            held(s, other) ==> held_eaten(after_event(s, path, event).0, other),
{
    let after = after_event(s, path, event).0;
    assert forall|other: KeyCode| held(s, other) implies held_eaten(after, other) by {}
}

/// The release of a key that is held and eaten is not passed on, and with
/// it the key is neither held nor eaten any more.
pub proof fn lemma_eaten_release(s: State, path: Seq<char>, event: KeyEvent, code: KeyCode)
    requires
        releases(event, code),
        held_eaten(s, code),
    ensures
        after_event(s, path, event).1 == Verdict::Eaten,
        !held(after_event(s, path, event).0, code),
        !held_eaten(after_event(s, path, event).0, code),
{
}

/// A key that is held and eaten stays so under every event but its own
/// release.
pub proof fn lemma_eaten_stays(s: State, path: Seq<char>, event: KeyEvent, code: KeyCode)
    requires
        held_eaten(s, code),
        !releases(event, code),
    ensures
        held_eaten(after_event(s, path, event).0, code),
{
}

/// A key that was held when a binding matched is never passed on when it
/// is let go, whatever happens in between: after any run of events that
/// does not hold its release, its release is swallowed.
pub proof fn lemma_no_leak(
    s: State,
    events: Seq<(Seq<char>, KeyEvent)>,
    path: Seq<char>,
    release: KeyEvent,
    code: KeyCode,
)
    requires
        held_eaten(s, code),
        forall|i: int| 0 <= i < events.len() ==> !releases(#[trigger] events[i].1, code),
        releases(release, code),
    ensures
        after_event(after_events(s, events), path, release).1 == Verdict::Eaten,
    decreases events.len(),
{
    if events.len() == 0 {
        lemma_eaten_release(s, path, release, code);
    } else {
        let next = after_event(s, events[0].0, events[0].1).0;
        assert(!releases(events[0].1, code));
        lemma_eaten_stays(s, events[0].0, events[0].1, code);
        let rest = events.drop_first();
        assert forall|i: int| 0 <= i < rest.len() implies !releases(#[trigger] rest[i].1, code) by {
            assert(rest[i] == events[i + 1]);
        }
        lemma_no_leak(next, rest, path, release, code);
    }
}

/// Only keys that are held are marked as eaten.
pub open spec fn tidy(s: State) -> bool {
    s.eaten_keys.subset_of(s.keys) && s.eaten_mods.subset_of(s.mods)
}

/// Only keys that are held are ever marked as eaten: this holds of a new
/// worker and no event of a key breaks it.
pub proof fn lemma_tidy(s: State, path: Seq<char>, event: KeyEvent)
    requires
        tidy(s),
    ensures
        tidy(after_event(s, path, event).0),
{
}

/// A key that no binding takes is passed on when it goes down and when it
/// is let go right after, and nothing is marked as eaten for it.
pub proof fn lemma_unmatched_passes(
    s: State,
    path: Seq<char>,
    press: KeyEvent,
    release: KeyEvent,
    code: KeyCode,
)
    requires
        kind_of(press.value) == KeyEventType::Press,
        press.code == Some(code),
        releases(release, code),
        tidy(s),
        is_new(s, code),
        bound(pressed(s, code)) is None,
        s.devices.contains(path),
    ensures
        after_event(s, path, press).1 == Verdict::Forward,
        after_event(s, path, press).0.eaten_keys == s.eaten_keys,
        after_event(s, path, press).0.eaten_mods == s.eaten_mods,
        after_event(after_event(s, path, press).0, path, release).1 == Verdict::Forward,
{
}

/// A repeat of a key, and an event that is about no key, are passed on and
/// change nothing.
pub proof fn lemma_repeat_passes(s: State, path: Seq<char>, event: KeyEvent)
    requires
        kind_of(event.value) == KeyEventType::Repeat || kind_of(event.value)
            == KeyEventType::Unknown || event.code is None,
    ensures
        after_event(s, path, event) == (s, passed(s, path)),
{
}

/// A command that comes in from another process is run as it is: no key
/// is looked at, none is marked, and nothing is left to do for it.
pub proof fn lemma_command_bypasses_keys(s: State, command: AnyCommand)
    ensures
        after_turn(s, Event::Command(command)).0 == run(command.action(), settle(s)),
        after_turn(s, Event::Command(command)).1 == Order::Nothing,
        after_turn(s, Event::Command(command)).0.keys == s.keys,
        after_turn(s, Event::Command(command)).0.mods == s.mods,
        after_turn(s, Event::Command(command)).0.eaten_keys == s.eaten_keys,
        after_turn(s, Event::Command(command)).0.eaten_mods == s.eaten_mods,
{
}

/// `Reload` and `Kill` that come in from another process end the loop with
/// that status, whatever the worker was in the middle of.
pub proof fn lemma_command_ends_loop(s: State, command: AnyCommand)
    ensures
        command.action() is Reload ==> after_turn(s, Event::Command(command)).0.status
            == Status::Reload,
        command.action() is Kill ==> after_turn(s, Event::Command(command)).0.status
            == Status::Kill,
{
}

/// Once the status is no longer to go on, no event is taken in any more.
pub proof fn lemma_ended_loop_stays(s: State, events: Seq<Event>)
    requires
        s.status != Status::Continue,
    ensures
        after_turns(s, events) == (s, Seq::<Order>::empty()),
{
}

/// A chord that has run its course is closed at the beginning of the next
/// round, before its event is looked at, and only then.
pub proof fn lemma_settle(s: State)
    ensures
        s.elapsed ==> settle(s).chord is None && !settle(s).elapsed,
        !s.elapsed ==> settle(s) == s,
        settle(settle(s)) == settle(s),
{
}

} // verus!
