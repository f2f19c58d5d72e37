//! The worker: what is held down, which bindings are in force, and what
//! each event does to both.

pub mod context;
pub mod laws;

use crate::child::Children;
use crate::config::command::form::{action_of, Action};
use crate::config::command::{denormalize, AnyCommand, Command};
use crate::config::keybind::{Binding, Keybind};
use crate::errors::{Error, Failure, LeftError};
use crate::evdev::{EvDev, KeyCode, KeyEvent, Task};
use crate::keyset::KeySet;
use crate::keysym_lookup::{code_of, codes_of, Lookup, Tables};
use vstd::prelude::*;
use vstd::string::StringExecFns;

verus! {

/// What an input event says has happened to its key.
#[derive(Clone, Copy, Debug, PartialEq, Eq, Structural)]
pub enum KeyEventType {
    Release,
    Press,
    Repeat,
    Unknown,
}

/// The kind of an event, by its value.
pub open spec fn kind_of(value: i32) -> KeyEventType {
    if value == 0 {
        KeyEventType::Release
    } else if value == 1 {
        KeyEventType::Press
    } else if value == 2 {
        KeyEventType::Repeat
    } else {
        KeyEventType::Unknown
    }
}

impl KeyEventType {
    pub fn from(value: i32) -> (out: Self)
        ensures
            out == kind_of(value),
    {
        match value {
            0 => Self::Release,
            1 => Self::Press,
            2 => Self::Repeat,
            _ => Self::Unknown,
        }
    }
}

/// Whether the loop goes on, or why it ends.
#[derive(Debug, Clone, Copy, PartialEq, Eq, Hash, Structural)]
pub enum Status {
    Reload,
    Kill,
    Continue,
}

pub struct Worker {
    pub keybinds: Vec<Keybind>,
    pub lookup: Lookup,
    pub keys_pressed: KeySet,
    pub mods_pressed: KeySet,
    pub eaten_keys: KeySet,
    pub eaten_mods: KeySet,
    /// The shell lines that wait to be started.
    pub requests: Vec<String>,
    pub evdev: EvDev,
    pub children: Children,
    pub status: Status,
    /// What is known of the open chord.
    pub chord_ctx: context::Chord,
}

/// The worker, as the values that its decisions depend on.
pub ghost struct State {
    pub keybinds: Seq<Binding>,
    pub tables: Tables,
    pub keys: Set<u32>,
    pub mods: Set<u32>,
    pub eaten_keys: Set<u32>,
    pub eaten_mods: Set<u32>,
    pub requests: Seq<Seq<char>>,
    pub devices: Set<Seq<char>>,
    pub children: Set<u32>,
    pub status: Status,
    pub chord: Option<Seq<Binding>>,
    pub elapsed: bool,
}

impl View for Worker {
    type V = State;

    open spec fn view(&self) -> State {
        State {
            keybinds: self.keybinds.deep_view(),
            tables: self.lookup@,
            keys: self.keys_pressed@,
            mods: self.mods_pressed@,
            eaten_keys: self.eaten_keys@,
            eaten_mods: self.eaten_mods@,
            requests: self.requests.deep_view(),
            devices: self.evdev@,
            children: self.children@,
            status: self.status,
            chord: self.chord_ctx.bindings(),
            elapsed: self.chord_ctx.elapsed,
        }
    }
}

/// What is to be done with an event once the worker has seen it.
#[derive(Debug, PartialEq, Eq)]
pub enum Verdict {
    /// A binding took the event: it goes no further.
    Eaten,
    /// The event goes on to the output device of its keyboard.
    Forward,
    /// Something is to be reported; the event goes no further.
    Failed(LeftError),
}

/// A binding matches when its key is the one plain key held and its
/// modifiers are exactly the modifiers held. A binding with a name that the
/// tables do not know matches nothing.
pub open spec fn binding_matches(b: Binding, t: Tables, keys: Set<u32>, mods: Set<u32>) -> bool {
    match (code_of(t.keys, b.key), codes_of(t.modifiers, b.modifier)) {
        (Some(k), Some(ms)) => keys == set![k] && mods == ms.to_set(),
        _ => false,
    }
}

/// The first binding, in the order of the table, that matches.
pub open spec fn resolve(bindings: Seq<Binding>, t: Tables, keys: Set<u32>, mods: Set<u32>)
    -> Option<Binding>
    decreases bindings.len(),
{
    if bindings.len() == 0 {
        None
    } else if binding_matches(bindings[0], t, keys, mods) {
        Some(bindings[0])
    } else {
        resolve(bindings.drop_first(), t, keys, mods)
    }
}

/// The bindings in force: those of the open chord, else the global ones.
pub open spec fn scope(s: State) -> Seq<Binding> {
    match s.chord {
        Some(bindings) => bindings,
        None => s.keybinds,
    }
}

/// The binding that the keys held now call for.
pub open spec fn bound(s: State) -> Option<Binding> {
    resolve(scope(s), s.tables, s.keys, s.mods)
}

/// What running a command does to the worker.
pub open spec fn run(a: Action, s: State) -> State {
    match a {
        Action::Chord(children) => State { chord: Some(children), ..s },
        Action::Execute(line) => State {
            elapsed: s.chord is Some,
            requests: s.requests.push(line),
            ..s
        },
        Action::ExitChord => State { elapsed: s.elapsed || s.chord is Some, ..s },
        Action::Reload => State { status: Status::Reload, ..s },
        Action::Kill => State { status: Status::Kill, ..s },
    }
}

/// Closing a chord that has run its course.
pub open spec fn settle(s: State) -> State {
    if s.elapsed {
        State { chord: None, elapsed: false, ..s }
    } else {
        s
    }
}

/// Whether the key is not held yet.
pub open spec fn is_new(s: State, code: KeyCode) -> bool {
    match code {
        KeyCode::Modifier(m) => !s.mods.contains(m),
        KeyCode::Key(k) => !s.keys.contains(k),
    }
}

/// The worker with one more key held.
pub open spec fn pressed(s: State, code: KeyCode) -> State {
    match code {
        KeyCode::Modifier(m) => State { mods: s.mods.insert(m), ..s },
        KeyCode::Key(k) => State { keys: s.keys.insert(k), ..s },
    }
}

/// Whether the release of the key is to be swallowed: the key was held when
/// a binding matched.
pub open spec fn swallowed(s: State, code: KeyCode) -> bool {
    match code {
        KeyCode::Modifier(m) => s.eaten_mods.contains(m),
        KeyCode::Key(k) => s.keys.contains(k) && s.eaten_keys.contains(k),
    }
}

/// The worker with the key let go.
pub open spec fn released(s: State, code: KeyCode) -> State {
    match code {
        KeyCode::Modifier(m) => State {
            mods: s.mods.remove(m),
            eaten_mods: s.eaten_mods.remove(m),
            ..s
        },
        KeyCode::Key(k) => if s.keys.contains(k) {
            State { keys: s.keys.remove(k), eaten_keys: s.eaten_keys.remove(k), ..s }
        } else {
            s
        },
    }
}

/// The worker with every key that is held marked as eaten.
pub open spec fn eaten(s: State) -> State {
    State {
        eaten_keys: s.eaten_keys.union(s.keys),
        eaten_mods: s.eaten_mods.union(s.mods),
        ..s
    }
}

/// What becomes of an event that no binding took.
pub open spec fn passed(s: State, path: Seq<char>) -> Verdict {
    if s.devices.contains(path) {
        Verdict::Forward
    } else {
        Verdict::Failed(LeftError::UInputNotFound)
    }
}

/// What an event of a keyboard does to the worker, and what becomes of the
/// event.
pub open spec fn after_event(s: State, path: Seq<char>, event: KeyEvent) -> (State, Verdict) {
    match (kind_of(event.value), event.code) {
        (KeyEventType::Release, Some(code)) => (
            released(s, code),
            if swallowed(s, code) {
                Verdict::Eaten
            } else {
                passed(s, path)
            },
        ),
        (KeyEventType::Press, Some(code)) => if is_new(s, code) {
            let held = pressed(s, code);
            match bound(held) {
                Some(b) => match action_of(b.command) {
                    Some(a) => (run(a, eaten(held)), Verdict::Eaten),
                    None => (eaten(held), Verdict::Failed(LeftError::CommandNotFound)),
                },
                None => (held, passed(held, path)),
            }
        } else {
            (s, passed(s, path))
        },
        _ => (s, passed(s, path)),
    }
}

impl Worker {
    /// A worker with these bindings and tables: nothing held, no chord open,
    /// going on.
    pub fn new(keybinds: Vec<Keybind>, lookup: Lookup) -> (out: Self)
        ensures
            out@ == (State {
                keybinds: keybinds.deep_view(),
                tables: lookup@,
                keys: Set::empty(),
                mods: Set::empty(),
                eaten_keys: Set::empty(),
                eaten_mods: Set::empty(),
                requests: Seq::empty(),
                devices: Set::empty(),
                children: Set::empty(),
                status: Status::Continue,
                chord: None,
                elapsed: false,
            }),
    {
        let out = Self {
            status: Status::Continue,
            keybinds,
            lookup,
            keys_pressed: KeySet::new(),
            mods_pressed: KeySet::new(),
            eaten_keys: KeySet::new(),
            eaten_mods: KeySet::new(),
            requests: Vec::new(),
            evdev: EvDev::default(),
            children: Children::default(),
            chord_ctx: context::Chord::new(),
        };
        assert(out.requests.deep_view() =~= Seq::<Seq<char>>::empty());
        out
    }

    /// Whether `keybind` matches what is held.
    fn matches(&self, keybind: &Keybind) -> (r: bool)
        ensures
            r == binding_matches(keybind@, self@.tables, self@.keys, self@.mods),
    {
        match self.lookup.into_key(keybind.key.as_str()) {
            Some(key) => match self.lookup.into_mods(&keybind.modifier) {
                Some(modifiers) => self.keys_pressed.is_only(key) && self.mods_pressed.holds_exactly(
                    &modifiers,
                ),
                None => false,
            },
            None => false,
        }
    }

    /// The first binding in force that matches what is held.
    pub fn check_for_keybind(&self) -> (r: Option<Keybind>)
        ensures
            r matches Some(k) ==> bound(self@) == Some(k@),
            r is None ==> bound(self@) is None,
    {
        let keybinds = match &self.chord_ctx.keybinds {
            Some(keybinds) => keybinds,
            None => &self.keybinds,
        };
        assert(keybinds.deep_view() == scope(self@));
        let mut i: usize = 0;
        assert(keybinds.deep_view().skip(0) =~= keybinds.deep_view());
        while i < keybinds.len()
            invariant
                i <= keybinds.len(),
                keybinds.deep_view() == scope(self@),
                bound(self@) == resolve(
                    keybinds.deep_view().skip(i as int),
                    self@.tables,
                    self@.keys,
                    self@.mods,
                ),
            decreases keybinds.len() - i,
        {
            let ghost rest = keybinds.deep_view().skip(i as int);
            assert(rest[0] == keybinds[i as int]@);
            assert(rest.drop_first() =~= keybinds.deep_view().skip(i + 1));
            if self.matches(&keybinds[i]) {
                return Some(keybinds[i].clone());
            }
            i = i + 1;
        }
        None
    }

    /// Whether the keyboard at `path` has an output device to pass events to.
    pub fn pass_event(&self, path: &str) -> (r: Verdict)
        ensures
            r == passed(self@, path@),
    {
        if self.evdev.has_device(path) {
            Verdict::Forward
        } else {
            Verdict::Failed(LeftError::UInputNotFound)
        }
    }

    /// Asks for `command` to be run in a shell.
    pub fn exec(&mut self, command: &str) -> (r: Error)
        ensures
            r is Ok,
            final(self)@ == (State { requests: old(self)@.requests.push(command@), ..old(self)@ }),
    {
        let ghost before = self.requests.deep_view();
        self.requests.push(String::from_str(command));
        assert(self.requests.deep_view() =~= before.push(command@));
        Ok(())
    }

    /// Takes note of how taking over the keyboard at `path` went: a
    /// keyboard that was grabbed has an output device from now on; one that
    /// could not be is an error to report, and the worker goes on without
    /// it.
    pub fn added(&mut self, path: String, outcome: Error) -> (r: Error)
        ensures
            outcome is Ok ==> r is Ok && final(self)@ == (State {
                devices: old(self)@.devices.insert(path@),
                ..old(self)@
            }),
            outcome matches Err(e) ==> (r matches Err(f) && f == e) && final(self)@ == old(self)@,
    {
        match outcome {
            Ok(()) => {
                self.evdev.add_device(path);
                Ok(())
            },
            Err(e) => Err(e),
        }
    }

    /// Takes note of how starting a shell line went: the process that was
    /// started is known from now on; a line that could not be started is
    /// an error to report, and nothing else changes.
    pub fn spawned(&mut self, outcome: core::result::Result<u32, String>) -> (r: Error)
        ensures
            outcome matches Ok(pid) ==> r is Ok && final(self)@ == (State {
                children: old(self)@.children.insert(pid),
                ..old(self)@
            }),
            outcome matches Err(reason) ==> (r matches Err(e) && e@ == Failure::IoError(reason@))
                && final(self)@ == old(self)@,
    {
        match outcome {
            Ok(pid) => {
                self.children.insert(pid);
                Ok(())
            },
            Err(reason) => Err(LeftError::IoError(reason)),
        }
    }

    /// Hands over the shell lines that wait to be started, oldest first.
    pub fn take_requests(&mut self) -> (lines: Vec<String>)
        ensures
            lines.deep_view() == old(self)@.requests,
            final(self)@ == (State { requests: Seq::empty(), ..old(self)@ }),
    {
        let mut lines: Vec<String> = Vec::new();
        core::mem::swap(&mut lines, &mut self.requests);
        assert(self.requests.deep_view() =~= Seq::<Seq<char>>::empty());
        lines
    }

    /// Takes in one event of the keyboard at `path`.
    pub fn handle_event(&mut self, path: &str, event: &KeyEvent) -> (r: Verdict)
        ensures
            (final(self)@, r) == after_event(old(self)@, path@, *event),
    {
        let kind = KeyEventType::from(event.value);
        let mut swallow = false;
        match kind {
            KeyEventType::Release => {
                match event.code {
                    Some(KeyCode::Modifier(modifier)) => {
                        self.mods_pressed.remove(modifier);
                        if self.eaten_mods.contains(modifier) {
                            swallow = true;
                        }
                        self.eaten_mods.remove(modifier);
                    },
                    Some(KeyCode::Key(key)) => {
                        if self.keys_pressed.contains(key) {
                            self.keys_pressed.remove(key);
                            if self.eaten_keys.contains(key) {
                                swallow = true;
                            }
                            self.eaten_keys.remove(key);
                        }
                    },
                    None => {},
                }
            },
            KeyEventType::Press => {
                let mut new_key = false;
                match event.code {
                    Some(KeyCode::Modifier(modifier)) => {
                        if !self.mods_pressed.contains(modifier) {
                            self.mods_pressed.insert(modifier);
                            new_key = true;
                        }
                    },
                    Some(KeyCode::Key(key)) => {
                        if !self.keys_pressed.contains(key) {
                            self.keys_pressed.insert(key);
                            new_key = true;
                        }
                    },
                    None => {},
                }
                if new_key {
                    if let Some(keybind) = self.check_for_keybind() {
                        self.eaten_keys.extend(&self.keys_pressed);
                        self.eaten_mods.extend(&self.mods_pressed);
                        match denormalize(&keybind.command) {
                            Ok(command) => {
                                let _ = command.execute(self);
                                return Verdict::Eaten;
                            },
                            Err(_) => {
                                return Verdict::Failed(LeftError::CommandNotFound);
                            },
                        }
                    }
                }
            },
            KeyEventType::Repeat | KeyEventType::Unknown => {},
        }
        if swallow {
            Verdict::Eaten
        } else {
            self.pass_event(path)
        }
    }
}

/// What the loop has waited for.
#[derive(Debug)]
pub enum Event {
    /// A process that was started may have ended.
    Reap,
    /// The device layer reports something.
    Task(Task),
    /// A command came in from another process.
    Command(AnyCommand),
}

/// What is left to do once the worker has taken an event in.
#[derive(Debug, PartialEq, Eq)]
pub enum Instruction {
    Nothing,
    /// Ask the tracked processes whether they have ended.
    Reap,
    /// Pass the event on to the output device of its keyboard.
    Forward,
    /// Open and grab the keyboard at this path.
    AddDevice(String),
    /// Let go of the keyboard at this path.
    RemoveDevice(String),
    /// Report this.
    Report(LeftError),
}

/// What is left to do, as plain values.
pub ghost enum Order {
    Nothing,
    Reap,
    Forward,
    AddDevice(Seq<char>),
    RemoveDevice(Seq<char>),
    Report(LeftError),
}

impl View for Instruction {
    type V = Order;

    open spec fn view(&self) -> Order {
        match self {
            Instruction::Nothing => Order::Nothing,
            Instruction::Reap => Order::Reap,
            Instruction::Forward => Order::Forward,
            Instruction::AddDevice(p) => Order::AddDevice(p@),
            Instruction::RemoveDevice(p) => Order::RemoveDevice(p@),
            Instruction::Report(e) => Order::Report(*e),
        }
    }
}

/// What a verdict on an event leaves to do.
pub open spec fn order_of(v: Verdict) -> Order {
    match v {
        Verdict::Eaten => Order::Nothing,
        Verdict::Forward => Order::Forward,
        Verdict::Failed(e) => Order::Report(e),
    }
}

/// One round of the loop: a chord that has run its course is closed, then
/// the event is taken in.
pub open spec fn after_turn(s: State, event: Event) -> (State, Order) {
    let s0 = settle(s);
    match event {
        Event::Reap => (s0, Order::Reap),
        Event::Task(Task::KeyboardEvent((path, e))) => {
            let (s1, v) = after_event(s0, path@, e);
            (s1, order_of(v))
        },
        Event::Task(Task::KeyboardAdded(path)) => (s0, Order::AddDevice(path@)),
        Event::Task(Task::KeyboardRemoved(path)) => (
            State { devices: s0.devices.remove(path@), ..s0 },
            Order::RemoveDevice(path@),
        ),
        Event::Command(c) => (run(c.action(), s0), Order::Nothing),
    }
}

/// The rounds of the loop over the events that come in, one after the
/// other, until the status is no longer to go on; what is left to do after
/// each round that was made.
pub open spec fn after_turns(s: State, events: Seq<Event>) -> (State, Seq<Order>)
    decreases events.len(),
{
    if events.len() == 0 || s.status != Status::Continue {
        (s, Seq::empty())
    } else {
        let (s1, order) = after_turn(s, events[0]);
        let (s2, orders) = after_turns(s1, events.drop_first());
        (s2, seq![order] + orders)
    }
}

impl Worker {
    /// Whether the loop goes on.
    pub fn is_running(&self) -> (r: bool)
        ensures
            r == (self@.status == Status::Continue),
    {
        self.status == Status::Continue
    }

    /// One round of the loop.
    pub fn turn(&mut self, event: &Event) -> (instruction: Instruction)
        ensures
            (final(self)@, instruction@) == after_turn(old(self)@, *event),
    {
        self.evaluate_chord();
        match event {
            Event::Reap => Instruction::Reap,
            Event::Task(Task::KeyboardEvent((path, e))) => {
                match self.handle_event(path.as_str(), e) {
                    Verdict::Eaten => Instruction::Nothing,
                    Verdict::Forward => Instruction::Forward,
                    Verdict::Failed(e) => Instruction::Report(e),
                }
            },
            Event::Task(Task::KeyboardAdded(path)) => Instruction::AddDevice(path.clone()),
            Event::Task(Task::KeyboardRemoved(path)) => {
                self.evdev.remove_device(path.as_str());
                Instruction::RemoveDevice(path.clone())
            },
            Event::Command(command) => {
                let _ = command.execute(self);
                Instruction::Nothing
            },
        }
    }

    /// Runs the loop over the events that have come in, until one of them
    /// ends it or none is left, and returns the status it ended with.
    pub fn event_loop(&mut self, events: &Vec<Event>) -> (out: (Status, Vec<Instruction>))
        ensures
            final(self)@ == after_turns(old(self)@, events@).0,
            out.0 == final(self)@.status,
            out.1.deep_view() == after_turns(old(self)@, events@).1,
    {
        let mut instructions: Vec<Instruction> = Vec::new();
        let mut i: usize = 0;
        assert(events@.skip(0) =~= events@);
        assert(instructions.deep_view() =~= Seq::<Order>::empty());
        while i < events.len() && self.is_running()
            invariant
                i <= events.len(),
                after_turns(old(self)@, events@).0 == after_turns(self@, events@.skip(i as int)).0,
                after_turns(old(self)@, events@).1 == instructions.deep_view() + after_turns(
                    self@,
                    events@.skip(i as int),
                ).1,
            decreases events.len() - i,
        {
            let ghost rest = events@.skip(i as int);
            let ghost before = instructions.deep_view();
            let ghost state = self@;
            assert(rest[0] == events@[i as int]);
            assert(rest.drop_first() =~= events@.skip(i + 1));
            let instruction = self.turn(&events[i]);
            instructions.push(instruction);
            assert(instructions.deep_view() =~= before.push(instruction@));
            assert(before + (seq![instruction@] + after_turns(self@, events@.skip(i + 1)).1)
                =~= instructions.deep_view() + after_turns(self@, events@.skip(i + 1)).1);
            i = i + 1;
        }
        assert(after_turns(self@, events@.skip(i as int)).1 =~= Seq::<Order>::empty());
        assert(instructions.deep_view() + Seq::<Order>::empty() =~= instructions.deep_view());
        (self.status, instructions)
    }
}

impl DeepView for Instruction {
    type V = Order;

    open spec fn deep_view(&self) -> Order {
        self@
    }
}

} // verus!
