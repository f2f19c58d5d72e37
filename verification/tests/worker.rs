use lefthk::config::command::{AnyCommand, Chord, Execute, ExitChord, Kill, Reload};
use lefthk::config::{Command, Keybind};
use lefthk::errors::LeftError;
use lefthk::evdev::{KeyCode, KeyEvent, Task};
use lefthk::keysym_lookup::{Lookup, Symbol};
use lefthk::worker::{Event, KeyEventType, Status, Instruction, Verdict, Worker};

const MOD4: u32 = 125;
const SHIFT: u32 = 42;
const C: u32 = 46;
const X: u32 = 45;
const Z: u32 = 44;
const KEYBOARD: &str = "/dev/input/event3";

fn lookup() -> Lookup {
    let sym = |name: &str, code: u32| Symbol {
        name: name.to_string(),
        code,
    };
    Lookup {
        keys: vec![sym("c", C), sym("x", X), sym("z", Z), sym("Escape", 1)],
        modifiers: vec![sym("Mod4", MOD4), sym("Shift", SHIFT)],
    }
}

fn bind<T: Command>(command: &T, modifier: &[&str], key: &str) -> Keybind {
    Keybind {
        command: command.normalize(),
        modifier: modifier.iter().map(|m| m.to_string()).collect(),
        key: key.to_string(),
    }
}

fn worker(keybinds: Vec<Keybind>) -> Worker {
    let mut worker = Worker::new(keybinds, lookup());
    worker.evdev.add_device(KEYBOARD.to_string());
    worker
}

fn press(code: KeyCode) -> KeyEvent {
    KeyEvent {
        value: 1,
        code: Some(code),
    }
}

fn release(code: KeyCode) -> KeyEvent {
    KeyEvent {
        value: 0,
        code: Some(code),
    }
}

#[test]
fn event_values() {
    assert_eq!(KeyEventType::from(0), KeyEventType::Release);
    assert_eq!(KeyEventType::from(1), KeyEventType::Press);
    assert_eq!(KeyEventType::from(2), KeyEventType::Repeat);
    assert_eq!(KeyEventType::from(3), KeyEventType::Unknown);
    assert_eq!(KeyEventType::from(-1), KeyEventType::Unknown);
}

#[test]
fn modifiers_must_match_exactly() {
    let binding = bind(&Execute::new("both"), &["Mod4"], "c");

    // One modifier too many.
    let mut w = worker(vec![binding.clone()]);
    assert_eq!(w.handle_event(KEYBOARD, &press(KeyCode::Modifier(MOD4))), Verdict::Forward);
    assert_eq!(w.handle_event(KEYBOARD, &press(KeyCode::Modifier(SHIFT))), Verdict::Forward);
    assert_eq!(w.handle_event(KEYBOARD, &press(KeyCode::Key(C))), Verdict::Forward);
    assert!(w.take_requests().is_empty());

    // None at all.
    let mut w = worker(vec![binding.clone()]);
    assert_eq!(w.handle_event(KEYBOARD, &press(KeyCode::Key(C))), Verdict::Forward);
    assert!(w.take_requests().is_empty());

    // Exactly the one.
    let mut w = worker(vec![binding.clone()]);
    assert_eq!(w.handle_event(KEYBOARD, &press(KeyCode::Modifier(MOD4))), Verdict::Forward);
    assert_eq!(w.handle_event(KEYBOARD, &press(KeyCode::Key(C))), Verdict::Eaten);
    assert_eq!(w.take_requests(), vec!["both".to_string()]);

    // The right modifier, but a second plain key is held.
    let mut w = worker(vec![binding]);
    assert_eq!(w.handle_event(KEYBOARD, &press(KeyCode::Key(Z))), Verdict::Forward);
    assert_eq!(w.handle_event(KEYBOARD, &press(KeyCode::Modifier(MOD4))), Verdict::Forward);
    assert_eq!(w.handle_event(KEYBOARD, &press(KeyCode::Key(C))), Verdict::Forward);
    assert!(w.take_requests().is_empty());
}

#[test]
fn the_order_of_the_modifiers_does_not_matter() {
    let binding = bind(&Execute::new("both"), &["Shift", "Mod4", "Shift"], "c");
    let mut w = worker(vec![binding]);
    w.handle_event(KEYBOARD, &press(KeyCode::Modifier(MOD4)));
    w.handle_event(KEYBOARD, &press(KeyCode::Modifier(SHIFT)));
    assert_eq!(w.handle_event(KEYBOARD, &press(KeyCode::Key(C))), Verdict::Eaten);
}

#[test]
fn the_first_binding_in_the_table_wins() {
    let mut w = worker(vec![
        bind(&Execute::new("first"), &[], "c"),
        bind(&Execute::new("second"), &[], "c"),
    ]);
    assert_eq!(w.handle_event(KEYBOARD, &press(KeyCode::Key(C))), Verdict::Eaten);
    assert_eq!(w.take_requests(), vec!["first".to_string()]);
}

#[test]
fn a_binding_with_an_unknown_name_never_matches() {
    let mut w = worker(vec![
        bind(&Execute::new("a"), &[], "NoSuchKey"),
        bind(&Execute::new("b"), &["NoSuchModifier"], "c"),
    ]);
    assert_eq!(w.handle_event(KEYBOARD, &press(KeyCode::Key(C))), Verdict::Forward);
    assert_eq!(w.check_for_keybind(), None);
}

#[test]
fn chord_children_are_only_in_force_inside_the_chord() {
    let chord = Chord::new(vec![bind(&Execute::new("a"), &[], "x")]);
    let keybinds = vec![bind(&chord, &[], "c")];

    // "c", then "x": the child runs.
    let mut w = worker(keybinds.clone());
    let key = |e: KeyEvent| Event::Task(Task::KeyboardEvent((KEYBOARD.to_string(), e)));
    assert_eq!(w.turn(&key(press(KeyCode::Key(C)))), Instruction::Nothing);
    assert!(w.chord_ctx.keybinds.is_some());
    assert_eq!(w.turn(&key(release(KeyCode::Key(C)))), Instruction::Nothing);
    assert_eq!(w.turn(&key(press(KeyCode::Key(X)))), Instruction::Nothing);
    assert_eq!(w.take_requests(), vec!["a".to_string()]);
    assert!(w.chord_ctx.elapsed);

    // The chord has run its course: at the next round it is closed, and
    // "x" is an ordinary key again.
    assert_eq!(w.turn(&key(release(KeyCode::Key(X)))), Instruction::Nothing);
    assert_eq!(w.chord_ctx.keybinds, None);
    assert!(!w.chord_ctx.elapsed);
    assert_eq!(w.turn(&key(press(KeyCode::Key(X)))), Instruction::Forward);
    assert!(w.take_requests().is_empty());

    // "x" without "c" before it: nothing.
    let mut w = worker(keybinds);
    assert_eq!(w.turn(&key(press(KeyCode::Key(X)))), Instruction::Forward);
    assert_eq!(w.turn(&key(release(KeyCode::Key(X)))), Instruction::Forward);
    assert!(w.take_requests().is_empty());
}

#[test]
fn inside_a_chord_the_global_bindings_are_not_in_force() {
    let chord = Chord::new(vec![bind(&ExitChord::new(), &[], "Escape")]);
    let mut w = worker(vec![bind(&chord, &[], "c"), bind(&Kill::new(), &[], "x")]);
    w.handle_event(KEYBOARD, &press(KeyCode::Key(C)));
    w.handle_event(KEYBOARD, &release(KeyCode::Key(C)));
    assert_eq!(w.handle_event(KEYBOARD, &press(KeyCode::Key(X))), Verdict::Forward);
    assert_eq!(w.status, Status::Continue);
    w.handle_event(KEYBOARD, &release(KeyCode::Key(X)));
    // Leaving the chord marks it as over, and the next round closes it.
    assert_eq!(w.handle_event(KEYBOARD, &press(KeyCode::Key(1))), Verdict::Eaten);
    assert!(w.chord_ctx.elapsed);
    w.evaluate_chord();
    assert_eq!(w.chord_ctx.keybinds, None);
}

#[test]
fn entering_a_chord_inside_a_chord_replaces_it() {
    let inner = Chord::new(vec![bind(&Execute::new("deep"), &[], "z")]);
    let outer = Chord::new(vec![bind(&inner, &[], "x")]);
    let mut w = worker(vec![bind(&outer, &[], "c")]);
    for key in [C, X] {
        assert_eq!(w.handle_event(KEYBOARD, &press(KeyCode::Key(key))), Verdict::Eaten);
        assert_eq!(w.handle_event(KEYBOARD, &release(KeyCode::Key(key))), Verdict::Eaten);
    }
    assert_eq!(
        w.chord_ctx.keybinds,
        Some(vec![bind(&Execute::new("deep"), &[], "z")])
    );
    assert_eq!(w.handle_event(KEYBOARD, &press(KeyCode::Key(Z))), Verdict::Eaten);
    assert_eq!(w.take_requests(), vec!["deep".to_string()]);
}

#[test]
fn the_keys_of_a_match_do_not_leak() {
    let mut w = worker(vec![bind(&Execute::new("run"), &["Mod4"], "c")]);
    // The modifier goes down before anything matches.
    assert_eq!(w.handle_event(KEYBOARD, &press(KeyCode::Modifier(MOD4))), Verdict::Forward);
    // The press that completes the binding is eaten, and so is every
    // release of a key that was held then.
    assert_eq!(w.handle_event(KEYBOARD, &press(KeyCode::Key(C))), Verdict::Eaten);
    assert_eq!(
        w.handle_event(KEYBOARD, &KeyEvent { value: 2, code: Some(KeyCode::Key(C)) }),
        Verdict::Forward
    );
    assert_eq!(w.handle_event(KEYBOARD, &release(KeyCode::Key(C))), Verdict::Eaten);
    assert_eq!(w.handle_event(KEYBOARD, &release(KeyCode::Modifier(MOD4))), Verdict::Eaten);
    // After that the keys are ordinary keys again.
    assert_eq!(w.handle_event(KEYBOARD, &press(KeyCode::Modifier(MOD4))), Verdict::Forward);
    assert_eq!(w.handle_event(KEYBOARD, &release(KeyCode::Modifier(MOD4))), Verdict::Forward);
}

#[test]
fn a_key_that_nothing_is_bound_to_passes_through() {
    let mut w = worker(vec![bind(&Execute::new("run"), &["Mod4"], "c")]);
    assert_eq!(w.handle_event(KEYBOARD, &press(KeyCode::Key(Z))), Verdict::Forward);
    assert_eq!(w.handle_event(KEYBOARD, &press(KeyCode::Key(Z))), Verdict::Forward);
    assert_eq!(w.handle_event(KEYBOARD, &release(KeyCode::Key(Z))), Verdict::Forward);
    assert_eq!(
        w.handle_event(KEYBOARD, &KeyEvent { value: 1, code: None }),
        Verdict::Forward
    );
    assert_eq!(
        w.handle_event(KEYBOARD, &KeyEvent { value: 7, code: Some(KeyCode::Key(Z)) }),
        Verdict::Forward
    );
}

#[test]
fn an_event_of_a_keyboard_without_output_device_is_reported() {
    let mut w = Worker::new(vec![bind(&Kill::new(), &[], "c")], lookup());
    assert_eq!(
        w.handle_event(KEYBOARD, &press(KeyCode::Key(Z))),
        Verdict::Failed(LeftError::UInputNotFound)
    );
    assert_eq!(
        w.pass_event(KEYBOARD),
        Verdict::Failed(LeftError::UInputNotFound)
    );
    // A match needs no output device.
    assert_eq!(w.handle_event(KEYBOARD, &release(KeyCode::Key(Z))), Verdict::Failed(LeftError::UInputNotFound));
    assert_eq!(w.handle_event(KEYBOARD, &press(KeyCode::Key(C))), Verdict::Eaten);
    assert_eq!(w.status, Status::Kill);
}

#[test]
fn a_binding_whose_command_cannot_be_read_is_reported() {
    let broken = Keybind {
        command: lefthk::config::command::utils::normalized_command::NormalizedCommand(
            "Fly(\"away\")".to_string(),
        ),
        modifier: vec![],
        key: "c".to_string(),
    };
    let mut w = worker(vec![broken]);
    assert_eq!(
        w.handle_event(KEYBOARD, &press(KeyCode::Key(C))),
        Verdict::Failed(LeftError::CommandNotFound)
    );
    // The key was taken all the same: its release is eaten.
    assert_eq!(w.handle_event(KEYBOARD, &release(KeyCode::Key(C))), Verdict::Eaten);
}

#[test]
fn commands_set_the_status() {
    let mut w = worker(vec![]);
    assert!(w.is_running());
    assert_eq!(Reload::new().execute(&mut w), Ok(()));
    assert_eq!(w.status, Status::Reload);
    assert!(!w.is_running());
    assert_eq!(Kill::new().execute(&mut w), Ok(()));
    assert_eq!(w.status, Status::Kill);
}

#[test]
fn execute_outside_a_chord_does_not_end_one() {
    let mut w = worker(vec![]);
    assert_eq!(Execute::new("ls").execute(&mut w), Ok(()));
    assert!(!w.chord_ctx.elapsed);
    assert_eq!(ExitChord::new().execute(&mut w), Ok(()));
    assert!(!w.chord_ctx.elapsed);
    assert_eq!(w.exec("pwd"), Ok(()));
    assert_eq!(w.take_requests(), vec!["ls".to_string(), "pwd".to_string()]);
    assert!(w.take_requests().is_empty());
}

#[test]
fn rounds_of_the_loop() {
    let mut w = worker(vec![]);
    assert_eq!(w.turn(&Event::Reap), Instruction::Reap);
    assert_eq!(
        w.turn(&Event::Task(Task::KeyboardAdded("/dev/input/event9".to_string()))),
        Instruction::AddDevice("/dev/input/event9".to_string())
    );
    // Whether the keyboard could be grabbed is not known yet.
    assert!(!w.evdev.has_device("/dev/input/event9"));
    assert_eq!(
        w.turn(&Event::Task(Task::KeyboardRemoved(KEYBOARD.to_string()))),
        Instruction::RemoveDevice(KEYBOARD.to_string())
    );
    assert!(!w.evdev.has_device(KEYBOARD));
    assert_eq!(
        w.turn(&Event::Task(Task::KeyboardEvent((
            KEYBOARD.to_string(),
            press(KeyCode::Key(Z))
        )))),
        Instruction::Report(LeftError::UInputNotFound)
    );
    assert_eq!(
        w.turn(&Event::Command(AnyCommand::Kill(Kill::new()))),
        Instruction::Nothing
    );
    assert_eq!(w.status, Status::Kill);
}

#[test]
fn the_loop_ends_with_the_first_event_that_ends_it() {
    let mut w = worker(vec![]);
    let events = vec![
        Event::Reap,
        Event::Command(AnyCommand::Execute(Execute::new("ls"))),
        Event::Command(AnyCommand::Reload(Reload::new())),
        Event::Command(AnyCommand::Kill(Kill::new())),
        Event::Reap,
    ];
    let (status, instructions) = w.event_loop(&events);
    assert_eq!(status, Status::Reload);
    assert_eq!(instructions, vec![Instruction::Reap, Instruction::Nothing, Instruction::Nothing]);
    assert_eq!(w.take_requests(), vec!["ls".to_string()]);

    let mut w = worker(vec![]);
    let (status, instructions) = w.event_loop(&vec![Event::Reap]);
    assert_eq!(status, Status::Continue);
    assert_eq!(instructions, vec![Instruction::Reap]);
}

#[test]
fn a_process_that_was_started_is_known_and_a_failure_is_reported() {
    let mut w = worker(vec![]);
    assert_eq!(w.spawned(Ok(4242)), Ok(()));
    assert!(w.children.contains(4242));
    assert_eq!(w.children.len(), 1);
    assert_eq!(
        w.spawned(Err("No such file or directory".to_string())),
        Err(LeftError::IoError("No such file or directory".to_string()))
    );
    assert_eq!(w.children.len(), 1);
}

#[test]
fn a_keyboard_that_could_not_be_grabbed_is_skipped() {
    let mut w = Worker::new(vec![], lookup());
    let busy = LeftError::DeviceGrabFailed(KEYBOARD.to_string());
    assert_eq!(
        w.added(KEYBOARD.to_string(), Err(LeftError::DeviceGrabFailed(KEYBOARD.to_string()))),
        Err(busy)
    );
    assert!(!w.evdev.has_device(KEYBOARD));
    assert!(w.is_running());
    assert_eq!(w.added(KEYBOARD.to_string(), Ok(())), Ok(()));
    assert!(w.evdev.has_device(KEYBOARD));
}
