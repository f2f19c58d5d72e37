use lefthk::child::Children;
use lefthk::errors::LeftError;
use lefthk::evdev::{AddStep, Change, EvDev, Properties, Task};
use lefthk::roundtrip::check_survives;
use lefthk::text::{strip_quotes, without_head};

fn device(name: &str, keyboard: Option<&str>, mouse: Option<&str>, devname: Option<&str>) -> Properties {
    Properties {
        name: Some(name.to_string()),
        id_input_keyboard: keyboard.map(str::to_string),
        id_input_mouse: mouse.map(str::to_string),
        devname: devname.map(str::to_string),
    }
}

#[test]
fn what_counts_as_a_keyboard() {
    assert!(device("kbd", Some("1"), None, None).is_keyboard());
    assert!(device("kbd", Some("1"), Some("0"), None).is_keyboard());
    assert!(!device("combo", Some("1"), Some("1"), None).is_keyboard());
    assert!(!device("mouse", None, Some("1"), None).is_keyboard());
    assert!(!device("thing", None, None, None).is_keyboard());
    assert!(!device("thing", Some("yes"), None, None).is_keyboard());
}

#[test]
fn keyboards_that_come_and_go() {
    let kbd = device("AT Keyboard", Some("1"), None, Some("/dev/input/event5"));
    match kbd.watch(Change::Add) {
        Some(Task::KeyboardAdded(p)) => assert_eq!(p, "/dev/input/event5"),
        other => panic!("{:?}", other),
    }
    match kbd.watch(Change::Remove) {
        Some(Task::KeyboardRemoved(p)) => assert_eq!(p, "/dev/input/event5"),
        other => panic!("{:?}", other),
    }
    assert!(kbd.watch(Change::Other).is_none());
    // The daemon's own device is never listened to.
    let own = device(
        lefthk::evdev::VIRTUAL_DEVICE_NAME,
        Some("1"),
        None,
        Some("/dev/input/event7"),
    );
    assert!(own.is_own());
    assert!(own.watch(Change::Add).is_none());
    assert!(!kbd.is_own());
    // Nor is a mouse, or a keyboard without a path.
    assert!(device("m", Some("1"), Some("1"), Some("/dev/input/event1"))
        .watch(Change::Add)
        .is_none());
    assert!(device("k", Some("1"), None, None).watch(Change::Add).is_none());
    assert!(device("k", Some("1"), None, Some("")).watch(Change::Remove).is_none());
    let nameless = Properties {
        name: None,
        id_input_keyboard: Some("1".to_string()),
        id_input_mouse: None,
        devname: Some("/dev/input/event2".to_string()),
    };
    assert!(!nameless.is_own());
    assert!(nameless.watch(Change::Add).is_some());
}

#[test]
fn the_keyboards_that_are_grabbed() {
    let mut devices = EvDev::new();
    assert!(!devices.has_device("/dev/input/event1"));
    devices.add_device("/dev/input/event1".to_string());
    devices.add_device("/dev/input/event2".to_string());
    devices.add_device("/dev/input/event1".to_string());
    assert_eq!(devices.devices.len(), 2);
    assert!(devices.has_device("/dev/input/event1"));
    devices.remove_device("/dev/input/event1");
    assert!(!devices.has_device("/dev/input/event1"));
    assert!(devices.has_device("/dev/input/event2"));
    devices.remove_device("/dev/input/event5");
    assert_eq!(devices.devices, vec!["/dev/input/event2".to_string()]);
}

#[test]
fn a_child_that_has_ended_is_forgotten_in_one_round() {
    let mut children = Children::new();
    assert!(children.is_empty());
    assert!(children.insert(100));
    assert!(children.insert(200));
    assert!(children.insert(300));
    assert!(!children.insert(200));
    assert_eq!(children.len(), 3);
    assert_eq!(children.pids(), vec![100, 200, 300]);

    // 200 has ended; 999 was never known.
    let gone = children.reap(&vec![200, 999, 200]);
    assert_eq!(gone, vec![200]);
    assert_eq!(children.len(), 2);
    assert!(!children.contains(200));
    assert_eq!(children.pids(), vec![100, 300]);

    // It is not asked again, and not forgotten a second time.
    let gone = children.reap(&vec![200]);
    assert!(gone.is_empty());
    assert_eq!(children.len(), 2);

    let gone = children.reap(&vec![300, 100]);
    assert_eq!(gone, vec![100, 300]);
    assert!(children.is_empty());
    assert!(children.reap(&vec![]).is_empty());
}

#[test]
fn children_can_be_merged() {
    let mut a = Children::default();
    a.insert(1);
    a.insert(2);
    let mut b = Children::new();
    b.insert(2);
    b.insert(3);
    a.merge(b);
    assert_eq!(a.len(), 3);
    a.extend(&vec![3, 4, 4]);
    assert_eq!(a.pids(), vec![1, 2, 3, 4]);
}

#[test]
fn quotes_and_heads() {
    assert_eq!(strip_quotes("\"st\"".to_string()), "st");
    assert_eq!(strip_quotes("a\"b\"\"c".to_string()), "abc");
    assert_eq!(strip_quotes(String::new()), "");
    assert_eq!(without_head("Execute ls", "Execute "), "ls");
    assert_eq!(without_head("Execute", "Execute "), "Execute");
    assert_eq!(without_head("ls", "Execute "), "ls");
    assert_eq!(without_head("héllo wörld", "héllo "), "wörld");
    assert_eq!(without_head("abc", ""), "abc");
    assert_eq!(without_head("abc", "abc"), "");
}

#[test]
fn strings_survive_being_written() {
    for line in ["", "echo hi", "a \"quoted\" word", "back\\slash", "tab\tnew\nline", "ünïcödé ✓", "'single'", "\u{0}\u{7f}\u{200b}"] {
        assert!(check_survives(line), "{:?}", line);
    }
}

#[test]
fn sentences_for_errors() {
    assert_eq!(
        LeftError::DeviceOpenFailed("/dev/input/event1".to_string()).to_string(),
        "Failed to open device /dev/input/event1."
    );
    assert_eq!(
        LeftError::IoError("broken pipe".to_string()).to_string(),
        "IO error: broken pipe."
    );
    assert_eq!(
        LeftError::UnmatchingCommand.to_string(),
        "Given String doesn't match with a command."
    );
    assert_eq!(
        LeftError::CommandNotFound.to_string(),
        "No command found for keybind."
    );
    assert_eq!(
        lefthk::config::command::utils::error::CommandError::UnmatchingCommand.to_string(),
        "Given String doesn't match."
    );
    assert_eq!(lefthk::LEFTHK_DIR_NAME, "lefthk");
}

#[test]
fn the_steps_of_taking_a_keyboard_over() {
    let path = "/dev/input/event4";
    let mut steps = vec![];
    let mut step = Some(AddStep::first());
    while let Some(now) = step {
        steps.push(now);
        step = now.after(path, Ok(())).unwrap();
    }
    assert_eq!(
        steps,
        vec![
            AddStep::Open,
            AddStep::Settle,
            AddStep::Pair,
            AddStep::Grab,
            AddStep::Ungrab,
            AddStep::Regrab,
            AddStep::Listen,
        ]
    );
    let failed = |step: AddStep| step.after(path, Err("busy".to_string()));
    assert_eq!(failed(AddStep::Open), Err(LeftError::DeviceOpenFailed(path.to_string())));
    assert_eq!(failed(AddStep::Pair), Err(LeftError::VirtualDeviceCreationFailed));
    assert_eq!(failed(AddStep::Grab), Err(LeftError::DeviceGrabFailed(path.to_string())));
    assert_eq!(failed(AddStep::Ungrab), Err(LeftError::DeviceUngrabFailed(path.to_string())));
    assert_eq!(failed(AddStep::Regrab), Err(LeftError::DeviceGrabFailed(path.to_string())));
    assert_eq!(failed(AddStep::Listen), Err(LeftError::IoError("busy".to_string())));
}
