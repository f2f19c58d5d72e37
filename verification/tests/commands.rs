use lefthk::config::command::utils::normalized_command::NormalizedCommand;
use lefthk::config::command::{denormalize, AnyCommand, Chord, Execute, ExitChord, Kill, Reload};
use lefthk::config::{Command, Keybind};
use lefthk::errors::LeftError;

#[test]
fn chord_normalize_process() {
    let command = Chord::new(vec![Keybind {
        command: Reload::new().normalize(),
        modifier: vec![],
        key: String::new(),
    }]);

    let normalized = command.clone().normalize();
    let denormalized = Chord::denormalize(&normalized).unwrap();

    assert_eq!(
        command.clone(),
        denormalized,
        "{:?}, {:?}",
        command,
        denormalized,
    );
}

#[test]
fn execute_normalize_process() {
    let command = Execute::new(&"echo 'I use Arch by the way'");

    let normalized = command.normalize();
    let denormalized = Execute::denormalize(&normalized).unwrap();

    assert_eq!(command, denormalized, "{:?}, {:?}", normalized, denormalized);
}

#[test]
fn exit_chord_normalize_process() {
    let command = ExitChord::new();

    let normalized = command.clone().normalize();
    let denormalized = ExitChord::denormalize(&normalized).unwrap();

    assert_eq!(
        command.clone(),
        denormalized,
        "{:?}, {:?}",
        normalized,
        denormalized,
    );
}

#[test]
fn kill_normalize_process() {
    let command = Kill::new();

    let normalized = command.normalize();
    let denormalized = Kill::denormalize(&normalized).unwrap();

    assert_eq!(
        command.clone(),
        denormalized,
        "{:?}, {:?}",
        command,
        denormalized
    );
}

#[test]
fn reload_normalize_process() {
    let command = Reload::new();

    let normalized = command.normalize();
    let denormalized = Reload::denormalize(&normalized).unwrap();

    assert_eq!(command, denormalized);
}

#[test]
fn unit_commands_are_written_as_their_names() {
    assert_eq!(Kill::new().normalize().0, "Kill");
    assert_eq!(Reload::new().normalize().0, "Reload");
    assert_eq!(ExitChord::new().normalize().0, "ExitChord");
}

#[test]
fn execute_is_written_with_its_line_quoted() {
    assert_eq!(
        Execute::new("st -e htop").normalize().0,
        "Execute(\"st -e htop\")"
    );
    // A quote and a backslash inside the line are escaped, so the line
    // that comes back is the line that went in.
    let tricky = Execute::new("echo \"a\\b\" 'c'\n\té");
    let text = tricky.normalize();
    assert_ne!(text.0, "Execute(\"echo \"a\\b\" 'c'\n\té\")");
    assert_eq!(Execute::denormalize(&text), Some(tricky));
}

#[test]
fn execute_round_trip_keeps_the_line_verbatim() {
    let normalized = Execute::new("echo hi").normalize();
    match denormalize(&normalized) {
        Ok(AnyCommand::Execute(e)) => assert_eq!(e.0, "echo hi"),
        other => panic!("{:?}", other),
    }
}

#[test]
fn chord_layout() {
    let inner = Keybind {
        command: Execute::new("st -e htop").normalize(),
        modifier: vec!["Mod4".to_string(), "Shift".to_string()],
        key: "c".to_string(),
    };
    let text = Chord::new(vec![inner]).normalize();
    assert_eq!(
        text.0,
        "Chord([\n    Keybind(\n        command: NormalizedCommand(\"Execute(\\\"st -e htop\\\")\"),\n        modifier: [\n            \"Mod4\",\n            \"Shift\",\n        ],\n        key: \"c\",\n    ),\n])"
    );
    assert_eq!(Chord::new(vec![]).normalize().0, "Chord([])");
}

#[test]
fn every_kind_comes_back_from_the_registry() {
    let child = Keybind {
        command: Kill::new().normalize(),
        modifier: vec!["Control".to_string()],
        key: "k".to_string(),
    };
    let all = vec![
        AnyCommand::Chord(Chord::new(vec![child.clone(), child])),
        AnyCommand::Chord(Chord::new(vec![])),
        AnyCommand::Execute(Execute::new("echo hi")),
        AnyCommand::ExitChord(ExitChord::new()),
        AnyCommand::Reload(Reload::new()),
        AnyCommand::Kill(Kill::new()),
    ];
    for command in all {
        let back = denormalize(&command.normalize());
        assert_eq!(back, Ok(command));
    }
}

#[test]
fn a_text_that_is_no_command_matches_nothing() {
    for text in ["", "Quit", "Execute", "Execute()", "Execute(\"a\", \"b\")", "Kill()", "Chord", "Execute(\"unfinished"] {
        let n = NormalizedCommand(text.to_string());
        assert_eq!(denormalize(&n), Err(LeftError::UnmatchingCommand), "{}", text);
        assert_eq!(Kill::denormalize(&n), None);
    }
}

#[test]
fn a_command_is_only_read_by_its_own_kind() {
    let kill = Kill::new().normalize();
    assert_eq!(Reload::denormalize(&kill), None);
    assert_eq!(ExitChord::denormalize(&kill), None);
    assert_eq!(Execute::denormalize(&kill), None);
    assert_eq!(Chord::denormalize(&kill), None);
    assert_eq!(Kill::denormalize(&kill), Some(Kill::new()));
}

#[test]
fn space_around_a_command_does_not_matter() {
    let n = NormalizedCommand("  Execute ( \"ls\" , )\n".to_string());
    assert_eq!(denormalize(&n), Ok(AnyCommand::Execute(Execute::new("ls"))));
}

#[test]
fn names_of_the_kinds() {
    assert_eq!(Kill::new().get_name(), "Kill");
    assert_eq!(Reload::new().get_name(), "Reload");
    assert_eq!(ExitChord::new().get_name(), "ExitChord");
    assert_eq!(Execute::new("x").get_name(), "Execute");
    assert_eq!(Chord::new(vec![]).get_name(), "Chord");
}

#[test]
fn comments_around_a_command_do_not_matter() {
    let n = NormalizedCommand("/* now */ Kill // at once\n".to_string());
    assert_eq!(denormalize(&n), Ok(AnyCommand::Kill(Kill::new())));
    let n = NormalizedCommand("Execute(/* the line */ \"ls // not a comment\")".to_string());
    assert_eq!(
        denormalize(&n),
        Ok(AnyCommand::Execute(Execute::new("ls // not a comment")))
    );
}

#[test]
fn the_fields_of_a_binding_may_come_in_any_order() {
    let n = NormalizedCommand(
        "Chord([Keybind(key: \"k\", modifier: [\"Alt\"], command: NormalizedCommand(\"Kill\"))])"
            .to_string(),
    );
    let expected = Chord::new(vec![Keybind {
        command: Kill::new().normalize(),
        modifier: vec!["Alt".to_string()],
        key: "k".to_string(),
    }]);
    assert_eq!(Chord::denormalize(&n), Some(expected));
    for broken in [
        "Chord([Keybind(key: \"k\", modifier: [], command: \"Kill\")])",
        "Chord([Keybind(key: \"k\", command: NormalizedCommand(\"Kill\"))])",
        "Chord([Keybind(key: \"k\", modifier: [], command: NormalizedCommand(\"Kill\"), extra: \"x\")])",
        "Chord([Binding(key: \"k\", modifier: [], command: NormalizedCommand(\"Kill\"))])",
        "Chord(Keybind(key: \"k\", modifier: [], command: NormalizedCommand(\"Kill\")))",
    ] {
        assert_eq!(
            Chord::denormalize(&NormalizedCommand(broken.to_string())),
            None,
            "{}",
            broken
        );
    }
}

#[test]
fn commands_survive_being_written() {
    use_check(AnyCommand::Kill(Kill::new()));
    use_check(AnyCommand::Execute(Execute::new("echo \"hi\" \\ there\n")));
    use_check(AnyCommand::Chord(Chord::new(vec![Keybind {
        command: Execute::new("st -e \"htop\"").normalize(),
        modifier: vec!["Mod4".to_string(), "Shift".to_string()],
        key: "c".to_string(),
    }])));
}

fn use_check(command: AnyCommand) {
    assert!(lefthk::config::command::laws::check_command(&command));
    assert_eq!(denormalize(&command.normalize()), Ok(command));
}
