use lefthk::config::command::utils::normalized_command::NormalizedCommand;
use lefthk::config::Config;
use lefthk::errors::LeftError;
use lefthk::settings::key::Key;
use lefthk::settings::keybind::{try_from, Command, Keybind};
use lefthk::settings::Config as Cfg;

#[test]
fn parse_config() {
    let config = r#"#![enable(implicit_some)]
Config(
    default_modifier: ["Mod4", "Shift"],
    keybinds: [
        Keybind(
            command: Execute("st -e htop"),
            key: Key("x"),
        ),
        Keybind(
            command: Execute("st -e btm"),
            modifier: ["Mod4"],
            key: Key("c"),
        ),
    ]
)"#;
    let conf = Cfg::try_from(config.to_string());
    assert!(conf.is_ok());
    let conf = conf.unwrap();
    assert_eq!(conf.default_modifier.len(), 2);
    assert_eq!(
        conf.default_modifier,
        vec!["Mod4".to_string(), "Shift".to_string()]
    );
    let conf_mapped = conf.mapped_bindings();

    // Verify default modifier implementation
    let default_keybind = conf_mapped.first().unwrap();
    assert_eq!(default_keybind.modifier.len(), 2);
    assert_eq!(default_keybind.modifier, conf.default_modifier);

    // Verify own implementation
    let custom_keybind = conf_mapped.last().unwrap();
    assert_eq!(custom_keybind.modifier.len(), 1);
    assert_eq!(custom_keybind.modifier, vec!["Mod4".to_string()]);
}

#[test]
fn parse_empty_config() {
    let config = r#"Config(
    default_modifier: ["Mod4", "Shift"],
    keybinds: []
)"#;
    let conf = Cfg::try_from(config.to_string());
    assert!(conf.is_ok());
    let conf = conf.unwrap();
    assert_eq!(conf.default_modifier.len(), 2);
    assert_eq!(
        conf.default_modifier,
        vec!["Mod4".to_string(), "Shift".to_string()]
    );
    let conf_mapped = conf.mapped_bindings();

    // Verify implementation
    assert_eq!(conf_mapped.len(), 0);
}

#[test]
fn parse_none_config() {
    // Define empty string
    let conf = Cfg::try_from(String::new());
    assert!(conf.is_err());
}

#[test]
fn parse_sub_keybind_config() {
    let config = r#"#![enable(implicit_some)]
Config(
    default_modifier: ["Mod4", "Shift"],
    keybinds: [
        Keybind(
            command: Chord([
                Keybind(
                    command: Execute("st -e htop"),
                    modifier: ["Mod4"],
                    key: Key("c"),
                ),
            ]),
            modifier: ["Mod4"],
            key: Key("c"),
        ),
        Keybind(
            command: Chord([
                Keybind(
                    command: Execute("st -e htop"),
                    key: Key("c"),
                ),
            ]),
            key: Key("c"),
        ),
    ]
)"#;
    let conf = Cfg::try_from(config.to_string());
    assert!(conf.is_ok());
    let conf = conf.unwrap();
    assert_eq!(conf.default_modifier.len(), 2);
    assert_eq!(
        conf.default_modifier,
        vec!["Mod4".to_string(), "Shift".to_string()]
    );
    let conf_mapped = conf.mapped_bindings();

    // Verify default modifier implementation
    let default_keybind = conf_mapped.last().unwrap();
    assert_eq!(default_keybind.modifier.len(), 2);
    assert_eq!(default_keybind.modifier, conf.default_modifier);
    assert_eq!(
        default_keybind.command,
        NormalizedCommand(
            r#"Chord([
    Keybind(
        command: NormalizedCommand("Execute(\"st -e htop\")"),
        modifier: [
            "Mod4",
            "Shift",
        ],
        key: "c",
    ),
])"#
            .to_string()
        )
    );

    // Verify custom modifier implementation
    let custom_keybind = conf_mapped.first().unwrap();
    assert_eq!(custom_keybind.modifier.len(), 1);
    assert_eq!(custom_keybind.modifier, vec!["Mod4".to_string()]);
    assert_eq!(
        custom_keybind.command,
        NormalizedCommand(
            r#"Chord([
    Keybind(
        command: NormalizedCommand("Execute(\"st -e htop\")"),
        modifier: [
            "Mod4",
        ],
        key: "c",
    ),
])"#
            .to_string()
        )
    );
}

fn bind(command: Command, key: &str) -> Keybind {
    Keybind {
        command,
        modifier: None,
        key: Key::Key(key.to_string()),
    }
}

#[test]
fn a_chord_without_a_way_out_inherits_the_global_one() {
    let config = r#"Config(
    default_modifier: ["Mod4"],
    keybinds: [
        Keybind(command: Chord([Keybind(command: Execute("a"), key: Key("x"))]), key: Key("c")),
        Keybind(command: ExitChord, modifier: Some([]), key: Key("Escape")),
    ]
)"#;
    let conf = Cfg::try_from(config.to_string()).unwrap();
    let exit = Keybind {
        command: Command::ExitChord,
        modifier: Some(vec![]),
        key: Key::Key("Escape".to_string()),
    };
    assert_eq!(
        conf.keybinds,
        vec![
            bind(
                Command::Chord(vec![bind(Command::Execute("a".to_string()), "x"), exit.clone()]),
                "c"
            ),
            exit,
        ]
    );
}

#[test]
fn the_way_out_goes_down_into_nested_chords_and_an_own_one_wins() {
    let own = bind(Command::ExitChord, "q");
    let global = bind(Command::ExitChord, "Escape");
    let nested = bind(
        Command::Chord(vec![
            own.clone(),
            bind(Command::Chord(vec![bind(Command::Reload, "r")]), "n"),
        ]),
        "c",
    );
    let plain = bind(
        Command::Chord(vec![bind(Command::Chord(vec![bind(Command::Kill, "k")]), "n")]),
        "d",
    );
    let out = lefthk::settings::propagate_exit_chord(
        &vec![nested, plain, global.clone()],
        &Some(global.clone()),
    );
    assert_eq!(
        out,
        vec![
            bind(
                Command::Chord(vec![
                    own.clone(),
                    bind(Command::Chord(vec![bind(Command::Reload, "r"), own.clone()]), "n"),
                ]),
                "c",
            ),
            bind(
                Command::Chord(vec![
                    bind(Command::Chord(vec![bind(Command::Kill, "k"), global.clone()]), "n"),
                    global.clone(),
                ]),
                "d",
            ),
            global,
        ]
    );
}

#[test]
fn without_a_global_way_out_chords_stay_as_they_are() {
    let chord = bind(Command::Chord(vec![bind(Command::Reload, "r")]), "c");
    let out = lefthk::settings::propagate_exit_chord(&vec![chord.clone()], &None);
    assert_eq!(out, vec![chord]);
}

#[test]
fn conversion_errors() {
    let d: Vec<String> = vec![];
    assert_eq!(
        try_from(&bind(Command::Chord(vec![]), "a"), &d),
        Err(LeftError::ChildrenNotFound)
    );
    assert_eq!(
        try_from(&bind(Command::Execute(String::new()), "a"), &d),
        Err(LeftError::ValueNotFound)
    );
    assert_eq!(
        try_from(&bind(Command::Executes(vec![]), "a"), &d),
        Err(LeftError::ValuesNotFound)
    );
    assert_eq!(
        try_from(&bind(Command::Executes(vec!["x".to_string()]), "a"), &d),
        Err(LeftError::MultipleKeysNeeded)
    );
    let many = Key::Keys(vec!["a".to_string(), "b".to_string()]);
    for command in [
        Command::Execute("x".to_string()),
        Command::ExitChord,
        Command::Reload,
        Command::Kill,
        Command::Chord(vec![bind(Command::Kill, "k")]),
    ] {
        let kb = Keybind {
            command,
            modifier: None,
            key: many.clone(),
        };
        assert_eq!(try_from(&kb, &d), Err(LeftError::SingleKeyNeeded));
    }
    let kb = Keybind {
        command: Command::Executes(vec!["x".to_string()]),
        modifier: None,
        key: many,
    };
    assert_eq!(
        try_from(&kb, &d),
        Err(LeftError::NumberOfKeysDiffersFromValues)
    );
}

#[test]
fn executes_gives_one_binding_for_each_line() {
    let kb = Keybind {
        command: Command::Executes(vec!["one".to_string(), "two".to_string()]),
        modifier: Some(vec!["Alt".to_string()]),
        key: Key::Keys(vec!["1".to_string(), "2".to_string()]),
    };
    let out = try_from(&kb, &vec!["Mod4".to_string()]).unwrap();
    assert_eq!(out.len(), 2);
    assert_eq!(out[0].command.0, "Execute(\"one\")");
    assert_eq!(out[0].key, "1");
    assert_eq!(out[0].modifier, vec!["Alt".to_string()]);
    assert_eq!(out[1].command.0, "Execute(\"two\")");
    assert_eq!(out[1].key, "2");
}

#[test]
fn a_child_that_cannot_be_converted_is_left_out() {
    let chord = bind(
        Command::Chord(vec![
            bind(Command::Execute(String::new()), "bad"),
            bind(Command::Kill, "k"),
        ]),
        "c",
    );
    let out = try_from(&chord, &vec![]).unwrap();
    assert_eq!(out.len(), 1);
    assert_eq!(
        out[0].command.0,
        "Chord([\n    Keybind(\n        command: NormalizedCommand(\"Kill\"),\n        modifier: [],\n        key: \"k\",\n    ),\n])"
    );
}

#[test]
fn settings_that_are_not_well_formed_are_refused() {
    for text in [
        "Config(default_modifier: [], keybinds: [",
        "Config(default_modifier: [])",
        "Config(keybinds: [])",
        "Config(default_modifier: [], keybinds: []) trailing",
        "Other(default_modifier: [], keybinds: [])",
        "Config(default_modifier: [], keybinds: [Keybind(command: Fly, key: Key(\"x\"))])",
        "Config(default_modifier: [], keybinds: [Keybind(command: Kill)])",
        // Without the switch a bare list is no `Some`.
        "Config(default_modifier: [], keybinds: [Keybind(command: Kill, modifier: [], key: Key(\"x\"))])",
    ] {
        assert_eq!(
            Cfg::try_from(text.to_string()),
            Err(LeftError::InvalidConfig),
            "{}",
            text
        );
    }
}

#[test]
fn comments_in_the_settings_are_passed_over() {
    let config = r#"// the settings of the daemon
#![enable(implicit_some, unwrap_newtypes)]
Config(
    /* the modifiers of bindings
       that name /* none */ themselves */
    default_modifier: ["Mod4"], // one is enough
    keybinds: [
        Keybind(command: Reload, key: Key("r")), // url: "http://x"
    ],
) // the end"#;
    let conf = Cfg::try_from(config.to_string()).unwrap();
    assert_eq!(conf.default_modifier, vec!["Mod4".to_string()]);
    assert_eq!(conf.keybinds, vec![bind(Command::Reload, "r")]);
    let mapped = conf.mapped_bindings();
    assert_eq!(mapped.len(), 1);
    assert_eq!(mapped[0].command.0, "Reload");
    assert_eq!(mapped[0].modifier, vec!["Mod4".to_string()]);
    assert_eq!(mapped[0].key, "r");

    for broken in [
        "Config(default_modifier: [], keybinds: []) /* open",
        "Config(default_modifier: [], keybinds: []) / stray",
        "/* /* */ Config(default_modifier: [], keybinds: [])",
    ] {
        assert_eq!(
            Cfg::try_from(broken.to_string()),
            Err(LeftError::InvalidConfig),
            "{}",
            broken
        );
    }
}

#[test]
fn the_forms_of_a_modifier() {
    let read = |modifier: &str, head: &str| {
        Cfg::try_from(format!(
            "{}Config(default_modifier: [], keybinds: [Keybind(command: Kill, {}key: Key(\"k\"))])",
            head, modifier
        ))
        .map(|c| c.keybinds[0].modifier.clone())
    };
    assert_eq!(read("", ""), Ok(None));
    assert_eq!(read("modifier: None, ", ""), Ok(None));
    assert_eq!(
        read("modifier: Some([\"Alt\"]), ", ""),
        Ok(Some(vec!["Alt".to_string()]))
    );
    assert_eq!(
        read("modifier: [\"Alt\"], ", "#![enable(implicit_some)]\n"),
        Ok(Some(vec!["Alt".to_string()]))
    );
    assert_eq!(
        read("modifier: Some([]), ", "#![enable(implicit_some)] "),
        Ok(Some(vec![]))
    );
    assert_eq!(read("modifier: [\"Alt\"], ", ""), Err(LeftError::InvalidConfig));
    assert_eq!(read("modifier: \"Alt\", ", ""), Err(LeftError::InvalidConfig));
}

#[test]
fn keys_and_several_lines() {
    let config = r#"(
    keybinds: [
        (key: Keys(["1", "2"]), command: Executes(["one", "two"])),
    ],
    default_modifier: ["Mod4", "Shift"],
)"#;
    let conf = Cfg::try_from(config.to_string()).unwrap();
    assert_eq!(
        conf.keybinds,
        vec![Keybind {
            command: Command::Executes(vec!["one".to_string(), "two".to_string()]),
            modifier: None,
            key: Key::Keys(vec!["1".to_string(), "2".to_string()]),
        }]
    );
    let mapped = conf.mapped_bindings();
    assert_eq!(mapped.len(), 2);
    assert_eq!(mapped[1].command.0, "Execute(\"two\")");
    assert_eq!(mapped[1].key, "2");
    assert_eq!(mapped[1].modifier, conf.default_modifier);
    assert_eq!(conf.clone(), conf);
}
