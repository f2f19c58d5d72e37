use lefthk::config::command::utils::normalized_command::NormalizedCommand;
use lefthk::config::command::{AnyCommand, Execute, Kill, Reload};
use lefthk::config::Command;
use lefthk::errors::LeftError;
use lefthk::ipc::{parse_command, Pipe};
use lefthk::keysym_lookup::Lookup;
use lefthk::worker::{Event, Status, Worker};

#[test]
fn simulate_command_sending() {
    let mut command_pipe = Pipe::new();

    let command = Reload::new();

    let normalized = command.normalize();
    command_pipe.write(&format!("{}\n", normalized.to_string()));
    let denormalized = command_pipe.get_next_command().unwrap();

    assert_eq!(command.normalize(), denormalized.normalize());
}

#[test]
fn read_command() {
    let mut command_pipe = Pipe::new();
    command_pipe.write("Reload\n");
    assert_eq!(
        AnyCommand::Reload(Reload::new()),
        command_pipe.get_next_command().unwrap()
    );
}

#[test]
fn a_reload_line_ends_the_loop_without_any_key() {
    let mut pipe = Pipe::new();
    pipe.write(&format!("{}\n", Reload::new().normalize().to_string()));
    let command = pipe.get_next_command().unwrap();
    let mut worker = Worker::new(
        vec![],
        Lookup {
            keys: vec![],
            modifiers: vec![],
        },
    );
    let (status, _) = worker.event_loop(&vec![Event::Command(command)]);
    assert_eq!(status, Status::Reload);
}

#[test]
fn commands_come_out_in_the_order_they_were_written() {
    let mut pipe = Pipe::new();
    let discarded = pipe.write("Kill\nExecute(\"ls\")\nnonsense\n\nReload\nKi");
    assert_eq!(discarded, vec!["nonsense".to_string(), String::new()]);
    assert_eq!(pipe.partial, "Ki");
    assert_eq!(pipe.waiting.len(), 3);
    assert_eq!(pipe.get_next_command(), Some(AnyCommand::Kill(Kill::new())));
    assert_eq!(
        pipe.get_next_command(),
        Some(AnyCommand::Execute(Execute::new("ls")))
    );
    // The line that was cut off is taken once its end has come.
    assert!(pipe.write("ll\n").is_empty());
    assert_eq!(pipe.partial, "");
    assert_eq!(pipe.get_next_command(), Some(AnyCommand::Reload(Reload::new())));
    assert_eq!(pipe.get_next_command(), Some(AnyCommand::Kill(Kill::new())));
    assert_eq!(pipe.get_next_command(), None);
}

#[test]
fn a_line_that_is_no_command_is_not_taken() {
    assert_eq!(Pipe::accept("Restart".to_string()), None);
    assert_eq!(Pipe::accept(String::new()), None);
    assert_eq!(
        Pipe::accept("Kill".to_string()),
        Some(NormalizedCommand("Kill".to_string()))
    );
    assert_eq!(
        NormalizedCommand::try_from("anything".to_string()),
        Ok(NormalizedCommand("anything".to_string()))
    );
}

#[test]
fn the_name_of_the_pipe() {
    assert_eq!(Pipe::pipe_name(None), "command-0.pipe");
    assert_eq!(Pipe::pipe_name(Some(":1")), "command-1.pipe");
    assert_eq!(Pipe::pipe_name(Some("host:10.0")), "command-10.0.pipe");
    assert_eq!(Pipe::pipe_name(Some("a:b:2")), "command-2.pipe");
    assert_eq!(Pipe::pipe_name(Some("nocolon")), "command-0.pipe");
    assert_eq!(Pipe::pipe_name(Some("trailing:")), "command-.pipe");
    assert_eq!(Pipe::pipe_name(Some("")), "command-0.pipe");
}

#[test]
fn the_two_words() {
    assert_eq!(parse_command("Reload"), Ok(AnyCommand::Reload(Reload::new())));
    assert_eq!(parse_command("Kill"), Ok(AnyCommand::Kill(Kill::new())));
    assert_eq!(parse_command("kill"), Err(LeftError::CommandNotFound));
    assert_eq!(parse_command(""), Err(LeftError::CommandNotFound));
}

#[test]
fn commands_by_bare_word() {
    assert_eq!(AnyCommand::try_from("Kill"), Ok(AnyCommand::Kill(Kill::new())));
    assert_eq!(AnyCommand::try_from("Reload"), Ok(AnyCommand::Reload(Reload::new())));
    assert_eq!(
        AnyCommand::try_from("ExitChord"),
        Ok(AnyCommand::ExitChord(lefthk::config::command::ExitChord::new()))
    );
    assert_eq!(
        AnyCommand::try_from("Execute"),
        Ok(AnyCommand::Execute(Execute::new("Execute")))
    );
    assert_eq!(AnyCommand::try_from("Chord"), Err(LeftError::CommandNotFound));
    assert_eq!(
        lefthk::config::command::build_execute("Execute ls -l"),
        Ok(AnyCommand::Execute(Execute::new("ls -l")))
    );
}
