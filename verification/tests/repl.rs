use datafusion_exec::options::PrintFormat;
use datafusion_exec::repl::{
    command_in_line, format_message, invalid_command_message, Answer, Repl, ReplEvent, ReplPhase,
    Say, ShellCommand, Todo,
};

type Session = Repl<String, Vec<String>>;
type Event = ReplEvent<String, Vec<String>, String, String>;
type Reply = Answer<String, String, String>;

fn text(s: &str) -> String {
    s.to_string()
}

fn quiet(todo: Todo<String, String>) -> Reply {
    Answer { say: None, todo }
}

fn saying(say: Say<String, String, String>, todo: Todo<String, String>) -> Reply {
    Answer { say: Some(say), todo }
}

fn line(s: &str) -> Event {
    Event::Line(text(s))
}

/// A session that waits for the command of a line.
fn parsing(s: &str) -> Session {
    let (session, _) = Repl::new().step(line(s));
    session.step(Event::Recorded(Ok(()))).0
}

#[test]
fn command_lines_are_recorded_and_normalized() {
    let (session, answer) = Repl::new().step(line("\\pset   format  csv  \n"));
    assert_eq!(answer, quiet(Todo::Record(text("\\pset   format  csv"))));
    let (_, answer) = session.step(Event::Recorded(Ok(())));
    assert_eq!(answer, quiet(Todo::ParseCommand(text("pset format csv"))));
    assert_eq!(command_in_line("\\q"), "q");
    assert_eq!(command_in_line("\\"), "");
    assert_eq!(command_in_line("\\ d  t"), " d t");
}

#[test]
fn quitting_saves_the_history() {
    let (session, answer) = parsing("\\q").step(Event::CommandParsed(Some(ShellCommand::Quit)));
    assert_eq!(answer, quiet(Todo::SaveHistory));
    let (session, answer) = session.step(Event::Saved(Err(text("disk full"))));
    assert_eq!(answer, quiet(Todo::Finish(Err(text("disk full")))));
    let (session, answer) = session.step(line("select 1"));
    assert_eq!(answer, quiet(Todo::Unexpected));
    assert_eq!(session.phase, ReplPhase::Done);
}

#[test]
fn end_of_input_saves_the_history() {
    let (session, answer) = Repl::new().step(Event::EndOfInput);
    assert_eq!(answer, saying(Say::Line(text("\\q")), Todo::SaveHistory));
    let (_, answer) = session.step(Event::Saved(Ok(())));
    assert_eq!(answer, quiet(Todo::Finish(Ok(()))));
}

#[test]
fn errors_of_the_editor_end_the_session() {
    let (session, answer) = Repl::new().step(Event::ReadFailed(text("no terminal")));
    assert_eq!(answer, saying(Say::ReadError(text("no terminal")), Todo::SaveHistory));
    assert_eq!(session.phase, ReplPhase::Saving);
}

#[test]
fn interrupts_do_not_end_the_session() {
    let (session, answer) = Repl::new().step(Event::Interrupted);
    assert_eq!(answer, saying(Say::Line(text("^C")), Todo::ReadLine));
    assert_eq!(session, Repl::new());
}

#[test]
fn invalid_commands_are_shown_as_typed() {
    let (session, answer) = parsing("\\nope  x ").step(Event::CommandParsed(None));
    assert_eq!(
        answer,
        saying(Say::Complaint(text("'\\nope  x ' is not a valid command")), Todo::ReadLine)
    );
    assert_eq!(session, Repl::new());
    assert_eq!(invalid_command_message("\\é"), "'\\é' is not a valid command");
}

#[test]
fn output_format_is_set() {
    let command = ShellCommand::OutputFormat(Some(text("csv")));
    let (session, answer) =
        parsing("\\pset format csv").step(Event::CommandParsed(Some(command)));
    assert_eq!(answer, quiet(Todo::ParseFormat(text("csv"))));
    let (session, answer) = session.step(Event::FormatParsed(true));
    assert_eq!(answer, quiet(Todo::ApplyFormat));
    let (session, answer) = session.step(Event::CommandRan(Ok(())));
    assert_eq!(answer, quiet(Todo::ReadLine));
    assert_eq!(session, Repl::new());
}

#[test]
fn unknown_output_format_is_no_command() {
    let command = ShellCommand::OutputFormat(Some(text("xyz")));
    let (session, _) = parsing("\\pset xyz").step(Event::CommandParsed(Some(command)));
    let (_, answer) = session.step(Event::FormatParsed(false));
    assert_eq!(
        answer,
        saying(Say::Complaint(text("'\\pset xyz' is not a valid command")), Todo::ReadLine)
    );
}

#[test]
fn output_format_is_shown() {
    let (_, answer) =
        parsing("\\pset").step(Event::CommandParsed(Some(ShellCommand::OutputFormat(None))));
    assert_eq!(answer, saying(Say::Format, Todo::ReadLine));
    for format in [
        PrintFormat::Csv,
        PrintFormat::Tsv,
        PrintFormat::Table,
        PrintFormat::Json,
        PrintFormat::NdJson,
        PrintFormat::Automatic,
    ] {
        assert_eq!(format_message(format), format!("Output format is {:?}.", format));
    }
}

#[test]
fn errors_of_commands_are_shown() {
    let (session, answer) =
        parsing("\\d").step(Event::CommandParsed(Some(ShellCommand::Other)));
    assert_eq!(answer, quiet(Todo::RunCommand));
    let (session, answer) = session.step(Event::CommandRan(Err(text("no tables"))));
    assert_eq!(answer, saying(Say::Error(text("no tables")), Todo::ReadLine));
    assert_eq!(session, Repl::new());
}

#[test]
fn statements_of_a_line_in_turn() {
    let (session, answer) = Repl::new().step(line("a; b ;c;"));
    assert_eq!(answer, quiet(Todo::Split(text("a; b ;c;"))));
    let (session, answer) =
        session.step(Event::Split(vec![text("a;"), text(" b ; "), text("c;")]));
    assert_eq!(answer, quiet(Todo::Record(text("a;"))));
    let (session, answer) = session.step(Event::Recorded(Ok(())));
    assert_eq!(answer, quiet(Todo::Execute(text("a;"))));
    let (session, answer) = session.step(Event::StatementRan(Err(text("bad"))));
    assert_eq!(answer, saying(Say::Error(text("bad")), Todo::RefreshDialect));
    let (session, answer) = session.step(Event::Refreshed);
    assert_eq!(answer, quiet(Todo::Record(text(" b ;"))));
    let (session, answer) = session.step(Event::Recorded(Ok(())));
    assert_eq!(answer, quiet(Todo::Execute(text(" b ; "))));
    let (session, answer) = session.step(Event::Cancelled);
    assert_eq!(answer, saying(Say::Line(text("^C")), Todo::Record(text("c;"))));
    let (session, answer) = session.step(Event::Recorded(Ok(())));
    assert_eq!(answer, quiet(Todo::Execute(text("c;"))));
    let (session, answer) = session.step(Event::StatementRan(Ok(())));
    assert_eq!(answer, quiet(Todo::RefreshDialect));
    let (session, answer) = session.step(Event::Refreshed);
    assert_eq!(answer, quiet(Todo::ReadLine));
    assert_eq!(session, Repl::new());
}

#[test]
fn a_line_without_statements() {
    let (session, _) = Repl::new().step(line("   "));
    let (session, answer) = session.step(Event::Split(vec![]));
    assert_eq!(answer, quiet(Todo::ReadLine));
    assert_eq!(session, Repl::new());
}

#[test]
fn cancelling_the_last_statement() {
    let (session, _) = Repl::new().step(line("a;"));
    let (session, _) = session.step(Event::Split(vec![text("a;")]));
    let (session, _) = session.step(Event::Recorded(Ok(())));
    let (session, answer) = session.step(Event::Cancelled);
    assert_eq!(answer, saying(Say::Line(text("^C")), Todo::ReadLine));
    assert_eq!(session, Repl::new());
}

#[test]
fn an_entry_that_cannot_be_added_ends_the_session() {
    let (session, _) = Repl::new().step(line("\\q"));
    let (session, answer) = session.step(Event::Recorded(Err(text("no history"))));
    assert_eq!(answer, quiet(Todo::Finish(Err(text("no history")))));
    assert_eq!(session.phase, ReplPhase::Done);

    let (session, _) = Repl::new().step(line("a; b;"));
    let (session, _) = session.step(Event::Split(vec![text("a;"), text("b;")]));
    let (session, answer) = session.step(Event::Recorded(Err(text("no history"))));
    assert_eq!(answer, quiet(Todo::Finish(Err(text("no history")))));
    assert_eq!(session.phase, ReplPhase::Done);
}

#[test]
fn a_backslash_further_on_is_no_command() {
    let (_, answer) = Repl::new().step(line(" \\q"));
    assert_eq!(answer, quiet(Todo::Split(text(" \\q"))));
}

#[test]
fn the_history_of_a_session() {
    let mut session = Repl::new();
    let mut todo: Todo<String, String> = Todo::ReadLine;
    let mut lines = vec!["\\nope ", "a; b ", " ", "c", "\\q"].into_iter();
    let mut history = vec![];
    let mut ran = vec![];
    loop {
        let event = match todo {
            Todo::ReadLine => line(lines.next().unwrap()),
            Todo::Record(entry) => {
                history.push(entry);
                Event::Recorded(Ok(()))
            }
            Todo::ParseCommand(name) if name == "q" => {
                Event::CommandParsed(Some(ShellCommand::Quit))
            }
            Todo::ParseCommand(_) => Event::CommandParsed(None),
            Todo::Split(sql) => Event::Split(
                sql.split(';').filter(|s| !s.trim().is_empty()).map(text).collect(),
            ),
            Todo::Execute(statement) => {
                assert_eq!(history.last().unwrap(), statement.trim_end());
                ran.push(statement);
                if ran.len() == 1 {
                    Event::Cancelled
                } else {
                    Event::StatementRan(Err(text("bad")))
                }
            }
            Todo::RefreshDialect => Event::Refreshed,
            Todo::SaveHistory => break,
            other => panic!("{:?}", other),
        };
        let (next, answer) = session.step(event);
        session = next;
        todo = answer.todo;
    }
    assert_eq!(history, vec!["\\nope", "a", " b", "c", "\\q"]);
    assert_eq!(ran, vec!["a", " b ", "c"]);
}
