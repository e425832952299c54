//! The interactive session: lines are read, recorded, and taken as commands or as SQL.
use crate::options::PrintFormat;
use crate::text::{squeeze, starts_with, trim_end};
use vstd::prelude::*;

verus! {

/// A command of the session, as far as the session itself acts on it. `T` is text.
#[derive(Debug, PartialEq, Eq)]
pub enum ShellCommand<T> {
    /// End the session.
    Quit,
    /// Set the output format, or show it where none is given.
    OutputFormat(Option<T>),
    /// Any other command.
    Other,
}

/// What the session waits for.
#[derive(Debug, PartialEq, Eq)]
pub enum ReplPhase<T> {
    /// The next line.
    Reading,
    /// The history entry of a command line.
    RecordingCommand { line: T },
    /// The command of a command line.
    ParsingCommand { line: T },
    /// The output format that a command line names.
    ParsingFormat { line: T },
    /// The outcome of a command.
    RunningCommand,
    /// The statements of a line.
    Splitting,
    /// The history entry of a statement.
    RecordingStatement { statement: T },
    /// The outcome of a statement.
    RunningStatement,
    /// The dialect, which a statement may have changed.
    Refreshing,
    /// The history, which is saved at the end.
    Saving,
    Done,
}

/// An interactive session. `L` is a list of texts.
#[derive(Debug, PartialEq, Eq)]
pub struct Repl<T, L> {
    /// The statements of the line that have not had their turn.
    pub waiting: L,
    pub phase: ReplPhase<T>,
}

/// What happened. `E` is the error of an execution, `H` one of the line editor.
#[derive(Debug, PartialEq, Eq)]
pub enum ReplEvent<T, L, E, H> {
    /// A line was read.
    Line(T),
    /// Reading was interrupted.
    Interrupted,
    /// There is no more input.
    EndOfInput,
    /// Reading failed.
    ReadFailed(H),
    /// The history entry was added, or could not be.
    Recorded(Result<(), H>),
    /// The text is this command, or none.
    CommandParsed(Option<ShellCommand<T>>),
    /// The text names an output format, or none.
    FormatParsed(bool),
    /// The command ran, or failed.
    CommandRan(Result<(), E>),
    /// The line holds these statements.
    Split(L),
    /// The statement ran, or failed.
    StatementRan(Result<(), E>),
    /// The statement was cancelled.
    Cancelled,
    /// The editor knows the dialect.
    Refreshed,
    /// The history was saved, or could not be.
    Saved(Result<(), H>),
}

/// What to tell the user.
#[derive(Debug, PartialEq, Eq)]
pub enum Say<T, E, H> {
    /// A line of output.
    Line(T),
    /// A complaint.
    Complaint(T),
    /// The error of a command or a statement.
    Error(E),
    /// An error of the line editor.
    ReadError(H),
    /// The output format.
    Format,
}

/// What to do next.
#[derive(Debug, PartialEq, Eq)]
pub enum Todo<T, H> {
    /// Read a line.
    ReadLine,
    /// Add this entry to the history.
    Record(T),
    /// Find the command that this text is.
    ParseCommand(T),
    /// Find the output format that this text names.
    ParseFormat(T),
    /// Set the output format that was found.
    ApplyFormat,
    /// Run the command that was found.
    RunCommand,
    /// Split this line into statements.
    Split(T),
    /// Execute this statement.
    Execute(T),
    /// Tell the editor the dialect.
    RefreshDialect,
    /// Save the history.
    SaveHistory,
    /// The session is over.
    Finish(Result<(), H>),
    /// The event was not awaited: nothing changed.
    Unexpected,
}

/// The answer to an event: what to say, and then what to do.
#[derive(Debug, PartialEq, Eq)]
pub struct Answer<T, E, H> {
    pub say: Option<Say<T, E, H>>,
    pub todo: Todo<T, H>,
}

impl View for ShellCommand<String> {
    type V = ShellCommand<Seq<char>>;

    open spec fn view(&self) -> ShellCommand<Seq<char>> {
        match *self {
            ShellCommand::Quit => ShellCommand::Quit,
            ShellCommand::OutputFormat(Some(name)) => ShellCommand::OutputFormat(Some(name@)),
            ShellCommand::OutputFormat(None) => ShellCommand::OutputFormat(None),
            ShellCommand::Other => ShellCommand::Other,
        }
    }
}

impl View for ReplPhase<String> {
    type V = ReplPhase<Seq<char>>;

    open spec fn view(&self) -> ReplPhase<Seq<char>> {
        match *self {
            ReplPhase::Reading => ReplPhase::Reading,
            ReplPhase::RecordingCommand { line } => ReplPhase::RecordingCommand { line: line@ },
            ReplPhase::ParsingCommand { line } => ReplPhase::ParsingCommand { line: line@ },
            ReplPhase::ParsingFormat { line } => ReplPhase::ParsingFormat { line: line@ },
            ReplPhase::RunningCommand => ReplPhase::RunningCommand,
            ReplPhase::Splitting => ReplPhase::Splitting,
            ReplPhase::RecordingStatement { statement } => ReplPhase::RecordingStatement {
                statement: statement@,
            },
            ReplPhase::RunningStatement => ReplPhase::RunningStatement,
            ReplPhase::Refreshing => ReplPhase::Refreshing,
            ReplPhase::Saving => ReplPhase::Saving,
            ReplPhase::Done => ReplPhase::Done,
        }
    }
}

impl View for Repl<String, Vec<String>> {
    type V = Repl<Seq<char>, Seq<Seq<char>>>;

    open spec fn view(&self) -> Repl<Seq<char>, Seq<Seq<char>>> {
        Repl { waiting: self.waiting.deep_view(), phase: self.phase@ }
    }
}

impl<E, H> View for ReplEvent<String, Vec<String>, E, H> {
    type V = ReplEvent<Seq<char>, Seq<Seq<char>>, E, H>;

    open spec fn view(&self) -> ReplEvent<Seq<char>, Seq<Seq<char>>, E, H> {
        match *self {
            ReplEvent::Line(line) => ReplEvent::Line(line@),
            ReplEvent::Interrupted => ReplEvent::Interrupted,
            ReplEvent::EndOfInput => ReplEvent::EndOfInput,
            ReplEvent::ReadFailed(error) => ReplEvent::ReadFailed(error),
            ReplEvent::Recorded(outcome) => ReplEvent::Recorded(outcome),
            ReplEvent::CommandParsed(Some(command)) => ReplEvent::CommandParsed(Some(command@)),
            ReplEvent::CommandParsed(None) => ReplEvent::CommandParsed(None),
            ReplEvent::FormatParsed(found) => ReplEvent::FormatParsed(found),
            ReplEvent::CommandRan(outcome) => ReplEvent::CommandRan(outcome),
            ReplEvent::Split(statements) => ReplEvent::Split(statements.deep_view()),
            ReplEvent::StatementRan(outcome) => ReplEvent::StatementRan(outcome),
            ReplEvent::Cancelled => ReplEvent::Cancelled,
            ReplEvent::Refreshed => ReplEvent::Refreshed,
            ReplEvent::Saved(outcome) => ReplEvent::Saved(outcome),
        }
    }
}

impl<E, H> View for Say<String, E, H> {
    type V = Say<Seq<char>, E, H>;

    open spec fn view(&self) -> Say<Seq<char>, E, H> {
        match *self {
            Say::Line(text) => Say::Line(text@),
            Say::Complaint(text) => Say::Complaint(text@),
            Say::Error(error) => Say::Error(error),
            Say::ReadError(error) => Say::ReadError(error),
            Say::Format => Say::Format,
        }
    }
}

impl<H> View for Todo<String, H> {
    type V = Todo<Seq<char>, H>;

    open spec fn view(&self) -> Todo<Seq<char>, H> {
        match *self {
            Todo::ReadLine => Todo::ReadLine,
            Todo::Record(entry) => Todo::Record(entry@),
            Todo::ParseCommand(text) => Todo::ParseCommand(text@),
            Todo::ParseFormat(text) => Todo::ParseFormat(text@),
            Todo::ApplyFormat => Todo::ApplyFormat,
            Todo::RunCommand => Todo::RunCommand,
            Todo::Split(line) => Todo::Split(line@),
            Todo::Execute(statement) => Todo::Execute(statement@),
            Todo::RefreshDialect => Todo::RefreshDialect,
            Todo::SaveHistory => Todo::SaveHistory,
            Todo::Finish(outcome) => Todo::Finish(outcome),
            Todo::Unexpected => Todo::Unexpected,
        }
    }
}

impl<E, H> View for Answer<String, E, H> {
    type V = Answer<Seq<char>, E, H>;

    open spec fn view(&self) -> Answer<Seq<char>, E, H> {
        Answer {
            say: match self.say {
                Some(say) => Some(say@),
                None => None,
            },
            todo: self.todo@,
        }
    }
}

/// A text without its first character.
pub open spec fn tail(text: Seq<char>) -> Seq<char> {
    if text.len() > 0 {
        text.skip(1)
    } else {
        text
    }
}

/// The command in a command line: its words, with one blank between each two, without the backslash
/// in front.
pub open spec fn command_text(line: Seq<char>) -> Seq<char> {
    tail(crate::text::joined(crate::text::words(line)))
}

/// The complaint about a command line that is no command.
pub open spec fn not_a_command(line: Seq<char>) -> Seq<char> {
    "'\\"@ + tail(line) + "' is not a valid command"@
}

/// The name of an output format.
pub open spec fn format_name(format: PrintFormat) -> Seq<char> {
    match format {
        PrintFormat::Csv => "Csv"@,
        PrintFormat::Tsv => "Tsv"@,
        PrintFormat::Table => "Table"@,
        PrintFormat::Json => "Json"@,
        PrintFormat::NdJson => "NdJson"@,
        PrintFormat::Automatic => "Automatic"@,
    }
}

/// What is said of the output format.
pub fn format_message(format: PrintFormat) -> (r: String)
    ensures
        r@ == "Output format is "@ + format_name(format) + "."@,
{
    let mut message = "Output format is ".to_owned();
    message.append(
        match format {
            PrintFormat::Csv => "Csv",
            PrintFormat::Tsv => "Tsv",
            PrintFormat::Table => "Table",
            PrintFormat::Json => "Json",
            PrintFormat::NdJson => "NdJson",
            PrintFormat::Automatic => "Automatic",
        },
    );
    message.append(".");
    message
}

/// Nothing to say.
pub open spec fn quietly<E, H>(todo: Todo<Seq<char>, H>) -> Answer<Seq<char>, E, H> {
    Answer { say: None, todo }
}

/// A session in the given phase, with no statement waiting.
pub open spec fn in_phase(phase: ReplPhase<Seq<char>>) -> Repl<Seq<char>, Seq<Seq<char>>> {
    Repl { waiting: Seq::empty(), phase }
}

/// The turn of the next statement of the line, or the next line where none is left.
pub open spec fn next_statement<E, H>(waiting: Seq<Seq<char>>) -> (
    Repl<Seq<char>, Seq<Seq<char>>>,
    Answer<Seq<char>, E, H>,
) {
    if waiting.len() == 0 {
        (in_phase(ReplPhase::Reading), quietly(Todo::ReadLine))
    } else {
        (
            Repl {
                waiting: waiting.drop_first(),
                phase: ReplPhase::RecordingStatement { statement: waiting[0] },
            },
            quietly(Todo::Record(crate::text::trimmed_end(waiting[0]))),
        )
    }
}

/// One step of the session.
///
/// A line with a backslash in front is a command; any other line holds statements, which are
/// executed one after the other, each with its own entry in the history. Errors of commands and
/// statements are shown, and the session goes on. The session ends upon the command to quit, at the
/// end of its input and upon an error of the editor; the history is saved then, unless it was an
/// entry of the history that could not be added.
pub open spec fn repl_step<E, H>(
    at: Repl<Seq<char>, Seq<Seq<char>>>,
    event: ReplEvent<Seq<char>, Seq<Seq<char>>, E, H>,
) -> (Repl<Seq<char>, Seq<Seq<char>>>, Answer<Seq<char>, E, H>) {
    match (at.phase, event) {
        (ReplPhase::Reading, ReplEvent::Line(line)) => if crate::text::begins_with(line, "\\"@) {
            (
                in_phase(ReplPhase::RecordingCommand { line }),
                quietly(Todo::Record(crate::text::trimmed_end(line))),
            )
        } else {
            (in_phase(ReplPhase::Splitting), quietly(Todo::Split(line)))
        },
        (ReplPhase::Reading, ReplEvent::Interrupted) => (
            in_phase(ReplPhase::Reading),
            Answer { say: Some(Say::Line("^C"@)), todo: Todo::ReadLine },
        ),
        (ReplPhase::Reading, ReplEvent::EndOfInput) => (
            in_phase(ReplPhase::Saving),
            Answer { say: Some(Say::Line("\\q"@)), todo: Todo::SaveHistory },
        ),
        (ReplPhase::Reading, ReplEvent::ReadFailed(error)) => (
            in_phase(ReplPhase::Saving),
            Answer { say: Some(Say::ReadError(error)), todo: Todo::SaveHistory },
        ),
        (
            ReplPhase::RecordingCommand { .. } | ReplPhase::RecordingStatement { .. },
            ReplEvent::Recorded(Err(error)),
        ) => (in_phase(ReplPhase::Done), quietly(Todo::Finish(Err(error)))),
        (ReplPhase::RecordingCommand { line }, ReplEvent::Recorded(Ok(_))) => (
            in_phase(ReplPhase::ParsingCommand { line }),
            quietly(Todo::ParseCommand(command_text(line))),
        ),
        (ReplPhase::ParsingCommand { line }, ReplEvent::CommandParsed(command)) => match command {
            None => (
                in_phase(ReplPhase::Reading),
                Answer { say: Some(Say::Complaint(not_a_command(line))), todo: Todo::ReadLine },
            ),
            Some(ShellCommand::Quit) => (
                in_phase(ReplPhase::Saving),
                quietly(Todo::SaveHistory),
            ),
            Some(ShellCommand::OutputFormat(Some(name))) => (
                in_phase(ReplPhase::ParsingFormat { line }),
                quietly(Todo::ParseFormat(name)),
            ),
            Some(ShellCommand::OutputFormat(None)) => (
                in_phase(ReplPhase::Reading),
                Answer { say: Some(Say::Format), todo: Todo::ReadLine },
            ),
            Some(ShellCommand::Other) => (
                in_phase(ReplPhase::RunningCommand),
                quietly(Todo::RunCommand),
            ),
        },
        (ReplPhase::ParsingFormat { line }, ReplEvent::FormatParsed(found)) => if found {
            (in_phase(ReplPhase::RunningCommand), quietly(Todo::ApplyFormat))
        } else {
            (
                in_phase(ReplPhase::Reading),
                Answer { say: Some(Say::Complaint(not_a_command(line))), todo: Todo::ReadLine },
            )
        },
        (ReplPhase::RunningCommand, ReplEvent::CommandRan(outcome)) => (
            in_phase(ReplPhase::Reading),
            match outcome {
                Ok(_) => quietly(Todo::ReadLine),
                Err(error) => Answer { say: Some(Say::Error(error)), todo: Todo::ReadLine },
            },
        ),
        (ReplPhase::Splitting, ReplEvent::Split(statements)) => next_statement(statements),
        (ReplPhase::RecordingStatement { statement }, ReplEvent::Recorded(Ok(_))) => (
            Repl { phase: ReplPhase::RunningStatement, ..at },
            quietly(Todo::Execute(statement)),
        ),
        (ReplPhase::RunningStatement, ReplEvent::StatementRan(outcome)) => (
            Repl { phase: ReplPhase::Refreshing, ..at },
            match outcome {
                Ok(_) => quietly(Todo::RefreshDialect),
                Err(error) => Answer { say: Some(Say::Error(error)), todo: Todo::RefreshDialect },
            },
        ),
        (ReplPhase::RunningStatement, ReplEvent::Cancelled) => {
            let (next, answer) = next_statement::<E, H>(at.waiting);
            (next, Answer { say: Some(Say::Line("^C"@)), ..answer })
        },
        (ReplPhase::Refreshing, ReplEvent::Refreshed) => next_statement(at.waiting),
        (ReplPhase::Saving, ReplEvent::Saved(outcome)) => (
            in_phase(ReplPhase::Done),
            quietly(Todo::Finish(outcome)),
        ),
        _ => (at, quietly(Todo::Unexpected)),
    }
}

/// A text without its first character.
fn without_first(text: &str) -> (r: &str)
    ensures
        r@ == tail(text@),
{
    let n = text.unicode_len();
    if n > 0 {
        text.substring_char(1, n)
    } else {
        text
    }
}

/// The command in a command line.
pub fn command_in_line(line: &str) -> (r: String)
    ensures
        r@ == command_text(line@),
{
    let words = squeeze(line);
    without_first(words.as_str()).to_owned()
}

/// The complaint about a command line that is no command.
pub fn invalid_command_message(line: &str) -> (r: String)
    ensures
        r@ == not_a_command(line@),
{
    let mut message = "'\\".to_owned();
    message.append(without_first(line));
    message.append("' is not a valid command");
    message
}

/// Nothing to say.
fn answer<E, H>(todo: Todo<String, H>) -> (r: Answer<String, E, H>)
    ensures
        r@ == quietly::<E, H>(todo@),
{
    Answer { say: None, todo }
}

/// Something to say.
fn answer_saying<E, H>(say: Say<String, E, H>, todo: Todo<String, H>) -> (r: Answer<String, E, H>)
    ensures
        r@ == (Answer { say: Some(say@), todo: todo@ }),
{
    Answer { say: Some(say), todo }
}

impl Repl<String, Vec<String>> {
    /// A session, at its beginning: the first line is to be read.
    pub fn new() -> (r: Self)
        ensures
            r@ == in_phase(ReplPhase::Reading),
    {
        Self::at(ReplPhase::Reading)
    }

    /// A session in the given phase, with no statement waiting.
    fn at(phase: ReplPhase<String>) -> (r: Self)
        ensures
            r@ == in_phase(phase@),
    {
        let waiting: Vec<String> = Vec::new();
        assert(waiting.deep_view() =~= Seq::<Seq<char>>::empty());
        Repl { waiting, phase }
    }

    /// The turn of the next statement, or the next line.
    fn turn<E, H>(waiting: Vec<String>) -> (r: (Self, Answer<String, E, H>))
        ensures
            (r.0@, r.1@) == next_statement::<E, H>(waiting.deep_view()),
    {
        if waiting.len() == 0 {
            (Self::at(ReplPhase::Reading), answer(Todo::ReadLine))
        } else {
            let mut rest = waiting;
            let statement = rest.remove(0);
            let entry = trim_end(statement.as_str());
            assert(rest.deep_view() =~= waiting.deep_view().drop_first());
            (
                Repl { waiting: rest, phase: ReplPhase::RecordingStatement { statement } },
                answer(Todo::Record(entry)),
            )
        }
    }

    /// One step.
    pub fn step<E, H>(self, event: ReplEvent<String, Vec<String>, E, H>) -> (r: (
        Self,
        Answer<String, E, H>,
    ))
        ensures
            (r.0@, r.1@) == repl_step(self@, event@),
    {
        match (self.phase, event) {
            (ReplPhase::Reading, ReplEvent::Line(line)) => {
                if starts_with(line.as_str(), "\\") {
                    let entry = trim_end(line.as_str());
                    (
                        Self::at(ReplPhase::RecordingCommand { line }),
                        answer(Todo::Record(entry)),
                    )
                } else {
                    (Self::at(ReplPhase::Splitting), answer(Todo::Split(line)))
                }
            },
            (ReplPhase::Reading, ReplEvent::Interrupted) => (
                Self::at(ReplPhase::Reading),
                answer_saying(Say::Line("^C".to_owned()), Todo::ReadLine),
            ),
            (ReplPhase::Reading, ReplEvent::EndOfInput) => (
                Self::at(ReplPhase::Saving),
                answer_saying(Say::Line("\\q".to_owned()), Todo::SaveHistory),
            ),
            (ReplPhase::Reading, ReplEvent::ReadFailed(error)) => (
                Self::at(ReplPhase::Saving),
                answer_saying(Say::ReadError(error), Todo::SaveHistory),
            ),
            (
                ReplPhase::RecordingCommand { .. } | ReplPhase::RecordingStatement { .. },
                ReplEvent::Recorded(Err(error)),
            ) => (Self::at(ReplPhase::Done), answer(Todo::Finish(Err(error)))),
            (ReplPhase::RecordingCommand { line }, ReplEvent::Recorded(Ok(_))) => {
                let text = command_in_line(line.as_str());
                (
                    Self::at(ReplPhase::ParsingCommand { line }),
                    answer(Todo::ParseCommand(text)),
                )
            },
            (ReplPhase::ParsingCommand { line }, ReplEvent::CommandParsed(command)) => {
                match command {
                    None => (
                        Self::at(ReplPhase::Reading),
                        answer_saying(
                            Say::Complaint(invalid_command_message(line.as_str())),
                            Todo::ReadLine,
                        ),
                    ),
                    Some(ShellCommand::Quit) => (
                        Self::at(ReplPhase::Saving),
                        answer(Todo::SaveHistory),
                    ),
                    Some(ShellCommand::OutputFormat(Some(name))) => (
                        Self::at(ReplPhase::ParsingFormat { line }),
                        answer(Todo::ParseFormat(name)),
                    ),
                    Some(ShellCommand::OutputFormat(None)) => (
                        Self::at(ReplPhase::Reading),
                        answer_saying(Say::Format, Todo::ReadLine),
                    ),
                    Some(ShellCommand::Other) => (
                        Self::at(ReplPhase::RunningCommand),
                        answer(Todo::RunCommand),
                    ),
                }
            },
            (ReplPhase::ParsingFormat { line }, ReplEvent::FormatParsed(found)) => {
                if found {
                    (Self::at(ReplPhase::RunningCommand), answer(Todo::ApplyFormat))
                } else {
                    (
                        Self::at(ReplPhase::Reading),
                        answer_saying(
                            Say::Complaint(invalid_command_message(line.as_str())),
                            Todo::ReadLine,
                        ),
                    )
                }
            },
            (ReplPhase::RunningCommand, ReplEvent::CommandRan(outcome)) => (
                Self::at(ReplPhase::Reading),
                match outcome {
                    Ok(_) => answer(Todo::ReadLine),
                    Err(error) => answer_saying(Say::Error(error), Todo::ReadLine),
                },
            ),
            (ReplPhase::Splitting, ReplEvent::Split(statements)) => Self::turn(statements),
            (ReplPhase::RecordingStatement { statement }, ReplEvent::Recorded(Ok(_))) => (
                Repl { waiting: self.waiting, phase: ReplPhase::RunningStatement },
                answer(Todo::Execute(statement)),
            ),
            (ReplPhase::RunningStatement, ReplEvent::StatementRan(outcome)) => (
                Repl { waiting: self.waiting, phase: ReplPhase::Refreshing },
                match outcome {
                    Ok(_) => answer(Todo::RefreshDialect),
                    Err(error) => answer_saying(Say::Error(error), Todo::RefreshDialect),
                },
            ),
            (ReplPhase::RunningStatement, ReplEvent::Cancelled) => {
                let (next, quiet) = Self::turn::<E, H>(self.waiting);
                (next, answer_saying(Say::Line("^C".to_owned()), quiet.todo))
            },
            (ReplPhase::Refreshing, ReplEvent::Refreshed) => Self::turn(self.waiting),
            (ReplPhase::Saving, ReplEvent::Saved(outcome)) => (
                Self::at(ReplPhase::Done),
                answer(Todo::Finish(outcome)),
            ),
            (phase, _) => (
                Repl { waiting: self.waiting, phase },
                answer(Todo::Unexpected),
            ),
        }
    }
}

/// The session after some events.
pub open spec fn repl_after<E, H>(
    at: Repl<Seq<char>, Seq<Seq<char>>>,
    events: Seq<ReplEvent<Seq<char>, Seq<Seq<char>>, E, H>>,
) -> Repl<Seq<char>, Seq<Seq<char>>>
    decreases events.len(),
{
    if events.len() == 0 {
        at
    } else {
        repl_step(repl_after(at, events.drop_last()), events.last()).0
    }
}

/// The statements that the session has asked to execute.
pub open spec fn statements_executed<E, H>(
    at: Repl<Seq<char>, Seq<Seq<char>>>,
    events: Seq<ReplEvent<Seq<char>, Seq<Seq<char>>, E, H>>,
) -> Seq<Seq<char>>
    decreases events.len(),
{
    if events.len() == 0 {
        Seq::empty()
    } else {
        let before = statements_executed(at, events.drop_last());
        match repl_step(repl_after(at, events.drop_last()), events.last()).1.todo {
            Todo::Execute(statement) => before.push(statement),
            _ => before,
        }
    }
}

/// The statements of a line that are still to be executed.
pub open spec fn statements_left(at: Repl<Seq<char>, Seq<Seq<char>>>) -> Seq<Seq<char>> {
    match at.phase {
        ReplPhase::RecordingStatement { statement } => seq![statement] + at.waiting,
        _ => at.waiting,
    }
}

/// Whatever the outcomes are, the statements of a line are executed in order, each exactly once,
/// until the next line is read: failed and cancelled statements do not stop the others. Only a
/// history entry that cannot be added ends the line early, and the session with it.
pub proof fn law_statements_of_a_line_in_order<E, H>(
    statements: Seq<Seq<char>>,
    events: Seq<ReplEvent<Seq<char>, Seq<Seq<char>>, E, H>>,
)
    requires
        forall|n: int|
            0 <= n < events.len() ==> !((#[trigger] repl_after(
                next_statement::<E, H>(statements).0,
                events.take(n),
            )).phase is Reading),
    ensures
        ({
            let start = next_statement::<E, H>(statements).0;
            let now = repl_after(start, events);
            let executed = statements_executed(start, events);
            match now.phase {
                ReplPhase::Reading => executed == statements,
                ReplPhase::RecordingStatement { .. } => executed + statements_left(now)
                    == statements,
                ReplPhase::RunningStatement => executed + statements_left(now) == statements,
                ReplPhase::Refreshing => executed + statements_left(now) == statements,
                ReplPhase::Done => executed.len() < statements.len() && executed
                    == statements.take(executed.len() as int),
                _ => false,
            }
        }),
    decreases events.len(),
{
    let start = next_statement::<E, H>(statements).0;
    if events.len() == 0 {
        if statements.len() > 0 {
            assert(Seq::<Seq<char>>::empty() + statements_left(start) =~= statements);
        } else {
            assert(Seq::<Seq<char>>::empty() =~= statements);
        }
    } else {
        let before = events.drop_last();
        assert forall|n: int| 0 <= n < before.len() implies !((#[trigger] repl_after(
            start,
            before.take(n),
        )).phase is Reading) by {
            assert(before.take(n) =~= events.take(n));
        }
        law_statements_of_a_line_in_order(statements, before);
        assert(events.take(events.len() - 1) =~= before);
        let was = repl_after(start, before);
        let now = repl_after(start, events);
        let had = statements_executed(start, before);
        let executed = statements_executed(start, events);
        assert(!(was.phase is Reading));
        match now.phase {
            ReplPhase::Reading => {
                assert(had + statements_left(was) =~= had);
            },
            ReplPhase::RecordingStatement { .. } => {
                assert(statements_left(now) =~= statements_left(was));
            },
            ReplPhase::RunningStatement => {
                assert(executed + statements_left(now) =~= had + statements_left(was));
            },
            ReplPhase::Done => {
                assert(executed =~= statements.take(executed.len() as int));
            },
            _ => {},
        }
    }
}

/// The texts without the white space at their ends.
pub open spec fn trimmed(texts: Seq<Seq<char>>) -> Seq<Seq<char>> {
    texts.map_values(|text: Seq<char>| crate::text::trimmed_end(text))
}

/// The entries that the session has asked to add to the history.
pub open spec fn entries_offered<E, H>(
    at: Repl<Seq<char>, Seq<Seq<char>>>,
    events: Seq<ReplEvent<Seq<char>, Seq<Seq<char>>, E, H>>,
) -> Seq<Seq<char>>
    decreases events.len(),
{
    if events.len() == 0 {
        Seq::empty()
    } else {
        let before = entries_offered(at, events.drop_last());
        match repl_step(repl_after(at, events.drop_last()), events.last()).1.todo {
            Todo::Record(entry) => before.push(entry),
            _ => before,
        }
    }
}

/// The entries that belong in the history for the lines that were read: one for a command line, and
/// one for each statement of any other line.
pub open spec fn entries_due<E, H>(
    at: Repl<Seq<char>, Seq<Seq<char>>>,
    events: Seq<ReplEvent<Seq<char>, Seq<Seq<char>>, E, H>>,
) -> Seq<Seq<char>>
    decreases events.len(),
{
    if events.len() == 0 {
        Seq::empty()
    } else {
        let before = entries_due(at, events.drop_last());
        match (repl_after(at, events.drop_last()).phase, events.last()) {
            (ReplPhase::Reading, ReplEvent::Line(line)) => if crate::text::begins_with(line, "\\"@) {
                before.push(crate::text::trimmed_end(line))
            } else {
                before
            },
            (ReplPhase::Splitting, ReplEvent::Split(statements)) => before + trimmed(statements),
            _ => before,
        }
    }
}

/// No entry failed to be added to the history.
pub open spec fn history_works<E, H>(
    events: Seq<ReplEvent<Seq<char>, Seq<Seq<char>>, E, H>>,
) -> bool {
    forall|i: int|
        0 <= i < events.len() ==> ((#[trigger] events[i]) matches ReplEvent::Recorded(outcome)
            ==> outcome is Ok)
}

/// Over a whole session the history is offered one entry for each command line and one for each
/// statement of the other lines, in order, whatever becomes of the commands and the statements; only
/// the statements still waiting are not yet in it. Once the line is through, and when the history is
/// saved, none is missing.
pub proof fn law_history_of_a_session<E, H>(
    events: Seq<ReplEvent<Seq<char>, Seq<Seq<char>>, E, H>>,
)
    requires
        history_works(events),
    ensures
        ({
            let start = in_phase(ReplPhase::Reading);
            let now = repl_after(start, events);
            &&& entries_offered(start, events) + trimmed(now.waiting) == entries_due(start, events)
            &&& now.phase is Reading || now.phase is Saving || now.phase is Done ==> entries_offered(
                start,
                events,
            ) == entries_due(start, events)
        }),
    decreases events.len(),
{
    let start = in_phase(ReplPhase::Reading);
    let now = repl_after(start, events);
    if events.len() == 0 {
        assert(entries_offered(start, events) + trimmed(now.waiting) =~= entries_due(start, events));
    } else {
        let before = events.drop_last();
        assert forall|i: int| 0 <= i < before.len() implies ((
        #[trigger] before[i]) matches ReplEvent::Recorded(outcome) ==> outcome is Ok) by {
            assert(before[i] == events[i]);
        }
        law_history_of_a_session(before);
        lemma_waiting(before);
        lemma_waiting(events);
        let last = events.last();
        assert(events[events.len() - 1] == last);
        let was = repl_after(start, before);
        let offered = entries_offered(start, before);
        let due = entries_due(start, before);
        match (was.phase, last) {
            (ReplPhase::Splitting, ReplEvent::Split(statements)) => {
                assert(offered =~= due);
                if statements.len() > 0 {
                    assert(trimmed(statements) =~= seq![crate::text::trimmed_end(statements[0])]
                        + trimmed(statements.drop_first()));
                }
                assert(entries_offered(start, events) + trimmed(now.waiting) =~= due + trimmed(
                    statements,
                ));
            },
            (ReplPhase::RunningStatement, ReplEvent::Cancelled)
            | (ReplPhase::Refreshing, ReplEvent::Refreshed) => {
                if was.waiting.len() > 0 {
                    assert(trimmed(was.waiting) =~= seq![crate::text::trimmed_end(was.waiting[0])]
                        + trimmed(was.waiting.drop_first()));
                }
                assert(entries_offered(start, events) + trimmed(now.waiting) =~= offered + trimmed(
                    was.waiting,
                ));
            },
            _ => {
                assert(entries_offered(start, events) + trimmed(now.waiting) =~= entries_due(
                    start,
                    events,
                ));
            },
        }
    }
    lemma_waiting(events);
    if now.waiting.len() == 0 {
        assert(entries_offered(start, events) + trimmed(now.waiting) =~= entries_offered(
            start,
            events,
        ));
    }
}

proof fn lemma_waiting<E, H>(events: Seq<ReplEvent<Seq<char>, Seq<Seq<char>>, E, H>>)
    ensures
        ({
            let now = repl_after(in_phase(ReplPhase::Reading), events);
            now.phase is RecordingStatement || now.phase is RunningStatement
                || now.phase is Refreshing || now.waiting.len() == 0
        }),
    decreases events.len(),
{
    if events.len() > 0 {
        lemma_waiting(events.drop_last());
    }
}

/// A command is looked up, and a statement is executed, only once its entry was added to the history:
/// the entry is the last one that was offered. So commands that turn out not to be any, and
/// statements that fail or are cancelled, are in the history too.
pub proof fn law_recorded_before_run<E, H>(
    events: Seq<ReplEvent<Seq<char>, Seq<Seq<char>>, E, H>>,
    event: ReplEvent<Seq<char>, Seq<Seq<char>>, E, H>,
)
    ensures
        ({
            let start = in_phase(ReplPhase::Reading);
            let at = repl_after(start, events);
            let offered = entries_offered(start, events);
            let todo = repl_step(at, event).1.todo;
            &&& todo is Execute || todo is ParseCommand ==> {
                &&& event matches ReplEvent::Recorded(outcome)
                &&& outcome is Ok
                &&& offered.len() > 0
            }
            &&& todo matches Todo::Execute(statement) ==> offered.last()
                == crate::text::trimmed_end(statement)
            &&& todo matches Todo::ParseCommand(text) ==> {
                &&& at.phase matches ReplPhase::RecordingCommand { line }
                &&& text == command_text(line)
                &&& offered.last() == crate::text::trimmed_end(line)
            }
        }),
{
    lemma_entry_is_offered(events);
}

proof fn lemma_entry_is_offered<E, H>(events: Seq<ReplEvent<Seq<char>, Seq<Seq<char>>, E, H>>)
    ensures
        ({
            let start = in_phase(ReplPhase::Reading);
            let offered = entries_offered(start, events);
            match repl_after(start, events).phase {
                ReplPhase::RecordingCommand { line } => offered.len() > 0 && offered.last()
                    == crate::text::trimmed_end(line),
                ReplPhase::RecordingStatement { statement } => offered.len() > 0 && offered.last()
                    == crate::text::trimmed_end(statement),
                _ => true,
            }
        }),
    decreases events.len(),
{
    if events.len() > 0 {
        lemma_entry_is_offered(events.drop_last());
    }
}

/// The print options of the session may change: the output format is set, or a command runs.
pub open spec fn may_change_options<H>(todo: Todo<Seq<char>, H>) -> bool {
    todo is ApplyFormat || todo is RunCommand
}

proof fn lemma_no_commands<E, H>(events: Seq<ReplEvent<Seq<char>, Seq<Seq<char>>, E, H>>)
    requires
        forall|i: int|
            0 <= i < events.len() ==> ((#[trigger] events[i]) matches ReplEvent::Line(line)
                ==> !crate::text::begins_with(line, "\\"@)),
    ensures
        ({
            let phase = repl_after(in_phase(ReplPhase::Reading), events).phase;
            !(phase is RecordingCommand) && !(phase is ParsingCommand) && !(phase is ParsingFormat)
                && !(phase is RunningCommand)
        }),
    decreases events.len(),
{
    if events.len() > 0 {
        let before = events.drop_last();
        assert forall|i: int| 0 <= i < before.len() implies ((
        #[trigger] before[i]) matches ReplEvent::Line(line) ==> !crate::text::begins_with(
            line,
            "\\"@,
        )) by {
            assert(before[i] == events[i]);
        }
        lemma_no_commands(before);
        assert(events[events.len() - 1] == events.last());
    }
}

/// Only lines with a backslash in front can change the print options: a session that reads none never
/// asks for anything that may change them, whatever its statements are.
pub proof fn law_statements_keep_the_options<E, H>(
    events: Seq<ReplEvent<Seq<char>, Seq<Seq<char>>, E, H>>,
    i: int,
)
    requires
        forall|n: int|
            0 <= n < events.len() ==> ((#[trigger] events[n]) matches ReplEvent::Line(line)
                ==> !crate::text::begins_with(line, "\\"@)),
        0 <= i < events.len(),
    ensures
        !may_change_options(
            repl_step(
                repl_after(in_phase(ReplPhase::Reading), events.take(i)),
                events[i],
            ).1.todo,
        ),
{
    let before = events.take(i);
    assert forall|n: int| 0 <= n < before.len() implies ((
    #[trigger] before[n]) matches ReplEvent::Line(line) ==> !crate::text::begins_with(
        line,
        "\\"@,
    )) by {
        assert(before[n] == events[n]);
    }
    lemma_no_commands(before);
}

/// A session ends in two ways only: its history was to be saved, after the command to quit, at the
/// end of the input or upon an error of the editor; or an entry could not be added to the history.
/// A session that is over answers nothing any more.
pub proof fn law_how_sessions_end<E, H>(
    at: Repl<Seq<char>, Seq<Seq<char>>>,
    event: ReplEvent<Seq<char>, Seq<Seq<char>>, E, H>,
)
    ensures
        ({
            let (next, answer) = repl_step(at, event);
            &&& answer.todo matches Todo::Finish(outcome) ==> {
                &&& next.phase is Done
                &&& event == ReplEvent::<Seq<char>, Seq<Seq<char>>, E, H>::Saved(outcome) || (
                outcome is Err && event == ReplEvent::<Seq<char>, Seq<Seq<char>>, E, H>::Recorded(
                    outcome,
                ))
            }
            &&& answer.todo is SaveHistory ==> event is EndOfInput || event is ReadFailed || event
                == ReplEvent::<Seq<char>, Seq<Seq<char>>, E, H>::CommandParsed(
                Some(ShellCommand::Quit),
            )
            &&& at.phase is Done ==> next == at && answer.todo is Unexpected
        }),
{
}

/// An interrupt never ends a session, whether it stops the reading of a line or a statement.
pub proof fn law_interrupts_are_harmless<E, H>(at: Repl<Seq<char>, Seq<Seq<char>>>)
    ensures
        ({
            let (next, answer) = repl_step(
                at,
                ReplEvent::<Seq<char>, Seq<Seq<char>>, E, H>::Interrupted,
            );
            at.phase is Reading ==> next.phase is Reading && answer.todo is ReadLine && answer.say
                == Some(Say::<Seq<char>, E, H>::Line("^C"@))
        }),
        ({
            let (next, answer) = repl_step(
                at,
                ReplEvent::<Seq<char>, Seq<Seq<char>>, E, H>::Cancelled,
            );
            at.phase is RunningStatement ==> !(answer.todo is Finish) && !(
            answer.todo is SaveHistory) && answer.say == Some(Say::<Seq<char>, E, H>::Line("^C"@))
        }),
{
}

proof fn lemma_joined_starts_with_first_word(parts: Seq<Seq<char>>)
    requires
        parts.len() > 0,
        parts[0].len() > 0,
    ensures
        crate::text::joined(parts).len() > 0,
        crate::text::joined(parts)[0] == parts[0][0],
    decreases parts.len(),
{
    if parts.len() > 1 {
        lemma_joined_starts_with_first_word(parts.drop_last());
    }
}

proof fn lemma_first_word(s: Seq<char>)
    requires
        s.len() > 0,
        !crate::text::white_space(s[0]),
    ensures
        crate::text::words(s).len() > 0,
        crate::text::words(s)[0].len() > 0,
        crate::text::words(s)[0][0] == s[0],
    decreases s.len(),
{
    if s.len() > 1 {
        let before = crate::text::words(s.drop_last());
        lemma_first_word(s.drop_last());
        assert(crate::text::words(s)[0] == before[0] || crate::text::words(s)[0]
            == before[0].push(s.last()));
    } else {
        assert(crate::text::words(s.drop_last()).len() == 0);
    }
}

/// A line with a backslash in front is a command line with a word in it: the backslash that is
/// taken away is the first character of its words, and the complaint about it shows the line as it
/// was typed.
pub proof fn law_command_lines(line: Seq<char>)
    requires
        crate::text::begins_with(line, "\\"@),
    ensures
        "\\"@ + command_text(line) == crate::text::joined(crate::text::words(line)),
        not_a_command(line) == "'"@ + line + "' is not a valid command"@,
{
    reveal_strlit("\\");
    reveal_strlit("'");
    reveal_strlit("'\\");
    assert(line[0] == line.take(1)[0]);
    assert(line[0] == '\\');
    lemma_first_word(line);
    lemma_joined_starts_with_first_word(crate::text::words(line));
    let words = crate::text::joined(crate::text::words(line));
    assert("\\"@ + command_text(line) =~= words);
    assert("'\\"@ + tail(line) =~= "'"@ + line);
}

/// The event tells what became of what was to be done.
pub open spec fn tells_of<E, H>(
    todo: Todo<Seq<char>, H>,
    event: ReplEvent<Seq<char>, Seq<Seq<char>>, E, H>,
) -> bool {
    match todo {
        Todo::ReadLine => event is Line || event is Interrupted || event is EndOfInput
            || event is ReadFailed,
        Todo::Record(_) => event is Recorded,
        Todo::ParseCommand(_) => event is CommandParsed,
        Todo::ParseFormat(_) => event is FormatParsed,
        Todo::ApplyFormat => event is CommandRan,
        Todo::RunCommand => event is CommandRan,
        Todo::Split(_) => event is Split,
        Todo::Execute(_) => event is StatementRan || event is Cancelled,
        Todo::RefreshDialect => event is Refreshed,
        Todo::SaveHistory => event is Saved,
        Todo::Finish(_) => false,
        Todo::Unexpected => false,
    }
}

/// A session asks for one thing at a time, first for a line, and takes in what became of it, and nothing
/// else: any other event is not awaited, changes nothing and is passed over in silence, and after the
/// end none is awaited.
pub proof fn law_one_thing_at_a_time<E, H>(
    at: Repl<Seq<char>, Seq<Seq<char>>>,
    event: ReplEvent<Seq<char>, Seq<Seq<char>>, E, H>,
    next_event: ReplEvent<Seq<char>, Seq<Seq<char>>, E, H>,
)
    ensures
        at.phase is Reading ==> (repl_step(at, event).1.todo is Unexpected <==> !tells_of(
            Todo::ReadLine,
            event,
        )),
        ({
            let (next, answer) = repl_step(at, event);
            if answer.todo is Unexpected {
                next == at && answer.say is None
            } else {
                repl_step(next, next_event).1.todo is Unexpected <==> !tells_of(
                    answer.todo,
                    next_event,
                )
            }
        }),
{
}

/// The line has a backslash in front.
pub open spec fn is_command_line(line: Seq<char>) -> bool {
    line.len() > 0 && line[0] == '\\'
}

proof fn lemma_command_lines(line: Seq<char>)
    ensures
        crate::text::begins_with(line, "\\"@) <==> is_command_line(line),
{
    reveal_strlit("\\");
    if line.len() > 0 {
        assert(line.take(1)[0] == line[0]);
        if line[0] == '\\' {
            assert(line.take(1) =~= "\\"@);
        }
    }
}

/// What becomes of a line: without a backslash in front it is split exactly as it was typed, whatever
/// is in it; with one it is recorded, but for the white space at its end, and then its words are looked
/// up as a command. Nothing is said about either.
pub proof fn law_lines_are_taken_as_typed<E, H>(
    at: Repl<Seq<char>, Seq<Seq<char>>>,
    line: Seq<char>,
)
    requires
        at.phase is Reading,
    ensures
        ({
            let (next, answer) = repl_step(
                at,
                ReplEvent::<Seq<char>, Seq<Seq<char>>, E, H>::Line(line),
            );
            let after = repl_step(
                next,
                ReplEvent::<Seq<char>, Seq<Seq<char>>, E, H>::Recorded(Ok(())),
            ).1;
            &&& answer.say is None
            &&& if is_command_line(line) {
                &&& answer.todo matches Todo::Record(entry)
                &&& entry == line.take(entry.len() as int)
                &&& entry.len() <= line.len()
                &&& entry.len() > 0 && !crate::text::white_space(entry.last())
                &&& forall|i: int|
                    entry.len() <= i < line.len() ==> crate::text::white_space(#[trigger] line[i])
                &&& after.say is None
                &&& after.todo matches Todo::ParseCommand(text)
                &&& seq!['\\'] + text == crate::text::joined(crate::text::words(line))
            } else {
                answer.todo == Todo::<Seq<char>, H>::Split(line)
            }
        }),
{
    lemma_command_lines(line);
    if is_command_line(line) {
        crate::text::law_trimming(line);
        law_command_lines(line);
        reveal_strlit("\\");
        assert("\\"@ =~= seq!['\\']);
        assert(!crate::text::white_space('\\'));
        if crate::text::trimmed_end(line).len() == 0 {
            assert(crate::text::white_space(line[0]));
        }
    }
}

/// The complaint about a line that is no command: the line as it was typed, in quotes.
pub open spec fn complaint_about(line: Seq<char>) -> Seq<char> {
    "'"@ + line + "' is not a valid command"@
}

/// What becomes of a command line once its words are looked up: what is no command is complained about,
/// with the line as it was typed, and so is an output format that is none; to quit has the history
/// saved; an output format is looked up by the name that was given and then set, and is shown where no
/// name was given; any other command is run. Whatever does not end the session is followed by the next
/// line.
pub proof fn law_what_becomes_of_a_command<E, H>(
    at: Repl<Seq<char>, Seq<Seq<char>>>,
    line: Seq<char>,
    command: Option<ShellCommand<Seq<char>>>,
    found: bool,
)
    requires
        at.phase is Reading,
        is_command_line(line),
    ensures
        ({
            let recording = repl_step(
                at,
                ReplEvent::<Seq<char>, Seq<Seq<char>>, E, H>::Line(line),
            ).0;
            let parsing = repl_step(
                recording,
                ReplEvent::<Seq<char>, Seq<Seq<char>>, E, H>::Recorded(Ok(())),
            ).0;
            let (next, answer) = repl_step(
                parsing,
                ReplEvent::<Seq<char>, Seq<Seq<char>>, E, H>::CommandParsed(command),
            );
            let after = repl_step(
                next,
                ReplEvent::<Seq<char>, Seq<Seq<char>>, E, H>::FormatParsed(found),
            ).1;
            match command {
                None => {
                    &&& answer.say == Some(Say::<Seq<char>, E, H>::Complaint(complaint_about(line)))
                    &&& answer.todo == Todo::<Seq<char>, H>::ReadLine
                },
                Some(ShellCommand::Quit) => {
                    &&& answer.say is None
                    &&& answer.todo == Todo::<Seq<char>, H>::SaveHistory
                },
                Some(ShellCommand::OutputFormat(None)) => {
                    &&& answer.say == Some(Say::<Seq<char>, E, H>::Format)
                    &&& answer.todo == Todo::<Seq<char>, H>::ReadLine
                },
                Some(ShellCommand::OutputFormat(Some(name))) => {
                    &&& answer.say is None
                    &&& answer.todo == Todo::<Seq<char>, H>::ParseFormat(name)
                    &&& if found {
                        &&& after.say is None
                        &&& after.todo == Todo::<Seq<char>, H>::ApplyFormat
                    } else {
                        &&& after.say == Some(
                            Say::<Seq<char>, E, H>::Complaint(complaint_about(line)),
                        )
                        &&& after.todo == Todo::<Seq<char>, H>::ReadLine
                    }
                },
                Some(ShellCommand::Other) => {
                    &&& answer.say is None
                    &&& answer.todo == Todo::<Seq<char>, H>::RunCommand
                },
            }
        }),
{
    lemma_command_lines(line);
    law_command_lines(line);
}

/// The error of a command and of a statement is shown, exactly where there is one, and never ends the
/// session: a command is followed by the next line, and a statement by the editor being told the
/// dialect, with the statements behind it still waiting.
pub proof fn law_errors_are_shown<E, H>(
    at: Repl<Seq<char>, Seq<Seq<char>>>,
    outcome: Result<(), E>,
)
    ensures
        ({
            let shown = match outcome {
                Ok(_) => None::<Say<Seq<char>, E, H>>,
                Err(error) => Some(Say::Error(error)),
            };
            let command = repl_step(
                at,
                ReplEvent::<Seq<char>, Seq<Seq<char>>, E, H>::CommandRan(outcome),
            ).1;
            let (next, statement) = repl_step(
                at,
                ReplEvent::<Seq<char>, Seq<Seq<char>>, E, H>::StatementRan(outcome),
            );
            &&& at.phase is RunningCommand ==> command.say == shown && command.todo == Todo::<
                Seq<char>,
                H,
            >::ReadLine
            &&& at.phase is RunningStatement ==> statement.say == shown && statement.todo
                == Todo::<Seq<char>, H>::RefreshDialect && next.waiting == at.waiting
        }),
{
}

/// The event brings the turn of the next of the waiting statements: the line was split into them, the
/// statement before was cancelled, or the editor knows the dialect after it.
pub open spec fn brings_turn<E, H>(
    at: Repl<Seq<char>, Seq<Seq<char>>>,
    event: ReplEvent<Seq<char>, Seq<Seq<char>>, E, H>,
    waiting: Seq<Seq<char>>,
) -> bool {
    ||| at.phase is Splitting && event == ReplEvent::<Seq<char>, Seq<Seq<char>>, E, H>::Split(
        waiting,
    )
    ||| at.phase is RunningStatement && event is Cancelled && waiting == at.waiting
    ||| at.phase is Refreshing && event is Refreshed && waiting == at.waiting
}

/// The statements of a line have their turns one after the other: the first that waits is recorded, but
/// for the white space at its end, and then executed exactly as it is, while the others go on waiting;
/// after the last the next line is read. Only a cancelled statement is remarked upon.
pub proof fn law_turns_of_statements<E, H>(
    at: Repl<Seq<char>, Seq<Seq<char>>>,
    event: ReplEvent<Seq<char>, Seq<Seq<char>>, E, H>,
    waiting: Seq<Seq<char>>,
)
    requires
        brings_turn(at, event, waiting),
    ensures
        ({
            let (next, answer) = repl_step(at, event);
            let (after, run) = repl_step(
                next,
                ReplEvent::<Seq<char>, Seq<Seq<char>>, E, H>::Recorded(Ok(())),
            );
            &&& answer.say == if event is Cancelled {
                Some(Say::<Seq<char>, E, H>::Line("^C"@))
            } else {
                None
            }
            &&& if waiting.len() == 0 {
                answer.todo == Todo::<Seq<char>, H>::ReadLine
            } else {
                &&& answer.todo == Todo::<Seq<char>, H>::Record(
                    crate::text::trimmed_end(waiting[0]),
                )
                &&& run.say is None
                &&& run.todo == Todo::<Seq<char>, H>::Execute(waiting[0])
                &&& after.phase is RunningStatement
                &&& after.waiting == waiting.skip(1)
            }
        }),
{
    if waiting.len() > 0 {
        assert(waiting.drop_first() =~= waiting.skip(1));
    }
}

/// How a session ends: the end of the input is shown as the command to quit, and an error of the editor
/// is shown as it is; the history is saved then, and what becomes of that is the outcome. An entry that
/// cannot be added to the history ends the session with that error, unsaved.
pub proof fn law_the_end_of_a_session<E, H>(
    at: Repl<Seq<char>, Seq<Seq<char>>>,
    error: H,
    outcome: Result<(), H>,
)
    ensures
        at.phase is Reading ==> {
            let (end, at_end) = repl_step(
                at,
                ReplEvent::<Seq<char>, Seq<Seq<char>>, E, H>::EndOfInput,
            );
            let (failed, at_failure) = repl_step(
                at,
                ReplEvent::<Seq<char>, Seq<Seq<char>>, E, H>::ReadFailed(error),
            );
            &&& at_end.say == Some(Say::<Seq<char>, E, H>::Line("\\q"@))
            &&& at_end.todo == Todo::<Seq<char>, H>::SaveHistory
            &&& at_failure.say == Some(Say::<Seq<char>, E, H>::ReadError(error))
            &&& at_failure.todo == Todo::<Seq<char>, H>::SaveHistory
        },
        at.phase is Saving ==> {
            let answer = repl_step(
                at,
                ReplEvent::<Seq<char>, Seq<Seq<char>>, E, H>::Saved(outcome),
            ).1;
            answer.say is None && answer.todo == Todo::<Seq<char>, H>::Finish(outcome)
        },
        at.phase is RecordingCommand || at.phase is RecordingStatement ==> {
            let answer = repl_step(
                at,
                ReplEvent::<Seq<char>, Seq<Seq<char>>, E, H>::Recorded(Err(error)),
            ).1;
            answer.say is None && answer.todo == Todo::<Seq<char>, H>::Finish(Err(error))
        },
{
}

/// Where a session stands is seen whole: no text in it is changed, and none of the waiting statements is
/// left out or moved.
pub proof fn law_sessions_are_seen_whole(session: Repl<String, Vec<String>>)
    ensures
        session@.waiting.len() == session.waiting@.len(),
        forall|i: int|
            0 <= i < session.waiting@.len() ==> #[trigger] session@.waiting[i]
                == session.waiting@[i]@,
        match session.phase {
            ReplPhase::Reading => session@.phase is Reading,
            ReplPhase::RecordingCommand { line } => session@.phase is RecordingCommand
                && session@.phase->RecordingCommand_line == line@,
            ReplPhase::ParsingCommand { line } => session@.phase is ParsingCommand
                && session@.phase->ParsingCommand_line == line@,
            ReplPhase::ParsingFormat { line } => session@.phase is ParsingFormat
                && session@.phase->ParsingFormat_line == line@,
            ReplPhase::RunningCommand => session@.phase is RunningCommand,
            ReplPhase::Splitting => session@.phase is Splitting,
            ReplPhase::RecordingStatement { statement } => session@.phase is RecordingStatement
                && session@.phase->statement == statement@,
            ReplPhase::RunningStatement => session@.phase is RunningStatement,
            ReplPhase::Refreshing => session@.phase is Refreshing,
            ReplPhase::Saving => session@.phase is Saving,
            ReplPhase::Done => session@.phase is Done,
        },
{
}

/// Events are seen whole: no text in them is changed, and none of their statements is left out or moved.
pub proof fn law_session_events_are_seen_whole<E, H>(event: ReplEvent<String, Vec<String>, E, H>)
    ensures
        match event {
            ReplEvent::Line(line) => event@ == ReplEvent::<Seq<char>, Seq<Seq<char>>, E, H>::Line(line@),
            ReplEvent::Interrupted => event@ is Interrupted,
            ReplEvent::EndOfInput => event@ is EndOfInput,
            ReplEvent::ReadFailed(error) => event@ == ReplEvent::<Seq<char>, Seq<Seq<char>>, E, H>::ReadFailed(error),
            ReplEvent::Recorded(outcome) => event@ == ReplEvent::<Seq<char>, Seq<Seq<char>>, E, H>::Recorded(outcome),
            ReplEvent::CommandParsed(None) => event@ == ReplEvent::<Seq<char>, Seq<Seq<char>>, E, H>::CommandParsed(None),
            ReplEvent::CommandParsed(Some(ShellCommand::Quit)) => event@ == ReplEvent::<Seq<char>, Seq<Seq<char>>, E, H>::CommandParsed(
                Some(ShellCommand::Quit),
            ),
            ReplEvent::CommandParsed(Some(ShellCommand::Other)) => event@ == ReplEvent::<Seq<char>, Seq<Seq<char>>, E, H>::CommandParsed(
                Some(ShellCommand::Other),
            ),
            ReplEvent::CommandParsed(Some(ShellCommand::OutputFormat(None))) => event@
                == ReplEvent::<Seq<char>, Seq<Seq<char>>, E, H>::CommandParsed(Some(ShellCommand::OutputFormat(None))),
            ReplEvent::CommandParsed(Some(ShellCommand::OutputFormat(Some(name)))) => event@
                == ReplEvent::<Seq<char>, Seq<Seq<char>>, E, H>::CommandParsed(Some(ShellCommand::OutputFormat(Some(name@)))),
            ReplEvent::FormatParsed(found) => event@ == ReplEvent::<Seq<char>, Seq<Seq<char>>, E, H>::FormatParsed(found),
            ReplEvent::CommandRan(outcome) => event@ == ReplEvent::<Seq<char>, Seq<Seq<char>>, E, H>::CommandRan(outcome),
            ReplEvent::Split(statements) => event@ is Split && event@->Split_0.len()
                == statements@.len() && forall|i: int|
                0 <= i < statements@.len() ==> #[trigger] event@->Split_0[i] == statements@[i]@,
            ReplEvent::StatementRan(outcome) => event@ == ReplEvent::<Seq<char>, Seq<Seq<char>>, E, H>::StatementRan(outcome),
            ReplEvent::Cancelled => event@ is Cancelled,
            ReplEvent::Refreshed => event@ is Refreshed,
            ReplEvent::Saved(outcome) => event@ == ReplEvent::<Seq<char>, Seq<Seq<char>>, E, H>::Saved(outcome),
        },
{
}

/// Answers are seen whole: no text in them is changed.
pub proof fn law_answers_are_seen_whole<E, H>(answer: Answer<String, E, H>)
    ensures
        match answer.say {
            None => answer@.say is None,
            Some(Say::Line(text)) => answer@.say == Some(Say::<Seq<char>, E, H>::Line(text@)),
            Some(Say::Complaint(text)) => answer@.say == Some(
                Say::<Seq<char>, E, H>::Complaint(text@),
            ),
            Some(Say::Error(error)) => answer@.say == Some(Say::<Seq<char>, E, H>::Error(error)),
            Some(Say::ReadError(error)) => answer@.say == Some(
                Say::<Seq<char>, E, H>::ReadError(error),
            ),
            Some(Say::Format) => answer@.say == Some(Say::<Seq<char>, E, H>::Format),
        },
        match answer.todo {
            Todo::ReadLine => answer@.todo is ReadLine,
            Todo::Record(entry) => answer@.todo == Todo::<Seq<char>, H>::Record(entry@),
            Todo::ParseCommand(text) => answer@.todo == Todo::<Seq<char>, H>::ParseCommand(text@),
            Todo::ParseFormat(text) => answer@.todo == Todo::<Seq<char>, H>::ParseFormat(text@),
            Todo::ApplyFormat => answer@.todo is ApplyFormat,
            Todo::RunCommand => answer@.todo is RunCommand,
            Todo::Split(line) => answer@.todo == Todo::<Seq<char>, H>::Split(line@),
            Todo::Execute(statement) => answer@.todo == Todo::<Seq<char>, H>::Execute(statement@),
            Todo::RefreshDialect => answer@.todo is RefreshDialect,
            Todo::SaveHistory => answer@.todo is SaveHistory,
            Todo::Finish(outcome) => answer@.todo == Todo::<Seq<char>, H>::Finish(outcome),
            Todo::Unexpected => answer@.todo is Unexpected,
        },
{
}

/// What is taken off a text, in front of a command and in a complaint, is its first character and
/// nothing else.
pub proof fn law_first_characters(text: Seq<char>)
    ensures
        tail(Seq::empty()) == Seq::<char>::empty(),
        text.len() > 0 ==> text == seq![text[0]] + tail(text),
        ({
            let spaced = crate::text::joined(crate::text::words(text));
            command_text(text) == if spaced.len() == 0 {
                spaced
            } else {
                spaced.subrange(1, spaced.len() as int)
            }
        }),
        not_a_command(text) == "'\\"@ + tail(text) + "' is not a valid command"@,
{
    let spaced = crate::text::joined(crate::text::words(text));
    if text.len() > 0 {
        assert(text =~= seq![text[0]] + tail(text));
    }
    if spaced.len() > 0 {
        assert(spaced.skip(1) =~= spaced.subrange(1, spaced.len() as int));
    }
}

} // verus!
