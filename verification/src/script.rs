//! Scripts: lines of text that are put together to statements and executed one after the other.
use crate::text::{chars_of, starts_with, trim_end};
use vstd::prelude::*;

verus! {

/// A line that is no part of any statement: a `#!` line, or a comment line.
pub open spec fn is_skipped(line: Seq<char>) -> bool {
    crate::text::begins_with(line, "#!"@) || crate::text::begins_with(line, "--"@)
}

/// A line that completes a statement: its last character, but for white space, is a semicolon.
pub open spec fn completes(line: Seq<char>) -> bool {
    let text = crate::text::trimmed_end(line);
    text.len() > 0 && text.last() == ';'
}

/// What a line adds to the text of the script: nothing where it is skipped, else the line without
/// the white space at its end, and a line break where the statement goes on.
pub open spec fn contribution(line: Seq<char>) -> Seq<char> {
    if is_skipped(line) {
        Seq::empty()
    } else if completes(line) {
        crate::text::trimmed_end(line)
    } else {
        crate::text::trimmed_end(line).push('\n')
    }
}

/// Text that is worth executing: there is more to it than line breaks.
pub open spec fn has_content(text: Seq<char>) -> bool {
    exists|i: int| 0 <= i < text.len() && #[trigger] text[i] != '\n'
}

/// What some lines amount to: the statements they complete, and the text after the last of these.
pub struct ScriptText {
    pub complete: Seq<Seq<char>>,
    pub pending: Seq<char>,
}

/// What the lines amount to.
pub open spec fn script_text(lines: Seq<Seq<char>>) -> ScriptText
    decreases lines.len(),
{
    if lines.len() == 0 {
        ScriptText { complete: Seq::empty(), pending: Seq::empty() }
    } else {
        let before = script_text(lines.drop_last());
        let line = lines.last();
        let text = before.pending + contribution(line);
        if is_skipped(line) || !completes(line) {
            ScriptText { pending: text, ..before }
        } else {
            ScriptText { complete: before.complete.push(text), pending: Seq::empty() }
        }
    }
}

/// The texts that a script of these lines executes: the complete statements, and what is left over
/// at the end, unless it consists of line breaks.
pub open spec fn script_statements(lines: Seq<Seq<char>>) -> Seq<Seq<char>> {
    let text = script_text(lines);
    if has_content(text.pending) {
        text.complete.push(text.pending)
    } else {
        text.complete
    }
}

/// What the run of a script waits for.
#[derive(Clone, Copy, Debug, PartialEq, Eq, Structural)]
pub enum ScriptPhase {
    /// The next line.
    Reading,
    /// The outcome of a complete statement.
    Running,
    /// The outcome of what was left over.
    RunningRest,
    Done,
}

/// The run of a script. `T` is text.
#[derive(Debug, PartialEq, Eq)]
pub struct ScriptRun<T> {
    pub query: T,
    pub phase: ScriptPhase,
}

impl View for ScriptRun<String> {
    type V = ScriptRun<Seq<char>>;

    open spec fn view(&self) -> ScriptRun<Seq<char>> {
        ScriptRun { query: self.query@, phase: self.phase }
    }
}

/// What happened.
#[derive(Debug, PartialEq, Eq)]
pub enum ScriptEvent<T, E> {
    /// A line came.
    Line(T),
    /// The next line could not be read.
    ReadFailed,
    /// There are no more lines.
    EndOfInput,
    /// The statement was executed, or failed.
    Executed(Result<(), E>),
}

impl<E> View for ScriptEvent<String, E> {
    type V = ScriptEvent<Seq<char>, E>;

    open spec fn view(&self) -> ScriptEvent<Seq<char>, E> {
        match *self {
            ScriptEvent::Line(line) => ScriptEvent::Line(line@),
            ScriptEvent::ReadFailed => ScriptEvent::ReadFailed,
            ScriptEvent::EndOfInput => ScriptEvent::EndOfInput,
            ScriptEvent::Executed(outcome) => ScriptEvent::Executed(outcome),
        }
    }
}

/// What to do next.
#[derive(Debug, PartialEq, Eq)]
pub enum ScriptAction<T, E> {
    /// Read the next line.
    ReadLine,
    /// Report the error, and read the next line.
    ReportAndReadLine(E),
    /// Execute this text.
    Execute(T),
    /// The script is done.
    Finish(Result<(), E>),
    /// The event was not awaited: nothing changed.
    Unexpected,
}

impl<E> View for ScriptAction<String, E> {
    type V = ScriptAction<Seq<char>, E>;

    open spec fn view(&self) -> ScriptAction<Seq<char>, E> {
        match *self {
            ScriptAction::ReadLine => ScriptAction::ReadLine,
            ScriptAction::ReportAndReadLine(error) => ScriptAction::ReportAndReadLine(error),
            ScriptAction::Execute(text) => ScriptAction::Execute(text@),
            ScriptAction::Finish(outcome) => ScriptAction::Finish(outcome),
            ScriptAction::Unexpected => ScriptAction::Unexpected,
        }
    }
}

/// One step of the run of a script.
///
/// The error of a complete statement is reported and the script goes on; the error of what is left
/// over is the outcome of the script. A line that cannot be read ends the script as its end does.
pub open spec fn script_step<E>(at: ScriptRun<Seq<char>>, event: ScriptEvent<Seq<char>, E>) -> (
    ScriptRun<Seq<char>>,
    ScriptAction<Seq<char>, E>,
) {
    match (at.phase, event) {
        (ScriptPhase::Reading, ScriptEvent::Line(line)) => {
            let query = at.query + contribution(line);
            if is_skipped(line) || !completes(line) {
                (ScriptRun { query, ..at }, ScriptAction::ReadLine)
            } else {
                (
                    ScriptRun { query: Seq::empty(), phase: ScriptPhase::Running },
                    ScriptAction::Execute(query),
                )
            }
        },
        (ScriptPhase::Reading, ScriptEvent::ReadFailed | ScriptEvent::EndOfInput) => {
            let empty = Seq::<char>::empty();
            if has_content(at.query) {
                (
                    ScriptRun { query: empty, phase: ScriptPhase::RunningRest },
                    ScriptAction::Execute(at.query),
                )
            } else {
                (ScriptRun { query: empty, phase: ScriptPhase::Done }, ScriptAction::Finish(Ok(())))
            }
        },
        (ScriptPhase::Running, ScriptEvent::Executed(outcome)) => (
            ScriptRun { phase: ScriptPhase::Reading, ..at },
            match outcome {
                Ok(_) => ScriptAction::ReadLine,
                Err(error) => ScriptAction::ReportAndReadLine(error),
            },
        ),
        (ScriptPhase::RunningRest, ScriptEvent::Executed(outcome)) => (
            ScriptRun { phase: ScriptPhase::Done, ..at },
            ScriptAction::Finish(outcome),
        ),
        _ => (at, ScriptAction::Unexpected),
    }
}

/// Whether there is more to the text than line breaks.
pub fn is_worth_executing(text: &str) -> (r: bool)
    ensures
        r == has_content(text@),
{
    let chars = chars_of(text);
    let mut i: usize = 0;
    while i < chars.len()
        invariant
            chars@ == text@,
            i <= chars.len(),
            forall|j: int| 0 <= j < i ==> text@[j] == '\n',
        decreases chars.len() - i,
    {
        if chars[i] != '\n' {
            assert(text@[i as int] != '\n');
            return true;
        }
        i = i + 1;
    }
    false
}

/// Whether the text ends in a semicolon.
fn ends_with_semicolon(text: &str) -> (r: bool)
    ensures
        r == (text@.len() > 0 && text@.last() == ';'),
{
    let n = text.unicode_len();
    n > 0 && text.get_char(n - 1) == ';'
}

impl ScriptRun<String> {
    /// The run of a script, at its beginning: the first line is to be read.
    pub fn new() -> (r: Self)
        ensures
            r@ == (ScriptRun { query: Seq::<char>::empty(), phase: ScriptPhase::Reading }),
    {
        ScriptRun { query: String::new(), phase: ScriptPhase::Reading }
    }

    /// One step.
    pub fn step<E>(self, event: ScriptEvent<String, E>) -> (r: (Self, ScriptAction<String, E>))
        ensures
            (r.0@, r.1@) == script_step(self@, event@),
    {
        match (self.phase, event) {
            (ScriptPhase::Reading, ScriptEvent::Line(line)) => {
                if starts_with(line.as_str(), "#!") || starts_with(line.as_str(), "--") {
                    assert(self@.query + contribution(line@) =~= self@.query);
                    return (self, ScriptAction::ReadLine);
                }
                let text = trim_end(line.as_str());
                let mut query = self.query;
                query.append(text.as_str());
                if ends_with_semicolon(text.as_str()) {
                    (
                        ScriptRun { query: String::new(), phase: ScriptPhase::Running },
                        ScriptAction::Execute(query),
                    )
                } else {
                    query.push('\n');
                    assert(query@ =~= self@.query + contribution(line@));
                    (
                        ScriptRun { query, phase: ScriptPhase::Reading },
                        ScriptAction::ReadLine,
                    )
                }
            },
            (ScriptPhase::Reading, ScriptEvent::ReadFailed | ScriptEvent::EndOfInput) => {
                if is_worth_executing(self.query.as_str()) {
                    (
                        ScriptRun { query: String::new(), phase: ScriptPhase::RunningRest },
                        ScriptAction::Execute(self.query),
                    )
                } else {
                    (
                        ScriptRun { query: String::new(), phase: ScriptPhase::Done },
                        ScriptAction::Finish(Ok(())),
                    )
                }
            },
            (ScriptPhase::Running, ScriptEvent::Executed(outcome)) => (
                ScriptRun { query: self.query, phase: ScriptPhase::Reading },
                match outcome {
                    Ok(_) => ScriptAction::ReadLine,
                    Err(error) => ScriptAction::ReportAndReadLine(error),
                },
            ),
            (ScriptPhase::RunningRest, ScriptEvent::Executed(outcome)) => (
                ScriptRun { query: self.query, phase: ScriptPhase::Done },
                ScriptAction::Finish(outcome),
            ),
            (_, _) => (self, ScriptAction::Unexpected),
        }
    }
}

/// The run after some events.
pub open spec fn script_after<E>(
    at: ScriptRun<Seq<char>>,
    events: Seq<ScriptEvent<Seq<char>, E>>,
) -> ScriptRun<Seq<char>>
    decreases events.len(),
{
    if events.len() == 0 {
        at
    } else {
        script_step(script_after(at, events.drop_last()), events.last()).0
    }
}

/// The lines that the run has taken in.
pub open spec fn lines_read<E>(
    at: ScriptRun<Seq<char>>,
    events: Seq<ScriptEvent<Seq<char>, E>>,
) -> Seq<Seq<char>>
    decreases events.len(),
{
    if events.len() == 0 {
        Seq::empty()
    } else {
        let before = lines_read(at, events.drop_last());
        match (script_after(at, events.drop_last()).phase, events.last()) {
            (ScriptPhase::Reading, ScriptEvent::Line(line)) => before.push(line),
            _ => before,
        }
    }
}

/// The texts that the run has asked to execute.
pub open spec fn texts_executed<E>(
    at: ScriptRun<Seq<char>>,
    events: Seq<ScriptEvent<Seq<char>, E>>,
) -> Seq<Seq<char>>
    decreases events.len(),
{
    if events.len() == 0 {
        Seq::empty()
    } else {
        let before = texts_executed(at, events.drop_last());
        match script_step(script_after(at, events.drop_last()), events.last()).1 {
            ScriptAction::Execute(text) => before.push(text),
            _ => before,
        }
    }
}

/// Whatever the outcomes are, a script executes exactly the statements of its lines, in order: the
/// complete ones as they are completed, and what is left over once it has ended.
pub proof fn law_script_executes_its_statements<E>(events: Seq<ScriptEvent<Seq<char>, E>>)
    ensures
        ({
            let start = ScriptRun { query: Seq::<char>::empty(), phase: ScriptPhase::Reading };
            let now = script_after(start, events);
            let text = script_text(lines_read(start, events));
            let executed = texts_executed(start, events);
            match now.phase {
                ScriptPhase::Reading => now.query == text.pending && executed == text.complete,
                ScriptPhase::Running => now.query == text.pending && executed == text.complete,
                ScriptPhase::RunningRest => executed == script_statements(
                    lines_read(start, events),
                ) && has_content(text.pending),
                ScriptPhase::Done => executed == script_statements(lines_read(start, events)),
            }
        }),
    decreases events.len(),
{
    if events.len() > 0 {
        law_script_executes_its_statements(events.drop_last());
        let start = ScriptRun { query: Seq::<char>::empty(), phase: ScriptPhase::Reading };
        let before = lines_read(start, events.drop_last());
        match events.last() {
            ScriptEvent::Line(line) => {
                assert(before.push(line).drop_last() =~= before);
            },
            _ => {},
        }
    }
}

/// The pieces of text, one after the other.
pub open spec fn concatenated(pieces: Seq<Seq<char>>) -> Seq<char>
    decreases pieces.len(),
{
    if pieces.len() == 0 {
        Seq::empty()
    } else {
        concatenated(pieces.drop_last()) + pieces.last()
    }
}

/// No text is lost, added or moved: the statements and the pending text, one after the other, are
/// the contributions of the lines, one after the other.
pub proof fn law_script_keeps_the_text(lines: Seq<Seq<char>>)
    ensures
        concatenated(script_text(lines).complete) + script_text(lines).pending == concatenated(
            lines.map_values(|line: Seq<char>| contribution(line)),
        ),
    decreases lines.len(),
{
    let f = |line: Seq<char>| contribution(line);
    if lines.len() == 0 {
        assert(concatenated(script_text(lines).complete) + script_text(lines).pending
            =~= concatenated(lines.map_values(f)));
    } else {
        let before = script_text(lines.drop_last());
        let now = script_text(lines);
        let line = lines.last();
        law_script_keeps_the_text(lines.drop_last());
        assert(lines.map_values(f).drop_last() =~= lines.drop_last().map_values(f));
        assert(lines.map_values(f).last() == contribution(line));
        if !is_skipped(line) && completes(line) {
            assert(now.complete.drop_last() =~= before.complete);
        }
        assert(concatenated(now.complete) + now.pending =~= (concatenated(before.complete)
            + before.pending) + contribution(line));
    }
}

/// Every complete statement ends in a semicolon, and pending text ends in a line break.
pub proof fn law_statements_end_in_semicolons(lines: Seq<Seq<char>>)
    ensures
        forall|i: int|
            0 <= i < script_text(lines).complete.len() ==> (#[trigger] script_text(
                lines,
            ).complete[i]).len() > 0 && script_text(lines).complete[i].last() == ';',
        script_text(lines).pending.len() > 0 ==> script_text(lines).pending.last() == '\n',
    decreases lines.len(),
{
    if lines.len() > 0 {
        law_statements_end_in_semicolons(lines.drop_last());
        let before = script_text(lines.drop_last());
        let now = script_text(lines);
        let line = lines.last();
        if is_skipped(line) {
            assert(before.pending + contribution(line) =~= before.pending);
        }
        assert forall|i: int| 0 <= i < now.complete.len() implies (#[trigger] now.complete[i]).len()
            > 0 && now.complete[i].last() == ';' by {
            if i < before.complete.len() {
                assert(now.complete[i] == before.complete[i]);
            }
        }
    }
}

/// Skipped lines make no difference: without them the script executes the same.
pub proof fn law_skipped_lines_make_no_difference(lines: Seq<Seq<char>>)
    ensures
        script_text(lines.filter(|line: Seq<char>| !is_skipped(line))) == script_text(lines),
        script_statements(lines.filter(|line: Seq<char>| !is_skipped(line))) == script_statements(
            lines,
        ),
    decreases lines.len(),
{
    reveal(Seq::filter);
    let counted = |line: Seq<char>| !is_skipped(line);
    if lines.len() > 0 {
        law_skipped_lines_make_no_difference(lines.drop_last());
        let before = script_text(lines.drop_last());
        let line = lines.last();
        let kept = lines.drop_last().filter(counted);
        if is_skipped(line) {
            assert(before.pending + contribution(line) =~= before.pending);
        } else {
            assert(kept.push(line).drop_last() =~= kept);
        }
    }
}

/// An error becomes the outcome of a script only where it is the error of what was left over.
pub proof fn law_only_the_rest_can_fail_a_script<E>(
    at: ScriptRun<Seq<char>>,
    event: ScriptEvent<Seq<char>, E>,
)
    ensures
        script_step(at, event).1 matches ScriptAction::Finish(outcome) ==> {
            &&& script_step(at, event).0.phase is Done
            &&& outcome is Err ==> at.phase is RunningRest && event == ScriptEvent::<
                Seq<char>,
                E,
            >::Executed(outcome)
        },
        at.phase is Done ==> script_step(at, event) == (
            at,
            ScriptAction::<Seq<char>, E>::Unexpected,
        ),
{
}

/// A line is skipped exactly where its first two characters are `#!` or `--`.
pub proof fn law_skipped_lines(line: Seq<char>)
    ensures
        is_skipped(line) <==> line.len() >= 2 && (line[0] == '#' && line[1] == '!' || line[0] == '-'
            && line[1] == '-'),
        is_skipped(line) ==> contribution(line).len() == 0,
{
    reveal_strlit("#!");
    reveal_strlit("--");
    if line.len() >= 2 {
        assert(line.take(2)[0] == line[0] && line.take(2)[1] == line[1]);
        if line[0] == '#' && line[1] == '!' {
            assert(line.take(2) =~= "#!"@);
        }
        if line[0] == '-' && line[1] == '-' {
            assert(line.take(2) =~= "--"@);
        }
    }
}

/// The text of a line reaches its statement character for character: a line that is not skipped adds
/// its own first characters, all but the white space at its end, and a line break where the last of
/// these is no semicolon.
pub proof fn law_lines_are_taken_as_they_are(line: Seq<char>)
    requires
        !is_skipped(line),
    ensures
        ({
            let added = contribution(line);
            let n = if completes(line) {
                added.len() as int
            } else {
                added.len() - 1
            };
            &&& 0 <= n <= line.len()
            &&& added == if completes(line) {
                line.take(n)
            } else {
                line.take(n).push('\n')
            }
            &&& forall|i: int| n <= i < line.len() ==> crate::text::white_space(#[trigger] line[i])
            &&& n > 0 ==> !crate::text::white_space(line[n - 1])
            &&& completes(line) <==> n > 0 && line[n - 1] == ';'
        }),
{
    crate::text::law_trimming(line);
    let text = crate::text::trimmed_end(line);
    assert(text =~= line.take(text.len() as int));
}

/// White space behind the text of a line makes no difference: the line adds the text, and a line break
/// unless the text ends in a semicolon, with which it completes a statement.
pub proof fn law_white_space_at_line_ends(text: Seq<char>, space: Seq<char>)
    requires
        text.len() == 0 || !crate::text::white_space(text.last()),
        forall|i: int| 0 <= i < space.len() ==> crate::text::white_space(#[trigger] space[i]),
        !is_skipped(text + space),
    ensures
        completes(text + space) <==> text.len() > 0 && text.last() == ';',
        contribution(text + space) == if text.len() > 0 && text.last() == ';' {
            text
        } else {
            text + seq!['\n']
        },
{
    crate::text::law_trimming_keeps_the_text(text, space);
    assert(text.push('\n') =~= text + seq!['\n']);
}

/// A text is not worth executing exactly where it is made of line breaks alone.
pub proof fn law_line_breaks_are_no_content(text: Seq<char>)
    ensures
        !has_content(text) <==> text == Seq::new(text.len(), |i: int| '\n'),
{
    let breaks = Seq::new(text.len(), |i: int| '\n');
    if !has_content(text) {
        assert forall|i: int| 0 <= i < text.len() implies text[i] == breaks[i] by {}
        assert(text =~= breaks);
    } else {
        let i = choose|i: int| 0 <= i < text.len() && #[trigger] text[i] != '\n';
        assert(breaks[i] == '\n');
    }
}

/// The line ends a statement.
pub open spec fn ends_statement(line: Seq<char>) -> bool {
    !is_skipped(line) && completes(line)
}

/// A statement is a block of lines: it begins behind the line that ended the one before, and ends with
/// the first line that ends one. Its text is what these lines add, one after the other. Lines behind
/// the last statement are pending, in the same way.
pub proof fn law_statements_are_blocks_of_lines(
    before: Seq<Seq<char>>,
    block: Seq<Seq<char>>,
    last: Seq<char>,
)
    requires
        before.len() == 0 || ends_statement(before.last()),
        forall|i: int| 0 <= i < block.len() ==> !ends_statement(#[trigger] block[i]),
        ends_statement(last),
    ensures
        ({
            let text = concatenated(block.map_values(|line: Seq<char>| contribution(line)));
            &&& script_text(before + block).complete == script_text(before).complete
            &&& script_text(before + block).pending == text
            &&& script_text((before + block).push(last)).complete == script_text(
                before,
            ).complete.push(text + contribution(last))
            &&& script_text((before + block).push(last)).pending.len() == 0
        }),
    decreases block.len(),
{
    let f = |line: Seq<char>| contribution(line);
    assert((before + block).push(last).drop_last() =~= before + block);
    if block.len() == 0 {
        assert(before + block =~= before);
        assert(block.map_values(f) =~= Seq::empty());
        assert(script_text(before).pending =~= Seq::<char>::empty());
    } else {
        let less = block.drop_last();
        assert forall|i: int| 0 <= i < less.len() implies !ends_statement(#[trigger] less[i]) by {
            assert(less[i] == block[i]);
        }
        law_statements_are_blocks_of_lines(before, less, last);
        assert((before + block).drop_last() =~= before + less);
        assert((before + block).last() == block.last());
        assert(!ends_statement(block[block.len() - 1]));
        assert(block.map_values(f).drop_last() =~= less.map_values(f));
        assert(block.map_values(f).last() == contribution(block.last()));
    }
}

/// What is executed of a script: its complete statements, and then the pending text, unless that is
/// made of line breaks alone.
pub proof fn law_what_is_executed(lines: Seq<Seq<char>>)
    ensures
        ({
            let text = script_text(lines);
            let executed = script_statements(lines);
            if text.pending == Seq::new(text.pending.len(), |i: int| '\n') {
                executed == text.complete
            } else {
                executed == text.complete + seq![text.pending]
            }
        }),
{
    let text = script_text(lines);
    law_line_breaks_are_no_content(text.pending);
    assert(text.complete.push(text.pending) =~= text.complete + seq![text.pending]);
}

/// The event tells what became of the action.
pub open spec fn tells_of<E>(
    action: ScriptAction<Seq<char>, E>,
    event: ScriptEvent<Seq<char>, E>,
) -> bool {
    match action {
        ScriptAction::ReadLine => !(event is Executed),
        ScriptAction::ReportAndReadLine(_) => !(event is Executed),
        ScriptAction::Execute(_) => event is Executed,
        ScriptAction::Finish(_) => false,
        ScriptAction::Unexpected => false,
    }
}

/// A script asks for one thing at a time, first for a line, and takes in what became of it, and nothing
/// else: any other event is not awaited and changes nothing, and after the end none is.
pub proof fn law_one_thing_at_a_time<E>(
    at: ScriptRun<Seq<char>>,
    event: ScriptEvent<Seq<char>, E>,
    next_event: ScriptEvent<Seq<char>, E>,
)
    ensures
        at.phase is Reading ==> (script_step(at, event).1 is Unexpected <==> !tells_of(
            ScriptAction::ReadLine,
            event,
        )),
        ({
            let (next, action) = script_step(at, event);
            if action is Unexpected {
                next == at
            } else {
                script_step(next, next_event).1 is Unexpected <==> !tells_of(action, next_event)
            }
        }),
{
}

/// A script goes on after every line and every complete statement: a line that ends no statement is
/// followed by the next line, and so is a statement, whose error is reported first. The end of the
/// script, or a line that cannot be read, has the pending text executed, or else succeeds; the outcome
/// of the pending text is the outcome of the script.
pub proof fn law_how_scripts_go_on<E>(
    at: ScriptRun<Seq<char>>,
    line: Seq<char>,
    outcome: Result<(), E>,
)
    requires
        at.phase is Reading,
    ensures
        ({
            let (next, action) = script_step(at, ScriptEvent::<Seq<char>, E>::Line(line));
            let after = script_step(next, ScriptEvent::<Seq<char>, E>::Executed(outcome)).1;
            if ends_statement(line) {
                &&& action == ScriptAction::<Seq<char>, E>::Execute(at.query + contribution(line))
                &&& next.query.len() == 0
                &&& after == match outcome {
                    Ok(_) => ScriptAction::<Seq<char>, E>::ReadLine,
                    Err(error) => ScriptAction::ReportAndReadLine(error),
                }
            } else {
                &&& action == ScriptAction::<Seq<char>, E>::ReadLine
                &&& next.query == at.query + contribution(line)
            }
        }),
        ({
            let (next, action) = script_step(at, ScriptEvent::<Seq<char>, E>::EndOfInput);
            let after = script_step(next, ScriptEvent::<Seq<char>, E>::Executed(outcome)).1;
            if at.query == Seq::new(at.query.len(), |i: int| '\n') {
                action == ScriptAction::<Seq<char>, E>::Finish(Ok(()))
            } else {
                &&& action == ScriptAction::<Seq<char>, E>::Execute(at.query)
                &&& after == ScriptAction::<Seq<char>, E>::Finish(outcome)
            }
        }),
        script_step(at, ScriptEvent::<Seq<char>, E>::ReadFailed) == script_step(
            at,
            ScriptEvent::<Seq<char>, E>::EndOfInput,
        ),
{
    law_line_breaks_are_no_content(at.query);
    match outcome {
        Ok(done) => {
            assert(done == ());
        },
        Err(_) => {},
    }
}

/// Runs, events and actions are seen whole: no text in them is changed.
pub proof fn law_scripts_are_seen_whole<E>(
    run: ScriptRun<String>,
    text: String,
    outcome: Result<(), E>,
    error: E,
)
    ensures
        run@.query == run.query@,
        run@.phase == run.phase,
        ScriptEvent::<String, E>::Line(text)@ == ScriptEvent::<Seq<char>, E>::Line(text@),
        ScriptEvent::<String, E>::ReadFailed@ is ReadFailed,
        ScriptEvent::<String, E>::EndOfInput@ is EndOfInput,
        ScriptEvent::<String, E>::Executed(outcome)@ == ScriptEvent::<Seq<char>, E>::Executed(
            outcome,
        ),
        ScriptAction::<String, E>::ReadLine@ is ReadLine,
        ScriptAction::<String, E>::ReportAndReadLine(error)@ == ScriptAction::<
            Seq<char>,
            E,
        >::ReportAndReadLine(error),
        ScriptAction::<String, E>::Execute(text)@ == ScriptAction::<Seq<char>, E>::Execute(text@),
        ScriptAction::<String, E>::Finish(outcome)@ == ScriptAction::<Seq<char>, E>::Finish(
            outcome,
        ),
        ScriptAction::<String, E>::Unexpected@ is Unexpected,
{
}

} // verus!
