use datafusion_exec::script::{
    is_worth_executing, ScriptAction, ScriptEvent, ScriptPhase, ScriptRun,
};

type Action = ScriptAction<String, String>;

/// Runs a script whose statements fail where they hold the word `bad`.
fn drive(
    lines: &[&str],
    end: ScriptEvent<String, String>,
) -> (Vec<String>, Vec<String>, Result<(), String>) {
    let mut run = ScriptRun::new();
    let mut executed = vec![];
    let mut reported = vec![];
    let mut end = Some(end);
    let mut left = lines.iter();
    let mut action: Action = ScriptAction::ReadLine;
    loop {
        let event = match action {
            ScriptAction::ReadLine | ScriptAction::ReportAndReadLine(_) => {
                if let ScriptAction::ReportAndReadLine(error) = action {
                    reported.push(error);
                }
                match left.next() {
                    Some(line) => ScriptEvent::Line(line.to_string()),
                    None => end.take().unwrap(),
                }
            }
            ScriptAction::Execute(text) => {
                let outcome =
                    if text.contains("bad") { Err(format!("{text} failed")) } else { Ok(()) };
                executed.push(text);
                ScriptEvent::Executed(outcome)
            }
            ScriptAction::Finish(result) => return (executed, reported, result),
            ScriptAction::Unexpected => panic!("not awaited"),
        };
        (run, action) = run.step(event);
    }
}

#[test]
fn statements_over_several_lines() {
    let (executed, reported, result) = drive(
        &["select", "  1;  ", "select 2;", "select 3", "from t"],
        ScriptEvent::EndOfInput,
    );
    assert_eq!(executed, vec!["select\n  1;", "select 2;", "select 3\nfrom t\n"]);
    assert!(reported.is_empty());
    assert_eq!(result, Ok(()));
}

#[test]
fn skipped_lines() {
    let (executed, _, result) = drive(
        &["#!/usr/bin/env shell", "-- a; comment;", "select 1", "--inside", "+ 2;", " -- kept;"],
        ScriptEvent::EndOfInput,
    );
    assert_eq!(executed, vec!["select 1\n+ 2;", " -- kept;"]);
    assert_eq!(result, Ok(()));
    let (without, _, _) = drive(&["select 1", "+ 2;", " -- kept;"], ScriptEvent::EndOfInput);
    assert_eq!(executed, without);
}

#[test]
fn line_breaks_alone_are_not_executed() {
    let (executed, _, result) = drive(&["select 1;", "", "   ", "\t"], ScriptEvent::EndOfInput);
    assert_eq!(executed, vec!["select 1;"]);
    assert_eq!(result, Ok(()));
    assert_eq!(drive(&[], ScriptEvent::EndOfInput), (vec![], vec![], Ok(())));
}

#[test]
fn errors_of_complete_statements_are_reported() {
    let (executed, reported, result) =
        drive(&["bad;", "select 1;", "bad 2;"], ScriptEvent::EndOfInput);
    assert_eq!(executed, vec!["bad;", "select 1;", "bad 2;"]);
    assert_eq!(reported, vec!["bad; failed", "bad 2; failed"]);
    assert_eq!(result, Ok(()));
}

#[test]
fn error_of_the_rest_is_the_outcome() {
    let (executed, reported, result) = drive(&["select 1;", "bad"], ScriptEvent::EndOfInput);
    assert_eq!(executed, vec!["select 1;", "bad\n"]);
    assert!(reported.is_empty());
    assert_eq!(result, Err("bad\n failed".to_string()));
}

#[test]
fn unreadable_line_ends_the_script() {
    let (executed, _, result) = drive(&["select 1;", "select 2"], ScriptEvent::ReadFailed);
    assert_eq!(executed, vec!["select 1;", "select 2\n"]);
    assert_eq!(result, Ok(()));
}

#[test]
fn no_text_is_lost() {
    let (executed, _, _) =
        drive(&["\n", "a ", "b;", "c; ;", "d", "-- e", "f "], ScriptEvent::EndOfInput);
    assert_eq!(executed.concat(), "\na\nb;c; ;d\nf\n");
}

#[test]
fn semicolon_before_a_comment_does_not_complete() {
    let (executed, _, _) = drive(&["select 1; -- one", "select 2;"], ScriptEvent::EndOfInput);
    assert_eq!(executed, vec!["select 1; -- one\nselect 2;"]);
}

#[test]
fn other_events_change_nothing() {
    let run = ScriptRun::new();
    let (run, action) = run.step::<String>(ScriptEvent::Executed(Ok(())));
    assert_eq!(action, ScriptAction::Unexpected);
    assert_eq!(run, ScriptRun { query: String::new(), phase: ScriptPhase::Reading });
    let (run, action) = run.step::<String>(ScriptEvent::EndOfInput);
    assert_eq!(action, ScriptAction::Finish(Ok(())));
    let (run, action) = run.step::<String>(ScriptEvent::Line("select 1;".to_string()));
    assert_eq!(action, ScriptAction::Unexpected);
    assert_eq!(run.phase, ScriptPhase::Done);
}

#[test]
fn worth_executing() {
    assert!(!is_worth_executing(""));
    assert!(!is_worth_executing("\n\n"));
    assert!(is_worth_executing("\n;\n"));
    assert!(is_worth_executing("\n \n"));
}
