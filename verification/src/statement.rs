//! The execution of one statement up to its data frame: planning, running the plan, and the one
//! retry with a freshly detected S3 region.
use crate::options::{AdjustedPrintOptions, PrintOptions};
use crate::plan::PlanShape;
use crate::sql::{ParsedStatement, StatementKind};
use crate::text::eq_ignore_ascii_case;
use vstd::prelude::*;

verus! {

/// Executor of one statement. It keeps a second copy of a statement that may have to be planned
/// again.
#[derive(Debug, PartialEq, Eq)]
pub struct StatementExecutor {
    pub statement: ParsedStatement,
    pub statement_for_retry: Option<ParsedStatement>,
}

/// The copy that is kept of a statement: only `CREATE EXTERNAL TABLE` is ever retried.
pub open spec fn kept_for_retry(statement: ParsedStatement) -> Option<ParsedStatement> {
    if statement.kind == StatementKind::CreateExternalTable {
        Some(statement)
    } else {
        None
    }
}

/// What the run of a statement waits for.
#[derive(Clone, Copy, Debug, PartialEq, Eq, Structural)]
pub enum LogicalPhase {
    /// The plan of the statement.
    Planning,
    /// The data frame of the plan.
    Running,
    /// The plan of the statement with its region resolved.
    Replanning,
    /// The data frame of the second plan.
    Rerunning,
    Done,
}

/// The run of one statement.
#[derive(Debug, PartialEq, Eq)]
pub struct LogicalRun {
    pub retry: Option<ParsedStatement>,
    pub adjusted: AdjustedPrintOptions,
    pub phase: LogicalPhase,
}

/// The failure of a plan.
#[derive(Debug, PartialEq, Eq)]
pub struct RunError<T, E> {
    /// The name of the object store, where the error is a generic error of one.
    pub object_store: Option<T>,
    pub error: E,
}

/// What happened.
#[derive(Debug, PartialEq, Eq)]
pub enum LogicalEvent<T, O, E> {
    /// The statement was planned, or could not be.
    Planned(Result<PlanShape<T, O>, E>),
    /// The plan ran, or failed.
    Ran(Result<(), RunError<T, E>>),
}

impl<O, E> View for LogicalEvent<String, O, E> {
    type V = LogicalEvent<Seq<char>, O, E>;

    open spec fn view(&self) -> LogicalEvent<Seq<char>, O, E> {
        match *self {
            LogicalEvent::Planned(Ok(plan)) => LogicalEvent::Planned(Ok(plan@)),
            LogicalEvent::Planned(Err(error)) => LogicalEvent::Planned(Err(error)),
            LogicalEvent::Ran(Ok(done)) => LogicalEvent::Ran(Ok(done)),
            LogicalEvent::Ran(Err(failure)) => LogicalEvent::Ran(
                Err(
                    RunError {
                        object_store: match failure.object_store {
                            Some(name) => Some(name@),
                            None => None,
                        },
                        error: failure.error,
                    },
                ),
            ),
        }
    }
}

/// What to do next.
#[derive(Debug, PartialEq, Eq)]
pub enum LogicalAction<E> {
    /// Make the plan of this statement.
    Plan { statement: ParsedStatement, resolve_region: bool },
    /// Run the plan that was made last.
    Run,
    /// The data frame of the last run is the result, to be printed with these options; or there is
    /// none.
    Finish(Result<AdjustedPrintOptions, E>),
    /// The event was not awaited: nothing changed.
    Unexpected,
}

/// The failure of a plan that points at a wrong region: a generic error of the S3 object store.
pub open spec fn wrong_region(object_store: Option<Seq<char>>) -> bool {
    object_store matches Some(name) && crate::text::same_ignoring_ascii_case("S3"@, name)
}

/// The beginning of the run of a statement.
pub open spec fn logical_start<E>(statement: ParsedStatement, options: PrintOptions) -> (
    LogicalRun,
    LogicalAction<E>,
) {
    (
        LogicalRun {
            retry: kept_for_retry(statement),
            adjusted: AdjustedPrintOptions {
                inner: crate::options::for_statement(options, statement.kind),
            },
            phase: LogicalPhase::Planning,
        },
        LogicalAction::Plan { statement, resolve_region: false },
    )
}

/// One step of the run of a statement. The print options follow the first plan.
pub open spec fn logical_step<O, E>(at: LogicalRun, event: LogicalEvent<Seq<char>, O, E>) -> (
    LogicalRun,
    LogicalAction<E>,
) {
    let done = LogicalRun { phase: LogicalPhase::Done, ..at };
    match (at.phase, event) {
        (
            LogicalPhase::Planning | LogicalPhase::Replanning,
            LogicalEvent::Planned(Err(error)),
        ) => (done, LogicalAction::Finish(Err(error))),
        (LogicalPhase::Planning, LogicalEvent::Planned(Ok(plan))) => (
            LogicalRun {
                adjusted: AdjustedPrintOptions {
                    inner: crate::options::for_plan(at.adjusted.inner, plan),
                },
                phase: LogicalPhase::Running,
                ..at
            },
            LogicalAction::Run,
        ),
        (LogicalPhase::Replanning, LogicalEvent::Planned(Ok(_))) => (
            LogicalRun { phase: LogicalPhase::Rerunning, ..at },
            LogicalAction::Run,
        ),
        (LogicalPhase::Running | LogicalPhase::Rerunning, LogicalEvent::Ran(Ok(_))) => (
            done,
            LogicalAction::Finish(Ok(at.adjusted)),
        ),
        (LogicalPhase::Running, LogicalEvent::Ran(Err(failure))) if wrong_region(
            failure.object_store,
        ) && at.retry is Some => (
            LogicalRun { retry: None, phase: LogicalPhase::Replanning, ..at },
            LogicalAction::Plan { statement: at.retry->0, resolve_region: true },
        ),
        (LogicalPhase::Running | LogicalPhase::Rerunning, LogicalEvent::Ran(Err(failure))) => (
            done,
            LogicalAction::Finish(Err(failure.error)),
        ),
        _ => (at, LogicalAction::Unexpected),
    }
}

/// Whether a failure points at a wrong region.
pub fn is_wrong_region(object_store: &Option<String>) -> (r: bool)
    ensures
        r == wrong_region(
            match *object_store {
                Some(name) => Some(name@),
                None => None,
            },
        ),
{
    match object_store {
        Some(name) => eq_ignore_ascii_case("S3", name.as_str()),
        None => false,
    }
}

impl StatementExecutor {
    /// The executor of a statement.
    pub fn new(statement: ParsedStatement) -> (r: Self)
        ensures
            r.statement == statement,
            r.statement_for_retry == kept_for_retry(statement),
    {
        let statement_for_retry = if statement.kind == StatementKind::CreateExternalTable {
            Some(statement.duplicate())
        } else {
            None
        };
        StatementExecutor { statement, statement_for_retry }
    }

    /// Begins the run of the statement.
    pub fn create_and_execute_logical_plan<E>(self, print_options: PrintOptions) -> (r: (
        LogicalRun,
        LogicalAction<E>,
    ))
        ensures
            r.0.retry == self.statement_for_retry,
            r.0.adjusted.inner == crate::options::for_statement(
                print_options,
                self.statement.kind,
            ),
            r.0.phase == LogicalPhase::Planning,
            r.1 == (LogicalAction::<E>::Plan { statement: self.statement, resolve_region: false }),
            self.statement_for_retry == kept_for_retry(self.statement) ==> r == logical_start::<E>(
                self.statement,
                print_options,
            ),
    {
        let adjusted = AdjustedPrintOptions::new(print_options).with_statement(self.statement.kind);
        (
            LogicalRun {
                retry: self.statement_for_retry,
                adjusted,
                phase: LogicalPhase::Planning,
            },
            LogicalAction::Plan { statement: self.statement, resolve_region: false },
        )
    }
}

impl LogicalRun {
    /// One step.
    pub fn step<O, E>(self, event: LogicalEvent<String, O, E>) -> (r: (Self, LogicalAction<E>))
        ensures
            r == logical_step(self, event@),
    {
        match (self.phase, event) {
            (
                LogicalPhase::Planning | LogicalPhase::Replanning,
                LogicalEvent::Planned(Err(error)),
            ) => (
                LogicalRun { phase: LogicalPhase::Done, ..self },
                LogicalAction::Finish(Err(error)),
            ),
            (LogicalPhase::Planning, LogicalEvent::Planned(Ok(plan))) => (
                LogicalRun {
                    adjusted: self.adjusted.with_plan(&plan),
                    phase: LogicalPhase::Running,
                    ..self
                },
                LogicalAction::Run,
            ),
            (LogicalPhase::Replanning, LogicalEvent::Planned(Ok(_))) => (
                LogicalRun { phase: LogicalPhase::Rerunning, ..self },
                LogicalAction::Run,
            ),
            (LogicalPhase::Running | LogicalPhase::Rerunning, LogicalEvent::Ran(Ok(_))) => {
                let adjusted = self.adjusted;
                (
                    LogicalRun { phase: LogicalPhase::Done, ..self },
                    LogicalAction::Finish(Ok(adjusted)),
                )
            },
            (LogicalPhase::Running, LogicalEvent::Ran(Err(failure))) => {
                if is_wrong_region(&failure.object_store) {
                    match self.retry {
                        Some(statement) => (
                            LogicalRun {
                                retry: None,
                                adjusted: self.adjusted,
                                phase: LogicalPhase::Replanning,
                            },
                            LogicalAction::Plan { statement, resolve_region: true },
                        ),
                        None => (
                            LogicalRun {
                                retry: None,
                                adjusted: self.adjusted,
                                phase: LogicalPhase::Done,
                            },
                            LogicalAction::Finish(Err(failure.error)),
                        ),
                    }
                } else {
                    (
                        LogicalRun { phase: LogicalPhase::Done, ..self },
                        LogicalAction::Finish(Err(failure.error)),
                    )
                }
            },
            (LogicalPhase::Rerunning, LogicalEvent::Ran(Err(failure))) => (
                LogicalRun { phase: LogicalPhase::Done, ..self },
                LogicalAction::Finish(Err(failure.error)),
            ),
            (_, _) => (self, LogicalAction::Unexpected),
        }
    }
}

/// The run after some events.
pub open spec fn logical_after<O, E>(
    at: LogicalRun,
    events: Seq<LogicalEvent<Seq<char>, O, E>>,
) -> LogicalRun
    decreases events.len(),
{
    if events.len() == 0 {
        at
    } else {
        logical_step(logical_after(at, events.drop_last()), events.last()).0
    }
}

/// The answer to the event of index `i`.
pub open spec fn logical_answer<O, E>(
    at: LogicalRun,
    events: Seq<LogicalEvent<Seq<char>, O, E>>,
    i: int,
) -> LogicalAction<E> {
    logical_step(logical_after(at, events.take(i)), events[i]).1
}

proof fn lemma_next<O, E>(at: LogicalRun, events: Seq<LogicalEvent<Seq<char>, O, E>>, i: int)
    requires
        0 <= i < events.len(),
    ensures
        logical_after(at, events.take(i + 1)) == logical_step(
            logical_after(at, events.take(i)),
            events[i],
        ).0,
{
    assert(events.take(i + 1).drop_last() =~= events.take(i));
}

proof fn lemma_retry_kept<O, E>(
    statement: ParsedStatement,
    options: PrintOptions,
    events: Seq<LogicalEvent<Seq<char>, O, E>>,
)
    ensures
        ({
            let now = logical_after(logical_start::<E>(statement, options).0, events);
            now.retry is Some ==> now.retry == kept_for_retry(statement)
        }),
    decreases events.len(),
{
    if events.len() > 0 {
        lemma_retry_kept(statement, options, events.drop_last());
    }
}

proof fn lemma_no_second_retry<O, E>(
    at: LogicalRun,
    events: Seq<LogicalEvent<Seq<char>, O, E>>,
    i: int,
    j: int,
)
    requires
        0 <= i < j <= events.len(),
        logical_answer(at, events, i) is Plan,
    ensures
        ({
            let phase = logical_after(at, events.take(j)).phase;
            phase is Replanning || phase is Rerunning || phase is Done
        }),
    decreases j,
{
    lemma_next(at, events, j - 1);
    if i < j - 1 {
        lemma_no_second_retry(at, events, i, j - 1);
    }
}

/// Whatever happens, a statement is planned a second time at most once, only where it creates an
/// external table, only upon a generic error of the S3 store, and then with its region resolved.
pub proof fn law_one_retry<O, E>(
    statement: ParsedStatement,
    options: PrintOptions,
    events: Seq<LogicalEvent<Seq<char>, O, E>>,
    i: int,
)
    requires
        0 <= i < events.len(),
        logical_answer(logical_start::<E>(statement, options).0, events, i) is Plan,
    ensures
        ({
            let start = logical_start::<E>(statement, options).0;
            &&& statement.kind == StatementKind::CreateExternalTable
            &&& logical_answer(start, events, i) == (LogicalAction::<E>::Plan {
                statement,
                resolve_region: true,
            })
            &&& events[i] matches LogicalEvent::Ran(Err(failure)) && wrong_region(
                failure.object_store,
            )
            &&& forall|j: int|
                0 <= j < events.len() && j != i ==> !(#[trigger] logical_answer(
                    start,
                    events,
                    j,
                ) is Plan)
        }),
{
    let start = logical_start::<E>(statement, options).0;
    lemma_retry_kept(statement, options, events.take(i));
    assert forall|j: int| 0 <= j < events.len() && j != i implies !(#[trigger] logical_answer(
        start,
        events,
        j,
    ) is Plan) by {
        if i < j {
            lemma_no_second_retry(start, events, i, j);
        } else if logical_answer(start, events, j) is Plan {
            lemma_no_second_retry(start, events, j, i);
        }
    }
}

/// The print options of a statement follow the statement and its first plan, whatever happens
/// afterwards.
pub proof fn law_first_plan_sets_the_options<O, E>(
    statement: ParsedStatement,
    options: PrintOptions,
    plan: PlanShape<Seq<char>, O>,
    events: Seq<LogicalEvent<Seq<char>, O, E>>,
)
    requires
        events.len() > 0,
        events[0] == LogicalEvent::<Seq<char>, O, E>::Planned(Ok(plan)),
    ensures
        logical_after(logical_start::<E>(statement, options).0, events).adjusted.inner
            == crate::options::for_plan(
            crate::options::for_statement(options, statement.kind),
            plan,
        ),
        !(logical_after(logical_start::<E>(statement, options).0, events).phase is Planning),
    decreases events.len(),
{
    if events.len() > 1 {
        law_first_plan_sets_the_options(statement, options, plan, events.drop_last());
    } else {
        assert(logical_after(logical_start::<E>(statement, options).0, events.drop_last())
            == logical_start::<E>(statement, options).0);
    }
}

/// A run that has finished answers nothing any more.
pub proof fn law_done_is_done<O, E>(at: LogicalRun, event: LogicalEvent<Seq<char>, O, E>)
    ensures
        logical_step(at, event).1 is Finish ==> logical_step(at, event).0.phase is Done,
        at.phase is Done ==> logical_step(at, event) == (at, LogicalAction::<E>::Unexpected),
{
}

/// The event tells what became of the action.
pub open spec fn tells_of<O, E>(
    action: LogicalAction<E>,
    event: LogicalEvent<Seq<char>, O, E>,
) -> bool {
    match action {
        LogicalAction::Plan { .. } => event is Planned,
        LogicalAction::Run => event is Ran,
        LogicalAction::Finish(_) => false,
        LogicalAction::Unexpected => false,
    }
}

/// A run asks for one thing at a time and takes in what became of it, and nothing else: any other
/// event is not awaited and changes nothing, and after the end none is.
pub proof fn law_one_thing_at_a_time<O, E>(
    statement: ParsedStatement,
    options: PrintOptions,
    at: LogicalRun,
    event: LogicalEvent<Seq<char>, O, E>,
    next_event: LogicalEvent<Seq<char>, O, E>,
)
    ensures
        ({
            let (start, first) = logical_start::<E>(statement, options);
            logical_step(start, event).1 is Unexpected <==> !tells_of(first, event)
        }),
        ({
            let (next, action) = logical_step(at, event);
            if action is Unexpected {
                next == at
            } else {
                logical_step(next, next_event).1 is Unexpected <==> !tells_of(action, next_event)
            }
        }),
{
}

/// The name of the S3 object store, in any case.
pub open spec fn is_s3(name: Seq<char>) -> bool {
    name.len() == 2 && (name[0] == 'S' || name[0] == 's') && name[1] == '3'
}

proof fn lemma_s3_letters(first: char, second: char)
    requires
        crate::text::ascii_lower('S') == crate::text::ascii_lower(first),
        crate::text::ascii_lower('3') == crate::text::ascii_lower(second),
    ensures
        first == 'S' || first == 's',
        second == '3',
{
    assert(crate::text::ascii_lower(first) as u32 == 's' as u32);
    assert(first as u32 == 'S' as u32 || first as u32 == 's' as u32);
}

/// A failure points at a wrong region exactly where it is one of a store named S3.
pub proof fn law_wrong_regions(name: Seq<char>)
    ensures
        wrong_region(Some(name)) <==> is_s3(name),
        !wrong_region(None),
{
    reveal_strlit("S3");
    let s3 = "S3"@;
    if wrong_region(Some(name)) {
        assert(crate::text::ascii_lower(s3[0]) == crate::text::ascii_lower(name[0]));
        assert(crate::text::ascii_lower(s3[1]) == crate::text::ascii_lower(name[1]));
        lemma_s3_letters(name[0], name[1]);
        assert(is_s3(name));
    }
    if is_s3(name) {
        assert forall|i: int| 0 <= i < s3.len() implies crate::text::ascii_lower(#[trigger] s3[i])
            == crate::text::ascii_lower(name[i]) by {}
        assert(crate::text::same_ignoring_ascii_case(s3, name));
    }
}

/// The options that a run hands out, whatever happens on the way: those of the session, but for the
/// row limit, which is lifted where the statement is a `SHOW` or its first plan explains or describes,
/// and is else that of the session.
pub proof fn law_options_handed_out<O, E>(
    statement: ParsedStatement,
    options: PrintOptions,
    plan: PlanShape<Seq<char>, O>,
    events: Seq<LogicalEvent<Seq<char>, O, E>>,
    event: LogicalEvent<Seq<char>, O, E>,
)
    requires
        events.len() > 0,
        events[0] == LogicalEvent::<Seq<char>, O, E>::Planned(Ok(plan)),
    ensures
        ({
            let now = logical_after(logical_start::<E>(statement, options).0, events);
            logical_step(now, event).1 matches LogicalAction::Finish(Ok(handed)) ==> {
                &&& handed.inner.format == options.format
                &&& handed.inner.color == options.color
                &&& handed.inner.maxrows == if statement.kind == StatementKind::ShowVariable
                    || plan is Explain || plan is DescribeTable || plan is Analyze {
                    crate::options::MaxRows::Unlimited
                } else {
                    options.maxrows
                }
            }
        }),
{
    law_first_plan_sets_the_options(statement, options, plan, events);
}

/// A statement is planned, without its region resolved, and its plan is run. Where planning fails, its
/// error is the outcome; where the run succeeds, there is a data frame; where the run fails, its error
/// is the outcome, unless the statement creates an external table and the S3 store failed: then the
/// same statement is planned once more, with its region resolved.
pub proof fn law_a_statement_is_planned_and_run<O, E>(
    statement: ParsedStatement,
    options: PrintOptions,
    planned: Result<PlanShape<Seq<char>, O>, E>,
    ran: Result<(), RunError<Seq<char>, E>>,
)
    ensures
        ({
            let (start, first) = logical_start::<E>(statement, options);
            let (running, second) = logical_step(
                start,
                LogicalEvent::<Seq<char>, O, E>::Planned(planned),
            );
            let third = logical_step(running, LogicalEvent::<Seq<char>, O, E>::Ran(ran)).1;
            &&& first == (LogicalAction::<E>::Plan { statement, resolve_region: false })
            &&& match planned {
                Err(error) => second == LogicalAction::<E>::Finish(Err(error)),
                Ok(_) => {
                    &&& second == LogicalAction::<E>::Run
                    &&& match ran {
                        Ok(_) => third is Finish && third->Finish_0 is Ok,
                        Err(failure) => third == if statement.kind
                            == StatementKind::CreateExternalTable && failure.object_store is Some
                            && is_s3(failure.object_store->0) {
                            LogicalAction::<E>::Plan { statement, resolve_region: true }
                        } else {
                            LogicalAction::Finish(Err(failure.error))
                        },
                    }
                },
            }
        }),
{
    match ran {
        Err(failure) => {
            if failure.object_store is Some {
                law_wrong_regions(failure.object_store->0);
            }
        },
        Ok(_) => {},
    }
}

/// The second try has no third: its plan is run, and whatever comes of planning and running it is the
/// outcome.
pub proof fn law_a_second_try_is_the_last<O, E>(
    statement: ParsedStatement,
    options: PrintOptions,
    plan: PlanShape<Seq<char>, O>,
    failure: RunError<Seq<char>, E>,
    planned: Result<PlanShape<Seq<char>, O>, E>,
    ran: Result<(), RunError<Seq<char>, E>>,
)
    requires
        statement.kind == StatementKind::CreateExternalTable,
        failure.object_store is Some,
        is_s3(failure.object_store->0),
    ensures
        ({
            let again = logical_after(
                logical_start::<E>(statement, options).0,
                seq![
                    LogicalEvent::<Seq<char>, O, E>::Planned(Ok(plan)),
                    LogicalEvent::Ran(Err(failure)),
                ],
            );
            let (running, first) = logical_step(
                again,
                LogicalEvent::<Seq<char>, O, E>::Planned(planned),
            );
            let second = logical_step(running, LogicalEvent::<Seq<char>, O, E>::Ran(ran)).1;
            match planned {
                Err(error) => first == LogicalAction::<E>::Finish(Err(error)),
                Ok(_) => {
                    &&& first == LogicalAction::<E>::Run
                    &&& match ran {
                        Ok(_) => second is Finish && second->Finish_0 is Ok,
                        Err(last) => second == LogicalAction::<E>::Finish(Err(last.error)),
                    }
                },
            }
        }),
{
    law_wrong_regions(failure.object_store->0);
    let start = logical_start::<E>(statement, options).0;
    let one = LogicalEvent::<Seq<char>, O, E>::Planned(Ok(plan));
    let two = LogicalEvent::<Seq<char>, O, E>::Ran(Err(failure));
    assert(seq![one, two].drop_last() =~= seq![one]);
    assert(seq![one].drop_last() =~= Seq::empty());
    assert(logical_after(start, Seq::<LogicalEvent<Seq<char>, O, E>>::empty()) == start);
    assert(logical_after(start, seq![one]) == logical_step(start, one).0);
    assert(logical_after(start, seq![one, two]) == logical_step(logical_step(start, one).0, two).0);
}

/// An event as the run sees it is the event that came: its plan, its error and the name of its store.
pub proof fn law_events_are_seen_whole<O, E>(event: LogicalEvent<String, O, E>)
    ensures
        match event {
            LogicalEvent::Planned(Ok(plan)) => event@ == LogicalEvent::<Seq<char>, O, E>::Planned(
                Ok(plan@),
            ),
            LogicalEvent::Planned(Err(error)) => event@ == LogicalEvent::<
                Seq<char>,
                O,
                E,
            >::Planned(Err(error)),
            LogicalEvent::Ran(Ok(_)) => event@ == LogicalEvent::<Seq<char>, O, E>::Ran(Ok(())),
            LogicalEvent::Ran(Err(failure)) => event@ matches LogicalEvent::Ran(Err(seen))
                && seen.error == failure.error && match failure.object_store {
                Some(name) => seen.object_store == Some(name@),
                None => seen.object_store is None,
            },
        },
{
}

} // verus!
