use datafusion_exec::options::{AdjustedPrintOptions, MaxRows, PrintFormat, PrintOptions};
use datafusion_exec::plan::PlanShape;
use datafusion_exec::query::{
    keeps_batch, PlanProperties, QueryAction, QueryEvent, QueryPhase, QueryRun,
};
use datafusion_exec::sql::{parse_statements, Failure, StatementKind};
use datafusion_exec::statement::{LogicalAction, LogicalPhase, StatementExecutor};

type Event = QueryEvent<char, String>;
type Action = QueryAction<String, Vec<char>, usize, String>;

fn session(maxrows: MaxRows) -> PrintOptions {
    PrintOptions { format: PrintFormat::Automatic, maxrows, color: true }
}

fn plan(unbounded: bool, final_emission: bool) -> Event {
    Event::PhysicalReady(Ok(PlanProperties { unbounded, final_emission }))
}

fn batch(name: char, rows: usize) -> Event {
    Event::BatchRead { batch: name, rows, memory: rows * 10 }
}

fn planned_with(maxrows: MaxRows, adjusted: AdjustedPrintOptions) -> QueryRun<char> {
    let (run, action) =
        QueryRun::new(session(maxrows)).step(Event::LogicalReady(Ok(adjusted)));
    assert_eq!(action, Action::MakePhysicalPlan);
    run
}

fn planned(maxrows: MaxRows) -> QueryRun<char> {
    planned_with(maxrows, AdjustedPrintOptions::new(session(maxrows)))
}

fn reading(maxrows: MaxRows) -> QueryRun<char> {
    opened(planned(maxrows))
}

fn opened(run: QueryRun<char>) -> QueryRun<char> {
    let (run, action) = run.step(plan(false, true));
    assert_eq!(action, Action::OpenStream);
    let (run, action) = run.step(Event::StreamReady(Ok(())));
    assert_eq!(action, Action::ReadBatch);
    run
}

/// The kept batches and the row count for batches of the given sizes.
fn collect(maxrows: MaxRows, sizes: &[usize]) -> (String, usize) {
    collect_with(reading(maxrows), maxrows, sizes)
}

/// The kept batches and the row count, where they are printed with the given row limit.
fn collect_with(
    mut run: QueryRun<char>,
    printed: MaxRows,
    sizes: &[usize],
) -> (String, usize) {
    for (i, rows) in sizes.iter().enumerate() {
        let name = (b'a' + i as u8) as char;
        let (next, action) = run.step(batch(name, *rows));
        run = next;
        if action == Action::Reserve(*rows * 10) {
            let (next, action) = run.step(Event::Reserved(Ok(())));
            run = next;
            assert_eq!(action, Action::ReadBatch);
        } else {
            assert_eq!(action, Action::ReadBatch);
        }
    }
    let (_, action) = run.step(Event::EndOfStream);
    match action {
        QueryAction::PrintBatches { options, batches, row_count } => {
            assert_eq!(
                options,
                PrintOptions {
                    format: PrintFormat::Table,
                    maxrows: printed,
                    color: true,
                }
            );
            (batches.into_iter().collect(), row_count)
        }
        other => panic!("{:?}", other),
    }
}

#[test]
fn collects_past_the_limit_and_counts_all() {
    let limit = MaxRows::Limited(40);
    assert_eq!(collect(limit, &[10, 10, 10, 10, 10, 10, 10]), ("abcde".to_string(), 70));
    assert_eq!(collect(limit, &[100, 100]), ("a".to_string(), 200));
    assert_eq!(collect(limit, &[100, 10, 10]), ("a".to_string(), 120));
    assert_eq!(collect(limit, &[]), (String::new(), 0));
    assert_eq!(collect(MaxRows::Limited(3), &[2, 2, 2, 2]), ("ab".to_string(), 8));
    assert_eq!(collect(MaxRows::Limited(4), &[2, 2, 2, 2]), ("abc".to_string(), 8));
    assert_eq!(collect(MaxRows::Limited(0), &[5, 5, 5]), ("a".to_string(), 15));
    assert_eq!(collect(MaxRows::Limited(0), &[0]), ("a".to_string(), 0));
}

#[test]
fn no_limit_keeps_everything() {
    assert_eq!(collect(MaxRows::Unlimited, &[1000, 1, 0, 500]), ("abcd".to_string(), 1501));
}

#[test]
fn nothing_is_kept_after_a_batch_left_out() {
    assert_eq!(collect(MaxRows::Limited(5), &[10, 3, 10]), ("a".to_string(), 23));
    assert_eq!(collect(MaxRows::Limited(5), &[6, 0, 100, 1]), ("a".to_string(), 107));
}

#[test]
fn a_lifted_limit_keeps_every_row() {
    let limit = MaxRows::Limited(1);
    for shape in [PlanShape::Explain, PlanShape::DescribeTable, PlanShape::Analyze] {
        let adjusted =
            AdjustedPrintOptions::new(session(limit)).with_plan::<String, u8>(&shape);
        let run = opened(planned_with(limit, adjusted));
        assert_eq!(
            collect_with(run, MaxRows::Unlimited, &[2, 2, 2]),
            ("abc".to_string(), 6)
        );
    }
    let adjusted =
        AdjustedPrintOptions::new(session(limit)).with_statement(StatementKind::ShowVariable);
    let run = opened(planned_with(limit, adjusted));
    assert_eq!(collect_with(run, MaxRows::Unlimited, &[2, 2, 2]), ("abc".to_string(), 6));
    assert_eq!(collect(limit, &[2, 2, 2]), ("a".to_string(), 6));
}

#[test]
fn rows_are_counted_up_to_the_largest_number() {
    let run = QueryRun { row_count: usize::MAX - 1, ..reading(MaxRows::Limited(1)) };
    assert!(run.can_count::<String>(&batch('a', 1)));
    assert!(!run.can_count::<String>(&Event::BatchRead { batch: 'a', rows: 2, memory: 0 }));
    assert!(run.can_count::<String>(&Event::EndOfStream));
    let run = QueryRun { row_count: 1, ..reading(MaxRows::Limited(1)) };
    let (run, action) =
        run.step(Event::BatchRead { batch: 'a', rows: usize::MAX, memory: 7 });
    assert_eq!(action, Action::Reserve(7));
    assert!(!run.can_count::<String>(&Event::Reserved(Ok(()))));
    assert!(run.can_count::<String>(&Event::Reserved(Err("refused".to_string()))));
}

#[test]
fn keeping_batches() {
    assert!(keeps_batch(MaxRows::Limited(40), 39));
    assert!(keeps_batch(MaxRows::Limited(40), 40));
    assert!(!keeps_batch(MaxRows::Limited(40), 41));
    assert!(keeps_batch(MaxRows::Limited(usize::MAX), usize::MAX));
    assert!(keeps_batch(MaxRows::Unlimited, usize::MAX));
}

#[test]
fn endless_query_with_a_final_result_is_refused() {
    let (run, action) = planned(MaxRows::Unlimited).step(plan(true, true));
    assert_eq!(
        action,
        Action::Finish(Err(Failure::Plan(
            "The given query can generate a valid result only once the source finishes, but the source is unbounded".to_string()
        )))
    );
    assert_eq!(run.phase, QueryPhase::Done);
}

#[test]
fn endless_result_is_printed_as_it_comes() {
    let limit = MaxRows::Limited(3);
    let (run, action) = planned(limit).step(plan(true, false));
    assert_eq!(action, Action::OpenStream);
    let (run, action) = run.step(Event::StreamReady(Ok(())));
    assert_eq!(action, Action::PrintStream(session(limit)));
    let (run, action) = run.step(Event::Printed(Ok(())));
    assert_eq!(action, Action::Finish(Ok(())));
    assert_eq!(run.phase, QueryPhase::Done);
}

#[test]
fn memory_is_released_after_printing() {
    let (run, _) = reading(MaxRows::Unlimited).step(Event::EndOfStream);
    let (run, action) = run.step(Event::Printed(Ok(())));
    assert_eq!(action, Action::ReleaseAndFinish);
    let (run, action) = run.step(Event::Printed(Ok(())));
    assert_eq!(action, Action::Unexpected);
    assert_eq!(run.phase, QueryPhase::Done);
}

#[test]
fn every_error_ends_the_execution() {
    let error = || "broken".to_string();
    let end = Action::Finish(Err(Failure::Outside(error())));
    let fresh: QueryRun<char> = QueryRun::new(session(MaxRows::Unlimited));
    assert_eq!(fresh.step(Event::LogicalReady(Err(error()))).1, end);
    let end = || Action::Finish(Err(Failure::Outside(error())));
    assert_eq!(planned(MaxRows::Unlimited).step(Event::PhysicalReady(Err(error()))).1, end());
    for endless in [false, true] {
        let (run, _) = planned(MaxRows::Unlimited).step(plan(endless, false));
        assert_eq!(run.step(Event::StreamReady(Err(error()))).1, end());
        let (run, _) = planned(MaxRows::Unlimited).step(plan(endless, false));
        let (run, _) = run.step(Event::StreamReady(Ok(())));
        let (run, _) = if endless { (run, Action::ReadBatch) } else { run.step(Event::EndOfStream) };
        assert_eq!(run.step(Event::Printed(Err(error()))).1, end());
    }
    assert_eq!(reading(MaxRows::Unlimited).step(Event::ReadFailed(error())).1, end());
    let (run, _) = reading(MaxRows::Unlimited).step(batch('a', 1));
    let (run, action) = run.step(Event::Reserved(Err(error())));
    assert_eq!(action, end());
    assert!(run.kept.is_empty());
}

#[test]
fn other_events_leave_the_execution_alone() {
    let (run, _) = reading(MaxRows::Unlimited).step(batch('a', 2));
    let (run, action) = run.step(Event::EndOfStream);
    assert_eq!(action, Action::Unexpected);
    assert_eq!(run.phase, QueryPhase::Reserving { batch: 'a', rows: 2 });
}

#[test]
fn execution_begins_with_the_data_frame() {
    let statement = parse_statements("generic", "show all").unwrap().remove(0);
    let options = session(MaxRows::Limited(2));
    let (query, logical, action) =
        StatementExecutor::new(statement.duplicate()).execute::<char, String>(options);
    assert_eq!(query, QueryRun::new(options));
    assert_eq!(logical.phase, LogicalPhase::Planning);
    assert_eq!(logical.adjusted.inner, session(MaxRows::Unlimited));
    assert_eq!(action, LogicalAction::Plan { statement, resolve_region: false });
}
