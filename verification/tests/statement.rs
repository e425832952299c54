use datafusion_exec::options::{MaxRows, PrintFormat, PrintOptions};
use datafusion_exec::plan::PlanShape;
use datafusion_exec::sql::{parse_statements, ParsedStatement};
use datafusion_exec::statement::{
    is_wrong_region, LogicalAction, LogicalEvent, LogicalPhase, LogicalRun, RunError,
    StatementExecutor,
};

type Event = LogicalEvent<String, (), String>;
type Action = LogicalAction<String>;

const TABLE: &str = "CREATE EXTERNAL TABLE t STORED AS CSV LOCATION 's3://bucket/t.csv'";

fn session() -> PrintOptions {
    PrintOptions { format: PrintFormat::Table, maxrows: MaxRows::Limited(40), color: false }
}

fn statement(sql: &str) -> ParsedStatement {
    parse_statements("generic", sql).unwrap().remove(0)
}

fn start(sql: &str) -> (LogicalRun, Action) {
    StatementExecutor::new(statement(sql)).create_and_execute_logical_plan(session())
}

fn failed(store: Option<&str>) -> Event {
    Event::Ran(Err(RunError {
        object_store: store.map(|name| name.to_string()),
        error: "broken".to_string(),
    }))
}

fn planned() -> Event {
    Event::Planned(Ok(PlanShape::Other))
}

#[test]
fn only_external_tables_are_kept_for_retry() {
    let executor = StatementExecutor::new(statement(TABLE));
    assert_eq!(executor.statement_for_retry, Some(statement(TABLE)));
    for sql in ["select 1", "show all", "copy t to 'x.csv'", "explain select 1"] {
        assert_eq!(StatementExecutor::new(statement(sql)).statement_for_retry, None);
    }
}

#[test]
fn first_plan_does_not_resolve_the_region() {
    let (run, action) = start(TABLE);
    assert_eq!(action, Action::Plan { statement: statement(TABLE), resolve_region: false });
    assert_eq!(run.phase, LogicalPhase::Planning);
}

#[test]
fn a_plan_that_runs_is_the_result() {
    let (run, _) = start("select 1");
    let (run, action) = run.step(planned());
    assert_eq!(action, Action::Run);
    let (run, action) = run.step(Event::Ran(Ok(())));
    assert!(matches!(action, LogicalAction::Finish(Ok(adjusted)) if adjusted.inner == session()));
    let (run, action) = run.step(Event::Ran(Ok(())));
    assert_eq!(action, Action::Unexpected);
    assert_eq!(run.phase, LogicalPhase::Done);
}

#[test]
fn s3_errors_are_retried_once() {
    for name in ["S3", "s3"] {
        let (run, _) = start(TABLE);
        let (run, _) = run.step(planned());
        let (run, action) = run.step(failed(Some(name)));
        assert_eq!(action, Action::Plan { statement: statement(TABLE), resolve_region: true });
        let (run, action) = run.step(planned());
        assert_eq!(action, Action::Run);
        let (_, action) = run.step(failed(Some(name)));
        assert_eq!(action, Action::Finish(Err("broken".to_string())));
    }
}

#[test]
fn a_retry_can_succeed() {
    let (run, _) = start(TABLE);
    let (run, _) = run.step(planned());
    let (run, _) = run.step(failed(Some("S3")));
    let (run, _) = run.step(planned());
    let (_, action) = run.step(Event::Ran(Ok(())));
    assert!(matches!(action, LogicalAction::Finish(Ok(_))));
}

#[test]
fn a_retry_can_fail_to_plan() {
    let (run, _) = start(TABLE);
    let (run, _) = run.step(planned());
    let (run, _) = run.step(failed(Some("S3")));
    let (_, action) = run.step(Event::Planned(Err("no region".to_string())));
    assert_eq!(action, Action::Finish(Err("no region".to_string())));
}

#[test]
fn other_errors_are_not_retried() {
    for (sql, store) in [(TABLE, None), (TABLE, Some("GCS")), ("select 1", Some("S3"))] {
        let (run, _) = start(sql);
        let (run, _) = run.step(planned());
        let (run, action) = run.step(failed(store));
        assert_eq!(action, Action::Finish(Err("broken".to_string())));
        assert_eq!(run.phase, LogicalPhase::Done);
    }
    let (run, _) = start(TABLE);
    let (_, action) = run.step(Event::Planned(Err("no plan".to_string())));
    assert_eq!(action, Action::Finish(Err("no plan".to_string())));
}

#[test]
fn options_follow_statement_and_first_plan() {
    let (run, _) = start("show all");
    assert_eq!(run.adjusted.inner.maxrows, MaxRows::Unlimited);
    let (run, _) = start("explain select 1");
    assert_eq!(run.adjusted.inner.maxrows, MaxRows::Limited(40));
    let (run, _) = run.step(Event::Planned(Ok(PlanShape::Explain)));
    assert_eq!(run.adjusted.inner.maxrows, MaxRows::Unlimited);

    let (run, _) = start(TABLE);
    let (run, _) = run.step(planned());
    let (run, _) = run.step(failed(Some("S3")));
    let (run, _) = run.step(Event::Planned(Ok(PlanShape::Explain)));
    assert_eq!(run.adjusted.inner, session());
}

#[test]
fn wrong_regions() {
    assert!(is_wrong_region(&Some("S3".to_string())));
    assert!(is_wrong_region(&Some("s3".to_string())));
    assert!(!is_wrong_region(&Some("S3 ".to_string())));
    assert!(!is_wrong_region(&None));
}
