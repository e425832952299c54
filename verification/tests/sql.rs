use datafusion_exec::keyword::parser_may_panic;
use datafusion_exec::queue::QueueAction;
use datafusion_exec::sql::{
    exec_and_print, parse_statements, queue_statements, try_exec_and_print, Failure, StatementKind,
};
use datafusion_sql::parser::DFParser;

fn kinds(dialect: &str, sql: &str) -> Vec<StatementKind> {
    match parse_statements(dialect, sql) {
        Ok(statements) => statements.iter().map(|statement| statement.kind).collect(),
        Err(failure) => panic!("{:?}", failure),
    }
}

#[test]
fn kinds_of_statements() {
    assert_eq!(kinds("generic", "SHOW ALL"), vec![StatementKind::ShowVariable]);
    assert_eq!(kinds("generic", "show datafusion.execution.batch_size"), vec![
        StatementKind::ShowVariable
    ]);
    assert_eq!(kinds("generic", "SELECT 1"), vec![StatementKind::OtherSql]);
    assert_eq!(
        kinds("generic", "CREATE EXTERNAL TABLE t STORED AS CSV LOCATION 'x.csv'"),
        vec![StatementKind::CreateExternalTable]
    );
    assert_eq!(kinds("generic", "CREATE TABLE t AS SELECT 1"), vec![StatementKind::OtherSql]);
    assert_eq!(
        kinds("generic", "COPY (values (1,2)) TO 'x.parquet' STORED AS PARQUET"),
        vec![StatementKind::CopyTo]
    );
    assert_eq!(kinds("generic", "EXPLAIN SELECT 1"), vec![StatementKind::Explain]);
}

#[test]
fn statements_keep_their_order_and_text() {
    let statements = parse_statements("generic", "select 1;; select 2 ; explain select 3;").unwrap();
    let texts: Vec<String> = statements.iter().map(|s| s.ast.to_string()).collect();
    assert_eq!(texts, vec!["SELECT 1", "SELECT 2", "EXPLAIN SELECT 3"]);
    assert!(kinds("generic", " ; ;").is_empty());
    assert!(kinds("generic", "").is_empty());
}

#[test]
fn every_dialect_in_any_case() {
    for name in [
        "Generic", "MySQL", "PostgreSQL", "postgres", "Hive", "SQLite", "Snowflake", "Redshift",
        "MsSQL", "ClickHouse", "BigQuery", "Ansi", "DuckDB", "Databricks", "DATABRICKS", "generic",
    ] {
        assert_eq!(kinds(name, "SELECT 1"), vec![StatementKind::OtherSql], "{}", name);
    }
}

#[test]
fn unsupported_dialects_are_refused() {
    for name in ["", "oracle", "generic ", "sqlité"] {
        match parse_statements(name, "this is not even SQL '") {
            Err(Failure::Plan(message)) => assert_eq!(
                message,
                format!("Unsupported SQL dialect: {name}. Available dialects: Generic, MySQL, PostgreSQL, Hive, SQLite, Snowflake, Redshift, MsSQL, ClickHouse, BigQuery, Ansi, DuckDB, Databricks.")
            ),
            other => panic!("{:?}", other),
        }
    }
}

#[test]
fn the_dialect_decides_how_text_is_read() {
    assert_eq!(kinds("mysql", "SELECT `a`"), vec![StatementKind::OtherSql]);
    let mysql = parse_statements("mysql", "SELECT \"a\"").unwrap();
    let ansi = parse_statements("ansi", "SELECT \"a\"").unwrap();
    assert!(mysql[0].ast != ansi[0].ast);
}

#[test]
fn rejected_text_is_not_executed() {
    for sql in ["select 1 select 2", "CREATE EXTERNAL", "select 'open", "select 1; froom"] {
        assert!(matches!(exec_and_print("generic", sql), Err(Failure::Outside(_))), "{}", sql);
    }
}

#[test]
fn statements_of_a_text_run_until_one_fails() {
    let queue = exec_and_print("generic", "select 1; select 2; select 3").unwrap();
    let (queue, first) = queue.step(Ok::<(), String>(()));
    assert!(matches!(first, QueueAction::Run(s) if s.ast.to_string() == "SELECT 1"));
    let (queue, second) = queue.step(Ok::<(), String>(()));
    assert!(matches!(second, QueueAction::Run(s) if s.ast.to_string() == "SELECT 2"));
    let (_, end) = queue.step(Err("no".to_string()));
    assert!(matches!(end, QueueAction::Finish(Err(error)) if error == "no"));
}

#[test]
fn duplicates_are_the_same_statement() {
    let statements = parse_statements("generic", "show all").unwrap();
    assert_eq!(statements[0].duplicate(), statements[0]);
}

#[test]
fn texts_that_the_parser_may_panic_on() {
    for (dialect, sql) in [
        ("generic", "FLUSH RELAY LOGS FOR CHANNEL"),
        ("MySQL", "flush local relay/**/logs for\tchannel"),
        ("generic", "flush relay log\u{17f} for channel"),
        ("ansi", "REVOKE SELECT ON t FROM u GRANTED BY 1"),
        ("ansi", "REVOKE SELECT ON t FROM u GRANTED BY\u{131} 1"),
        ("Generic", "GRANT SELECT ON t TO u granted -- by whom\n By 1"),
        ("mysql", "SELECT 1 DIV"),
        ("mysql", "SELECT 7 div 2"),
        ("MYSQL", "SELECT 1 d\u{131}v"),
        ("mysql", "SELECT 1e5DIV 2"),
        ("mysql", "SELECT 1.e5DIV 2"),
    ] {
        assert!(parser_may_panic(sql, dialect), "{}", sql);
        assert!(try_exec_and_print(dialect, sql).is_none(), "{}", sql);
    }
}

#[test]
fn texts_that_the_parser_takes() {
    for (dialect, sql) in [
        ("ansi", "SELECT a FROM t"),
        ("generic", "SELECT 1 div"),
        ("mysql", "SELECT individual, subdiv, div_, divx FROM t"),
        ("generic", "SELECT granted FROM t GROUP BY granted"),
        ("generic", "SELECT channel FROM relay"),
        ("generic", "REVOKE SELECT ON t FROM u"),
        ("mysql", "SELECT a.b FROM a1.subdiv"),
    ] {
        assert!(try_exec_and_print(dialect, sql).is_some() == !parser_may_panic(sql, dialect));
    }
    assert!(!parser_may_panic("SELECT 1 div", "generic"));
    assert!(!parser_may_panic("SELECT individual, subdiv, div_, divx FROM t", "mysql"));
    assert!(!parser_may_panic("SELECT granted FROM t GROUP BY granted", "generic"));
    assert!(!parser_may_panic("SELECT channel FROM relay", "generic"));
    assert!(!parser_may_panic("FLUSH RELAY LOGS FOR CHANNEL", "ansi"));
    assert!(!parser_may_panic("BY u GRANTED REVOKE", "generic"));
    assert!(!parser_may_panic("", "mysql"));
    let queue = try_exec_and_print("mysql", "SELECT subdiv").unwrap().unwrap();
    assert_eq!(queue.waiting[0].ast.to_string(), "SELECT subdiv");
}

#[test]
fn an_unsupported_dialect_is_refused_whatever_the_text() {
    for sql in ["REVOKE SELECT ON t FROM u GRANTED BY 1", "SELECT 1"] {
        assert!(matches!(try_exec_and_print("oracle", sql), Some(Err(Failure::Plan(_)))));
    }
}

#[test]
fn errors_of_the_parser_are_handed_on() {
    for sql in ["select 1 select 2", "select 'open"] {
        let expected = DFParser::parse_sql(sql).unwrap_err().to_string();
        match parse_statements("generic", sql) {
            Err(Failure::Outside(error)) => assert_eq!(error.to_string(), expected),
            other => panic!("{:?}", other),
        }
    }
    let refused = queue_statements::<String>(Err(Failure::Outside("no".to_string())));
    assert_eq!(refused, Err(Failure::Outside("no".to_string())));
    let statements = parse_statements("generic", "select 1; show all").unwrap();
    let queue = queue_statements::<String>(Ok(statements)).unwrap();
    assert_eq!(queue.waiting.len(), 2);
    assert_eq!(queue.waiting[1].kind, StatementKind::ShowVariable);
}
