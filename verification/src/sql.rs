//! SQL text to statements: the dialect check and the call of the SQL parser.
use crate::keyword::parser_may_panic;
use crate::queue::RunQueue;
use crate::text::lower_form;
use datafusion_common::DataFusionError;
use datafusion_sql::parser::{DFParser, Statement};
use datafusion_sql::sqlparser;
use vstd::prelude::*;

verus! {

/// DataFusion's error type. Nothing is read from a value of it.
#[verifier::external_type_specification]
#[verifier::external_body]
pub struct ExDataFusionError(DataFusionError);

/// DataFusion's parsed statement. What this crate reads of one is kept beside it as a
/// [`StatementKind`].
#[verifier::external_type_specification]
#[verifier::external_body]
pub struct ExStatement(Statement);

/// `Statement::clone`: the copy is the same statement.
pub assume_specification[ <Statement as Clone>::clone ](s: &Statement) -> (r: Statement)
    ensures
        r == *s,
;

/// The shape of a parsed statement, as far as it decides how the statement is executed.
#[derive(Clone, Copy, Debug, PartialEq, Eq, Structural)]
pub enum StatementKind {
    /// `SHOW <variable>` or `SHOW ALL`.
    ShowVariable,
    /// Any other statement of standard SQL.
    OtherSql,
    /// `CREATE EXTERNAL TABLE`.
    CreateExternalTable,
    /// `COPY ... TO`.
    CopyTo,
    /// `EXPLAIN`.
    Explain,
}

/// A statement that the SQL parser produced, with its shape.
#[derive(Debug, PartialEq, Eq)]
pub struct ParsedStatement {
    pub kind: StatementKind,
    pub ast: Statement,
}

impl ParsedStatement {
    /// The same statement once more.
    pub fn duplicate(&self) -> (r: ParsedStatement)
        ensures
            r == *self,
    {
        ParsedStatement { kind: self.kind, ast: self.ast.clone() }
    }
}

/// Why a text could not be executed: a complaint of this crate about the request, or an error that
/// came from outside.
#[derive(Debug, PartialEq, Eq)]
pub enum Failure<T, E> {
    /// The request itself is refused, with this message.
    Plan(T),
    /// An outside operation failed.
    Outside(E),
}

impl<E> View for Failure<String, E> {
    type V = Failure<Seq<char>, E>;

    open spec fn view(&self) -> Failure<Seq<char>, E> {
        match *self {
            Failure::Plan(message) => Failure::Plan(message@),
            Failure::Outside(error) => Failure::Outside(error),
        }
    }
}

/// The names of the supported dialects, in lower case.
pub open spec fn supported_dialect(lower: Seq<char>) -> bool {
    ||| lower == "generic"@
    ||| lower == "mysql"@
    ||| lower == "postgresql"@
    ||| lower == "postgres"@
    ||| lower == "hive"@
    ||| lower == "sqlite"@
    ||| lower == "snowflake"@
    ||| lower == "redshift"@
    ||| lower == "mssql"@
    ||| lower == "clickhouse"@
    ||| lower == "bigquery"@
    ||| lower == "ansi"@
    ||| lower == "duckdb"@
    ||| lower == "databricks"@
}

/// `sqlparser::dialect::dialect_from_str`: a dialect is found exactly for the names in
/// [`supported_dialect`], whatever their case.
#[verifier::external_body]
fn dialect_exists(name: &str) -> (r: bool)
    ensures
        r == supported_dialect(lower_form(name@)),
{
    sqlparser::dialect::dialect_from_str(name).is_some()
}

/// The statements that `DFParser::parse_sql_with_dialect` finds in a text under the dialect of the
/// given name, or its error where it rejects the text.
pub uninterp spec fn parsed_statements(sql: Seq<char>, dialect: Seq<char>) -> Result<
    Seq<ParsedStatement>,
    DataFusionError,
>;

/// `DFParser::parse_sql_with_dialect`, under the dialect that `dialect_from_str` finds for the
/// name: the statements, or the error, are those that [`parsed_statements`] names. The call panics
/// on some texts, all of which are left out by `may_panic`. Texts that nest so deeply that the stack
/// runs out are not told apart here. That the kind beside a statement is the kind of that statement
/// is not stated: the parser's own type has no model here.
#[verifier::external_body]
fn parse_sql_with_dialect(sql: &str, dialect: &str) -> (r: Result<
    Vec<ParsedStatement>,
    DataFusionError,
>)
    requires
        supported_dialect(lower_form(dialect@)),
        !crate::keyword::may_panic(sql@, dialect@),
    ensures
        match r {
            Ok(statements) => parsed_statements(sql@, dialect@) == Ok::<
                Seq<ParsedStatement>,
                DataFusionError,
            >(statements@),
            Err(error) => parsed_statements(sql@, dialect@) == Err::<
                Seq<ParsedStatement>,
                DataFusionError,
            >(error),
        },
{
    let dialect = sqlparser::dialect::dialect_from_str(dialect).unwrap();
    let kind_of = |ast: &Statement| match ast {
        Statement::Statement(inner) => match inner.as_ref() {
            sqlparser::ast::Statement::ShowVariable { .. } => StatementKind::ShowVariable,
            _ => StatementKind::OtherSql,
        },
        Statement::CreateExternalTable(_) => StatementKind::CreateExternalTable,
        Statement::CopyTo(_) => StatementKind::CopyTo,
        Statement::Explain(_) => StatementKind::Explain,
    };
    let found = DFParser::parse_sql_with_dialect(sql, dialect.as_ref())?;
    Ok(found.into_iter().map(|ast| ParsedStatement { kind: kind_of(&ast), ast }).collect())
}

/// The complaint about a dialect that is not supported.
pub open spec fn unsupported_dialect(name: Seq<char>) -> Seq<char> {
    "Unsupported SQL dialect: "@ + name
        + ". Available dialects: Generic, MySQL, PostgreSQL, Hive, SQLite, Snowflake, Redshift, MsSQL, ClickHouse, BigQuery, Ansi, DuckDB, Databricks."@
}

/// The parser takes the text under the dialect of the given name: the dialect is supported, and the
/// parser does not panic on the text.
pub open spec fn parsable(sql: Seq<char>, dialect: Seq<char>) -> bool {
    supported_dialect(lower_form(dialect)) && !crate::keyword::may_panic(sql, dialect)
}

/// What comes of parsing the text `sql`: under an unsupported dialect a complaint, and else what the
/// parser makes of the text.
pub open spec fn parse_outcome(dialect: Seq<char>, sql: Seq<char>) -> Result<
    Seq<ParsedStatement>,
    Failure<Seq<char>, DataFusionError>,
> {
    if !supported_dialect(lower_form(dialect)) {
        Err(Failure::Plan(unsupported_dialect(dialect)))
    } else {
        match parsed_statements(sql, dialect) {
            Ok(statements) => Ok(statements),
            Err(error) => Err(Failure::Outside(error)),
        }
    }
}

/// The statements of the text `sql` under the dialect of the given name.
///
/// An unsupported dialect is refused before the text is looked at.
pub fn parse_statements(dialect: &str, sql: &str) -> (r: Result<
    Vec<ParsedStatement>,
    Failure<String, DataFusionError>,
>)
    requires
        supported_dialect(lower_form(dialect@)) ==> parsable(sql@, dialect@),
    ensures
        match r {
            Ok(statements) => parse_outcome(dialect@, sql@) == Ok::<
                Seq<ParsedStatement>,
                Failure<Seq<char>, DataFusionError>,
            >(statements@),
            Err(failure) => parse_outcome(dialect@, sql@) == Err::<
                Seq<ParsedStatement>,
                Failure<Seq<char>, DataFusionError>,
            >(failure@),
        },
{
    if !dialect_exists(dialect) {
        let mut message = "Unsupported SQL dialect: ".to_owned();
        message.append(dialect);
        message.append(
            ". Available dialects: Generic, MySQL, PostgreSQL, Hive, SQLite, Snowflake, Redshift, MsSQL, ClickHouse, BigQuery, Ansi, DuckDB, Databricks.",
        );
        return Err(Failure::Plan(message));
    }
    match parse_sql_with_dialect(sql, dialect) {
        Ok(statements) => Ok(statements),
        Err(error) => Err(Failure::Outside(error)),
    }
}

/// What follows on parsing: the statements are to be executed one after the other, and nothing is
/// executed of a text that could not be parsed.
pub fn queue_statements<E>(parsed: Result<Vec<ParsedStatement>, Failure<String, E>>) -> (r: Result<
    RunQueue<ParsedStatement>,
    Failure<String, E>,
>)
    ensures
        match parsed {
            Ok(statements) => r matches Ok(queue) && queue.waiting@ == statements@,
            Err(failure) => r == Err::<RunQueue<ParsedStatement>, Failure<String, E>>(failure),
        },
{
    match parsed {
        Ok(statements) => Ok(RunQueue::new(statements)),
        Err(failure) => Err(failure),
    }
}

/// Begins the execution of the text `sql`: its statements are to be executed one after the other.
/// Nothing is executed of a text that the parser rejects, nor under an unsupported dialect.
pub fn exec_and_print(dialect: &str, sql: &str) -> (r: Result<
    RunQueue<ParsedStatement>,
    Failure<String, DataFusionError>,
>)
    requires
        supported_dialect(lower_form(dialect@)) ==> parsable(sql@, dialect@),
    ensures
        match r {
            Ok(queue) => parse_outcome(dialect@, sql@) == Ok::<
                Seq<ParsedStatement>,
                Failure<Seq<char>, DataFusionError>,
            >(queue.waiting@),
            Err(failure) => parse_outcome(dialect@, sql@) == Err::<
                Seq<ParsedStatement>,
                Failure<Seq<char>, DataFusionError>,
            >(failure@),
        },
{
    queue_statements(parse_statements(dialect, sql))
}

/// Begins the execution of the text `sql`, unless the parser may panic on it. `None` says that it
/// may, under a dialect that is supported.
pub fn try_exec_and_print(dialect: &str, sql: &str) -> (r: Option<
    Result<RunQueue<ParsedStatement>, Failure<String, DataFusionError>>,
>)
    ensures
        r is None <==> supported_dialect(lower_form(dialect@)) && !parsable(sql@, dialect@),
        match r {
            Some(Ok(queue)) => parse_outcome(dialect@, sql@) == Ok::<
                Seq<ParsedStatement>,
                Failure<Seq<char>, DataFusionError>,
            >(queue.waiting@),
            Some(Err(failure)) => parse_outcome(dialect@, sql@) == Err::<
                Seq<ParsedStatement>,
                Failure<Seq<char>, DataFusionError>,
            >(failure@),
            None => true,
        },
{
    if dialect_exists(dialect) && parser_may_panic(sql, dialect) {
        None
    } else {
        Some(exec_and_print(dialect, sql))
    }
}

/// The name of a dialect is recognized in any mix of small and capital letters.
pub proof fn law_dialect_names_ignore_case(a: Seq<char>, b: Seq<char>)
    requires
        crate::text::ascii_text(a),
        crate::text::ascii_text(b),
        crate::text::same_ignoring_ascii_case(a, b),
    ensures
        supported_dialect(lower_form(a)) == supported_dialect(lower_form(b)),
{
    crate::text::law_lower_form_ignores_case(a, b);
}

/// What comes of a text is what the parser makes of it, whole and unchanged, statements and error
/// alike; under a dialect that is not supported it is a complaint that names the dialect, whatever the
/// text is.
pub proof fn law_what_comes_of_a_text(dialect: Seq<char>, sql: Seq<char>, other: Seq<char>)
    ensures
        supported_dialect(lower_form(dialect)) ==> match parsed_statements(sql, dialect) {
            Ok(statements) => parse_outcome(dialect, sql) == Ok::<
                Seq<ParsedStatement>,
                Failure<Seq<char>, DataFusionError>,
            >(statements),
            Err(error) => parse_outcome(dialect, sql) == Err::<
                Seq<ParsedStatement>,
                Failure<Seq<char>, DataFusionError>,
            >(Failure::Outside(error)),
        },
        !supported_dialect(lower_form(dialect)) ==> {
            &&& parse_outcome(dialect, sql) == parse_outcome(dialect, other)
            &&& parse_outcome(dialect, sql) matches Err(Failure::Plan(message))
            &&& message == unsupported_dialect(dialect)
        },
{
}

/// The complaint about a dialect holds its name as it was given, between the same words for every name.
pub proof fn law_complaints_name_the_dialect(name: Seq<char>)
    ensures
        ({
            let before = "Unsupported SQL dialect: "@;
            let after = ". Available dialects: Generic, MySQL, PostgreSQL, Hive, SQLite, Snowflake, Redshift, MsSQL, ClickHouse, BigQuery, Ansi, DuckDB, Databricks."@;
            let message = unsupported_dialect(name);
            &&& message.len() == before.len() + name.len() + after.len()
            &&& message.take(before.len() as int) == before
            &&& message.subrange(before.len() as int, (before.len() + name.len()) as int) == name
            &&& message.skip((before.len() + name.len()) as int) == after
        }),
{
    let before = "Unsupported SQL dialect: "@;
    let after = ". Available dialects: Generic, MySQL, PostgreSQL, Hive, SQLite, Snowflake, Redshift, MsSQL, ClickHouse, BigQuery, Ansi, DuckDB, Databricks."@;
    let message = unsupported_dialect(name);
    assert(message.take(before.len() as int) =~= before);
    assert(message.subrange(before.len() as int, (before.len() + name.len()) as int) =~= name);
    assert(message.skip((before.len() + name.len()) as int) =~= after);
}

/// The statements of a text are executed in the order in which the parser found them, up to the first
/// that fails, whose error is the outcome; where none fails, every one of them is executed.
pub proof fn law_statements_of_a_text_in_order<E>(
    dialect: Seq<char>,
    sql: Seq<char>,
    outcomes: Seq<Result<(), E>>,
    i: int,
)
    requires
        supported_dialect(lower_form(dialect)),
        parsed_statements(sql, dialect) is Ok,
        0 <= i < outcomes.len(),
    ensures
        ({
            let found = parsed_statements(sql, dialect)->Ok_0;
            &&& parse_outcome(dialect, sql) matches Ok(queued)
            &&& crate::queue::queue_answer(queued, outcomes, i) == if i < found.len() && (forall|
                j: int,
            |
                0 <= j <= i ==> (#[trigger] outcomes[j]) is Ok) {
                crate::queue::QueueAction::<ParsedStatement, E>::Run(found[i])
            } else {
                crate::queue::QueueAction::Finish(outcomes[i])
            }
        }),
{
    crate::queue::law_work_as_a_whole(parsed_statements(sql, dialect)->Ok_0, outcomes, i);
}

/// A failure is seen whole.
pub proof fn law_failures_are_seen_whole<E>(message: String, error: E)
    ensures
        Failure::<String, E>::Plan(message)@ == Failure::<Seq<char>, E>::Plan(message@),
        Failure::<String, E>::Outside(error)@ == Failure::<Seq<char>, E>::Outside(error),
{
}

/// The parser takes every text under every supported dialect, of whatever length and with whatever in
/// it, but for the texts on which it may panic.
pub proof fn law_which_texts_are_parsed(sql: Seq<char>, dialect: Seq<char>)
    ensures
        supported_dialect(lower_form(dialect)) && !parsable(sql, dialect)
            <==> supported_dialect(lower_form(dialect)) && crate::keyword::may_panic(sql, dialect),
        !supported_dialect(lower_form(dialect)) ==> !parsable(sql, dialect),
{
}

} // verus!
