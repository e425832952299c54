//! The execution of one statement: from its data frame to printed results.
use crate::options::{AdjustedPrintOptions, MaxRows, PrintOptions};
use crate::plan::PlanShape;
use crate::sql::{Failure, StatementKind};
use crate::statement::{
    kept_for_retry, logical_start, LogicalAction, LogicalPhase, LogicalRun, StatementExecutor,
};
use vstd::prelude::*;

verus! {

/// What a physical plan says of its output.
#[derive(Clone, Copy, Debug, PartialEq, Eq, Structural)]
pub struct PlanProperties {
    /// The output may never end.
    pub unbounded: bool,
    /// Nothing comes out before the input has ended.
    pub final_emission: bool,
}

/// What the execution of a statement waits for. `B` is a batch of rows.
#[derive(Debug, PartialEq, Eq)]
pub enum QueryPhase<B> {
    /// The data frame.
    Logical,
    /// The physical plan.
    Physical,
    /// The stream of an endless result.
    OpeningStream,
    /// The end of an endless result, which is printed as it comes.
    PrintingStream,
    /// The stream of a result that ends.
    OpeningResult,
    /// The next batch.
    Reading,
    /// The memory for a batch.
    Reserving { batch: B, rows: usize },
    /// The end of printing.
    PrintingResult,
    Done,
}

/// The execution of one statement.
#[derive(Debug, PartialEq, Eq)]
pub struct QueryRun<B> {
    pub print_options: PrintOptions,
    pub adjusted: AdjustedPrintOptions,
    pub kept: Vec<B>,
    pub row_count: usize,
    pub phase: QueryPhase<B>,
}

/// The execution of one statement, with its batches as a sequence.
pub struct QueryState<B> {
    pub print_options: PrintOptions,
    pub adjusted: AdjustedPrintOptions,
    pub kept: Seq<B>,
    pub row_count: int,
    pub phase: QueryPhase<B>,
}

impl<B> View for QueryRun<B> {
    type V = QueryState<B>;

    open spec fn view(&self) -> QueryState<B> {
        QueryState {
            print_options: self.print_options,
            adjusted: self.adjusted,
            kept: self.kept@,
            row_count: self.row_count as int,
            phase: self.phase,
        }
    }
}

/// What happened.
#[derive(Debug, PartialEq, Eq)]
pub enum QueryEvent<B, E> {
    /// There is a data frame, to be printed with these options; or there is none.
    LogicalReady(Result<AdjustedPrintOptions, E>),
    /// There is a physical plan, or there is none.
    PhysicalReady(Result<PlanProperties, E>),
    /// The stream was opened, or could not be.
    StreamReady(Result<(), E>),
    /// A batch came, of so many rows and so many bytes.
    BatchRead { batch: B, rows: usize, memory: usize },
    /// An error came in place of a batch.
    ReadFailed(E),
    /// There are no more batches.
    EndOfStream,
    /// The memory was granted, or refused.
    Reserved(Result<(), E>),
    /// The result was printed, or could not be.
    Printed(Result<(), E>),
}

/// What to do next. `T` is text, `L` a list of batches, `N` a number.
#[derive(Debug, PartialEq, Eq)]
pub enum QueryAction<T, L, N, E> {
    /// Make the physical plan of the data frame.
    MakePhysicalPlan,
    /// Open the stream of the plan.
    OpenStream,
    /// Print the stream with these options, as it comes.
    PrintStream(PrintOptions),
    /// Read the next batch.
    ReadBatch,
    /// Reserve so many bytes.
    Reserve(usize),
    /// Print these batches of a result of so many rows.
    PrintBatches { options: PrintOptions, batches: L, row_count: N },
    /// Release the memory; the statement is done.
    ReleaseAndFinish,
    /// The statement is done.
    Finish(Result<(), Failure<T, E>>),
    /// The event was not awaited: nothing changed.
    Unexpected,
}

impl<B, E> View for QueryAction<String, Vec<B>, usize, E> {
    type V = QueryAction<Seq<char>, Seq<B>, int, E>;

    open spec fn view(&self) -> QueryAction<Seq<char>, Seq<B>, int, E> {
        match *self {
            QueryAction::MakePhysicalPlan => QueryAction::MakePhysicalPlan,
            QueryAction::OpenStream => QueryAction::OpenStream,
            QueryAction::PrintStream(options) => QueryAction::PrintStream(options),
            QueryAction::ReadBatch => QueryAction::ReadBatch,
            QueryAction::Reserve(memory) => QueryAction::Reserve(memory),
            QueryAction::PrintBatches { options, batches, row_count } => QueryAction::PrintBatches {
                options,
                batches: batches@,
                row_count: row_count as int,
            },
            QueryAction::ReleaseAndFinish => QueryAction::ReleaseAndFinish,
            QueryAction::Finish(Ok(done)) => QueryAction::Finish(Ok(done)),
            QueryAction::Finish(Err(failure)) => QueryAction::Finish(Err(failure@)),
            QueryAction::Unexpected => QueryAction::Unexpected,
        }
    }
}

/// Whether a batch is kept, where `row_count` rows came before it: collecting stops once the number
/// of rows exceeds the limit, and the batch that exceeds it is kept.
pub open spec fn keeps(maxrows: MaxRows, row_count: int) -> bool {
    match maxrows {
        MaxRows::Unlimited => true,
        MaxRows::Limited(limit) => row_count <= limit,
    }
}

/// The complaint about a query whose result would come only after the end of an endless source.
pub open spec fn endless_query() -> Seq<char> {
    "The given query can generate a valid result only once the source finishes, but the source is unbounded"@
}

/// The beginning of the execution of a statement.
pub open spec fn query_start<B>(print_options: PrintOptions) -> QueryState<B> {
    QueryState {
        print_options,
        adjusted: AdjustedPrintOptions { inner: print_options },
        kept: Seq::empty(),
        row_count: 0,
        phase: QueryPhase::Logical,
    }
}

/// One step of the execution of a statement.
///
/// An endless result is printed as it comes, with the options of the session. A result that ends is
/// collected and then printed, both with the adjusted options: where the row limit is lifted, every
/// row is collected. The first error ends the execution.
pub open spec fn query_step<B, E>(at: QueryState<B>, event: QueryEvent<B, E>) -> (
    QueryState<B>,
    QueryAction<Seq<char>, Seq<B>, int, E>,
) {
    let done = QueryState { phase: QueryPhase::Done, ..at };
    match (at.phase, event) {
        (QueryPhase::Logical, QueryEvent::LogicalReady(Ok(adjusted))) => (
            QueryState { adjusted, phase: QueryPhase::Physical, ..at },
            QueryAction::MakePhysicalPlan,
        ),
        (QueryPhase::Physical, QueryEvent::PhysicalReady(Ok(plan))) => if !plan.unbounded {
            (QueryState { phase: QueryPhase::OpeningResult, ..at }, QueryAction::OpenStream)
        } else if plan.final_emission {
            (done, QueryAction::Finish(Err(Failure::Plan(endless_query()))))
        } else {
            (QueryState { phase: QueryPhase::OpeningStream, ..at }, QueryAction::OpenStream)
        },
        (QueryPhase::OpeningStream, QueryEvent::StreamReady(Ok(_))) => (
            QueryState { phase: QueryPhase::PrintingStream, ..at },
            QueryAction::PrintStream(at.print_options),
        ),
        (QueryPhase::PrintingStream, QueryEvent::Printed(Ok(_))) => (
            done,
            QueryAction::Finish(Ok(())),
        ),
        (QueryPhase::OpeningResult, QueryEvent::StreamReady(Ok(_))) => (
            QueryState { phase: QueryPhase::Reading, ..at },
            QueryAction::ReadBatch,
        ),
        (QueryPhase::Reading, QueryEvent::BatchRead { batch, rows, memory }) => if keeps(
            at.adjusted.inner.maxrows,
            at.row_count,
        ) {
            (
                QueryState { phase: QueryPhase::Reserving { batch, rows }, ..at },
                QueryAction::Reserve(memory),
            )
        } else {
            (QueryState { row_count: at.row_count + rows, ..at }, QueryAction::ReadBatch)
        },
        (QueryPhase::Reserving { batch, rows }, QueryEvent::Reserved(Ok(_))) => (
            QueryState {
                kept: at.kept.push(batch),
                row_count: at.row_count + rows,
                phase: QueryPhase::Reading,
                ..at
            },
            QueryAction::ReadBatch,
        ),
        (QueryPhase::Reading, QueryEvent::EndOfStream) => (
            QueryState { kept: Seq::empty(), phase: QueryPhase::PrintingResult, ..at },
            QueryAction::PrintBatches {
                options: crate::options::settled(at.adjusted.inner),
                batches: at.kept,
                row_count: at.row_count,
            },
        ),
        (QueryPhase::PrintingResult, QueryEvent::Printed(Ok(_))) => (
            done,
            QueryAction::ReleaseAndFinish,
        ),
        (QueryPhase::Logical, QueryEvent::LogicalReady(Err(error))) => (
            done,
            QueryAction::Finish(Err(Failure::Outside(error))),
        ),
        (QueryPhase::Physical, QueryEvent::PhysicalReady(Err(error))) => (
            done,
            QueryAction::Finish(Err(Failure::Outside(error))),
        ),
        (
            QueryPhase::OpeningStream | QueryPhase::OpeningResult,
            QueryEvent::StreamReady(Err(error)),
        ) => (done, QueryAction::Finish(Err(Failure::Outside(error)))),
        (QueryPhase::Reading, QueryEvent::ReadFailed(error)) => (
            done,
            QueryAction::Finish(Err(Failure::Outside(error))),
        ),
        (QueryPhase::Reserving { .. }, QueryEvent::Reserved(Err(error))) => (
            done,
            QueryAction::Finish(Err(Failure::Outside(error))),
        ),
        (
            QueryPhase::PrintingStream | QueryPhase::PrintingResult,
            QueryEvent::Printed(Err(error)),
        ) => (done, QueryAction::Finish(Err(Failure::Outside(error)))),
        _ => (at, QueryAction::Unexpected),
    }
}

/// Whether a batch is kept, where `row_count` rows came before it.
pub fn keeps_batch(maxrows: MaxRows, row_count: usize) -> (r: bool)
    ensures
        r == keeps(maxrows, row_count as int),
{
    match maxrows {
        MaxRows::Unlimited => true,
        MaxRows::Limited(limit) => row_count <= limit,
    }
}

impl<B> QueryRun<B> {
    /// The execution of a statement, at its beginning: the data frame is to be made.
    pub fn new(print_options: PrintOptions) -> (r: Self)
        ensures
            r@ == query_start::<B>(print_options),
    {
        QueryRun {
            print_options,
            adjusted: AdjustedPrintOptions::new(print_options),
            kept: Vec::new(),
            row_count: 0,
            phase: QueryPhase::Logical,
        }
    }

    /// Whether the rows can still be counted in a `usize` after the event.
    pub fn can_count<E>(&self, event: &QueryEvent<B, E>) -> (r: bool)
        ensures
            r == (query_step(self@, *event).0.row_count <= usize::MAX),
    {
        match (&self.phase, event) {
            (QueryPhase::Reading, QueryEvent::BatchRead { rows, .. }) => keeps_batch(
                self.adjusted.inner.maxrows,
                self.row_count,
            ) || *rows <= usize::MAX - self.row_count,
            (QueryPhase::Reserving { rows, .. }, QueryEvent::Reserved(Ok(_))) => *rows
                <= usize::MAX - self.row_count,
            _ => true,
        }
    }

    /// One step. The rows of all batches together can be counted in a `usize`.
    pub fn step<E>(self, event: QueryEvent<B, E>) -> (r: (
        Self,
        QueryAction<String, Vec<B>, usize, E>,
    ))
        requires
            query_step(self@, event).0.row_count <= usize::MAX,
        ensures
            (r.0@, r.1@) == query_step(self@, event),
    {
        match (self.phase, event) {
            (QueryPhase::Logical, QueryEvent::LogicalReady(Ok(adjusted))) => (
                QueryRun { adjusted, phase: QueryPhase::Physical, ..self },
                QueryAction::MakePhysicalPlan,
            ),
            (QueryPhase::Physical, QueryEvent::PhysicalReady(Ok(plan))) => {
                if !plan.unbounded {
                    (
                        QueryRun { phase: QueryPhase::OpeningResult, ..self },
                        QueryAction::OpenStream,
                    )
                } else if plan.final_emission {
                    let message =
                        "The given query can generate a valid result only once the source finishes, but the source is unbounded".to_owned();
                    (
                        QueryRun { phase: QueryPhase::Done, ..self },
                        QueryAction::Finish(Err(Failure::Plan(message))),
                    )
                } else {
                    (
                        QueryRun { phase: QueryPhase::OpeningStream, ..self },
                        QueryAction::OpenStream,
                    )
                }
            },
            (QueryPhase::OpeningStream, QueryEvent::StreamReady(Ok(_))) => {
                let options = self.print_options;
                (
                    QueryRun { phase: QueryPhase::PrintingStream, ..self },
                    QueryAction::PrintStream(options),
                )
            },
            (QueryPhase::PrintingStream, QueryEvent::Printed(Ok(_))) => (
                QueryRun { phase: QueryPhase::Done, ..self },
                QueryAction::Finish(Ok(())),
            ),
            (QueryPhase::OpeningResult, QueryEvent::StreamReady(Ok(_))) => (
                QueryRun { phase: QueryPhase::Reading, ..self },
                QueryAction::ReadBatch,
            ),
            (QueryPhase::Reading, QueryEvent::BatchRead { batch, rows, memory }) => {
                if keeps_batch(self.adjusted.inner.maxrows, self.row_count) {
                    (
                        QueryRun { phase: QueryPhase::Reserving { batch, rows }, ..self },
                        QueryAction::Reserve(memory),
                    )
                } else {
                    let row_count = self.row_count + rows;
                    (
                        QueryRun { row_count, phase: QueryPhase::Reading, ..self },
                        QueryAction::ReadBatch,
                    )
                }
            },
            (QueryPhase::Reserving { batch, rows }, QueryEvent::Reserved(Ok(_))) => {
                let row_count = self.row_count + rows;
                let mut kept = self.kept;
                kept.push(batch);
                (
                    QueryRun {
                        print_options: self.print_options,
                        adjusted: self.adjusted,
                        kept,
                        row_count,
                        phase: QueryPhase::Reading,
                    },
                    QueryAction::ReadBatch,
                )
            },
            (QueryPhase::Reading, QueryEvent::EndOfStream) => {
                let options = self.adjusted.into_inner();
                let row_count = self.row_count;
                (
                    QueryRun {
                        print_options: self.print_options,
                        adjusted: self.adjusted,
                        kept: Vec::new(),
                        row_count,
                        phase: QueryPhase::PrintingResult,
                    },
                    QueryAction::PrintBatches { options, batches: self.kept, row_count },
                )
            },
            (QueryPhase::PrintingResult, QueryEvent::Printed(Ok(_))) => (
                QueryRun { phase: QueryPhase::Done, ..self },
                QueryAction::ReleaseAndFinish,
            ),
            (QueryPhase::Logical, QueryEvent::LogicalReady(Err(error))) => (
                QueryRun { phase: QueryPhase::Done, ..self },
                QueryAction::Finish(Err(Failure::Outside(error))),
            ),
            (QueryPhase::Physical, QueryEvent::PhysicalReady(Err(error))) => (
                QueryRun { phase: QueryPhase::Done, ..self },
                QueryAction::Finish(Err(Failure::Outside(error))),
            ),
            (
                QueryPhase::OpeningStream | QueryPhase::OpeningResult,
                QueryEvent::StreamReady(Err(error)),
            ) => (
                QueryRun { phase: QueryPhase::Done, ..self },
                QueryAction::Finish(Err(Failure::Outside(error))),
            ),
            (QueryPhase::Reading, QueryEvent::ReadFailed(error)) => (
                QueryRun { phase: QueryPhase::Done, ..self },
                QueryAction::Finish(Err(Failure::Outside(error))),
            ),
            (QueryPhase::Reserving { .. }, QueryEvent::Reserved(Err(error))) => (
                QueryRun { phase: QueryPhase::Done, ..self },
                QueryAction::Finish(Err(Failure::Outside(error))),
            ),
            (
                QueryPhase::PrintingStream | QueryPhase::PrintingResult,
                QueryEvent::Printed(Err(error)),
            ) => (
                QueryRun { phase: QueryPhase::Done, ..self },
                QueryAction::Finish(Err(Failure::Outside(error))),
            ),
            (phase, _) => (QueryRun { phase, ..self }, QueryAction::Unexpected),
        }
    }
}

impl StatementExecutor {
    /// Begins the execution of the statement: its data frame is to be made, and then printed.
    pub fn execute<B, E>(self, print_options: PrintOptions) -> (r: (
        QueryRun<B>,
        LogicalRun,
        LogicalAction<E>,
    ))
        ensures
            r.0@ == query_start::<B>(print_options),
            r.1.retry == self.statement_for_retry,
            r.1.adjusted.inner == crate::options::for_statement(print_options, self.statement.kind),
            r.1.phase == LogicalPhase::Planning,
            r.2 == (LogicalAction::<E>::Plan { statement: self.statement, resolve_region: false }),
            self.statement_for_retry == kept_for_retry(self.statement) ==> (r.1, r.2)
                == logical_start::<E>(self.statement, print_options),
    {
        let query = QueryRun::new(print_options);
        let (logical, action) = self.create_and_execute_logical_plan(print_options);
        (query, logical, action)
    }
}

/// The execution after some events.
pub open spec fn query_after<B, E>(at: QueryState<B>, events: Seq<QueryEvent<B, E>>) -> QueryState<B>
    decreases events.len(),
{
    if events.len() == 0 {
        at
    } else {
        query_step(query_after(at, events.drop_last()), events.last()).0
    }
}

/// A batch on its way: its rows, and its size in memory.
pub struct Arrival<B> {
    pub batch: B,
    pub rows: usize,
    pub memory: usize,
}

/// The rows of all batches together.
pub open spec fn total_rows<B>(arrivals: Seq<Arrival<B>>) -> int
    decreases arrivals.len(),
{
    if arrivals.len() == 0 {
        0
    } else {
        total_rows(arrivals.drop_last()) + arrivals.last().rows
    }
}

/// The batch of index `i` is kept.
pub open spec fn kept_at<B>(maxrows: MaxRows, arrivals: Seq<Arrival<B>>, i: int) -> bool {
    keeps(maxrows, total_rows(arrivals.take(i)))
}

/// The batches that are kept, in order.
pub open spec fn collected<B>(maxrows: MaxRows, arrivals: Seq<Arrival<B>>) -> Seq<Arrival<B>>
    decreases arrivals.len(),
{
    if arrivals.len() == 0 {
        Seq::empty()
    } else {
        let before = arrivals.drop_last();
        let last = arrivals.last();
        if keeps(maxrows, total_rows(before)) {
            collected(maxrows, before).push(last)
        } else {
            collected(maxrows, before)
        }
    }
}

/// The batches themselves.
pub open spec fn batches<B>(arrivals: Seq<Arrival<B>>) -> Seq<B> {
    arrivals.map_values(|arrival: Arrival<B>| arrival.batch)
}

/// The events of a stream of batches whose memory is granted.
pub open spec fn stream_events<B, E>(maxrows: MaxRows, arrivals: Seq<Arrival<B>>) -> Seq<
    QueryEvent<B, E>,
>
    decreases arrivals.len(),
{
    if arrivals.len() == 0 {
        Seq::empty()
    } else {
        let before = arrivals.drop_last();
        let last = arrivals.last();
        let read = stream_events::<B, E>(maxrows, before).push(
            QueryEvent::BatchRead { batch: last.batch, rows: last.rows, memory: last.memory },
        );
        if keeps(maxrows, total_rows(before)) {
            read.push(QueryEvent::Reserved(Ok(())))
        } else {
            read
        }
    }
}

proof fn lemma_after_push<B, E>(
    at: QueryState<B>,
    events: Seq<QueryEvent<B, E>>,
    event: QueryEvent<B, E>,
)
    ensures
        query_after(at, events.push(event)) == query_step(query_after(at, events), event).0,
{
    assert(events.push(event).drop_last() =~= events);
}

proof fn lemma_stream_is_collected<B, E>(at: QueryState<B>, arrivals: Seq<Arrival<B>>)
    requires
        at.phase is Reading,
        at.kept.len() == 0,
        at.row_count == 0,
    ensures
        query_after(at, stream_events::<B, E>(at.adjusted.inner.maxrows, arrivals)) == (QueryState {
            kept: batches(collected(at.adjusted.inner.maxrows, arrivals)),
            row_count: total_rows(arrivals),
            ..at
        }),
    decreases arrivals.len(),
{
    let maxrows = at.adjusted.inner.maxrows;
    if arrivals.len() == 0 {
        assert(batches(collected(maxrows, arrivals)) =~= at.kept);
    } else {
        let before = arrivals.drop_last();
        let last = arrivals.last();
        lemma_stream_is_collected::<B, E>(at, before);
        let events = stream_events::<B, E>(maxrows, before);
        let read = QueryEvent::<B, E>::BatchRead {
            batch: last.batch,
            rows: last.rows,
            memory: last.memory,
        };
        lemma_after_push(at, events, read);
        lemma_after_push(at, events.push(read), QueryEvent::Reserved(Ok(())));
        if keeps(maxrows, total_rows(before)) {
            assert(batches(collected(maxrows, arrivals)) =~= batches(
                collected(maxrows, before),
            ).push(last.batch));
        }
    }
}

/// A result that ends is printed once it has ended, with the adjusted options: the batches within
/// their row limit, in order, and the number of all rows that came.
pub proof fn law_result_is_collected_then_printed<B, E>(
    print_options: PrintOptions,
    adjusted: AdjustedPrintOptions,
    plan: PlanProperties,
    arrivals: Seq<Arrival<B>>,
)
    requires
        !plan.unbounded,
    ensures
        ({
            let opened = query_after(
                query_start::<B>(print_options),
                seq![
                    QueryEvent::<B, E>::LogicalReady(Ok(adjusted)),
                    QueryEvent::PhysicalReady(Ok(plan)),
                    QueryEvent::StreamReady(Ok(())),
                ],
            );
            let read = query_after(
                opened,
                stream_events::<B, E>(adjusted.inner.maxrows, arrivals),
            );
            query_step(read, QueryEvent::<B, E>::EndOfStream).1 == QueryAction::<
                Seq<char>,
                Seq<B>,
                int,
                E,
            >::PrintBatches {
                options: crate::options::settled(adjusted.inner),
                batches: batches(collected(adjusted.inner.maxrows, arrivals)),
                row_count: total_rows(arrivals),
            }
        }),
{
    let start = query_start::<B>(print_options);
    let none = Seq::<QueryEvent<B, E>>::empty();
    let logical = QueryEvent::<B, E>::LogicalReady(Ok(adjusted));
    let physical = QueryEvent::<B, E>::PhysicalReady(Ok(plan));
    let stream = QueryEvent::<B, E>::StreamReady(Ok(()));
    lemma_after_push(start, none, logical);
    lemma_after_push(start, none.push(logical), physical);
    lemma_after_push(start, none.push(logical).push(physical), stream);
    assert(seq![logical, physical, stream] =~= none.push(logical).push(physical).push(stream));
    lemma_stream_is_collected::<B, E>(
        query_after(start, seq![logical, physical, stream]),
        arrivals,
    );
}

/// Without a row limit every batch is kept.
pub proof fn law_unlimited_keeps_everything<B>(arrivals: Seq<Arrival<B>>)
    ensures
        collected(MaxRows::Unlimited, arrivals) == arrivals,
    decreases arrivals.len(),
{
    if arrivals.len() > 0 {
        law_unlimited_keeps_everything(arrivals.drop_last());
        assert(arrivals.drop_last().push(arrivals.last()) =~= arrivals);
    } else {
        assert(collected(MaxRows::Unlimited, arrivals) =~= arrivals);
    }
}

/// The kept batches hold more rows than the limit, or all rows there are: a result is never cut
/// short of its limit.
pub proof fn law_limit_is_filled<B>(limit: usize, arrivals: Seq<Arrival<B>>)
    ensures
        ({
            let held = total_rows(collected(MaxRows::Limited(limit), arrivals));
            held > limit || held == total_rows(arrivals)
        }),
    decreases arrivals.len(),
{
    if arrivals.len() > 0 {
        let maxrows = MaxRows::Limited(limit);
        let before = arrivals.drop_last();
        law_limit_is_filled(limit, before);
        lemma_held_rows(maxrows, before);
        let held = collected(maxrows, before);
        assert(held.push(arrivals.last()).drop_last() =~= held);
    }
}

proof fn lemma_held_rows<B>(maxrows: MaxRows, arrivals: Seq<Arrival<B>>)
    ensures
        0 <= total_rows(collected(maxrows, arrivals)) <= total_rows(arrivals),
    decreases arrivals.len(),
{
    if arrivals.len() > 0 {
        let before = arrivals.drop_last();
        lemma_held_rows(maxrows, before);
        let held = collected(maxrows, before);
        assert(held.push(arrivals.last()).drop_last() =~= held);
    }
}

proof fn lemma_rows_grow<B>(arrivals: Seq<Arrival<B>>, i: int, j: int)
    requires
        0 <= i <= j <= arrivals.len(),
    ensures
        total_rows(arrivals.take(i)) <= total_rows(arrivals.take(j)),
    decreases j - i,
{
    if i < j {
        lemma_rows_grow(arrivals, i, j - 1);
        assert(arrivals.take(j).drop_last() =~= arrivals.take(j - 1));
    }
}

/// A batch is kept exactly while the rows before it do not exceed the limit, which takes in the batch
/// that exceeds it. Once they do, that batch and every later one is left out, whatever their sizes.
pub proof fn law_collecting_stops_past_the_limit<B>(
    limit: usize,
    arrivals: Seq<Arrival<B>>,
    i: int,
    j: int,
)
    requires
        0 <= i <= j < arrivals.len(),
    ensures
        kept_at(MaxRows::Limited(limit), arrivals, i) <==> total_rows(arrivals.take(i)) <= limit,
        total_rows(arrivals.take(i)) > limit ==> !kept_at(MaxRows::Limited(limit), arrivals, j),
{
    lemma_rows_grow(arrivals, i, j);
}

/// The kept batches are the first ones that came: all of them, or those up to the one with which the
/// rows exceed the limit.
pub proof fn law_the_first_batches_are_kept<B>(limit: usize, arrivals: Seq<Arrival<B>>)
    ensures
        ({
            let kept = collected(MaxRows::Limited(limit), arrivals);
            &&& kept.len() <= arrivals.len()
            &&& kept == arrivals.take(kept.len() as int)
            &&& kept.len() < arrivals.len() ==> total_rows(kept) > limit
            &&& kept.len() > 0 ==> total_rows(kept.drop_last()) <= limit
        }),
    decreases arrivals.len(),
{
    let maxrows = MaxRows::Limited(limit);
    let kept = collected(maxrows, arrivals);
    if arrivals.len() == 0 {
        assert(kept =~= arrivals.take(0));
    } else {
        let before = arrivals.drop_last();
        let held = collected(maxrows, before);
        law_the_first_batches_are_kept(limit, before);
        lemma_held_rows(maxrows, before);
        if keeps(maxrows, total_rows(before)) {
            law_limit_is_filled(limit, before);
            lemma_rows_grow(before, held.len() as int, before.len() as int);
            assert(before.take(before.len() as int) =~= before);
            assert(held.len() == before.len());
            assert(held =~= before);
            assert(kept =~= arrivals);
            assert(kept.drop_last() =~= before);
            assert(arrivals.take(kept.len() as int) =~= arrivals);
        } else {
            assert(before.take(held.len() as int) =~= arrivals.take(held.len() as int));
            assert(before.take(before.len() as int) =~= before);
        }
    }
}

/// Every row is to be shown of a statement of this kind with this plan.
pub open spec fn shows_all_rows<T, O>(kind: StatementKind, plan: PlanShape<T, O>) -> bool {
    kind == StatementKind::ShowVariable || plan is Explain || plan is DescribeTable
        || plan is Analyze
}

/// Plans like `EXPLAIN`, and `SHOW`, ignore the row limit of the session: whatever the limit is, every
/// batch that comes is printed, without a limit.
pub proof fn law_some_results_ignore_the_limit<B, E, T, O>(
    print_options: PrintOptions,
    kind: StatementKind,
    plan: PlanShape<T, O>,
    properties: PlanProperties,
    arrivals: Seq<Arrival<B>>,
)
    requires
        !properties.unbounded,
        shows_all_rows(kind, plan),
    ensures
        ({
            let inner = crate::options::for_plan(
                crate::options::for_statement(print_options, kind),
                plan,
            );
            let opened = query_after(
                query_start::<B>(print_options),
                seq![
                    QueryEvent::<B, E>::LogicalReady(Ok(AdjustedPrintOptions { inner })),
                    QueryEvent::PhysicalReady(Ok(properties)),
                    QueryEvent::StreamReady(Ok(())),
                ],
            );
            let read = query_after(
                opened,
                stream_events::<B, E>(MaxRows::Unlimited, arrivals),
            );
            let printed = query_step(read, QueryEvent::<B, E>::EndOfStream).1;
            &&& printed is PrintBatches
            &&& printed->options.maxrows == MaxRows::Unlimited
            &&& printed->batches == batches(arrivals)
            &&& printed->PrintBatches_row_count == total_rows(arrivals)
        }),
{
    let inner = crate::options::for_plan(crate::options::for_statement(print_options, kind), plan);
    law_result_is_collected_then_printed::<B, E>(
        print_options,
        AdjustedPrintOptions { inner },
        properties,
        arrivals,
    );
    law_unlimited_keeps_everything(arrivals);
}

/// An endless query whose result would come only at the end is refused, and no stream is opened for
/// it. Any other endless query is printed as it comes, with the options of the session.
pub proof fn law_endless_queries<B, E>(at: QueryState<B>, plan: PlanProperties)
    requires
        at.phase is Physical,
        plan.unbounded,
    ensures
        ({
            let (next, action) = query_step(at, QueryEvent::<B, E>::PhysicalReady(Ok(plan)));
            if plan.final_emission {
                &&& next.phase is Done
                &&& action == QueryAction::<Seq<char>, Seq<B>, int, E>::Finish(
                    Err(Failure::Plan(endless_query())),
                )
            } else {
                &&& action is OpenStream
                &&& query_step(next, QueryEvent::<B, E>::StreamReady(Ok(()))).1 == QueryAction::<
                    Seq<char>,
                    Seq<B>,
                    int,
                    E,
                >::PrintStream(at.print_options)
            }
        }),
{
}

/// Whatever happens, the options of the session stay as they were given, a batch is kept only after
/// its memory was granted, and a finished execution answers nothing any more.
pub proof fn law_query_steps<B, E>(at: QueryState<B>, event: QueryEvent<B, E>)
    ensures
        ({
            let (next, action) = query_step(at, event);
            &&& next.print_options == at.print_options
            &&& next.kept.len() > at.kept.len() ==> (event matches QueryEvent::Reserved(outcome)
                && outcome is Ok)
            &&& action is Finish || action is ReleaseAndFinish ==> next.phase is Done
            &&& at.phase is Done ==> next == at && action is Unexpected
        }),
{
}

/// The event tells what became of the action.
pub open spec fn tells_of<B, E>(
    action: QueryAction<Seq<char>, Seq<B>, int, E>,
    event: QueryEvent<B, E>,
) -> bool {
    match action {
        QueryAction::MakePhysicalPlan => event is PhysicalReady,
        QueryAction::OpenStream => event is StreamReady,
        QueryAction::PrintStream(_) => event is Printed,
        QueryAction::ReadBatch => event is BatchRead || event is ReadFailed || event is EndOfStream,
        QueryAction::Reserve(_) => event is Reserved,
        QueryAction::PrintBatches { .. } => event is Printed,
        QueryAction::ReleaseAndFinish => false,
        QueryAction::Finish(_) => false,
        QueryAction::Unexpected => false,
    }
}

/// An execution asks for one thing at a time, first for the data frame, and takes in what became of it,
/// and nothing else: any other event is not awaited and changes nothing, and after the end none is.
pub proof fn law_one_thing_at_a_time<B, E>(
    print_options: PrintOptions,
    at: QueryState<B>,
    event: QueryEvent<B, E>,
    next_event: QueryEvent<B, E>,
)
    ensures
        query_step(query_start::<B>(print_options), event).1 is Unexpected <==> !(
        event is LogicalReady),
        ({
            let (next, action) = query_step(at, event);
            if action is Unexpected {
                next == at
            } else {
                query_step(next, next_event).1 is Unexpected <==> !tells_of(action, next_event)
            }
        }),
{
}

/// The error that an event brings, where it brings one.
pub open spec fn error_in<B, E>(event: QueryEvent<B, E>) -> Option<E> {
    match event {
        QueryEvent::LogicalReady(Err(error)) => Some(error),
        QueryEvent::PhysicalReady(Err(error)) => Some(error),
        QueryEvent::StreamReady(Err(error)) => Some(error),
        QueryEvent::ReadFailed(error) => Some(error),
        QueryEvent::Reserved(Err(error)) => Some(error),
        QueryEvent::Printed(Err(error)) => Some(error),
        _ => None,
    }
}

/// Whatever was read or kept before, an error is the outcome of the execution: every awaited error is
/// answered with that very error, and nothing is printed for it. An execution has no other error of
/// its own than the complaint about an endless query.
pub proof fn law_errors_are_outcomes<B, E>(at: QueryState<B>, event: QueryEvent<B, E>)
    ensures
        ({
            let (next, action) = query_step(at, event);
            &&& error_in(event) matches Some(error) ==> action is Unexpected || (action
                == QueryAction::<Seq<char>, Seq<B>, int, E>::Finish(Err(Failure::Outside(error)))
                && next.phase is Done)
            &&& action matches QueryAction::Finish(Err(Failure::Outside(error))) ==> error_in(event)
                == Some(error)
            &&& action matches QueryAction::Finish(Err(Failure::Plan(_))) ==> (
            event matches QueryEvent::PhysicalReady(Ok(plan)) && plan.unbounded
                && plan.final_emission)
            &&& at.phase is Reading && event is ReadFailed ==> action is Finish
        }),
{
}

/// What is printed is a whole result: batches are printed only once the stream has ended, and a stream
/// only once it is open; and an execution succeeds only after printing did.
pub proof fn law_only_whole_results_are_printed<B, E>(at: QueryState<B>, event: QueryEvent<B, E>)
    ensures
        ({
            let action = query_step(at, event).1;
            &&& action is PrintBatches ==> at.phase is Reading && event is EndOfStream
            &&& action is PrintStream ==> event == QueryEvent::<B, E>::StreamReady(Ok(()))
            &&& action is ReleaseAndFinish || action == QueryAction::<
                Seq<char>,
                Seq<B>,
                int,
                E,
            >::Finish(Ok(())) ==> event == QueryEvent::<B, E>::Printed(Ok(()))
        }),
{
    match event {
        QueryEvent::StreamReady(Ok(done)) => {
            assert(done == ());
        },
        QueryEvent::Printed(Ok(done)) => {
            assert(done == ());
        },
        _ => {},
    }
}

/// What becomes of a batch: while the rows before it do not exceed the limit, exactly its own memory is
/// asked for, and once that is granted it is kept behind the others; past the limit it is left out, and
/// nothing is asked for. Its rows are counted either way, and the next batch is read.
pub proof fn law_what_becomes_of_a_batch<B, E>(
    at: QueryState<B>,
    batch: B,
    rows: usize,
    memory: usize,
)
    requires
        at.phase is Reading,
    ensures
        ({
            let (next, action) = query_step(
                at,
                QueryEvent::<B, E>::BatchRead { batch, rows, memory },
            );
            let (after, then_do) = query_step(next, QueryEvent::<B, E>::Reserved(Ok(())));
            let fits = match at.adjusted.inner.maxrows {
                MaxRows::Unlimited => true,
                MaxRows::Limited(limit) => at.row_count <= limit,
            };
            if fits {
                &&& action == QueryAction::<Seq<char>, Seq<B>, int, E>::Reserve(memory)
                &&& next.kept == at.kept
                &&& then_do == QueryAction::<Seq<char>, Seq<B>, int, E>::ReadBatch
                &&& after.kept == at.kept + seq![batch]
                &&& after.row_count == at.row_count + rows
                &&& after.adjusted == at.adjusted
                &&& after.phase is Reading
            } else {
                &&& action == QueryAction::<Seq<char>, Seq<B>, int, E>::ReadBatch
                &&& next.kept == at.kept
                &&& next.row_count == at.row_count + rows
                &&& next.adjusted == at.adjusted
                &&& next.phase is Reading
            }
        }),
{
    assert(at.kept.push(batch) =~= at.kept + seq![batch]);
}

/// A result that has ended is printed with all that was kept of it, with the number of all its rows,
/// and with the adjusted options, of which an open format is settled to a table; once it is printed the
/// memory is released and the execution has succeeded.
pub proof fn law_the_end_of_a_result<B, E>(at: QueryState<B>)
    requires
        at.phase is Reading,
    ensures
        ({
            let (next, action) = query_step(at, QueryEvent::<B, E>::EndOfStream);
            &&& action is PrintBatches
            &&& action->batches == at.kept
            &&& action->PrintBatches_row_count == at.row_count
            &&& action->options.maxrows == at.adjusted.inner.maxrows
            &&& action->options.color == at.adjusted.inner.color
            &&& action->options.format == if at.adjusted.inner.format
                == crate::options::PrintFormat::Automatic {
                crate::options::PrintFormat::Table
            } else {
                at.adjusted.inner.format
            }
            &&& query_step(next, QueryEvent::<B, E>::Printed(Ok(()))).1 == QueryAction::<
                Seq<char>,
                Seq<B>,
                int,
                E,
            >::ReleaseAndFinish
        }),
{
}

/// From the data frame to the first batch: the physical plan is made, then the stream is opened, and of
/// a result that ends the first batch is read, with nothing kept or counted yet; a result that does not
/// end is printed as it comes, with the options of the session, and that is all. A query whose result
/// would come only after an endless source is refused.
pub proof fn law_how_executions_begin<B, E>(
    print_options: PrintOptions,
    adjusted: AdjustedPrintOptions,
    plan: PlanProperties,
)
    ensures
        ({
            let (planning, first) = query_step(
                query_start::<B>(print_options),
                QueryEvent::<B, E>::LogicalReady(Ok(adjusted)),
            );
            let (opening, second) = query_step(
                planning,
                QueryEvent::<B, E>::PhysicalReady(Ok(plan)),
            );
            let (opened, third) = query_step(opening, QueryEvent::<B, E>::StreamReady(Ok(())));
            let fourth = query_step(opened, QueryEvent::<B, E>::Printed(Ok(()))).1;
            &&& first == QueryAction::<Seq<char>, Seq<B>, int, E>::MakePhysicalPlan
            &&& if !plan.unbounded {
                &&& second == QueryAction::<Seq<char>, Seq<B>, int, E>::OpenStream
                &&& third == QueryAction::<Seq<char>, Seq<B>, int, E>::ReadBatch
                &&& opened.phase is Reading
                &&& opened.adjusted == adjusted
                &&& opened.kept.len() == 0
                &&& opened.row_count == 0
            } else if plan.final_emission {
                second == QueryAction::<Seq<char>, Seq<B>, int, E>::Finish(
                    Err(Failure::Plan(endless_query())),
                )
            } else {
                &&& second == QueryAction::<Seq<char>, Seq<B>, int, E>::OpenStream
                &&& third == QueryAction::<Seq<char>, Seq<B>, int, E>::PrintStream(print_options)
                &&& fourth == QueryAction::<Seq<char>, Seq<B>, int, E>::Finish(Ok(()))
            }
        }),
{
}

/// Executions and actions are seen whole: nothing in them is left out or changed.
pub proof fn law_executions_are_seen_whole<B, E>(
    run: QueryRun<B>,
    options: PrintOptions,
    list: Vec<B>,
    count: usize,
    message: String,
    error: E,
)
    ensures
        run@.print_options == run.print_options,
        run@.adjusted == run.adjusted,
        run@.kept == run.kept@,
        run@.row_count == run.row_count,
        run@.phase == run.phase,
        QueryAction::<String, Vec<B>, usize, E>::MakePhysicalPlan@ is MakePhysicalPlan,
        QueryAction::<String, Vec<B>, usize, E>::OpenStream@ is OpenStream,
        QueryAction::<String, Vec<B>, usize, E>::PrintStream(options)@ == QueryAction::<
            Seq<char>,
            Seq<B>,
            int,
            E,
        >::PrintStream(options),
        QueryAction::<String, Vec<B>, usize, E>::ReadBatch@ is ReadBatch,
        QueryAction::<String, Vec<B>, usize, E>::Reserve(count)@ == QueryAction::<
            Seq<char>,
            Seq<B>,
            int,
            E,
        >::Reserve(count),
        (QueryAction::<String, Vec<B>, usize, E>::PrintBatches {
            options,
            batches: list,
            row_count: count,
        })@ == (QueryAction::<Seq<char>, Seq<B>, int, E>::PrintBatches {
            options,
            batches: list@,
            row_count: count as int,
        }),
        QueryAction::<String, Vec<B>, usize, E>::ReleaseAndFinish@ is ReleaseAndFinish,
        QueryAction::<String, Vec<B>, usize, E>::Finish(Ok(()))@ == QueryAction::<
            Seq<char>,
            Seq<B>,
            int,
            E,
        >::Finish(Ok(())),
        QueryAction::<String, Vec<B>, usize, E>::Finish(Err(Failure::Plan(message)))@
            == QueryAction::<Seq<char>, Seq<B>, int, E>::Finish(Err(Failure::Plan(message@))),
        QueryAction::<String, Vec<B>, usize, E>::Finish(Err(Failure::Outside(error)))@
            == QueryAction::<Seq<char>, Seq<B>, int, E>::Finish(Err(Failure::Outside(error))),
        QueryAction::<String, Vec<B>, usize, E>::Unexpected@ is Unexpected,
{
}

} // verus!
