//! Print options, and their adjustment to the statement and the plan that are executed.
use crate::plan::PlanShape;
use crate::sql::StatementKind;
use vstd::prelude::*;

verus! {

/// How results are printed.
#[derive(Clone, Copy, Debug, PartialEq, Eq, Structural)]
pub enum PrintFormat {
    Csv,
    Tsv,
    Table,
    Json,
    NdJson,
    /// The format is picked when the results are printed.
    Automatic,
}

/// How many rows of a result are printed.
#[derive(Clone, Copy, Debug, PartialEq, Eq, Structural)]
pub enum MaxRows {
    Unlimited,
    Limited(usize),
}

/// The print options of a session.
#[derive(Clone, Copy, Debug, PartialEq, Eq, Structural)]
pub struct PrintOptions {
    pub format: PrintFormat,
    pub maxrows: MaxRows,
    pub color: bool,
}

/// Print options that follow the statement and the plan being executed.
#[derive(Clone, Copy, Debug, PartialEq, Eq, Structural)]
pub struct AdjustedPrintOptions {
    pub inner: PrintOptions,
}

/// The options with every row shown.
pub open spec fn all_rows(options: PrintOptions) -> PrintOptions {
    PrintOptions { maxrows: MaxRows::Unlimited, ..options }
}

/// Options for a statement: `SHOW` shows every row.
pub open spec fn for_statement(options: PrintOptions, kind: StatementKind) -> PrintOptions {
    if kind == StatementKind::ShowVariable {
        all_rows(options)
    } else {
        options
    }
}

/// Options for a plan: `EXPLAIN`, `ANALYZE` and `DESCRIBE` show every row.
pub open spec fn for_plan<T, O>(options: PrintOptions, plan: PlanShape<T, O>) -> PrintOptions {
    if plan is Explain || plan is DescribeTable || plan is Analyze {
        all_rows(options)
    } else {
        options
    }
}

/// Options to print with: where the format is open, it is a table.
pub open spec fn settled(options: PrintOptions) -> PrintOptions {
    if options.format == PrintFormat::Automatic {
        PrintOptions { format: PrintFormat::Table, ..options }
    } else {
        options
    }
}

impl AdjustedPrintOptions {
    /// The options as they are.
    pub fn new(inner: PrintOptions) -> (r: Self)
        ensures
            r.inner == inner,
    {
        AdjustedPrintOptions { inner }
    }

    /// Adjusts the options to the statement.
    pub fn with_statement(self, kind: StatementKind) -> (r: Self)
        ensures
            r.inner == for_statement(self.inner, kind),
    {
        let mut adjusted = self;
        if kind == StatementKind::ShowVariable {
            adjusted.inner.maxrows = MaxRows::Unlimited;
        }
        adjusted
    }

    /// Adjusts the options to the plan.
    pub fn with_plan<T, O>(self, plan: &PlanShape<T, O>) -> (r: Self)
        ensures
            r.inner == for_plan(self.inner, *plan),
    {
        let mut adjusted = self;
        match plan {
            PlanShape::Explain | PlanShape::DescribeTable | PlanShape::Analyze => {
                adjusted.inner.maxrows = MaxRows::Unlimited;
            },
            _ => {},
        }
        adjusted
    }

    /// The options to print with.
    pub fn into_inner(self) -> (r: PrintOptions)
        ensures
            r == settled(self.inner),
    {
        let mut inner = self.inner;
        if inner.format == PrintFormat::Automatic {
            inner.format = PrintFormat::Table;
        }
        inner
    }
}

/// The adjustments touch the row limit and the format only, whatever is executed: the color stays,
/// a format that was picked stays, and the row limit is either kept or lifted.
pub proof fn law_adjustments_keep_the_rest<T, O>(
    options: PrintOptions,
    kind: StatementKind,
    plan: PlanShape<T, O>,
)
    ensures
        ({
            let printed = settled(for_plan(for_statement(options, kind), plan));
            let lifted = kind == StatementKind::ShowVariable || plan is Explain
                || plan is DescribeTable || plan is Analyze;
            &&& printed.color == options.color
            &&& printed.format != PrintFormat::Automatic
            &&& options.format != PrintFormat::Automatic ==> printed.format == options.format
            &&& printed.maxrows == if lifted {
                MaxRows::Unlimited
            } else {
                options.maxrows
            }
        }),
{
}

/// To adjust twice to one statement and one plan, or in the other order, makes no difference.
pub proof fn law_adjustments_commute<T, O>(
    options: PrintOptions,
    kind: StatementKind,
    plan: PlanShape<T, O>,
)
    ensures
        for_plan(for_statement(options, kind), plan) == for_statement(
            for_plan(options, plan),
            kind,
        ),
        for_statement(for_statement(options, kind), kind) == for_statement(options, kind),
        for_plan(for_plan(options, plan), plan) == for_plan(options, plan),
        settled(settled(options)) == settled(options),
{
}

/// What each adjustment makes of the options, one by one: a statement and a plan bear on the row limit
/// alone, which is lifted for `SHOW` and for plans that explain or describe and is else as it was, and
/// settling bears on the format alone, which is a table where it was open and is else as it was.
pub proof fn law_each_adjustment<T, O>(
    options: PrintOptions,
    kind: StatementKind,
    plan: PlanShape<T, O>,
)
    ensures
        for_statement(options, kind).format == options.format,
        for_statement(options, kind).color == options.color,
        kind == StatementKind::ShowVariable ==> for_statement(options, kind).maxrows
            == MaxRows::Unlimited,
        kind != StatementKind::ShowVariable ==> for_statement(options, kind).maxrows
            == options.maxrows,
        for_plan(options, plan).format == options.format,
        for_plan(options, plan).color == options.color,
        for_plan(options, plan).maxrows == match plan {
            PlanShape::Explain => MaxRows::Unlimited,
            PlanShape::DescribeTable => MaxRows::Unlimited,
            PlanShape::Analyze => MaxRows::Unlimited,
            PlanShape::CreateExternalTable { .. } => options.maxrows,
            PlanShape::Copy { .. } => options.maxrows,
            PlanShape::Other => options.maxrows,
        },
        settled(options).maxrows == options.maxrows,
        settled(options).color == options.color,
        options.format == PrintFormat::Automatic ==> settled(options).format == PrintFormat::Table,
        options.format != PrintFormat::Automatic ==> settled(options).format == options.format,
{
}

} // verus!
