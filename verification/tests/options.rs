use datafusion_exec::options::{AdjustedPrintOptions, MaxRows, PrintFormat, PrintOptions};
use datafusion_exec::plan::PlanShape;
use datafusion_exec::sql::StatementKind;

fn session() -> PrintOptions {
    PrintOptions { format: PrintFormat::Automatic, maxrows: MaxRows::Limited(40), color: true }
}

#[test]
fn automatic_format_becomes_table() {
    let settled = AdjustedPrintOptions::new(session()).into_inner();
    assert_eq!(
        settled,
        PrintOptions { format: PrintFormat::Table, maxrows: MaxRows::Limited(40), color: true }
    );
}

#[test]
fn picked_format_stays() {
    let options = PrintOptions { format: PrintFormat::NdJson, ..session() };
    assert_eq!(AdjustedPrintOptions::new(options).into_inner(), options);
}

#[test]
fn show_lifts_the_row_limit() {
    let adjusted = AdjustedPrintOptions::new(session()).with_statement(StatementKind::ShowVariable);
    assert_eq!(adjusted.inner, PrintOptions { maxrows: MaxRows::Unlimited, ..session() });
    for kind in [
        StatementKind::OtherSql,
        StatementKind::CreateExternalTable,
        StatementKind::CopyTo,
        StatementKind::Explain,
    ] {
        assert_eq!(AdjustedPrintOptions::new(session()).with_statement(kind).inner, session());
    }
}

#[test]
fn some_plans_lift_the_row_limit() {
    let plans: Vec<PlanShape<String, ()>> =
        vec![PlanShape::Explain, PlanShape::DescribeTable, PlanShape::Analyze];
    for plan in plans {
        let adjusted = AdjustedPrintOptions::new(session()).with_plan(&plan);
        assert_eq!(adjusted.inner.maxrows, MaxRows::Unlimited);
        assert_eq!(adjusted.into_inner().format, PrintFormat::Table);
    }
    let plan: PlanShape<String, ()> = PlanShape::Other;
    assert_eq!(AdjustedPrintOptions::new(session()).with_plan(&plan).inner, session());
}

#[test]
fn adjustments_in_either_order() {
    let plan: PlanShape<String, ()> = PlanShape::Analyze;
    let kind = StatementKind::ShowVariable;
    let one = AdjustedPrintOptions::new(session()).with_statement(kind).with_plan(&plan);
    let other = AdjustedPrintOptions::new(session()).with_plan(&plan).with_statement(kind);
    assert_eq!(one, other);
}
