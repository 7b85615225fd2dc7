//! The SQL of scans.

use std::sync::Arc;

use datafusion::arrow::array::{ArrayRef, Int64Array, StructArray};
use datafusion::arrow::datatypes::{DataType, Field};
use datafusion::common::ScalarValue;
use datafusion::logical_expr::expr::WindowFunction;
use datafusion::logical_expr::{
    scalar_subquery, Expr, LogicalPlanBuilder, WindowFrame, WindowFrameBound, WindowFrameUnits,
    WindowFunctionDefinition,
};
use datafusion::prelude::{col, lit};
use fedqrs::error::PlanError;
use fedqrs::expr::to_df_expr;
use fedqrs::ir::{IrExpr, LiteralValue, ScanSpec};
use fedqrs::sql::{
    base_filter_sql, qualified_table, render_expr, restricted_sql, scan_sql, select_list_sql,
    select_sql, temp_join_sql, wrapped_sql,
};
use fedqrs::types::DsKind;

fn column(name: &str) -> IrExpr {
    IrExpr::Column { relation: None, name: name.to_string() }
}

fn number(value: i64) -> IrExpr {
    IrExpr::Literal { value: LiteralValue::Int { value } }
}

fn binary(op: &str, left: IrExpr, right: IrExpr) -> IrExpr {
    IrExpr::Binary { op: op.to_string(), left: Box::new(left), right: Box::new(right) }
}

fn table(schema: Option<&str>, name: &str, columns: &[&str]) -> ScanSpec {
    ScanSpec {
        schema: schema.map(|s| s.to_string()),
        table: Some(name.to_string()),
        columns: columns.iter().map(|c| c.to_string()).collect(),
        ..ScanSpec::default()
    }
}

fn raw(sql: &str) -> ScanSpec {
    ScanSpec { raw_sql: Some(sql.to_string()), ..ScanSpec::default() }
}

fn message(outcome: Result<String, PlanError>) -> String {
    match outcome {
        Err(PlanError::Plan(message)) => message,
        other => panic!("expected a planning error, got {other:?}"),
    }
}

#[test]
fn renders_columns_table_and_filter() {
    let mut s = table(Some("public"), "t", &["a", "b"]);
    s.filter = Some(binary(">", column("a"), number(5)));
    let sql = scan_sql(DsKind::Postgres, &s, None).unwrap();
    assert!(sql.starts_with("SELECT \"a\", \"b\" FROM \"public\".\"t\""), "{sql}");
    assert!(sql.contains("WHERE"), "{sql}");
    assert!(sql.contains('5'), "{sql}");
    assert_eq!(sql, "SELECT \"a\", \"b\" FROM \"public\".\"t\" WHERE (\"a\" > 5)");
}

#[test]
fn raw_sql_passes_through_and_wraps_for_injection() {
    let s = raw("SELECT 1 AS x");
    assert_eq!(scan_sql(DsKind::Postgres, &s, None).unwrap(), "SELECT 1 AS x");
    // a dynamic filter wraps the opaque SQL and filters its outputs
    let sql = scan_sql(DsKind::Postgres, &s, Some(lit(true))).unwrap();
    assert!(sql.starts_with("SELECT * FROM (SELECT 1 AS x) AS \"fedq_probe\" WHERE"), "{sql}");
    assert_eq!(sql, "SELECT * FROM (SELECT 1 AS x) AS \"fedq_probe\" WHERE true");
}

#[test]
fn temp_join_wraps_a_raw_sql_probe() {
    let s = raw("SELECT l FROM t");
    let sql = temp_join_sql(DsKind::DuckDb, &s, "keys_tmp", "k", "l").unwrap();
    assert_eq!(
        sql,
        "SELECT * FROM (SELECT l FROM t) AS \"fedq_probe\" \
         WHERE \"l\" IN (SELECT \"k\" FROM \"keys_tmp\")"
    );
}

#[test]
fn temp_join_is_a_membership_semijoin() {
    let s = table(Some("public"), "probe", &["id", "v"]);
    let sql = temp_join_sql(DsKind::Postgres, &s, "keys_tmp", "k", "id").unwrap();
    assert!(sql.contains("FROM \"public\".\"probe\""), "{sql}");
    assert!(sql.contains("\"id\" IN (SELECT \"k\" FROM \"keys_tmp\")"), "{sql}");
    assert_eq!(
        sql,
        "SELECT \"id\", \"v\" FROM \"public\".\"probe\" \
         WHERE \"id\" IN (SELECT \"k\" FROM \"keys_tmp\")"
    );
}

#[test]
fn base_filter_and_select_list_helpers() {
    let s = table(None, "t", &["a", "b"]);
    assert_eq!(select_list_sql(&s), "\"a\", \"b\"");
    assert!(base_filter_sql(DsKind::Postgres, &s).unwrap().is_none());
}

#[test]
fn all_parts_of_a_scan_are_rendered() {
    let mut s = table(Some("s"), "t", &["a"]);
    s.alias = Some("x".to_string());
    s.distinct = true;
    s.limit = Some(10);
    s.filter = Some(binary("=", column("b"), number(1)));
    assert_eq!(
        scan_sql(DsKind::Postgres, &s, None).unwrap(),
        "SELECT DISTINCT \"a\" FROM \"s\".\"t\" AS \"x\" WHERE (\"b\" = 1) LIMIT 10"
    );
}

#[test]
fn static_and_dynamic_filters_are_both_applied() {
    let mut s = table(None, "t", &["a"]);
    s.filter = Some(binary("=", column("b"), number(1)));
    let keys = col("a").in_list(vec![lit(7i64), lit(8i64)], false);
    assert_eq!(
        scan_sql(DsKind::Postgres, &s, Some(keys.clone())).unwrap(),
        "SELECT \"a\" FROM \"t\" WHERE ((\"b\" = 1) AND \"a\" IN (7, 8))"
    );
    s.filter = None;
    assert_eq!(
        scan_sql(DsKind::Postgres, &s, Some(keys)).unwrap(),
        "SELECT \"a\" FROM \"t\" WHERE \"a\" IN (7, 8)"
    );
}

#[test]
fn the_dialect_follows_the_source() {
    let mut s = table(None, "t", &["a"]);
    s.filter = Some(binary("=", column("b"), number(1)));
    assert_eq!(
        scan_sql(DsKind::DuckDb, &s, None).unwrap(),
        "SELECT \"a\" FROM \"t\" WHERE (b = 1)"
    );
    assert_eq!(
        scan_sql(DsKind::Parquet, &s, None).unwrap(),
        "SELECT \"a\" FROM \"t\" WHERE (b = 1)"
    );
    assert_eq!(
        base_filter_sql(DsKind::Postgres, &s).unwrap(),
        Some("(\"b\" = 1)".to_string())
    );
    assert_eq!(render_expr(&col("b").eq(lit(1i64))).unwrap(), "(b = 1)");
}

#[test]
fn scans_that_say_too_little_are_refused() {
    let nothing = ScanSpec::default();
    assert_eq!(
        message(scan_sql(DsKind::Postgres, &nothing, None)),
        "structured scan needs a 'table'"
    );
    assert_eq!(
        message(temp_join_sql(DsKind::Postgres, &nothing, "k", "k", "a")),
        "temp-join needs a structured table"
    );
    let no_columns = table(None, "t", &[]);
    assert_eq!(
        message(scan_sql(DsKind::Postgres, &no_columns, None)),
        "scan of 't' has no output columns"
    );
    assert_eq!(
        message(temp_join_sql(DsKind::Postgres, &no_columns, "k", "k", "a")),
        "temp-join scan has no columns"
    );
    let mut bad_filter = table(None, "t", &["a"]);
    bad_filter.filter = Some(binary("~~", column("a"), number(1)));
    assert_eq!(
        message(scan_sql(DsKind::Postgres, &bad_filter, None)),
        "unsupported binary operator '~~'"
    );
    assert!(base_filter_sql(DsKind::Postgres, &bad_filter).is_err());
}

#[test]
fn an_expression_without_sql_is_refused() {
    let bytes = lit(ScalarValue::Binary(Some(vec![1, 2])));
    assert!(matches!(render_expr(&bytes), Err(PlanError::DataFusion(_))));
    let s = table(None, "t", &["a"]);
    let filter = col("a").eq(bytes.clone());
    assert!(matches!(scan_sql(DsKind::Postgres, &s, Some(filter)), Err(PlanError::DataFusion(_))));
    let wrapped = scan_sql(DsKind::DuckDb, &raw("SELECT 1"), Some(bytes));
    assert!(matches!(wrapped, Err(PlanError::DataFusion(_))));
}

#[test]
fn temp_join_keeps_the_static_filter() {
    let mut s = table(None, "t", &["a"]);
    s.filter = Some(binary("<", column("b"), number(3)));
    s.alias = Some("x".to_string());
    assert_eq!(
        temp_join_sql(DsKind::Postgres, &s, "keys", "k", "a").unwrap(),
        "SELECT \"a\" FROM \"t\" AS \"x\" \
         WHERE (\"b\" < 3) AND \"a\" IN (SELECT \"k\" FROM \"keys\")"
    );
}

#[test]
fn temp_join_keeps_distinct_and_limit() {
    let mut s = table(None, "t", &["a"]);
    s.distinct = true;
    assert_eq!(
        temp_join_sql(DsKind::Postgres, &s, "keys_tmp", "k", "a").unwrap(),
        "SELECT DISTINCT \"a\" FROM \"t\" WHERE \"a\" IN (SELECT \"k\" FROM \"keys_tmp\")"
    );
    s.limit = Some(7);
    s.filter = Some(binary("<", column("b"), number(3)));
    assert_eq!(
        temp_join_sql(DsKind::Postgres, &s, "keys_tmp", "k", "a").unwrap(),
        "SELECT DISTINCT \"a\" FROM \"t\" \
         WHERE (\"b\" < 3) AND \"a\" IN (SELECT \"k\" FROM \"keys_tmp\") LIMIT 7"
    );
}

const UNDRAWABLE: &str = "expression holds a value or a subquery without SQL";

fn pair() -> ScalarValue {
    let field = Arc::new(Field::new("a", DataType::Int64, false));
    let values: ArrayRef = Arc::new(Int64Array::from(vec![1]));
    ScalarValue::Struct(Arc::new(StructArray::from(vec![(field, values)])))
}

/// A call of the function that reads a field, with any arguments.
fn get_field(args: Vec<Expr>) -> Expr {
    let named = IrExpr::Function { name: "get_field".to_string(), args: vec![] };
    match to_df_expr(&named).unwrap() {
        Expr::ScalarFunction(call) => call.func.call(args),
        other => panic!("{other:?}"),
    }
}

/// `count(1)` over the rows from `start` rows back.
fn count_over(start: ScalarValue) -> Expr {
    let named = IrExpr::Function { name: "count".to_string(), args: vec![] };
    let function = match to_df_expr(&named).unwrap() {
        Expr::AggregateFunction(call) => call.func,
        other => panic!("{other:?}"),
    };
    let mut window =
        WindowFunction::new(WindowFunctionDefinition::AggregateUDF(function), vec![lit(1)]);
    window.params.partition_by = vec![col("a")];
    window.params.window_frame = WindowFrame::new_bounds(
        WindowFrameUnits::Rows,
        WindowFrameBound::Preceding(start),
        WindowFrameBound::CurrentRow,
    );
    Expr::from(window)
}

#[test]
fn ordinary_expressions_are_drawn() {
    let drawn = |e: Expr| render_expr(&e).unwrap();
    assert_eq!(drawn(lit(ScalarValue::Decimal128(Some(12_345), 5, 3))), "12.345");
    assert_eq!(drawn(lit(ScalarValue::Decimal128(Some(12), 2, -2))), "1200");
    assert_eq!(drawn(col("a").between(lit(1), lit(2))), "(a BETWEEN 1 AND 2)");
    assert_eq!(drawn(col("a").like(lit("x%"))), "a LIKE 'x%'");
    assert_eq!(drawn(col("s.t.a").is_true()), "t.a IS TRUE");
    assert_eq!(drawn(lit(true).alias("b")), "true");
    assert_eq!(
        drawn(lit(ScalarValue::Date64(Some(0)))),
        "CAST('1970-01-01 00:00:00' AS DATETIME)"
    );
    let list = ScalarValue::new_list_nullable(
        &[ScalarValue::Int64(Some(1)), ScalarValue::Int64(Some(2))],
        &DataType::Int64,
    );
    assert_eq!(drawn(lit(ScalarValue::List(list))), "[1, 2]");
    let keyed = ScalarValue::Dictionary(
        Box::new(DataType::Int32),
        Box::new(ScalarValue::Utf8(Some("k".to_string()))),
    );
    assert_eq!(drawn(lit(keyed)), "'k'");
    assert_eq!(drawn(get_field(vec![col("a"), lit("b")])), "a.b");
    assert_eq!(
        drawn(count_over(ScalarValue::UInt64(Some(2)))),
        "count(1) OVER (PARTITION BY a ROWS BETWEEN 2 PRECEDING AND CURRENT ROW)"
    );
}

#[test]
fn expressions_without_sql_are_refused() {
    let refused = |e: Expr| message(render_expr(&e));
    let ill_scaled = || ScalarValue::Decimal128(Some(12_345), 1, 3);
    assert_eq!(refused(lit(ill_scaled())), UNDRAWABLE);
    assert_eq!(refused(col("a").in_list(vec![lit(1), lit(pair())], false)), UNDRAWABLE);
    let keyed = ScalarValue::Dictionary(Box::new(DataType::Int32), Box::new(ill_scaled()));
    assert_eq!(refused(lit(keyed).alias("k").is_null()), UNDRAWABLE);
    let list = ScalarValue::new_list_nullable(&[pair()], &pair().data_type());
    assert_eq!(refused(lit(ScalarValue::List(list))), UNDRAWABLE);
    // a date that cannot be printed, where it may have to be
    let date = ScalarValue::Date64(Some(i64::MIN));
    assert_eq!(refused(get_field(vec![col("a"), lit(date.clone())])), UNDRAWABLE);
    // where it need not be, the unparser refuses it
    assert!(matches!(render_expr(&lit(date)), Err(PlanError::DataFusion(_))));
    let plan = LogicalPlanBuilder::empty(true).build().unwrap();
    assert_eq!(refused(count_over(pair())), UNDRAWABLE);
    assert_eq!(refused(scalar_subquery(Arc::new(plan))), UNDRAWABLE);
}

#[test]
fn scans_are_checked_before_their_dynamic_filter() {
    let filter = || Some(lit(pair()));
    let mut s = table(None, "t", &["a"]);
    assert_eq!(message(scan_sql(DsKind::Postgres, &s, filter())), UNDRAWABLE);
    assert_eq!(message(scan_sql(DsKind::DuckDb, &raw("SELECT 1"), filter())), UNDRAWABLE);
    s.filter = Some(binary("<", column("b"), number(3)));
    assert_eq!(message(scan_sql(DsKind::Postgres, &s, filter())), UNDRAWABLE);
    s.filter = Some(binary("nope", column("b"), number(3)));
    assert_eq!(
        message(scan_sql(DsKind::Postgres, &s, filter())),
        "unsupported binary operator 'nope'"
    );
    s.columns.clear();
    assert_eq!(
        message(scan_sql(DsKind::Postgres, &s, filter())),
        "scan of 't' has no output columns"
    );
    s.table = None;
    assert_eq!(
        message(scan_sql(DsKind::Postgres, &s, filter())),
        "structured scan needs a 'table'"
    );
}

#[test]
fn names_with_quotes_stay_one_name() {
    let s = table(Some("my\"schema"), "ta\"\"ble", &["a\"", "b, c"]);
    assert_eq!(
        scan_sql(DsKind::Postgres, &s, None).unwrap(),
        "SELECT \"a\"\"\", \"b, c\" FROM \"my\"\"schema\".\"ta\"\"\"\"ble\""
    );
    assert_eq!(qualified_table(&None, "t"), "\"t\"");
    assert_eq!(qualified_table(&Some("a.b".to_string()), "c"), "\"a.b\".\"c\"");
    assert_ne!(
        qualified_table(&Some("a".to_string()), "b"),
        qualified_table(&None, "a\".\"b")
    );
}

#[test]
fn texts_around_a_rendered_condition() {
    let mut s = table(None, "t", &["a"]);
    s.limit = Some(0);
    let condition = Some("x > 1".to_string());
    assert_eq!(
        select_sql(&s, "t", &condition),
        "SELECT \"a\" FROM \"t\" WHERE x > 1 LIMIT 0"
    );
    assert_eq!(select_sql(&s, "t", &None), "SELECT \"a\" FROM \"t\" LIMIT 0");
    assert_eq!(restricted_sql(&condition, "m"), "x > 1 AND m");
    assert_eq!(restricted_sql(&None, "m"), "m");
    assert_eq!(
        wrapped_sql("SELECT 1", "c"),
        "SELECT * FROM (SELECT 1) AS \"fedq_probe\" WHERE c"
    );
}

#[test]
fn column_lists_tell_columns_apart() {
    let list = |columns: &[&str]| select_list_sql(&table(None, "t", columns));
    assert_eq!(list(&["a, b"]), "\"a, b\"");
    assert_ne!(list(&["a, b"]), list(&["a", "b"]));
    assert_ne!(list(&["a\", \"b"]), list(&["a", "b"]));
}
