//! The pieces of local operators.

use datafusion::arrow::datatypes::DataType;
use datafusion::common::JoinType;
use datafusion::prelude::{col, lit};
use fedqrs::error::PlanError;
use fedqrs::fragment::{
    aggregate_sql, call_sql, datafusion_join_type, group_by_clause, guard_holds, guard_sql,
    join_condition, key_exprs, nullable_columns, output_columns, project_columns, render_agg, sort_keys,
    ColumnSpec,
};
use fedqrs::ir::{
    AggCall, AggSelectItem, IrExpr, JoinKind, LiteralValue, Projection, SortKey, WithinGroup,
};

fn column(name: &str) -> IrExpr {
    IrExpr::Column { relation: None, name: name.to_string() }
}

fn number(value: i64) -> IrExpr {
    IrExpr::Literal { value: LiteralValue::Int { value } }
}

fn unknown() -> IrExpr {
    IrExpr::Unary { op: "?".to_string(), operand: Box::new(column("a")) }
}

fn agg(func: &str, distinct: bool, args: Vec<IrExpr>) -> AggCall {
    AggCall { func: func.to_string(), distinct, star: false, args, within_group: None }
}

fn count_star() -> AggCall {
    AggCall {
        func: "COUNT".to_string(),
        distinct: false,
        star: true,
        args: vec![],
        within_group: None,
    }
}

fn item(expr: Option<IrExpr>, agg: Option<AggCall>, alias: &str) -> AggSelectItem {
    AggSelectItem { expr, agg, alias: alias.to_string() }
}

fn message<T: std::fmt::Debug>(outcome: Result<T, PlanError>) -> String {
    match outcome {
        Err(PlanError::Plan(message)) => message,
        other => panic!("expected a planning error, got {other:?}"),
    }
}

#[test]
fn aggregate_calls() {
    assert_eq!(render_agg(&count_star()).unwrap(), "COUNT(*)");
    assert_eq!(render_agg(&agg("sum", false, vec![column("x")])).unwrap(), "sum(x)");
    assert_eq!(
        render_agg(&agg("count", true, vec![column("x"), number(1)])).unwrap(),
        "count(DISTINCT x, 1)"
    );
    assert_eq!(message(render_agg(&agg("sum", false, vec![unknown()]))), "unsupported unary operator '?'");
    // a star counts rows and does not look at arguments
    let mut star = count_star();
    star.args = vec![unknown()];
    assert_eq!(render_agg(&star).unwrap(), "COUNT(*)");
}

#[test]
fn ordered_set_aggregates() {
    let mut call = agg("percentile_cont", false, vec![number(1)]);
    call.within_group = Some(WithinGroup { key: column("y"), desc: false });
    assert_eq!(
        render_agg(&call).unwrap(),
        "percentile_cont(1) WITHIN GROUP (ORDER BY y)"
    );
    call.within_group = Some(WithinGroup { key: column("y"), desc: true });
    assert_eq!(
        render_agg(&call).unwrap(),
        "percentile_cont(1) WITHIN GROUP (ORDER BY y DESC)"
    );
    assert_eq!(
        call_sql("f", true, "a, b", &Some(("k".to_string(), true))),
        "f(DISTINCT a, b) WITHIN GROUP (ORDER BY k DESC)"
    );
}

#[test]
fn group_by_clauses() {
    assert_eq!(group_by_clause(&vec![], &vec![]).unwrap(), "");
    assert_eq!(
        group_by_clause(&vec![column("a"), column("b")], &vec![]).unwrap(),
        " GROUP BY a, b"
    );
    let sets = vec![vec![column("a"), column("b")], vec![column("a")], vec![]];
    assert_eq!(
        group_by_clause(&vec![column("z")], &sets).unwrap(),
        " GROUP BY GROUPING SETS ((a, b), (a), ())"
    );
    assert!(group_by_clause(&vec![unknown()], &vec![]).is_err());
    // with grouping sets the plain keys are not looked at
    assert!(group_by_clause(&vec![unknown()], &sets).is_ok());
}

#[test]
fn aggregate_queries() {
    let select = vec![
        item(Some(column("g")), None, "g"),
        item(None, Some(count_star()), "n\"x"),
    ];
    assert_eq!(
        aggregate_sql(&select, &vec![column("g")], &vec![]).unwrap(),
        "SELECT g AS \"g\", COUNT(*) AS \"n\"\"x\" FROM \"in_0\" GROUP BY g"
    );
    // an aggregate call wins over an expression
    let both = vec![item(Some(unknown()), Some(count_star()), "n")];
    assert_eq!(
        aggregate_sql(&both, &vec![], &vec![]).unwrap(),
        "SELECT COUNT(*) AS \"n\" FROM \"in_0\""
    );
    let neither = vec![item(None, None, "n")];
    assert_eq!(
        message(aggregate_sql(&neither, &vec![unknown()], &vec![])),
        "aggregate select item has neither expr nor agg"
    );
}

#[test]
fn projections_have_distinct_internal_names() {
    let project: Vec<Projection> = (0..12)
        .map(|i| Projection { expr: number(i), alias: "same".to_string() })
        .collect();
    let columns = project_columns(&project).unwrap();
    assert_eq!(columns.len(), 12);
    assert_eq!(columns[0], lit(0i64).alias("__c0"));
    assert_eq!(columns[11], lit(11i64).alias("__c11"));
    for i in 0..12 {
        for j in 0..i {
            assert_ne!(columns[i].schema_name().to_string(), columns[j].schema_name().to_string());
        }
    }
    let bad = vec![Projection { expr: unknown(), alias: "a".to_string() }];
    assert_eq!(message(project_columns(&bad)), "unsupported unary operator '?'");
}

#[test]
fn sort_keys_keep_direction_and_nulls() {
    let keys = vec![
        SortKey { expr: column("a"), ascending: true, nulls_first: false },
        SortKey { expr: column("b"), ascending: false, nulls_first: true },
    ];
    let exprs = sort_keys(&keys).unwrap();
    assert_eq!(exprs, vec![col("a").sort(true, false), col("b").sort(false, true)]);
    let bad = vec![SortKey { expr: unknown(), ascending: true, nulls_first: false }];
    assert!(sort_keys(&bad).is_err());
}

#[test]
fn key_columns_leave_out_nulls() {
    let (not_null, column) = key_exprs("t.Key");
    assert_eq!(column, col("t.key"));
    assert_eq!(not_null, col("t.key").is_not_null());
    assert_eq!(key_exprs("\"Key\"").1, col("\"Key\""));
    assert_ne!(key_exprs("a").1, key_exprs("b").1);
}

#[test]
fn join_conditions_and_kinds() {
    assert!(join_condition(&None).unwrap().is_empty());
    assert_eq!(join_condition(&Some(column("a"))).unwrap(), vec![col("a")]);
    assert!(join_condition(&Some(unknown())).is_err());
    assert_eq!(datafusion_join_type(JoinKind::Inner), JoinType::Inner);
    assert_eq!(datafusion_join_type(JoinKind::Left), JoinType::Left);
    assert_eq!(datafusion_join_type(JoinKind::Right), JoinType::Right);
    assert_eq!(datafusion_join_type(JoinKind::Full), JoinType::Full);
    assert_eq!(datafusion_join_type(JoinKind::Semi), JoinType::LeftSemi);
    assert_eq!(datafusion_join_type(JoinKind::Anti), JoinType::LeftAnti);
}

#[test]
fn single_row_guard() {
    assert!(guard_sql(&vec![]).unwrap().is_none());
    assert_eq!(
        guard_sql(&vec![column("k0"), column("k1")]).unwrap(),
        Some(
            "SELECT 1 FROM \"in_0\" GROUP BY k0, k1 HAVING count(*) > 1 LIMIT 1".to_string()
        )
    );
    assert!(guard_sql(&vec![unknown()]).is_err());
    // without keys at most one row, with keys no repeated key
    assert!(guard_holds(false, 0).is_ok());
    assert!(guard_holds(false, 1).is_ok());
    assert_eq!(message(guard_holds(false, 2)), "scalar subquery returned more than one row");
    assert!(guard_holds(true, 0).is_ok());
    assert!(guard_holds(true, 1).is_err());
}

#[test]
fn result_schemas() {
    let spec = |name: &str, data_type: DataType, nullable: bool| ColumnSpec {
        name: name.to_string(),
        data_type,
        nullable,
    };
    let columns = vec![
        spec("__c0", DataType::Int64, false),
        spec("__c1", DataType::Decimal128(27, 2), true),
    ];
    let nullable = nullable_columns(&columns);
    assert_eq!(nullable.len(), 2);
    assert_eq!(nullable[0].name, "__c0");
    assert_eq!(nullable[0].data_type, DataType::Int64);
    assert!(nullable[0].nullable && nullable[1].nullable);
    assert_eq!(nullable[1].data_type, DataType::Decimal128(27, 2));

    let project: Vec<Projection> = ["a", "a", "b"]
        .iter()
        .map(|alias| Projection { expr: number(1), alias: alias.to_string() })
        .collect();
    let output = output_columns(&columns, &project);
    assert_eq!(output.len(), 2);
    assert_eq!((output[0].name.as_str(), output[1].name.as_str()), ("a", "a"));
    assert_eq!(output[0].data_type, DataType::Int64);
    assert!(!output[0].nullable && output[1].nullable);
}
