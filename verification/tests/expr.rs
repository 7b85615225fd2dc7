//! The translation of plan expressions.

use std::sync::Arc;

use datafusion::arrow::array::{Int64Array, StringArray};
use datafusion::arrow::datatypes::DataType;
use datafusion::common::ScalarValue;
use datafusion::logical_expr::{Expr, Operator};
use datafusion::prelude::{col, lit};
use fedqrs::error::PlanError;
use fedqrs::expr::{
    count_keys, data_type, in_list_filter, key_count, literal_from_array, to_df_expr, to_df_list,
    KeyArray,
};
use fedqrs::ir::{IrExpr, LiteralValue, WhenThen};

fn column(name: &str) -> IrExpr {
    IrExpr::Column { relation: None, name: name.to_string() }
}

fn number(value: i64) -> IrExpr {
    IrExpr::Literal { value: LiteralValue::Int { value } }
}

fn text(value: &str) -> IrExpr {
    IrExpr::Literal { value: LiteralValue::Str { value: value.to_string() } }
}

fn binary(op: &str, left: IrExpr, right: IrExpr) -> IrExpr {
    IrExpr::Binary { op: op.to_string(), left: Box::new(left), right: Box::new(right) }
}

fn unary(op: &str, operand: IrExpr) -> IrExpr {
    IrExpr::Unary { op: op.to_string(), operand: Box::new(operand) }
}

fn cast(expr: IrExpr, to: &str) -> IrExpr {
    IrExpr::Cast { expr: Box::new(expr), to: to.to_string() }
}

fn call(name: &str, args: Vec<IrExpr>) -> IrExpr {
    IrExpr::Function { name: name.to_string(), args }
}

fn refusal(e: &IrExpr) -> String {
    match to_df_expr(e) {
        Err(PlanError::Plan(message)) => message,
        other => panic!("expected a planning error, got {other:?}"),
    }
}

#[test]
fn translates_binary_comparison() {
    let e = binary(
        "=",
        IrExpr::Column { relation: Some("t".to_string()), name: "a".to_string() },
        number(1),
    );
    assert!(matches!(to_df_expr(&e).unwrap(), Expr::BinaryExpr(_)));
    assert_eq!(to_df_expr(&e).unwrap(), col("t.a").eq(lit(1i64)));
}

#[test]
fn rejects_unsupported_operator() {
    let e = binary("~~", column("a"), column("b"));
    assert!(to_df_expr(&e).is_err());
    assert_eq!(refusal(&e), "unsupported binary operator '~~'");
}

#[test]
fn cast_and_is_null() {
    let e = cast(column("a"), "int64");
    assert!(matches!(to_df_expr(&e).unwrap(), Expr::Cast(_)));
    let isnull = IrExpr::IsNull { expr: Box::new(column("a")), negated: true };
    assert!(to_df_expr(&isnull).is_ok());
    assert_eq!(to_df_expr(&isnull).unwrap(), col("a").is_not_null());
    let isnull = IrExpr::IsNull { expr: Box::new(column("a")), negated: false };
    assert_eq!(to_df_expr(&isnull).unwrap(), col("a").is_null());
}

#[test]
fn rejects_unknown_cast_type() {
    let e = cast(column("a"), "jsonb");
    assert!(to_df_expr(&e).is_err());
    assert_eq!(refusal(&e), "unsupported cast target type 'jsonb'");
}

#[test]
fn every_operator_has_its_counterpart() {
    let pairs = [
        ("+", Operator::Plus),
        ("-", Operator::Minus),
        ("*", Operator::Multiply),
        ("/", Operator::Divide),
        ("%", Operator::Modulo),
        ("=", Operator::Eq),
        ("!=", Operator::NotEq),
        ("<>", Operator::NotEq),
        ("<", Operator::Lt),
        ("<=", Operator::LtEq),
        (">", Operator::Gt),
        (">=", Operator::GtEq),
        ("and", Operator::And),
        ("or", Operator::Or),
        ("like", Operator::LikeMatch),
        ("ilike", Operator::ILikeMatch),
        ("is_distinct_from", Operator::IsDistinctFrom),
        ("is_not_distinct_from", Operator::IsNotDistinctFrom),
    ];
    for (name, op) in pairs {
        match to_df_expr(&binary(name, column("a"), column("b"))).unwrap() {
            Expr::BinaryExpr(b) => assert_eq!(b.op, op),
            other => panic!("{other}"),
        }
    }
}

#[test]
fn every_cast_target_has_its_type() {
    let pairs = [
        ("int16", DataType::Int16),
        ("int32", DataType::Int32),
        ("int64", DataType::Int64),
        ("float32", DataType::Float32),
        ("float64", DataType::Float64),
        ("utf8", DataType::Utf8),
        ("string", DataType::Utf8),
        ("boolean", DataType::Boolean),
        ("bool", DataType::Boolean),
        ("date32", DataType::Date32),
    ];
    for (name, expected) in pairs {
        assert_eq!(data_type(name).unwrap(), expected);
    }
    assert!(data_type("Int64").is_err());
}

#[test]
fn literals_keep_their_value() {
    let literal = |value: LiteralValue| to_df_expr(&IrExpr::Literal { value }).unwrap();
    assert_eq!(literal(LiteralValue::Int { value: -3 }), lit(-3i64));
    assert_eq!(literal(LiteralValue::Float { bits: 2.5f64.to_bits() }), lit(2.5f64));
    assert_eq!(literal(LiteralValue::Str { value: "it's".to_string() }), lit("it's"));
    assert_eq!(literal(LiteralValue::Bool { value: true }), lit(true));
    assert_eq!(literal(LiteralValue::Null), lit(ScalarValue::Null));
}

#[test]
fn unary_operators() {
    assert_eq!(
        to_df_expr(&unary("not", column("a"))).unwrap(),
        Expr::Not(Box::new(col("a")))
    );
    assert_eq!(
        to_df_expr(&unary("neg", column("a"))).unwrap(),
        Expr::Negative(Box::new(col("a")))
    );
    assert_eq!(
        to_df_expr(&unary("-", column("a"))).unwrap(),
        Expr::Negative(Box::new(col("a")))
    );
    assert_eq!(refusal(&unary("!", column("a"))), "unsupported unary operator '!'");
}

#[test]
fn case_branches_keep_their_order() {
    let branch = |when: IrExpr, result: IrExpr| WhenThen { when, result };
    let e = IrExpr::Case {
        operand: Some(Box::new(column("a"))),
        whens: vec![branch(number(1), text("one")), branch(number(2), text("two"))],
        else_expr: Some(Box::new(text("many"))),
    };
    match to_df_expr(&e).unwrap() {
        Expr::Case(case) => {
            assert_eq!(*case.expr.unwrap(), col("a"));
            assert_eq!(case.when_then_expr.len(), 2);
            assert_eq!(*case.when_then_expr[0].0, lit(1i64));
            assert_eq!(*case.when_then_expr[0].1, lit("one"));
            assert_eq!(*case.when_then_expr[1].0, lit(2i64));
            assert_eq!(*case.when_then_expr[1].1, lit("two"));
            assert_eq!(*case.else_expr.unwrap(), lit("many"));
        }
        other => panic!("{other}"),
    }
}

#[test]
fn in_lists_keep_their_order() {
    let e = IrExpr::InList {
        expr: Box::new(column("a")),
        list: vec![number(3), number(1), number(2)],
        negated: true,
    };
    let expected = col("a").in_list(vec![lit(3i64), lit(1i64), lit(2i64)], true);
    assert_eq!(to_df_expr(&e).unwrap(), expected);
}

#[test]
fn functions_resolve_by_name_and_alias() {
    match to_df_expr(&call("substr", vec![column("a"), number(1)])).unwrap() {
        Expr::ScalarFunction(f) => {
            assert_eq!(f.func.name(), "substr");
            assert_eq!(f.args.len(), 2);
        }
        other => panic!("{other}"),
    }
    // an alias of `substr`
    match to_df_expr(&call("substring", vec![column("a"), number(1)])).unwrap() {
        Expr::ScalarFunction(f) => assert_eq!(f.func.name(), "substr"),
        other => panic!("{other}"),
    }
    // an aggregate may stand inside a larger expression
    match to_df_expr(&call("sum", vec![column("a")])).unwrap() {
        Expr::AggregateFunction(f) => {
            assert_eq!(f.func.name(), "sum");
            assert_eq!(f.params.args, vec![col("a")]);
            assert!(!f.params.distinct && f.params.filter.is_none());
        }
        other => panic!("{other}"),
    }
    assert_eq!(refusal(&call("no_such", vec![])), "function 'no_such' not supported");
}

#[test]
fn the_first_fault_is_reported() {
    // operands come before the operator, arguments before the function
    let e = binary("~~", unary("!", column("a")), cast(column("b"), "jsonb"));
    assert_eq!(refusal(&e), "unsupported unary operator '!'");
    let e = call("no_such", vec![cast(column("b"), "jsonb")]);
    assert_eq!(refusal(&e), "unsupported cast target type 'jsonb'");
    // a fault deep inside is not lost
    let e = binary("and", column("a"), unary("not", binary("=", column("b"), call("f", vec![]))));
    assert_eq!(refusal(&e), "function 'f' not supported");
}

#[test]
fn lists_are_translated_in_order() {
    let exprs = to_df_list(&vec![column("a"), number(1)]).unwrap();
    assert_eq!(exprs, vec![col("a"), lit(1i64)]);
    assert!(to_df_list(&vec![column("a"), unary("!", number(1))]).is_err());
}

#[test]
fn key_values_become_literals() {
    let keys = KeyArray { array: Arc::new(Int64Array::from(vec![Some(1), None, Some(5)])) };
    assert_eq!(key_count(&keys), 3);
    assert_eq!(literal_from_array(&keys, 0).unwrap(), lit(1i64));
    assert_eq!(literal_from_array(&keys, 1).unwrap(), lit(ScalarValue::Int64(None)));
    assert_eq!(literal_from_array(&keys, 2).unwrap(), lit(5i64));
}

#[test]
fn key_lists_run_over_all_batches() {
    let keys = vec![
        KeyArray { array: Arc::new(StringArray::from(vec!["a", "b"])) },
        KeyArray { array: Arc::new(StringArray::from(Vec::<&str>::new())) },
        KeyArray { array: Arc::new(StringArray::from(vec!["c"])) },
    ];
    assert_eq!(count_keys(&keys), Some(3));
    let filter = in_list_filter(&keys, "K").unwrap();
    match filter {
        Expr::InList(list) => {
            match *list.expr {
                // the name is kept as it is, not folded to lower case
                Expr::Column(c) => {
                    assert_eq!(c.name, "K");
                    assert!(c.relation.is_none());
                }
                other => panic!("{other}"),
            }
            assert_eq!(list.list, vec![lit("a"), lit("b"), lit("c")]);
            assert!(!list.negated);
        }
        other => panic!("{other}"),
    }
}
