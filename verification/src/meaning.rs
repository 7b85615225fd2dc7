//! What expressions mean.
//!
//! An expression has a value on a row. What columns, scalars, operators and
//! functions are worth is left to a `Domain`; what is made of their values is
//! fixed here: three-valued truth, membership in a list and the choice of a
//! CASE branch. The value of a plan's expression is told of the plan alone, the
//! value of a DataFusion expression of its nodes alone, and the translation is
//! shown to keep the value, whatever the domain.

use datafusion::arrow::datatypes::DataType;
use datafusion::common::ScalarValue;
use datafusion::common::TableReference;
use datafusion::logical_expr::AggregateUDF;
use datafusion::logical_expr::Expr;
use datafusion::logical_expr::Operator;
use datafusion::logical_expr::ScalarUDF;
use vstd::prelude::*;

use crate::expr::{
    aggregate_aliases, aggregate_entry, aggregate_name, all_names, answers_to, bool_scalar, called,
    data_type_of, default_aggregate, default_scalar, double_scalar, int_scalar, membership,
    null_scalar, opt_shape, operator_of, pair_shapes, registered, resolved, scalar_aliases, scalar_entry,
    scalar_name, shape, shapes, text_scalar, translated, translated_list, translated_opt,
    translated_whens, ExprShape,
};
use crate::error::Fault;
use crate::ir::{opt_text, IrExpr, LiteralValue, WhenThen};

verus! {

/// Values of type `V`, and what the leaves and operations of an expression are
/// worth among them.
#[verifier::reject_recursive_types(V)]
pub struct Domain<V> {
    /// The value of a column, by its relation and name.
    pub column: spec_fn(Option<Seq<char>>, Seq<char>) -> V,
    /// The value of a scalar.
    pub scalar: spec_fn(ScalarValue) -> V,
    /// The value of an operator between two values.
    pub binary: spec_fn(Operator, V, V) -> V,
    /// The negative of a value.
    pub negative: spec_fn(V) -> V,
    /// A value as one of another type.
    pub cast: spec_fn(V, DataType) -> V,
    /// The value of a call of a scalar function.
    pub scalar_call: spec_fn(ScalarUDF, Seq<V>) -> V,
    /// The value of a call of an aggregate function.
    pub aggregate_call: spec_fn(AggregateUDF, Seq<V>) -> V,
    /// The value of an expression of another kind.
    pub other: spec_fn(Expr) -> V,
    /// The NULL.
    pub null: V,
    /// A value as a condition: true, false or unknown.
    pub truth: spec_fn(V) -> Option<bool>,
    /// A condition as a value.
    pub answer: spec_fn(Option<bool>) -> V,
    /// Whether two values are equal.
    pub equal: spec_fn(V, V) -> Option<bool>,
}

// Three-valued truth.

/// True for false, false for true, and unknown for unknown.
pub open spec fn negation(t: Option<bool>) -> Option<bool> {
    match t {
        Some(b) => Some(!b),
        None => None,
    }
}

/// Whether a value is among items: it is when it equals one, it is not when it
/// differs from all, and otherwise this is unknown.
pub open spec fn member<V>(d: Domain<V>, value: V, items: Seq<V>) -> Option<bool> {
    if exists|i: int| 0 <= i < items.len() && (d.equal)(value, #[trigger] items[i]) == Some(true) {
        Some(true)
    } else if forall|i: int|
        0 <= i < items.len() ==> (d.equal)(value, #[trigger] items[i]) == Some(false) {
        Some(false)
    } else {
        None
    }
}

/// Membership, or for NOT IN its negation.
pub open spec fn membership_value<V>(d: Domain<V>, value: V, items: Seq<V>, negated: bool) -> V {
    (d.answer)(
        if negated {
            negation(member(d, value, items))
        } else {
            member(d, value, items)
        },
    )
}

/// Whether a value is NULL, or for NOT NULL whether it is not.
pub open spec fn null_test<V>(d: Domain<V>, value: V, negated: bool) -> V {
    (d.answer)(Some((value == d.null) != negated))
}

/// The value of a CASE: that of the first branch whose condition is true, or
/// whose value equals the operand where there is one; else what stands behind
/// ELSE; else NULL.
pub open spec fn case_value<V>(
    d: Domain<V>,
    operand: Option<V>,
    branches: Seq<(V, V)>,
    otherwise: Option<V>,
) -> V
    decreases branches.len(),
{
    if branches.len() == 0 {
        match otherwise {
            Some(v) => v,
            None => d.null,
        }
    } else {
        let taken = match operand {
            Some(o) => (d.equal)(o, branches[0].0),
            None => (d.truth)(branches[0].0),
        };
        if taken == Some(true) {
            branches[0].1
        } else {
            case_value(d, operand, branches.skip(1), otherwise)
        }
    }
}

// The value of a plan's expression.

/// The value of a plan's expression, `None` for one that is not understood.
pub open spec fn plan_value<V>(e: IrExpr, d: Domain<V>) -> Option<V>
    decreases e,
{
    match e {
        IrExpr::Column { relation, name } => Some((d.column)(opt_text(relation), name@)),
        IrExpr::Literal { value } => Some(
            (d.scalar)(
                match value {
                    LiteralValue::Int { value } => int_scalar(value),
                    LiteralValue::Float { bits } => double_scalar(bits),
                    LiteralValue::Str { value } => text_scalar(value@),
                    LiteralValue::Bool { value } => bool_scalar(value),
                    LiteralValue::Null => null_scalar(DataType::Null),
                },
            ),
        ),
        IrExpr::Binary { op, left, right } => match (
            plan_value(*left, d),
            plan_value(*right, d),
            operator_of(op@),
        ) {
            (Some(l), Some(r), Some(o)) => Some((d.binary)(o, l, r)),
            _ => None,
        },
        IrExpr::Unary { op, operand } => match plan_value(*operand, d) {
            Some(v) => if op@ == "not"@ {
                Some((d.answer)(negation((d.truth)(v))))
            } else if op@ == "neg"@ || op@ == "-"@ {
                Some((d.negative)(v))
            } else {
                None
            },
            None => None,
        },
        IrExpr::Cast { expr, to } => match (plan_value(*expr, d), data_type_of(to@)) {
            (Some(v), Some(t)) => Some((d.cast)(v, t)),
            _ => None,
        },
        IrExpr::Case { operand, whens, else_expr } => match (
            plan_value_opt(operand, d),
            plan_value_whens(whens@, d),
            plan_value_opt(else_expr, d),
        ) {
            (Some(o), Some(w), Some(x)) => Some(case_value(d, o, w, x)),
            _ => None,
        },
        IrExpr::InList { expr, list, negated } => match (
            plan_value(*expr, d),
            plan_values(list@, d),
        ) {
            (Some(v), Some(items)) => Some(membership_value(d, v, items, negated)),
            _ => None,
        },
        IrExpr::IsNull { expr, negated } => match plan_value(*expr, d) {
            Some(v) => Some(null_test(d, v, negated)),
            None => None,
        },
        IrExpr::Function { name, args } => match plan_values(args@, d) {
            Some(values) => match resolved(|i: int| scalar_entry(i), name@) {
                Some(f) => Some((d.scalar_call)(f, values)),
                None => match resolved(|i: int| aggregate_entry(i), name@) {
                    Some(f) => Some((d.aggregate_call)(f, values)),
                    None => None,
                },
            },
            None => None,
        },
    }
}

/// The value of an optional expression of a plan: one of none, or of the
/// expression; `None` where it is not understood.
pub open spec fn plan_value_opt<V>(e: Option<Box<IrExpr>>, d: Domain<V>) -> Option<Option<V>>
    decreases e,
{
    match e {
        None => Some(None),
        Some(x) => match plan_value(*x, d) {
            Some(v) => Some(Some(v)),
            None => None,
        },
    }
}

/// The values of a list of a plan's expressions, in order.
pub open spec fn plan_values<V>(list: Seq<IrExpr>, d: Domain<V>) -> Option<Seq<V>>
    decreases list,
{
    if list.len() == 0 {
        Some(Seq::empty())
    } else {
        match (plan_values(list.drop_last(), d), plan_value(list.last(), d)) {
            (Some(head), Some(v)) => Some(head.push(v)),
            _ => None,
        }
    }
}

/// The values of CASE branches of a plan, in order.
pub open spec fn plan_value_whens<V>(list: Seq<WhenThen>, d: Domain<V>) -> Option<Seq<(V, V)>>
    decreases list,
{
    if list.len() == 0 {
        Some(Seq::empty())
    } else {
        match (
            plan_value_whens(list.drop_last(), d),
            plan_value(list.last().when, d),
            plan_value(list.last().result, d),
        ) {
            (Some(head), Some(w), Some(v)) => Some(head.push((w, v))),
            _ => None,
        }
    }
}

// The value of a DataFusion expression.

/// The value of a DataFusion expression.
pub open spec fn expr_value<V>(e: Expr, d: Domain<V>) -> V
    decreases e,
{
    match e {
        Expr::Column(c) => match c.relation {
            None => (d.column)(None, c.name@),
            Some(TableReference::Bare { table }) => (d.column)(Some((*table)@), c.name@),
            _ => (d.other)(e),
        },
        Expr::Literal(value, _) => (d.scalar)(value),
        Expr::BinaryExpr(b) => (d.binary)(
            b.op,
            expr_value(*b.left, d),
            expr_value(*b.right, d),
        ),
        Expr::Not(x) => (d.answer)(negation((d.truth)(expr_value(*x, d)))),
        Expr::Negative(x) => (d.negative)(expr_value(*x, d)),
        Expr::IsNull(x) => null_test(d, expr_value(*x, d), false),
        Expr::IsNotNull(x) => null_test(d, expr_value(*x, d), true),
        Expr::Cast(c) => (d.cast)(expr_value(*c.expr, d), c.data_type),
        Expr::Case(c) => case_value(
            d,
            expr_value_opt(c.expr, d),
            expr_value_pairs(c.when_then_expr@, d),
            expr_value_opt(c.else_expr, d),
        ),
        Expr::InList(l) => membership_value(
            d,
            expr_value(*l.expr, d),
            expr_values(l.list@, d),
            l.negated,
        ),
        Expr::ScalarFunction(f) => (d.scalar_call)(*f.func, expr_values(f.args@, d)),
        Expr::AggregateFunction(f) => if !f.params.distinct && f.params.filter is None
            && f.params.order_by@.len() == 0 {
            (d.aggregate_call)(*f.func, expr_values(f.params.args@, d))
        } else {
            (d.other)(e)
        },
        _ => (d.other)(e),
    }
}

/// The value of an optional expression.
pub open spec fn expr_value_opt<V>(e: Option<Box<Expr>>, d: Domain<V>) -> Option<V>
    decreases e,
{
    match e {
        None => None,
        Some(x) => Some(expr_value(*x, d)),
    }
}

/// The values of a list of expressions, in order.
pub open spec fn expr_values<V>(list: Seq<Expr>, d: Domain<V>) -> Seq<V>
    decreases list,
{
    if list.len() == 0 {
        Seq::empty()
    } else {
        expr_values(list.drop_last(), d).push(expr_value(list.last(), d))
    }
}

/// The values of CASE branches, in order.
pub open spec fn expr_value_pairs<V>(list: Seq<(Box<Expr>, Box<Expr>)>, d: Domain<V>) -> Seq<(V, V)>
    decreases list,
{
    if list.len() == 0 {
        Seq::empty()
    } else {
        expr_value_pairs(list.drop_last(), d).push(
            (expr_value(*list.last().0, d), expr_value(*list.last().1, d)),
        )
    }
}

// The value of a shape, which leads from one to the other.

/// The value of an expression of a shape.
spec fn shape_value<V>(e: ExprShape, d: Domain<V>) -> V
    decreases e,
{
    match e {
        ExprShape::Column { relation, name } => (d.column)(relation, name),
        ExprShape::Literal(value) => (d.scalar)(value),
        ExprShape::Binary { left, op, right } => (d.binary)(
            op,
            shape_value(*left, d),
            shape_value(*right, d),
        ),
        ExprShape::Not(x) => (d.answer)(negation((d.truth)(shape_value(*x, d)))),
        ExprShape::Negative(x) => (d.negative)(shape_value(*x, d)),
        ExprShape::IsNull(x) => null_test(d, shape_value(*x, d), false),
        ExprShape::IsNotNull(x) => null_test(d, shape_value(*x, d), true),
        ExprShape::Cast { expr, to } => (d.cast)(shape_value(*expr, d), to),
        ExprShape::Case { operand, whens, otherwise } => case_value(
            d,
            shape_value_opt(operand, d),
            shape_value_pairs(whens, d),
            shape_value_opt(otherwise, d),
        ),
        ExprShape::InList { expr, list, negated } => membership_value(
            d,
            shape_value(*expr, d),
            shape_values(list, d),
            negated,
        ),
        ExprShape::ScalarCall { function, args } => (d.scalar_call)(
            function,
            shape_values(args, d),
        ),
        ExprShape::AggregateCall { function, args } => (d.aggregate_call)(
            function,
            shape_values(args, d),
        ),
        ExprShape::Other(x) => (d.other)(x),
    }
}

spec fn shape_value_opt<V>(e: Option<Box<ExprShape>>, d: Domain<V>) -> Option<V>
    decreases e,
{
    match e {
        None => None,
        Some(x) => Some(shape_value(*x, d)),
    }
}

spec fn shape_values<V>(list: Seq<ExprShape>, d: Domain<V>) -> Seq<V>
    decreases list,
{
    if list.len() == 0 {
        Seq::empty()
    } else {
        shape_values(list.drop_last(), d).push(shape_value(list.last(), d))
    }
}

spec fn shape_value_pairs<V>(list: Seq<(ExprShape, ExprShape)>, d: Domain<V>) -> Seq<(V, V)>
    decreases list,
{
    if list.len() == 0 {
        Seq::empty()
    } else {
        shape_value_pairs(list.drop_last(), d).push(
            (shape_value(list.last().0, d), shape_value(list.last().1, d)),
        )
    }
}

/// The shape of an expression has its value.
proof fn lemma_shape_value<V>(e: Expr, d: Domain<V>)
    ensures
        shape_value(shape(e), d) == expr_value(e, d),
    decreases e,
{
    match e {
        Expr::BinaryExpr(b) => {
            lemma_shape_value(*b.left, d);
            lemma_shape_value(*b.right, d);
        },
        Expr::Not(x) => lemma_shape_value(*x, d),
        Expr::Negative(x) => lemma_shape_value(*x, d),
        Expr::IsNull(x) => lemma_shape_value(*x, d),
        Expr::IsNotNull(x) => lemma_shape_value(*x, d),
        Expr::Cast(c) => lemma_shape_value(*c.expr, d),
        Expr::Case(c) => {
            lemma_shape_value_opt(c.expr, d);
            lemma_shape_value_pairs(c.when_then_expr@, d);
            lemma_shape_value_opt(c.else_expr, d);
        },
        Expr::InList(l) => {
            lemma_shape_value(*l.expr, d);
            lemma_shape_values(l.list@, d);
        },
        Expr::ScalarFunction(f) => lemma_shape_values(f.args@, d),
        Expr::AggregateFunction(f) => lemma_shape_values(f.params.args@, d),
        _ => {},
    }
}

proof fn lemma_shape_value_opt<V>(e: Option<Box<Expr>>, d: Domain<V>)
    ensures
        shape_value_opt(opt_shape(e), d) == expr_value_opt(e, d),
    decreases e,
{
    if let Some(x) = e {
        lemma_shape_value(*x, d);
    }
}

proof fn lemma_shape_values<V>(list: Seq<Expr>, d: Domain<V>)
    ensures
        shape_values(shapes(list), d) == expr_values(list, d),
    decreases list,
{
    if list.len() > 0 {
        lemma_shape_values(list.drop_last(), d);
        lemma_shape_value(list.last(), d);
        assert(shapes(list).drop_last() =~= shapes(list.drop_last()));
    }
}

proof fn lemma_shape_value_pairs<V>(list: Seq<(Box<Expr>, Box<Expr>)>, d: Domain<V>)
    ensures
        shape_value_pairs(pair_shapes(list), d) == expr_value_pairs(list, d),
    decreases list,
{
    if list.len() > 0 {
        lemma_shape_value_pairs(list.drop_last(), d);
        lemma_shape_value(*list.last().0, d);
        lemma_shape_value(*list.last().1, d);
        assert(pair_shapes(list).drop_last() =~= pair_shapes(list.drop_last()));
    }
}

/// A translated expression has the value of the plan's expression, and one
/// that is refused has none.
proof fn lemma_translated_value<V>(e: IrExpr, d: Domain<V>)
    ensures
        plan_value(e, d) == (match translated(e) {
            Ok(s) => Some(shape_value(s, d)),
            Err(_) => None,
        }),
    decreases e,
{
    match e {
        IrExpr::Column { .. } => {},
        IrExpr::Literal { .. } => {},
        IrExpr::Binary { op, left, right } => {
            lemma_translated_value(*left, d);
            lemma_translated_value(*right, d);
        },
        IrExpr::Unary { op, operand } => lemma_translated_value(*operand, d),
        IrExpr::Cast { expr, to } => lemma_translated_value(*expr, d),
        IrExpr::Case { operand, whens, else_expr } => {
            lemma_translated_value_opt(operand, d);
            lemma_translated_value_whens(whens@, d);
            lemma_translated_value_opt(else_expr, d);
        },
        IrExpr::InList { expr, list, negated } => {
            lemma_translated_value(*expr, d);
            lemma_translated_values(list@, d);
        },
        IrExpr::IsNull { expr, negated } => lemma_translated_value(*expr, d),
        IrExpr::Function { name, args } => lemma_translated_values(args@, d),
    }
}

proof fn lemma_translated_value_opt<V>(e: Option<Box<IrExpr>>, d: Domain<V>)
    ensures
        plan_value_opt(e, d) == (match translated_opt(e) {
            Ok(s) => Some(shape_value_opt(s, d)),
            Err(_) => None,
        }),
    decreases e,
{
    if let Some(x) = e {
        lemma_translated_value(*x, d);
    }
}

proof fn lemma_translated_values<V>(list: Seq<IrExpr>, d: Domain<V>)
    ensures
        plan_values(list, d) == (match translated_list(list) {
            Ok(s) => Some(shape_values(s, d)),
            Err(_) => None,
        }),
    decreases list,
{
    if list.len() > 0 {
        lemma_translated_values(list.drop_last(), d);
        lemma_translated_value(list.last(), d);
        if let (Ok(head), Ok(s)) = (translated_list(list.drop_last()), translated(list.last())) {
            assert(head.push(s).drop_last() =~= head);
        }
    }
}

proof fn lemma_translated_value_whens<V>(list: Seq<WhenThen>, d: Domain<V>)
    ensures
        plan_value_whens(list, d) == (match translated_whens(list) {
            Ok(s) => Some(shape_value_pairs(s, d)),
            Err(_) => None,
        }),
    decreases list,
{
    if list.len() > 0 {
        lemma_translated_value_whens(list.drop_last(), d);
        lemma_translated_value(list.last().when, d);
        lemma_translated_value(list.last().result, d);
        if let (Ok(head), Ok(w), Ok(x)) = (
            translated_whens(list.drop_last()),
            translated(list.last().when),
            translated(list.last().result),
        ) {
            assert(head.push((w, x)).drop_last() =~= head);
        }
    }
}

/// A plan's expression that becomes a DataFusion expression `x` has the value
/// of `x`, on every row and in every domain; one that is refused has none.
pub proof fn translation_keeps_the_meaning<V>(e: IrExpr, d: Domain<V>)
    ensures
        translated(e) is Err <==> plan_value(e, d) is None,
        forall|x: Expr|
            translated(e) == Ok::<ExprShape, Fault>(#[trigger] shape(x)) ==> plan_value(e, d)
                == Some(expr_value(x, d)),
{
    lemma_translated_value(e, d);
    assert forall|x: Expr|
        translated(e) == Ok::<ExprShape, Fault>(#[trigger] shape(x)) implies plan_value(e, d)
        == Some(expr_value(x, d)) by {
        lemma_shape_value(x, d);
    }
}

/// Two expressions of one shape have the same value.
pub proof fn shape_fixes_the_meaning<V>(a: Expr, b: Expr, d: Domain<V>)
    requires
        shape(a) == shape(b),
    ensures
        expr_value(a, d) == expr_value(b, d),
{
    lemma_shape_value(a, d);
    lemma_shape_value(b, d);
}

// Operators, types and functions by name.

/// How a plan writes an operator, where it can. Unequal may also be written
/// `<>`.
pub open spec fn spelling(o: Operator) -> Option<Seq<char>> {
    match o {
        Operator::Plus => Some("+"@),
        Operator::Minus => Some("-"@),
        Operator::Multiply => Some("*"@),
        Operator::Divide => Some("/"@),
        Operator::Modulo => Some("%"@),
        Operator::Eq => Some("="@),
        Operator::NotEq => Some("!="@),
        Operator::Lt => Some("<"@),
        Operator::LtEq => Some("<="@),
        Operator::Gt => Some(">"@),
        Operator::GtEq => Some(">="@),
        Operator::And => Some("and"@),
        Operator::Or => Some("or"@),
        Operator::LikeMatch => Some("like"@),
        Operator::ILikeMatch => Some("ilike"@),
        Operator::IsDistinctFrom => Some("is_distinct_from"@),
        Operator::IsNotDistinctFrom => Some("is_not_distinct_from"@),
        _ => None,
    }
}

/// An operator reads back as it was written, and every operator that a plan can
/// write is understood.
pub proof fn operators_read_back(op: Seq<char>, o: Operator)
    ensures
        operator_of(op) == Some(o) <==> spelling(o) == Some(op) || (op == "<>"@ && o
            == Operator::NotEq),
{
    reveal_strlit("+");
    reveal_strlit("-");
    reveal_strlit("*");
    reveal_strlit("/");
    reveal_strlit("%");
    reveal_strlit("=");
    reveal_strlit("!=");
    reveal_strlit("<");
    reveal_strlit("<=");
    reveal_strlit(">");
    reveal_strlit(">=");
    reveal_strlit("and");
    reveal_strlit("or");
    reveal_strlit("like");
    reveal_strlit("ilike");
    reveal_strlit("is_distinct_from");
    reveal_strlit("is_not_distinct_from");
    reveal_strlit("<>");
    assert("+"@.len() == 1);
    assert("-"@.len() == 1);
    assert("*"@.len() == 1);
    assert("/"@.len() == 1);
    assert("%"@.len() == 1);
    assert("="@.len() == 1);
    assert("!="@.len() == 2);
    assert("<"@.len() == 1);
    assert("<="@.len() == 2);
    assert(">"@.len() == 1);
    assert(">="@.len() == 2);
    assert("and"@.len() == 3);
    assert("or"@.len() == 2);
    assert("like"@.len() == 4);
    assert("ilike"@.len() == 5);
    assert("is_distinct_from"@.len() == 16);
    assert("is_not_distinct_from"@.len() == 20);
    assert("<>"@.len() == 2);
    assert("-"@[0] != "+"@[0]);
    assert("*"@[0] != "+"@[0]);
    assert("*"@[0] != "-"@[0]);
    assert("/"@[0] != "+"@[0]);
    assert("/"@[0] != "-"@[0]);
    assert("/"@[0] != "*"@[0]);
    assert("%"@[0] != "+"@[0]);
    assert("%"@[0] != "-"@[0]);
    assert("%"@[0] != "*"@[0]);
    assert("%"@[0] != "/"@[0]);
    assert("="@[0] != "+"@[0]);
    assert("="@[0] != "-"@[0]);
    assert("="@[0] != "*"@[0]);
    assert("="@[0] != "/"@[0]);
    assert("="@[0] != "%"@[0]);
    assert("<"@[0] != "+"@[0]);
    assert("<"@[0] != "-"@[0]);
    assert("<"@[0] != "*"@[0]);
    assert("<"@[0] != "/"@[0]);
    assert("<"@[0] != "%"@[0]);
    assert("<"@[0] != "="@[0]);
    assert("<="@[0] != "!="@[0]);
    assert(">"@[0] != "+"@[0]);
    assert(">"@[0] != "-"@[0]);
    assert(">"@[0] != "*"@[0]);
    assert(">"@[0] != "/"@[0]);
    assert(">"@[0] != "%"@[0]);
    assert(">"@[0] != "="@[0]);
    assert(">"@[0] != "<"@[0]);
    assert(">="@[0] != "!="@[0]);
    assert(">="@[0] != "<="@[0]);
    assert("or"@[0] != "!="@[0]);
    assert("or"@[0] != "<="@[0]);
    assert("or"@[0] != ">="@[0]);
    assert("<>"@[0] != "!="@[0]);
    assert("<>"@[1] != "<="@[1]);
    assert("<>"@[0] != ">="@[0]);
    assert("<>"@[0] != "or"@[0]);
}

/// How a plan writes the target of a cast, where it can. Text may also be
/// written `string`, and a truth value `bool`.
pub open spec fn type_spelling(t: DataType) -> Option<Seq<char>> {
    match t {
        DataType::Int16 => Some("int16"@),
        DataType::Int32 => Some("int32"@),
        DataType::Int64 => Some("int64"@),
        DataType::Float32 => Some("float32"@),
        DataType::Float64 => Some("float64"@),
        DataType::Utf8 => Some("utf8"@),
        DataType::Boolean => Some("boolean"@),
        DataType::Date32 => Some("date32"@),
        _ => None,
    }
}

/// The target of a cast reads back as it was written, and every type that a
/// plan can write is understood.
pub proof fn cast_targets_read_back(name: Seq<char>, t: DataType)
    ensures
        data_type_of(name) == Some(t) <==> type_spelling(t) == Some(name) || (name == "string"@ && t
            == DataType::Utf8) || (name == "bool"@ && t == DataType::Boolean),
{
    reveal_strlit("int16");
    reveal_strlit("int32");
    reveal_strlit("int64");
    reveal_strlit("float32");
    reveal_strlit("float64");
    reveal_strlit("utf8");
    reveal_strlit("string");
    reveal_strlit("boolean");
    reveal_strlit("bool");
    reveal_strlit("date32");
    assert("int16"@.len() == 5);
    assert("int32"@.len() == 5);
    assert("int64"@.len() == 5);
    assert("float32"@.len() == 7);
    assert("float64"@.len() == 7);
    assert("utf8"@.len() == 4);
    assert("string"@.len() == 6);
    assert("boolean"@.len() == 7);
    assert("bool"@.len() == 4);
    assert("date32"@.len() == 6);
    assert("int32"@[3] != "int16"@[3]);
    assert("int64"@[3] != "int16"@[3]);
    assert("int64"@[3] != "int32"@[3]);
    assert("float64"@[5] != "float32"@[5]);
    assert("boolean"@[0] != "float32"@[0]);
    assert("boolean"@[0] != "float64"@[0]);
    assert("bool"@[0] != "utf8"@[0]);
    assert("date32"@[0] != "string"@[0]);
}

/// Whether the default scalar function at `i` answers to a name.
pub open spec fn scalar_answers(i: int, name: Seq<char>) -> bool {
    default_scalar(i) matches Some(f) && (scalar_name(f) == name || scalar_aliases(f).contains(name))
}

/// Whether the default aggregate function at `i` answers to a name.
pub open spec fn aggregate_answers(i: int, name: Seq<char>) -> bool {
    default_aggregate(i) matches Some(f) && (aggregate_name(f) == name || aggregate_aliases(
        f,
    ).contains(name))
}

/// Whether the default scalar function at `i` is the last to answer to a name.
pub open spec fn last_scalar(i: int, name: Seq<char>) -> bool {
    scalar_answers(i, name) && forall|j: int| j > i ==> !#[trigger] scalar_answers(j, name)
}

/// Whether the default aggregate function at `i` is the last to answer to a
/// name.
pub open spec fn last_aggregate(i: int, name: Seq<char>) -> bool {
    aggregate_answers(i, name) && forall|j: int| j > i ==> !#[trigger] aggregate_answers(j, name)
}

/// A call is of the last function that answers to its name, with the arguments
/// as they were given. A scalar function goes before an aggregate, and a name
/// that no function answers to last is refused.
pub proof fn calls_are_by_name(name: Seq<char>, args: Seq<ExprShape>)
    ensures
        match called(name, args) {
            Ok(ExprShape::ScalarCall { function, args: given }) => given == args && exists|i: int|
                #[trigger] last_scalar(i, name) && default_scalar(i) == Some(function),
            Ok(ExprShape::AggregateCall { function, args: given }) => {
                &&& given == args
                &&& forall|i: int| !#[trigger] last_scalar(i, name)
                &&& exists|i: int|
                    #[trigger] last_aggregate(i, name) && default_aggregate(i) == Some(function)
            },
            Ok(_) => false,
            Err(fault) => {
                &&& fault == Fault::Plan("function '"@ + name + "' not supported"@)
                &&& forall|i: int| !#[trigger] last_scalar(i, name)
                &&& forall|i: int| !#[trigger] last_aggregate(i, name)
            },
        },
{
    lemma_scalar_answers(name);
    lemma_aggregate_answers(name);
    let scalars = |i: int| scalar_entry(i);
    let aggregates = |i: int| aggregate_entry(i);
    reveal_strlit("function ");
    reveal_strlit("'");
    reveal_strlit(" not supported");
    reveal_strlit("function '");
    reveal_strlit("' not supported");
    assert("function "@ + "'"@ + name + "'"@ + " not supported"@ =~= "function '"@ + name
        + "' not supported"@);
    assert forall|i: int| #[trigger] last_scalar(i, name) <==> registered(scalars, name, i) by {
        assert(scalar_answers(i, name) <==> answers_to(scalars(i), name));
        if last_scalar(i, name) {
            assert forall|j: int| j > i implies !answers_to(#[trigger] scalars(j), name) by {
                assert(!scalar_answers(j, name));
            }
        }
        if registered(scalars, name, i) {
            assert forall|j: int| j > i implies !#[trigger] scalar_answers(j, name) by {
                assert(!answers_to(scalars(j), name));
            }
        }
    }
    assert forall|i: int| #[trigger] last_aggregate(i, name) <==> registered(
        aggregates,
        name,
        i,
    ) by {
        assert(aggregate_answers(i, name) <==> answers_to(aggregates(i), name));
        if last_aggregate(i, name) {
            assert forall|j: int| j > i implies !answers_to(#[trigger] aggregates(j), name) by {
                assert(!aggregate_answers(j, name));
            }
        }
        if registered(aggregates, name, i) {
            assert forall|j: int| j > i implies !#[trigger] aggregate_answers(j, name) by {
                assert(!answers_to(aggregates(j), name));
            }
        }
    }
    if exists|i: int| registered(scalars, name, i) {
        let i = choose|i: int| registered(scalars, name, i);
        assert(last_scalar(i, name));
    } else {
        if exists|i: int| registered(aggregates, name, i) {
            let i = choose|i: int| registered(aggregates, name, i);
            assert(last_aggregate(i, name));
        }
    }
}

/// A default scalar function answers to its name and to its aliases.
proof fn lemma_scalar_answers(name: Seq<char>)
    ensures
        forall|i: int|
            answers_to(#[trigger] scalar_entry(i), name) <==> scalar_answers(i, name),
{
    assert forall|i: int|
        answers_to(#[trigger] scalar_entry(i), name) <==> scalar_answers(i, name) by {
        if let Some(f) = default_scalar(i) {
            lemma_all_names(scalar_name(f), scalar_aliases(f), name);
        }
    }
}

/// A default aggregate function answers to its name and to its aliases.
proof fn lemma_aggregate_answers(name: Seq<char>)
    ensures
        forall|i: int|
            answers_to(#[trigger] aggregate_entry(i), name) <==> aggregate_answers(i, name),
{
    assert forall|i: int|
        answers_to(#[trigger] aggregate_entry(i), name) <==> aggregate_answers(i, name) by {
        if let Some(f) = default_aggregate(i) {
            lemma_all_names(aggregate_name(f), aggregate_aliases(f), name);
        }
    }
}

/// All names are the own name and the aliases.
proof fn lemma_all_names(own: Seq<char>, aliases: Seq<Seq<char>>, name: Seq<char>)
    ensures
        all_names(own, aliases).contains(name) <==> own == name || aliases.contains(name),
{
    let all = all_names(own, aliases);
    if all.contains(name) {
        let k = choose|k: int| 0 <= k < all.len() && all[k] == name;
        if k > 0 {
            assert(aliases[k - 1] == name);
        }
    }
    if own == name {
        assert(all[0] == name);
    }
    if aliases.contains(name) {
        let k = choose|k: int| 0 <= k < aliases.len() && aliases[k] == name;
        assert(all[k + 1] == name);
    }
}

// Filters on keys.

/// The values of literals are the values of their scalars.
proof fn lemma_literal_values<V>(list: Seq<ExprShape>, scalars: Seq<ScalarValue>, d: Domain<V>)
    requires
        list.len() == scalars.len(),
        forall|i: int| 0 <= i < list.len() ==> #[trigger] list[i] == ExprShape::Literal(scalars[i]),
    ensures
        shape_values(list, d) == scalars.map_values(|s: ScalarValue| (d.scalar)(s)),
    decreases list.len(),
{
    let values = scalars.map_values(|s: ScalarValue| (d.scalar)(s));
    if list.len() > 0 {
        let fewer = list.drop_last();
        assert forall|i: int| 0 <= i < fewer.len() implies #[trigger] fewer[i]
            == ExprShape::Literal(scalars.drop_last()[i]) by {
            assert(fewer[i] == list[i]);
        }
        lemma_literal_values(fewer, scalars.drop_last(), d);
        assert(list[list.len() - 1] == ExprShape::Literal(scalars.last()));
        assert(shape_value(list.last(), d) == (d.scalar)(scalars.last()));
        assert(values =~= scalars.drop_last().map_values(|s: ScalarValue| (d.scalar)(s)).push(
            (d.scalar)(scalars.last()),
        ));
    } else {
        assert(values =~= Seq::<V>::empty());
    }
}

/// A filter on keys is true of exactly the rows whose column equals a key: its
/// value is the membership of the column's value among the values of the keys.
pub proof fn key_filters_mean_membership<V>(
    x: Expr,
    column: Seq<char>,
    keys: Seq<ScalarValue>,
    d: Domain<V>,
)
    requires
        membership(column, keys.map_values(|k: ScalarValue| Some(k))) == Ok::<ExprShape, Fault>(
            shape(x),
        ),
    ensures
        expr_value(x, d) == membership_value(
            d,
            (d.column)(None, column),
            keys.map_values(|k: ScalarValue| (d.scalar)(k)),
            false,
        ),
{
    let cells = keys.map_values(|k: ScalarValue| Some(k));
    let list = shape(x)->InList_list;
    assert forall|i: int| 0 <= i < list.len() implies #[trigger] list[i] == ExprShape::Literal(
        keys[i],
    ) by {
        assert(cells[i] == Some(keys[i]));
    }
    lemma_literal_values(list, keys, d);
    lemma_shape_value(x, d);
    assert(shape_value(*shape(x)->InList_expr, d) == (d.column)(None, column));
}

/// A filter that leaves out NULLs is true of a row exactly where the column is
/// not NULL.
pub proof fn null_filters_mean_not_null<V>(x: Expr, inner: Expr, d: Domain<V>)
    requires
        shape(x) == ExprShape::IsNotNull(Box::new(shape(inner))),
    ensures
        expr_value(x, d) == (d.answer)(Some(expr_value(inner, d) != d.null)),
{
    lemma_shape_value(x, d);
    lemma_shape_value(inner, d);
}

} // verus!
