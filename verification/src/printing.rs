//! What can be printed.
//!
//! Arrow and DataFusion print every ordinary value. A few they cannot print and
//! stop at: a decimal whose type has a scale beyond its precision, a time whose
//! zone moves it out of the calendar, and some structs, maps and dates. Whether
//! a type or an expression is free of these is told here, by looking at its
//! parts.

use datafusion::arrow::datatypes::DataType;
use datafusion::arrow::datatypes::Field;
use datafusion::arrow::datatypes::Schema;
use datafusion::arrow::datatypes::TimeUnit;
use datafusion::common::ScalarValue;
use datafusion::logical_expr::expr::GroupingSet;
use datafusion::logical_expr::expr::Sort;
use datafusion::logical_expr::Expr;
use datafusion::logical_expr::WindowFrame;
use datafusion::logical_expr::WindowFrameBound;
use vstd::prelude::*;

use crate::expr::{
    name_of_scalar, opt_shape, pair_shapes, scalar_name, shape, shapes, ExprShape,
};
use crate::text::same;

verus! {

// Types.

/// The type of a scalar.
pub uninterp spec fn scalar_type(value: ScalarValue) -> DataType;

/// The types of a field of the given type and of all fields nested in it.
pub uninterp spec fn part_types(data_type: DataType) -> Seq<DataType>;

/// `ScalarValue::data_type`. Trusted: the type is determined by the value.
#[verifier::external_body]
fn type_of_scalar(value: &ScalarValue) -> (r: DataType)
    ensures
        r == scalar_type(*value),
{
    value.data_type()
}

/// `Schema::flattened_fields` of a schema with one field of the given type, as
/// the types of the fields. Trusted: they are determined by the type.
#[verifier::external_body]
fn parts_of(data_type: &DataType) -> (r: Vec<DataType>)
    ensures
        r@ == part_types(*data_type),
{
    Schema::new(vec![Field::new("", data_type.clone(), true)])
        .flattened_fields()
        .into_iter()
        .map(|field| field.data_type().clone())
        .collect()
}

/// Whether a type is no decimal, or a decimal whose scale is within its
/// precision.
pub open spec fn well_scaled(t: DataType) -> bool
    decreases t,
{
    match t {
        DataType::Decimal32(precision, scale) => scale <= precision,
        DataType::Decimal64(precision, scale) => scale <= precision,
        DataType::Decimal128(precision, scale) => scale <= precision,
        DataType::Decimal256(precision, scale) => scale <= precision,
        DataType::Dictionary(_, values) => well_scaled(*values),
        _ => true,
    }
}

/// Whether a type is made of fields of other types.
pub open spec fn is_nested(t: DataType) -> bool
    decreases t,
{
    match t {
        DataType::Struct(_) => true,
        DataType::Map(_, _) => true,
        DataType::Union(_, _) => true,
        DataType::List(_) => true,
        DataType::LargeList(_) => true,
        DataType::FixedSizeList(_, _) => true,
        DataType::ListView(_) => true,
        DataType::LargeListView(_) => true,
        DataType::RunEndEncoded(_, _) => true,
        DataType::Dictionary(_, values) => is_nested(*values),
        _ => false,
    }
}

/// Whether Arrow can print the values of a type as far as the type itself goes:
/// it is no union and no ill-scaled decimal, and no time in a zone, unless it is
/// counted in nanoseconds, which stay far from the ends of the calendar.
pub open spec fn printable_part(t: DataType) -> bool
    decreases t,
{
    match t {
        DataType::Timestamp(unit, zone) => zone is None || unit is Nanosecond,
        DataType::Union(_, _) => false,
        DataType::Dictionary(_, values) => printable_part(*values),
        _ => well_scaled(t),
    }
}

/// Whether Arrow can print the values of a type: it can as far as all its parts
/// go.
pub open spec fn printable_type(t: DataType) -> bool {
    printable_part(t) && (is_nested(t) ==> forall|i: int|
        0 <= i < part_types(t).len() ==> printable_part(#[trigger] part_types(t)[i]))
}

/// Whether the literals of a type have SQL, or are refused, as far as the type
/// itself goes: it is no struct, map or union, and no ill-scaled decimal.
pub open spec fn drawable_part(t: DataType) -> bool
    decreases t,
{
    match t {
        DataType::Struct(_) => false,
        DataType::Map(_, _) => false,
        DataType::Union(_, _) => false,
        DataType::Dictionary(_, values) => drawable_part(*values),
        _ => well_scaled(t),
    }
}

/// Whether a type is that of dates counted in milliseconds.
pub open spec fn is_date64(t: DataType) -> bool
    decreases t,
{
    match t {
        DataType::Date64 => true,
        DataType::Dictionary(_, values) => is_date64(*values),
        _ => false,
    }
}

/// Whether every literal of a type can be handed to the unparser. `printed`
/// says that it stands where the unparser may print it as it is, which it
/// cannot do with every date in milliseconds and every list.
pub open spec fn drawable_type(t: DataType, printed: bool) -> bool {
    &&& drawable_part(t)
    &&& if is_nested(t) {
        !printed && forall|i: int|
            0 <= i < part_types(t).len() ==> drawable_part(#[trigger] part_types(t)[i])
    } else {
        !(printed && is_date64(t))
    }
}

/// Whether a type is no decimal, or a well-scaled one.
fn is_well_scaled(t: &DataType) -> (r: bool)
    ensures
        r == well_scaled(*t),
    decreases *t,
{
    match t {
        DataType::Decimal32(precision, scale) => (*scale as i16) <= (*precision as i16),
        DataType::Decimal64(precision, scale) => (*scale as i16) <= (*precision as i16),
        DataType::Decimal128(precision, scale) => (*scale as i16) <= (*precision as i16),
        DataType::Decimal256(precision, scale) => (*scale as i16) <= (*precision as i16),
        DataType::Dictionary(_, values) => is_well_scaled(values),
        _ => true,
    }
}

/// Whether a type is made of fields of other types.
fn has_fields(t: &DataType) -> (r: bool)
    ensures
        r == is_nested(*t),
    decreases *t,
{
    match t {
        DataType::Struct(_) => true,
        DataType::Map(_, _) => true,
        DataType::Union(_, _) => true,
        DataType::List(_) => true,
        DataType::LargeList(_) => true,
        DataType::FixedSizeList(_, _) => true,
        DataType::ListView(_) => true,
        DataType::LargeListView(_) => true,
        DataType::RunEndEncoded(_, _) => true,
        DataType::Dictionary(_, values) => has_fields(values),
        _ => false,
    }
}

/// Whether Arrow can print the values of a type as far as the type itself goes.
fn is_printable_part(t: &DataType) -> (r: bool)
    ensures
        r == printable_part(*t),
    decreases *t,
{
    match t {
        DataType::Timestamp(unit, zone) => zone.is_none() || matches!(unit, TimeUnit::Nanosecond),
        DataType::Union(_, _) => false,
        DataType::Dictionary(_, values) => is_printable_part(values),
        _ => is_well_scaled(t),
    }
}

/// Whether Arrow can print the values of a type.
pub fn can_print(t: &DataType) -> (r: bool)
    ensures
        r == printable_type(*t),
{
    if !is_printable_part(t) {
        return false;
    }
    if !has_fields(t) {
        return true;
    }
    let parts = parts_of(t);
    for i in 0..parts.len()
        invariant
            parts@ == part_types(*t),
            is_nested(*t),
            forall|j: int| 0 <= j < i ==> printable_part(#[trigger] part_types(*t)[j]),
    {
        if !is_printable_part(&parts[i]) {
            return false;
        }
    }
    true
}

/// Whether the literals of a type have SQL, or are refused.
fn is_drawable_part(t: &DataType) -> (r: bool)
    ensures
        r == drawable_part(*t),
    decreases *t,
{
    match t {
        DataType::Struct(_) => false,
        DataType::Map(_, _) => false,
        DataType::Union(_, _) => false,
        DataType::Dictionary(_, values) => is_drawable_part(values),
        _ => is_well_scaled(t),
    }
}

/// Whether a type is that of dates counted in milliseconds.
fn counts_milliseconds(t: &DataType) -> (r: bool)
    ensures
        r == is_date64(*t),
    decreases *t,
{
    match t {
        DataType::Date64 => true,
        DataType::Dictionary(_, values) => counts_milliseconds(values),
        _ => false,
    }
}

/// Whether every literal of a type can be handed to the unparser.
fn can_draw_type(t: &DataType, printed: bool) -> (r: bool)
    ensures
        r == drawable_type(*t, printed),
{
    if !is_drawable_part(t) {
        return false;
    }
    if !has_fields(t) {
        return !(printed && counts_milliseconds(t));
    }
    if printed {
        return false;
    }
    let parts = parts_of(t);
    for i in 0..parts.len()
        invariant
            parts@ == part_types(*t),
            is_nested(*t),
            forall|j: int| 0 <= j < i ==> drawable_part(#[trigger] part_types(*t)[j]),
    {
        if !is_drawable_part(&parts[i]) {
            return false;
        }
    }
    true
}

// Expressions.

/// Where the frame of a window starts.
pub uninterp spec fn frame_start(frame: WindowFrame) -> WindowFrameBound;

/// Where the frame of a window ends.
pub uninterp spec fn frame_end(frame: WindowFrame) -> WindowFrameBound;

/// The field `WindowFrame::start_bound`, which has private fields beside it.
#[verifier::external_body]
fn start_of(frame: &WindowFrame) -> (r: &WindowFrameBound)
    ensures
        *r == frame_start(*frame),
{
    &frame.start_bound
}

/// The field `WindowFrame::end_bound`, which has private fields beside it.
#[verifier::external_body]
fn end_of(frame: &WindowFrame) -> (r: &WindowFrameBound)
    ensures
        *r == frame_end(*frame),
{
    &frame.end_bound
}

/// Whether a boundary of a frame can be handed to the unparser.
pub open spec fn bound_drawable(bound: WindowFrameBound, printed: bool) -> bool {
    match bound {
        WindowFrameBound::Preceding(value) => drawable_type(scalar_type(value), printed),
        WindowFrameBound::CurrentRow => true,
        WindowFrameBound::Following(value) => drawable_type(scalar_type(value), printed),
    }
}

/// Whether a boundary of a frame can be handed to the unparser.
fn can_draw_bound(bound: &WindowFrameBound, printed: bool) -> (r: bool)
    ensures
        r == bound_drawable(*bound, printed),
{
    match bound {
        WindowFrameBound::Preceding(value) => can_draw_type(&type_of_scalar(value), printed),
        WindowFrameBound::CurrentRow => true,
        WindowFrameBound::Following(value) => can_draw_type(&type_of_scalar(value), printed),
    }
}

/// Whether the unparser may print the arguments of a call of `name` as they
/// are, in the message that it refuses them with.
pub open spec fn prints_arguments(name: Seq<char>) -> bool {
    name == "named_struct"@ || name == "get_field"@ || name == "map"@
}

/// Whether an expression can be handed to the unparser: all its literals can,
/// and it holds no subquery, which is a whole plan that is not looked into.
pub open spec fn drawable(e: ExprShape, printed: bool) -> bool
    decreases e,
{
    match e {
        ExprShape::Column { .. } => true,
        ExprShape::Literal(value) => drawable_type(scalar_type(value), printed),
        ExprShape::Binary { left, op, right } => drawable(*left, printed) && drawable(
            *right,
            printed,
        ),
        ExprShape::Not(x) => drawable(*x, printed),
        ExprShape::Negative(x) => drawable(*x, printed),
        ExprShape::IsNull(x) => drawable(*x, printed),
        ExprShape::IsNotNull(x) => drawable(*x, printed),
        ExprShape::Cast { expr, to } => drawable(*expr, printed),
        ExprShape::Case { operand, whens, otherwise } => opt_drawable(operand, printed)
            && pairs_drawable(whens, printed) && opt_drawable(otherwise, printed),
        ExprShape::InList { expr, list, negated } => drawable(*expr, printed) && all_drawable(
            list,
            printed,
        ),
        ExprShape::ScalarCall { function, args } => all_drawable(
            args,
            printed || prints_arguments(scalar_name(function)),
        ),
        ExprShape::AggregateCall { function, args } => all_drawable(args, printed),
        ExprShape::Other(x) => expr_drawable(x, printed),
    }
}

/// Whether an expression can be handed to the unparser wherever it stands.
pub open spec fn always_drawable(e: ExprShape) -> bool {
    drawable(e, true) && drawable(e, false)
}

/// The same for an optional expression.
pub open spec fn opt_drawable(e: Option<Box<ExprShape>>, printed: bool) -> bool
    decreases e,
{
    match e {
        Some(x) => drawable(*x, printed),
        None => true,
    }
}

/// The same for a list of expressions.
pub open spec fn all_drawable(list: Seq<ExprShape>, printed: bool) -> bool
    decreases list,
{
    list.len() == 0 || (all_drawable(list.drop_last(), printed) && drawable(list.last(), printed))
}

/// The same for the branches of a CASE.
pub open spec fn pairs_drawable(list: Seq<(ExprShape, ExprShape)>, printed: bool) -> bool
    decreases list,
{
    list.len() == 0 || (pairs_drawable(list.drop_last(), printed) && drawable(
        list.last().0,
        printed,
    ) && drawable(list.last().1, printed))
}

/// The same, told of the expression itself.
pub open spec fn expr_drawable(e: Expr, printed: bool) -> bool
    decreases e,
{
    match e {
        Expr::Alias(a) => expr_drawable(*a.expr, printed),
        Expr::Column(_) => true,
        Expr::ScalarVariable(_, _) => true,
        Expr::Literal(value, _) => drawable_type(scalar_type(value), printed),
        Expr::BinaryExpr(b) => expr_drawable(*b.left, printed) && expr_drawable(*b.right, printed),
        Expr::Like(l) => expr_drawable(*l.expr, printed) && expr_drawable(*l.pattern, printed),
        Expr::SimilarTo(l) => expr_drawable(*l.expr, printed) && expr_drawable(*l.pattern, printed),
        Expr::Not(x) => expr_drawable(*x, printed),
        Expr::IsNotNull(x) => expr_drawable(*x, printed),
        Expr::IsNull(x) => expr_drawable(*x, printed),
        Expr::IsTrue(x) => expr_drawable(*x, printed),
        Expr::IsFalse(x) => expr_drawable(*x, printed),
        Expr::IsUnknown(x) => expr_drawable(*x, printed),
        Expr::IsNotTrue(x) => expr_drawable(*x, printed),
        Expr::IsNotFalse(x) => expr_drawable(*x, printed),
        Expr::IsNotUnknown(x) => expr_drawable(*x, printed),
        Expr::Negative(x) => expr_drawable(*x, printed),
        Expr::Between(b) => expr_drawable(*b.expr, printed) && expr_drawable(*b.low, printed)
            && expr_drawable(*b.high, printed),
        Expr::Case(c) => opt_expr_drawable(c.expr, printed) && expr_pairs_drawable(
            c.when_then_expr@,
            printed,
        ) && opt_expr_drawable(c.else_expr, printed),
        Expr::Cast(c) => expr_drawable(*c.expr, printed),
        Expr::TryCast(c) => expr_drawable(*c.expr, printed),
        Expr::ScalarFunction(f) => exprs_drawable(
            f.args@,
            printed || prints_arguments(scalar_name(*f.func)),
        ),
        Expr::AggregateFunction(f) => exprs_drawable(f.params.args@, printed) && opt_expr_drawable(
            f.params.filter,
            printed,
        ) && sorts_drawable(f.params.order_by@, printed),
        Expr::InList(l) => expr_drawable(*l.expr, printed) && exprs_drawable(l.list@, printed),
        Expr::GroupingSet(g) => match g {
            GroupingSet::Rollup(list) => exprs_drawable(list@, printed),
            GroupingSet::Cube(list) => exprs_drawable(list@, printed),
            GroupingSet::GroupingSets(sets) => sets_drawable(sets@, printed),
        },
        Expr::Placeholder(_) => true,
        Expr::OuterReferenceColumn(_, _) => true,
        Expr::Unnest(u) => expr_drawable(*u.expr, printed),
        Expr::WindowFunction(w) => exprs_drawable(w.params.args@, printed) && exprs_drawable(
            w.params.partition_by@,
            printed,
        ) && sorts_drawable(w.params.order_by@, printed) && bound_drawable(
            frame_start(w.params.window_frame),
            printed,
        ) && bound_drawable(frame_end(w.params.window_frame), printed) && opt_expr_drawable(
            w.params.filter,
            printed,
        ),
        Expr::Exists(_) => false,
        Expr::InSubquery(_) => false,
        Expr::ScalarSubquery(_) => false,
        // A wildcard: its options may hold expressions.
        _ => !printed,
    }
}

/// The same for an optional expression.
pub open spec fn opt_expr_drawable(e: Option<Box<Expr>>, printed: bool) -> bool
    decreases e,
{
    match e {
        Some(x) => expr_drawable(*x, printed),
        None => true,
    }
}

/// The same for a list of expressions.
pub open spec fn exprs_drawable(list: Seq<Expr>, printed: bool) -> bool
    decreases list,
{
    list.len() == 0 || (exprs_drawable(list.drop_last(), printed) && expr_drawable(
        list.last(),
        printed,
    ))
}

/// The same for the branches of a CASE.
pub open spec fn expr_pairs_drawable(list: Seq<(Box<Expr>, Box<Expr>)>, printed: bool) -> bool
    decreases list,
{
    list.len() == 0 || (expr_pairs_drawable(list.drop_last(), printed) && expr_drawable(
        *list.last().0,
        printed,
    ) && expr_drawable(*list.last().1, printed))
}

/// The same for sort keys.
pub open spec fn sorts_drawable(list: Seq<Sort>, printed: bool) -> bool
    decreases list,
{
    list.len() == 0 || (sorts_drawable(list.drop_last(), printed) && expr_drawable(
        list.last().expr,
        printed,
    ))
}

/// The same for grouping sets.
pub open spec fn sets_drawable(list: Seq<Vec<Expr>>, printed: bool) -> bool
    decreases list,
{
    list.len() == 0 || (sets_drawable(list.drop_last(), printed) && exprs_drawable(
        list.last()@,
        printed,
    ))
}

/// Whether an expression can be handed to the unparser.
pub fn can_draw(e: &Expr, printed: bool) -> (r: bool)
    ensures
        r == expr_drawable(*e, printed),
    decreases *e,
{
    match e {
        Expr::Alias(a) => can_draw(&a.expr, printed),
        Expr::Column(_) => true,
        Expr::ScalarVariable(_, _) => true,
        Expr::Literal(value, _) => can_draw_type(&type_of_scalar(value), printed),
        Expr::BinaryExpr(b) => can_draw(&b.left, printed) && can_draw(&b.right, printed),
        Expr::Like(l) => can_draw(&l.expr, printed) && can_draw(&l.pattern, printed),
        Expr::SimilarTo(l) => can_draw(&l.expr, printed) && can_draw(&l.pattern, printed),
        Expr::Not(x) => can_draw(x, printed),
        Expr::IsNotNull(x) => can_draw(x, printed),
        Expr::IsNull(x) => can_draw(x, printed),
        Expr::IsTrue(x) => can_draw(x, printed),
        Expr::IsFalse(x) => can_draw(x, printed),
        Expr::IsUnknown(x) => can_draw(x, printed),
        Expr::IsNotTrue(x) => can_draw(x, printed),
        Expr::IsNotFalse(x) => can_draw(x, printed),
        Expr::IsNotUnknown(x) => can_draw(x, printed),
        Expr::Negative(x) => can_draw(x, printed),
        Expr::Between(b) => can_draw(&b.expr, printed) && can_draw(&b.low, printed) && can_draw(
            &b.high,
            printed,
        ),
        Expr::Case(c) => can_draw_opt(&c.expr, printed) && can_draw_pairs(
            &c.when_then_expr,
            printed,
        ) && can_draw_opt(&c.else_expr, printed),
        Expr::Cast(c) => can_draw(&c.expr, printed),
        Expr::TryCast(c) => can_draw(&c.expr, printed),
        Expr::ScalarFunction(f) => {
            let name = name_of_scalar(&f.func);
            let shown = same(name, "named_struct") || same(name, "get_field") || same(name, "map");
            can_draw_all(&f.args, printed || shown)
        },
        Expr::AggregateFunction(f) => can_draw_all(&f.params.args, printed) && can_draw_opt(
            &f.params.filter,
            printed,
        ) && can_draw_sorts(&f.params.order_by, printed),
        Expr::InList(l) => can_draw(&l.expr, printed) && can_draw_all(&l.list, printed),
        Expr::GroupingSet(g) => match g {
            GroupingSet::Rollup(list) => can_draw_all(list, printed),
            GroupingSet::Cube(list) => can_draw_all(list, printed),
            GroupingSet::GroupingSets(sets) => can_draw_sets(sets, printed),
        },
        Expr::Placeholder(_) => true,
        Expr::OuterReferenceColumn(_, _) => true,
        Expr::Unnest(u) => can_draw(&u.expr, printed),
        Expr::WindowFunction(w) => can_draw_all(&w.params.args, printed) && can_draw_all(
            &w.params.partition_by,
            printed,
        ) && can_draw_sorts(&w.params.order_by, printed) && can_draw_bound(
            start_of(&w.params.window_frame),
            printed,
        ) && can_draw_bound(end_of(&w.params.window_frame), printed) && can_draw_opt(
            &w.params.filter,
            printed,
        ),
        Expr::Exists(_) => false,
        Expr::InSubquery(_) => false,
        Expr::ScalarSubquery(_) => false,
        _ => !printed,
    }
}

/// The same for an optional expression.
fn can_draw_opt(e: &Option<Box<Expr>>, printed: bool) -> (r: bool)
    ensures
        r == opt_expr_drawable(*e, printed),
    decreases *e,
{
    match e {
        Some(x) => can_draw(x, printed),
        None => true,
    }
}

/// The same for a list of expressions.
fn can_draw_all(list: &Vec<Expr>, printed: bool) -> (r: bool)
    ensures
        r == exprs_drawable(list@, printed),
    decreases list@,
{
    for i in 0..list.len()
        invariant
            exprs_drawable(list@.take(i as int), printed),
    {
        proof {
            assert(list@.take(i + 1).drop_last() == list@.take(i as int));
            assert(list@.take(i + 1).last() == list@[i as int]);
            lemma_some_expr(list@, i + 1, printed);
        }
        if !can_draw(&list[i], printed) {
            return false;
        }
    }
    proof {
        assert(list@.take(list@.len() as int) == list@);
    }
    true
}

/// A part of a list that cannot be handed over makes the list one.
proof fn lemma_some_expr(list: Seq<Expr>, n: int, printed: bool)
    requires
        0 <= n <= list.len(),
    ensures
        !exprs_drawable(list.take(n), printed) ==> !exprs_drawable(list, printed),
    decreases list.len() - n,
{
    if n < list.len() {
        assert(list.take(n + 1).drop_last() == list.take(n));
        lemma_some_expr(list, n + 1, printed);
    } else {
        assert(list.take(n) == list);
    }
}

/// The same for the branches of a CASE.
fn can_draw_pairs(list: &Vec<(Box<Expr>, Box<Expr>)>, printed: bool) -> (r: bool)
    ensures
        r == expr_pairs_drawable(list@, printed),
    decreases list@,
{
    for i in 0..list.len()
        invariant
            expr_pairs_drawable(list@.take(i as int), printed),
    {
        proof {
            assert(list@.take(i + 1).drop_last() == list@.take(i as int));
            assert(list@.take(i + 1).last() == list@[i as int]);
            lemma_some_pair(list@, i + 1, printed);
        }
        if !can_draw(&list[i].0, printed) || !can_draw(&list[i].1, printed) {
            return false;
        }
    }
    proof {
        assert(list@.take(list@.len() as int) == list@);
    }
    true
}

/// A part of a list that cannot be handed over makes the list one.
proof fn lemma_some_pair(list: Seq<(Box<Expr>, Box<Expr>)>, n: int, printed: bool)
    requires
        0 <= n <= list.len(),
    ensures
        !expr_pairs_drawable(list.take(n), printed) ==> !expr_pairs_drawable(list, printed),
    decreases list.len() - n,
{
    if n < list.len() {
        assert(list.take(n + 1).drop_last() == list.take(n));
        lemma_some_pair(list, n + 1, printed);
    } else {
        assert(list.take(n) == list);
    }
}

/// The same for sort keys.
fn can_draw_sorts(list: &Vec<Sort>, printed: bool) -> (r: bool)
    ensures
        r == sorts_drawable(list@, printed),
    decreases list@,
{
    for i in 0..list.len()
        invariant
            sorts_drawable(list@.take(i as int), printed),
    {
        proof {
            assert(list@.take(i + 1).drop_last() == list@.take(i as int));
            assert(list@.take(i + 1).last() == list@[i as int]);
            lemma_some_sort(list@, i + 1, printed);
        }
        if !can_draw(&list[i].expr, printed) {
            return false;
        }
    }
    proof {
        assert(list@.take(list@.len() as int) == list@);
    }
    true
}

/// A part of a list that cannot be handed over makes the list one.
proof fn lemma_some_sort(list: Seq<Sort>, n: int, printed: bool)
    requires
        0 <= n <= list.len(),
    ensures
        !sorts_drawable(list.take(n), printed) ==> !sorts_drawable(list, printed),
    decreases list.len() - n,
{
    if n < list.len() {
        assert(list.take(n + 1).drop_last() == list.take(n));
        lemma_some_sort(list, n + 1, printed);
    } else {
        assert(list.take(n) == list);
    }
}

/// The same for grouping sets.
fn can_draw_sets(list: &Vec<Vec<Expr>>, printed: bool) -> (r: bool)
    ensures
        r == sets_drawable(list@, printed),
    decreases list@,
{
    for i in 0..list.len()
        invariant
            sets_drawable(list@.take(i as int), printed),
    {
        proof {
            assert(list@.take(i + 1).drop_last() == list@.take(i as int));
            assert(list@.take(i + 1).last() == list@[i as int]);
            lemma_some_set(list@, i + 1, printed);
        }
        if !can_draw_all(&list[i], printed) {
            return false;
        }
    }
    proof {
        assert(list@.take(list@.len() as int) == list@);
    }
    true
}

/// A part of a list that cannot be handed over makes the list one.
proof fn lemma_some_set(list: Seq<Vec<Expr>>, n: int, printed: bool)
    requires
        0 <= n <= list.len(),
    ensures
        !sets_drawable(list.take(n), printed) ==> !sets_drawable(list, printed),
    decreases list.len() - n,
{
    if n < list.len() {
        assert(list.take(n + 1).drop_last() == list.take(n));
        lemma_some_set(list, n + 1, printed);
    } else {
        assert(list.take(n) == list);
    }
}

/// What is told of an expression is told of its shape.
pub proof fn lemma_drawable_shape(e: Expr, printed: bool)
    ensures
        drawable(shape(e), printed) == expr_drawable(e, printed),
    decreases e,
{
    match e {
        Expr::BinaryExpr(b) => {
            lemma_drawable_shape(*b.left, printed);
            lemma_drawable_shape(*b.right, printed);
        },
        Expr::Not(x) => lemma_drawable_shape(*x, printed),
        Expr::Negative(x) => lemma_drawable_shape(*x, printed),
        Expr::IsNull(x) => lemma_drawable_shape(*x, printed),
        Expr::IsNotNull(x) => lemma_drawable_shape(*x, printed),
        Expr::Cast(c) => lemma_drawable_shape(*c.expr, printed),
        Expr::Case(c) => {
            lemma_drawable_opt(c.expr, printed);
            lemma_drawable_pairs(c.when_then_expr@, printed);
            lemma_drawable_opt(c.else_expr, printed);
        },
        Expr::InList(l) => {
            lemma_drawable_shape(*l.expr, printed);
            lemma_drawable_list(l.list@, printed);
        },
        Expr::ScalarFunction(f) => {
            lemma_drawable_list(f.args@, printed);
            lemma_drawable_list(f.args@, true);
        },
        Expr::AggregateFunction(f) => {
            lemma_drawable_list(f.params.args@, printed);
            assert(f.params.filter is None ==> opt_expr_drawable(f.params.filter, printed));
            assert(f.params.order_by@.len() == 0 ==> sorts_drawable(f.params.order_by@, printed));
        },
        _ => {},
    }
}

/// The same for an optional expression.
proof fn lemma_drawable_opt(e: Option<Box<Expr>>, printed: bool)
    ensures
        opt_drawable(opt_shape(e), printed) == opt_expr_drawable(e, printed),
    decreases e,
{
    if let Some(x) = e {
        lemma_drawable_shape(*x, printed);
    }
}

/// The same for a list of expressions.
proof fn lemma_drawable_list(list: Seq<Expr>, printed: bool)
    ensures
        all_drawable(shapes(list), printed) == exprs_drawable(list, printed),
    decreases list,
{
    if list.len() > 0 {
        lemma_drawable_list(list.drop_last(), printed);
        lemma_drawable_shape(list.last(), printed);
        assert(shapes(list).drop_last() =~= shapes(list.drop_last()));
    }
}

/// The same for the branches of a CASE.
proof fn lemma_drawable_pairs(list: Seq<(Box<Expr>, Box<Expr>)>, printed: bool)
    ensures
        pairs_drawable(pair_shapes(list), printed) == expr_pairs_drawable(list, printed),
    decreases list,
{
    if list.len() > 0 {
        lemma_drawable_pairs(list.drop_last(), printed);
        lemma_drawable_shape(*list.last().0, printed);
        lemma_drawable_shape(*list.last().1, printed);
        assert(pair_shapes(list).drop_last() =~= pair_shapes(list.drop_last()));
    }
}

// What is let through, and what is not.

/// A literal is let through by its type: one that is not made of others always
/// is, unless it is a decimal with a scale beyond its precision or, where it may
/// be printed, a date in milliseconds; a struct, a map or a union never is.
pub proof fn literals_are_let_through_by_type(t: DataType, printed: bool)
    ensures
        t is Struct || t is Map || t is Union ==> !drawable_type(t, printed),
        t matches DataType::Decimal128(precision, scale) ==> (drawable_type(t, printed) <==> scale
            <= precision),
        t matches DataType::Decimal256(precision, scale) ==> (drawable_type(t, printed) <==> scale
            <= precision),
        t is Date64 ==> (drawable_type(t, printed) <==> !printed),
        t matches DataType::Dictionary(_, values) ==> (!is_nested(*values) ==> (drawable_type(
            t,
            printed,
        ) <==> drawable_type(*values, printed))),
        t is Null || t is Boolean || t is Int8 || t is Int16 || t is Int32 || t is Int64 || t is UInt8
            || t is UInt16 || t is UInt32 || t is UInt64 || t is Float16 || t is Float32 || t is Float64
            || t is Utf8 || t is LargeUtf8 || t is Utf8View || t is Binary || t is LargeBinary
            || t is BinaryView || t is FixedSizeBinary || t is Date32 || t is Time32 || t is Time64
            || t is Timestamp || t is Interval || t is Duration ==> drawable_type(t, printed),
        t is List || t is LargeList || t is FixedSizeList ==> (drawable_type(t, printed) ==> !printed),
{
}

/// An expression is let through exactly when all that it is made of is.
pub proof fn expressions_are_let_through_by_their_parts(
    left: ExprShape,
    right: ExprShape,
    op: datafusion::logical_expr::Operator,
    value: ScalarValue,
    to: DataType,
    negated: bool,
    list: Seq<ExprShape>,
    printed: bool,
)
    ensures
        drawable(ExprShape::Literal(value), printed) == drawable_type(scalar_type(value), printed),
        drawable(
            (ExprShape::Binary { left: Box::new(left), op, right: Box::new(right) }),
            printed,
        ) == (drawable(left, printed) && drawable(right, printed)),
        drawable(ExprShape::Not(Box::new(left)), printed) == drawable(left, printed),
        drawable((ExprShape::Cast { expr: Box::new(left), to }), printed) == drawable(left, printed),
        drawable((ExprShape::InList { expr: Box::new(left), list, negated }), printed) == (drawable(
            left,
            printed,
        ) && forall|i: int| 0 <= i < list.len() ==> drawable(#[trigger] list[i], printed)),
{
    lemma_all_drawable(list, printed);
}

/// A list is let through exactly when each item is.
proof fn lemma_all_drawable(list: Seq<ExprShape>, printed: bool)
    ensures
        all_drawable(list, printed) <==> forall|i: int|
            0 <= i < list.len() ==> drawable(#[trigger] list[i], printed),
    decreases list.len(),
{
    if list.len() > 0 {
        lemma_all_drawable(list.drop_last(), printed);
        if all_drawable(list, printed) {
            assert forall|i: int| 0 <= i < list.len() implies drawable(
                #[trigger] list[i],
                printed,
            ) by {
                if i < list.len() - 1 {
                    assert(list.drop_last()[i] == list[i]);
                }
            }
        }
        if forall|i: int| 0 <= i < list.len() ==> drawable(#[trigger] list[i], printed) {
            assert forall|i: int| 0 <= i < list.drop_last().len() implies drawable(
                #[trigger] list.drop_last()[i],
                printed,
            ) by {
                assert(list[i] == list.drop_last()[i]);
            }
            assert(drawable(list[list.len() - 1], printed));
        }
    }
}

/// Arrow prints the values of every type that is not made of others, but for
/// decimals with a scale beyond their precision and times in a zone, of which
/// only those in nanoseconds are printed.
pub proof fn plain_types_are_printable(t: DataType)
    ensures
        t matches DataType::Timestamp(unit, zone) ==> (printable_type(t) <==> zone is None
            || unit is Nanosecond),
        t matches DataType::Decimal128(precision, scale) ==> (printable_type(t) <==> scale
            <= precision),
        t matches DataType::Decimal256(precision, scale) ==> (printable_type(t) <==> scale
            <= precision),
        t is Null || t is Boolean || t is Int8 || t is Int16 || t is Int32 || t is Int64 || t is UInt8
            || t is UInt16 || t is UInt32 || t is UInt64 || t is Float16 || t is Float32 || t is Float64
            || t is Utf8 || t is LargeUtf8 || t is Utf8View || t is Binary || t is LargeBinary
            || t is BinaryView || t is FixedSizeBinary || t is Date32 || t is Date64 || t is Time32
            || t is Time64 || t is Interval || t is Duration ==> printable_type(t),
        t matches DataType::Dictionary(_, values) ==> (!is_nested(*values) ==> (printable_type(t)
            <==> printable_type(*values))),
{
}

} // verus!
