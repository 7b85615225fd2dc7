//! Translate the plan's expressions into DataFusion `Expr`.
//!
//! One translation, two consumers: DataFusion's unparser renders the result to
//! source SQL (`sql`), and local operators are built from it. Anything that is
//! not mapped is an error, never silently dropped.

use datafusion::arrow::array::ArrayRef;
use datafusion::arrow::datatypes::ArrowPrimitiveType;
use datafusion::arrow::datatypes::DataType;
use datafusion::arrow::datatypes::Float64Type;
use datafusion::common::Column;
use datafusion::common::DataFusionError;
use datafusion::common::ScalarValue;
use datafusion::common::TableReference;
use datafusion::functions::all_default_functions;
use datafusion::functions_aggregate::all_default_aggregate_functions;
use datafusion::logical_expr::expr::AggregateFunction;
use datafusion::logical_expr::expr::AggregateFunctionParams;
use datafusion::logical_expr::expr::InList;
use datafusion::logical_expr::expr::ScalarFunction;
use datafusion::logical_expr::AggregateUDF;
use datafusion::logical_expr::BinaryExpr;
use datafusion::logical_expr::Case;
use datafusion::logical_expr::Cast;
use datafusion::logical_expr::Expr;
use datafusion::logical_expr::Operator;
use datafusion::logical_expr::ScalarUDF;
use std::sync::Arc;
use vstd::prelude::*;
use vstd::string::*;

use crate::error::{plan_err, Fault, PlanError};
use crate::ir::{opt_text, IrExpr, Literal, LiteralValue, WhenThen};
use crate::printing::{
    all_drawable, always_drawable, drawable, drawable_part, drawable_type, is_nested, opt_drawable,
    pairs_drawable, scalar_type,
};
use crate::text::{same, texts};

verus! {

// What an expression is.

/// A DataFusion expression as the tree of its nodes, without source locations,
/// metadata on literals and an aggregate's treatment of NULLs.
pub enum ExprShape {
    Column { relation: Option<Seq<char>>, name: Seq<char> },
    Literal(ScalarValue),
    Binary { left: Box<ExprShape>, op: Operator, right: Box<ExprShape> },
    Not(Box<ExprShape>),
    Negative(Box<ExprShape>),
    IsNull(Box<ExprShape>),
    IsNotNull(Box<ExprShape>),
    Cast { expr: Box<ExprShape>, to: DataType },
    Case {
        operand: Option<Box<ExprShape>>,
        whens: Seq<(ExprShape, ExprShape)>,
        otherwise: Option<Box<ExprShape>>,
    },
    InList { expr: Box<ExprShape>, list: Seq<ExprShape>, negated: bool },
    ScalarCall { function: ScalarUDF, args: Seq<ExprShape> },
    AggregateCall { function: AggregateUDF, args: Seq<ExprShape> },
    Other(Expr),
}

/// The shape of an expression.
pub open spec fn shape(e: Expr) -> ExprShape
    decreases e,
{
    match e {
        Expr::Column(c) => match c.relation {
            None => ExprShape::Column { relation: None, name: c.name@ },
            Some(TableReference::Bare { table }) => ExprShape::Column {
                relation: Some((*table)@),
                name: c.name@,
            },
            _ => ExprShape::Other(e),
        },
        Expr::Literal(value, _) => ExprShape::Literal(value),
        Expr::BinaryExpr(b) => ExprShape::Binary {
            left: Box::new(shape(*b.left)),
            op: b.op,
            right: Box::new(shape(*b.right)),
        },
        Expr::Not(x) => ExprShape::Not(Box::new(shape(*x))),
        Expr::Negative(x) => ExprShape::Negative(Box::new(shape(*x))),
        Expr::IsNull(x) => ExprShape::IsNull(Box::new(shape(*x))),
        Expr::IsNotNull(x) => ExprShape::IsNotNull(Box::new(shape(*x))),
        Expr::Cast(c) => ExprShape::Cast { expr: Box::new(shape(*c.expr)), to: c.data_type },
        Expr::Case(c) => ExprShape::Case {
            operand: opt_shape(c.expr),
            whens: pair_shapes(c.when_then_expr@),
            otherwise: opt_shape(c.else_expr),
        },
        Expr::InList(l) => ExprShape::InList {
            expr: Box::new(shape(*l.expr)),
            list: shapes(l.list@),
            negated: l.negated,
        },
        Expr::ScalarFunction(f) => ExprShape::ScalarCall {
            function: *f.func,
            args: shapes(f.args@),
        },
        Expr::AggregateFunction(f) => if !f.params.distinct && f.params.filter is None
            && f.params.order_by@.len() == 0 {
            ExprShape::AggregateCall { function: *f.func, args: shapes(f.params.args@) }
        } else {
            ExprShape::Other(e)
        },
        _ => ExprShape::Other(e),
    }
}

/// The shape of an optional expression.
pub open spec fn opt_shape(e: Option<Box<Expr>>) -> Option<Box<ExprShape>>
    decreases e,
{
    match e {
        Some(x) => Some(Box::new(shape(*x))),
        None => None,
    }
}

/// The shapes of a list of expressions.
pub open spec fn shapes(list: Seq<Expr>) -> Seq<ExprShape>
    decreases list,
{
    if list.len() == 0 {
        Seq::empty()
    } else {
        shapes(list.drop_last()).push(shape(list.last()))
    }
}

/// The shapes of a list of expression pairs.
pub open spec fn pair_shapes(list: Seq<(Box<Expr>, Box<Expr>)>) -> Seq<(ExprShape, ExprShape)>
    decreases list,
{
    if list.len() == 0 {
        Seq::empty()
    } else {
        pair_shapes(list.drop_last()).push((shape(*list.last().0), shape(*list.last().1)))
    }
}

// Operators and types by name.

/// The operator that a plan writes as `op`.
pub open spec fn operator_of(op: Seq<char>) -> Option<Operator> {
    if op == "+"@ {
        Some(Operator::Plus)
    } else if op == "-"@ {
        Some(Operator::Minus)
    } else if op == "*"@ {
        Some(Operator::Multiply)
    } else if op == "/"@ {
        Some(Operator::Divide)
    } else if op == "%"@ {
        Some(Operator::Modulo)
    } else if op == "="@ {
        Some(Operator::Eq)
    } else if op == "!="@ || op == "<>"@ {
        Some(Operator::NotEq)
    } else if op == "<"@ {
        Some(Operator::Lt)
    } else if op == "<="@ {
        Some(Operator::LtEq)
    } else if op == ">"@ {
        Some(Operator::Gt)
    } else if op == ">="@ {
        Some(Operator::GtEq)
    } else if op == "and"@ {
        Some(Operator::And)
    } else if op == "or"@ {
        Some(Operator::Or)
    } else if op == "like"@ {
        Some(Operator::LikeMatch)
    } else if op == "ilike"@ {
        Some(Operator::ILikeMatch)
    } else if op == "is_distinct_from"@ {
        Some(Operator::IsDistinctFrom)
    } else if op == "is_not_distinct_from"@ {
        Some(Operator::IsNotDistinctFrom)
    } else {
        None
    }
}

/// The Arrow type that a plan names `name` as the target of a cast.
pub open spec fn data_type_of(name: Seq<char>) -> Option<DataType> {
    if name == "int16"@ {
        Some(DataType::Int16)
    } else if name == "int32"@ {
        Some(DataType::Int32)
    } else if name == "int64"@ {
        Some(DataType::Int64)
    } else if name == "float32"@ {
        Some(DataType::Float32)
    } else if name == "float64"@ {
        Some(DataType::Float64)
    } else if name == "utf8"@ || name == "string"@ {
        Some(DataType::Utf8)
    } else if name == "boolean"@ || name == "bool"@ {
        Some(DataType::Boolean)
    } else if name == "date32"@ {
        Some(DataType::Date32)
    } else {
        None
    }
}

/// `before`, then `name` in single quotes, then `after`.
pub open spec fn naming(before: Seq<char>, name: Seq<char>, after: Seq<char>) -> Seq<char> {
    before + "'"@ + name + "'"@ + after
}

/// `before`, then `name` in single quotes, then `after`.
pub fn naming_text(before: &str, name: &str, after: &str) -> (r: String)
    ensures
        r@ == naming(before@, name@, after@),
{
    let mut out = before.to_owned();
    out.append("'");
    out.append(name);
    out.append("'");
    out.append(after);
    out
}

/// The operator that a plan writes as `op`.
fn operator(op: &str) -> (r: Result<Operator, PlanError>)
    ensures
        match r {
            Ok(o) => operator_of(op@) == Some(o),
            Err(e) => operator_of(op@) is None && e@ == Fault::Plan(
                naming("unsupported binary operator "@, op@, ""@),
            ),
        },
{
    if same(op, "+") {
        Ok(Operator::Plus)
    } else if same(op, "-") {
        Ok(Operator::Minus)
    } else if same(op, "*") {
        Ok(Operator::Multiply)
    } else if same(op, "/") {
        Ok(Operator::Divide)
    } else if same(op, "%") {
        Ok(Operator::Modulo)
    } else if same(op, "=") {
        Ok(Operator::Eq)
    } else if same(op, "!=") || same(op, "<>") {
        Ok(Operator::NotEq)
    } else if same(op, "<") {
        Ok(Operator::Lt)
    } else if same(op, "<=") {
        Ok(Operator::LtEq)
    } else if same(op, ">") {
        Ok(Operator::Gt)
    } else if same(op, ">=") {
        Ok(Operator::GtEq)
    } else if same(op, "and") {
        Ok(Operator::And)
    } else if same(op, "or") {
        Ok(Operator::Or)
    } else if same(op, "like") {
        Ok(Operator::LikeMatch)
    } else if same(op, "ilike") {
        Ok(Operator::ILikeMatch)
    } else if same(op, "is_distinct_from") {
        Ok(Operator::IsDistinctFrom)
    } else if same(op, "is_not_distinct_from") {
        Ok(Operator::IsNotDistinctFrom)
    } else {
        Err(plan_err(naming_text("unsupported binary operator ", op, "")))
    }
}

/// Map the name of an Arrow type to the type.
pub fn data_type(name: &str) -> (r: Result<DataType, PlanError>)
    ensures
        match r {
            Ok(t) => data_type_of(name@) == Some(t),
            Err(e) => data_type_of(name@) is None && e@ == Fault::Plan(
                naming("unsupported cast target type "@, name@, ""@),
            ),
        },
{
    if same(name, "int16") {
        Ok(DataType::Int16)
    } else if same(name, "int32") {
        Ok(DataType::Int32)
    } else if same(name, "int64") {
        Ok(DataType::Int64)
    } else if same(name, "float32") {
        Ok(DataType::Float32)
    } else if same(name, "float64") {
        Ok(DataType::Float64)
    } else if same(name, "utf8") || same(name, "string") {
        Ok(DataType::Utf8)
    } else if same(name, "boolean") || same(name, "bool") {
        Ok(DataType::Boolean)
    } else if same(name, "date32") {
        Ok(DataType::Date32)
    } else {
        Err(plan_err(naming_text("unsupported cast target type ", name, "")))
    }
}

// Literals and columns.

/// What `ScalarValue::from` makes of an integer: `Int64`, holding it.
pub uninterp spec fn int_scalar(value: i64) -> ScalarValue;

/// What `ScalarValue::from` makes of the double with these bits: `Float64`,
/// holding it.
pub uninterp spec fn double_scalar(bits: u64) -> ScalarValue;

/// What `ScalarValue::from` makes of a text: `Utf8`, holding it.
pub uninterp spec fn text_scalar(value: Seq<char>) -> ScalarValue;

/// What `ScalarValue::from` makes of a truth value: `Boolean`, holding it.
pub uninterp spec fn bool_scalar(value: bool) -> ScalarValue;

/// What `ScalarValue::try_from` makes of a type: the NULL of that type.
pub uninterp spec fn null_scalar(data_type: DataType) -> ScalarValue;

/// `ScalarValue::from(i64)`. Trusted: the scalar is determined by the integer, and
/// has the type `Int64`.
#[verifier::external_body]
fn scalar_from_int(value: i64) -> (r: ScalarValue)
    ensures
        r == int_scalar(value),
        scalar_type(r) == DataType::Int64,
{
    ScalarValue::from(value)
}

/// `ScalarValue::from` on the double with the given bits. Trusted: the scalar is
/// determined by the bits, and has the type `Float64`.
#[verifier::external_body]
fn scalar_from_double(bits: u64) -> (r: ScalarValue)
    ensures
        r == double_scalar(bits),
        scalar_type(r) == DataType::Float64,
{
    ScalarValue::from(<<Float64Type as ArrowPrimitiveType>::Native>::from_bits(bits))
}

/// `ScalarValue::from(&str)`. Trusted: the scalar is determined by the text, and
/// has the type `Utf8`.
#[verifier::external_body]
fn scalar_from_text(value: &str) -> (r: ScalarValue)
    ensures
        r == text_scalar(value@),
        scalar_type(r) == DataType::Utf8,
{
    ScalarValue::from(value)
}

/// `ScalarValue::from(bool)`. Trusted: the scalar is determined by the truth
/// value, and has the type `Boolean`.
#[verifier::external_body]
fn scalar_from_bool(value: bool) -> (r: ScalarValue)
    ensures
        r == bool_scalar(value),
        scalar_type(r) == DataType::Boolean,
{
    ScalarValue::from(value)
}

/// `ScalarValue::try_from(&DataType)`: the NULL of a type. Trusted, and asked
/// for of the null type only: it has a NULL, determined by the type and of that
/// type.
#[verifier::external_body]
fn typed_null(data_type: &DataType) -> (r: Result<ScalarValue, DataFusionError>)
    requires
        *data_type is Null,
    ensures
        r is Ok,
        r->Ok_0 == null_scalar(*data_type),
        scalar_type(r->Ok_0) == *data_type,
{
    ScalarValue::try_from(data_type)
}

/// The DataFusion scalar that stands for a literal.
pub open spec fn literal_scalar(value: Literal) -> ScalarValue {
    match value {
        Literal::Int(n) => int_scalar(n),
        Literal::Float(bits) => double_scalar(bits),
        Literal::Str(text) => text_scalar(text),
        Literal::Bool(b) => bool_scalar(b),
        Literal::Null => null_scalar(DataType::Null),
    }
}

/// The DataFusion scalar that stands for a literal.
fn scalar(value: &LiteralValue) -> (r: ScalarValue)
    ensures
        r == literal_scalar(value@),
        drawable_type(scalar_type(r), true),
        drawable_type(scalar_type(r), false),
{
    match value {
        LiteralValue::Int { value } => scalar_from_int(*value),
        LiteralValue::Float { bits } => scalar_from_double(*bits),
        LiteralValue::Str { value } => scalar_from_text(value.as_str()),
        LiteralValue::Bool { value } => scalar_from_bool(*value),
        LiteralValue::Null => typed_null(&DataType::Null).unwrap(),
    }
}

/// A literal expression.
pub fn literal(value: &LiteralValue) -> (r: Expr)
    ensures
        shape(r) == ExprShape::Literal(literal_scalar(value@)),
        always_drawable(shape(r)),
{
    Expr::Literal(scalar(value), None)
}

/// A column reference by `Column::new`, its relation by `TableReference::bare`.
/// Trusted: the column has the given name, and the given relation as an
/// unqualified table name, or none.
#[verifier::external_body]
fn column(relation: Option<String>, name: String) -> (r: Column)
    ensures
        shape(Expr::Column(r)) == (ExprShape::Column {
            relation: opt_text(relation),
            name: name@,
        }),
{
    Column::new(relation.map(|table| TableReference::bare(table)), name)
}

// Functions by name.

/// The default scalar function at `index`, where there is one.
pub uninterp spec fn default_scalar(index: int) -> Option<ScalarUDF>;

/// The default aggregate function at `index`, where there is one.
pub uninterp spec fn default_aggregate(index: int) -> Option<AggregateUDF>;

/// The name of a scalar function.
pub uninterp spec fn scalar_name(function: ScalarUDF) -> Seq<char>;

/// The other names of a scalar function.
pub uninterp spec fn scalar_aliases(function: ScalarUDF) -> Seq<Seq<char>>;

/// The name of an aggregate function.
pub uninterp spec fn aggregate_name(function: AggregateUDF) -> Seq<char>;

/// The other names of an aggregate function.
pub uninterp spec fn aggregate_aliases(function: AggregateUDF) -> Seq<Seq<char>>;

/// The element of a list at `index`, where there is one.
pub open spec fn element_at<F>(list: Seq<Arc<F>>, index: int) -> Option<F> {
    if 0 <= index < list.len() {
        Some(*list[index])
    } else {
        None
    }
}

/// `all_default_functions`: the scalar functions that DataFusion has by
/// default. Trusted: the list is the same on every call.
#[verifier::external_body]
fn default_scalars() -> (r: Vec<Arc<ScalarUDF>>)
    ensures
        forall|i: int| #[trigger] default_scalar(i) == element_at(r@, i),
{
    all_default_functions()
}

/// `all_default_aggregate_functions`: the aggregate functions that DataFusion
/// has by default. Trusted: the list is the same on every call.
#[verifier::external_body]
fn default_aggregates() -> (r: Vec<Arc<AggregateUDF>>)
    ensures
        forall|i: int| #[trigger] default_aggregate(i) == element_at(r@, i),
{
    all_default_aggregate_functions()
}

/// `ScalarUDF::name`. Trusted: a function always has the same name.
#[verifier::external_body]
pub(crate) fn name_of_scalar(function: &ScalarUDF) -> (r: &str)
    ensures
        r@ == scalar_name(*function),
{
    function.name()
}

/// `ScalarUDF::aliases`. Trusted: a default function always has the same
/// aliases.
#[verifier::external_body]
fn aliases_of_scalar(function: &ScalarUDF) -> (r: Vec<String>)
    requires
        exists|i: int| #[trigger] default_scalar(i) == Some(*function),
    ensures
        texts(r@) == scalar_aliases(*function),
{
    function.aliases().to_vec()
}

/// `AggregateUDF::name`. Trusted: a default function always has the same name.
#[verifier::external_body]
fn name_of_aggregate(function: &AggregateUDF) -> (r: &str)
    requires
        exists|i: int| #[trigger] default_aggregate(i) == Some(*function),
    ensures
        r@ == aggregate_name(*function),
{
    function.name()
}

/// `AggregateUDF::aliases`. Trusted: a default function always has the same
/// aliases.
#[verifier::external_body]
fn aliases_of_aggregate(function: &AggregateUDF) -> (r: Vec<String>)
    requires
        exists|i: int| #[trigger] default_aggregate(i) == Some(*function),
    ensures
        texts(r@) == aggregate_aliases(*function),
{
    function.aliases().to_vec()
}

/// The names that a function answers to: its own, and its aliases.
pub open spec fn all_names(name: Seq<char>, aliases: Seq<Seq<char>>) -> Seq<Seq<char>> {
    seq![name] + aliases
}

/// The default scalar function at `index` and the names that it answers to.
pub open spec fn scalar_entry(index: int) -> Option<(Seq<Seq<char>>, ScalarUDF)> {
    match default_scalar(index) {
        Some(f) => Some((all_names(scalar_name(f), scalar_aliases(f)), f)),
        None => None,
    }
}

/// The default aggregate function at `index` and the names that it answers to.
pub open spec fn aggregate_entry(index: int) -> Option<(Seq<Seq<char>>, AggregateUDF)> {
    match default_aggregate(index) {
        Some(f) => Some((all_names(aggregate_name(f), aggregate_aliases(f)), f)),
        None => None,
    }
}

/// The entry of a list of named functions at `index`, where there is one.
pub open spec fn entry_at<F>(list: Seq<(Vec<String>, Arc<F>)>, index: int) -> Option<
    (Seq<Seq<char>>, F),
> {
    if 0 <= index < list.len() {
        Some((texts(list[index].0@), *list[index].1))
    } else {
        None
    }
}

/// A function's own name, followed by its aliases.
fn names_with(name: &str, aliases: Vec<String>) -> (r: Vec<String>)
    ensures
        texts(r@) == all_names(name@, texts(aliases@)),
{
    let mut names: Vec<String> = Vec::new();
    names.push(name.to_owned());
    let mut others = aliases;
    let ghost all = others@;
    names.append(&mut others);
    proof {
        assert(texts(names@) =~= all_names(name@, texts(all)));
    }
    names
}

/// The default scalar functions, each with the names that it answers to.
fn scalar_entries() -> (r: Vec<(Vec<String>, Arc<ScalarUDF>)>)
    ensures
        forall|i: int| #[trigger] scalar_entry(i) == entry_at(r@, i),
{
    let functions = default_scalars();
    let mut entries: Vec<(Vec<String>, Arc<ScalarUDF>)> = Vec::new();
    for i in 0..functions.len()
        invariant
            forall|j: int| #[trigger] default_scalar(j) == element_at(functions@, j),
            entries@.len() == i,
            forall|j: int| 0 <= j < i ==> #[trigger] scalar_entry(j) == entry_at(entries@, j),
    {
        proof {
            assert(default_scalar(i as int) == Some(*functions@[i as int]));
        }
        let aliases = aliases_of_scalar(&functions[i]);
        let names = names_with(name_of_scalar(&functions[i]), aliases);
        entries.push((names, functions[i].clone()));
    }
    proof {
        assert forall|i: int| #[trigger] scalar_entry(i) == entry_at(entries@, i) by {
            assert(default_scalar(i) == element_at(functions@, i));
        }
    }
    entries
}

/// The default aggregate functions, each with the names that it answers to.
fn aggregate_entries() -> (r: Vec<(Vec<String>, Arc<AggregateUDF>)>)
    ensures
        forall|i: int| #[trigger] aggregate_entry(i) == entry_at(r@, i),
{
    let functions = default_aggregates();
    let mut entries: Vec<(Vec<String>, Arc<AggregateUDF>)> = Vec::new();
    for i in 0..functions.len()
        invariant
            forall|j: int| #[trigger] default_aggregate(j) == element_at(functions@, j),
            entries@.len() == i,
            forall|j: int| 0 <= j < i ==> #[trigger] aggregate_entry(j) == entry_at(entries@, j),
    {
        proof {
            assert(default_aggregate(i as int) == Some(*functions@[i as int]));
        }
        let aliases = aliases_of_aggregate(&functions[i]);
        let names = names_with(name_of_aggregate(&functions[i]), aliases);
        entries.push((names, functions[i].clone()));
    }
    proof {
        assert forall|i: int| #[trigger] aggregate_entry(i) == entry_at(entries@, i) by {
            assert(default_aggregate(i) == element_at(functions@, i));
        }
    }
    entries
}

/// Whether there is an entry and `name` is one of its names.
pub open spec fn answers_to<F>(entry: Option<(Seq<Seq<char>>, F)>, name: Seq<char>) -> bool {
    entry matches Some(e) && e.0.contains(name)
}

/// `index` is where `name` is found in a registry that is filled in list
/// order, a later entry replacing an earlier one of the same name.
pub open spec fn registered<F>(
    entries: spec_fn(int) -> Option<(Seq<Seq<char>>, F)>,
    name: Seq<char>,
    index: int,
) -> bool {
    &&& answers_to(entries(index), name)
    &&& forall|later: int| later > index ==> !answers_to(#[trigger] entries(later), name)
}

/// The function that a registry knows by `name`.
pub open spec fn resolved<F>(
    entries: spec_fn(int) -> Option<(Seq<Seq<char>>, F)>,
    name: Seq<char>,
) -> Option<F> {
    if exists|i: int| registered(entries, name, i) {
        Some((entries(choose|i: int| registered(entries, name, i))->0).1)
    } else {
        None
    }
}

/// The call of the function `name`: a scalar function where there is one of
/// that name, else an aggregate function.
pub open spec fn called(name: Seq<char>, args: Seq<ExprShape>) -> Result<ExprShape, Fault> {
    match resolved(|i: int| scalar_entry(i), name) {
        Some(function) => Ok(ExprShape::ScalarCall { function, args }),
        None => match resolved(|i: int| aggregate_entry(i), name) {
            Some(function) => Ok(ExprShape::AggregateCall { function, args }),
            None => Err(Fault::Plan(naming("function "@, name, " not supported"@))),
        },
    }
}

/// Whether `list` holds `name`.
fn holds(list: &Vec<String>, name: &str) -> (r: bool)
    ensures
        r == texts(list@).contains(name@),
{
    for i in 0..list.len()
        invariant
            forall|j: int| 0 <= j < i ==> (#[trigger] list@[j])@ != name@,
    {
        if same(list[i].as_str(), name) {
            proof {
                assert(texts(list@)[i as int] == name@);
            }
            return true;
        }
    }
    proof {
        assert forall|j: int| 0 <= j < list@.len() implies texts(list@)[j] != name@ by {
            assert(texts(list@)[j] == list@[j]@);
        }
    }
    false
}

/// The function that a registry filled with `list` knows by `name`.
fn find_function<F>(list: &Vec<(Vec<String>, Arc<F>)>, name: &str) -> (r: Option<Arc<F>>)
    ensures
        (match r {
            Some(f) => Some(*f),
            None => None,
        }) == resolved(|i: int| entry_at(list@, i), name@),
{
    let ghost entries = |i: int| entry_at(list@, i);
    let mut i: usize = list.len();
    while i > 0
        invariant
            i <= list@.len(),
            entries == (|i: int| entry_at(list@, i)),
            forall|j: int| j >= i ==> !answers_to(#[trigger] entries(j), name@),
        decreases i,
    {
        i = i - 1;
        if holds(&list[i].0, name) {
            proof {
                assert(answers_to(entries(i as int), name@));
                assert(registered(entries, name@, i as int));
                let k = choose|k: int| registered(entries, name@, k);
                assert(answers_to(entries(k), name@));
                assert(k == i);
            }
            return Some(list[i].1.clone());
        }
    }
    proof {
        assert forall|j: int| !registered(entries, name@, j) by {
            assert(!answers_to(entries(j), name@));
        }
    }
    None
}

/// Build the call of the function `name`. Scalar functions are tried first; an
/// aggregate is allowed so that it can stand inside a larger expression.
fn build_function(name: &str, args: Vec<Expr>) -> (r: Result<Expr, PlanError>)
    requires
        all_drawable(shapes(args@), true),
        all_drawable(shapes(args@), false),
    ensures
        match r {
            Ok(e) => called(name@, shapes(args@)) == Ok::<ExprShape, Fault>(shape(e))
                && always_drawable(shape(e)),
            Err(e) => called(name@, shapes(args@)) == Err::<ExprShape, Fault>(e@),
        },
{
    let scalars = scalar_entries();
    proof {
        assert((|i: int| entry_at(scalars@, i)) =~= (|i: int| scalar_entry(i)));
    }
    if let Some(func) = find_function(&scalars, name) {
        return Ok(Expr::ScalarFunction(ScalarFunction { func, args }));
    }
    let aggregates = aggregate_entries();
    proof {
        assert((|i: int| entry_at(aggregates@, i)) =~= (|i: int| aggregate_entry(i)));
    }
    if let Some(func) = find_function(&aggregates, name) {
        let params = AggregateFunctionParams {
            args,
            distinct: false,
            filter: None,
            order_by: Vec::new(),
            null_treatment: None,
        };
        return Ok(Expr::AggregateFunction(AggregateFunction { func, params }));
    }
    Err(plan_err(naming_text("function ", name, " not supported")))
}

// The translation.

/// The expression that `e` stands for, or why it stands for none.
pub open spec fn translated(e: IrExpr) -> Result<ExprShape, Fault>
    decreases e,
{
    match e {
        IrExpr::Column { relation, name } => Ok(
            ExprShape::Column { relation: opt_text(relation), name: name@ },
        ),
        IrExpr::Literal { value } => Ok(ExprShape::Literal(literal_scalar(value@))),
        IrExpr::Binary { op, left, right } => match translated(*left) {
            Err(f) => Err(f),
            Ok(l) => match translated(*right) {
                Err(f) => Err(f),
                Ok(r) => match operator_of(op@) {
                    Some(o) => Ok(
                        ExprShape::Binary { left: Box::new(l), op: o, right: Box::new(r) },
                    ),
                    None => Err(Fault::Plan(naming("unsupported binary operator "@, op@, ""@))),
                },
            },
        },
        IrExpr::Unary { op, operand } => match translated(*operand) {
            Err(f) => Err(f),
            Ok(x) => if op@ == "not"@ {
                Ok(ExprShape::Not(Box::new(x)))
            } else if op@ == "neg"@ || op@ == "-"@ {
                Ok(ExprShape::Negative(Box::new(x)))
            } else {
                Err(Fault::Plan(naming("unsupported unary operator "@, op@, ""@)))
            },
        },
        IrExpr::Cast { expr, to } => match translated(*expr) {
            Err(f) => Err(f),
            Ok(x) => match data_type_of(to@) {
                Some(t) => Ok(ExprShape::Cast { expr: Box::new(x), to: t }),
                None => Err(Fault::Plan(naming("unsupported cast target type "@, to@, ""@))),
            },
        },
        IrExpr::Case { operand, whens, else_expr } => match translated_opt(operand) {
            Err(f) => Err(f),
            Ok(o) => match translated_whens(whens@) {
                Err(f) => Err(f),
                Ok(w) => match translated_opt(else_expr) {
                    Err(f) => Err(f),
                    Ok(x) => Ok(ExprShape::Case { operand: o, whens: w, otherwise: x }),
                },
            },
        },
        IrExpr::InList { expr, list, negated } => match translated(*expr) {
            Err(f) => Err(f),
            Ok(x) => match translated_list(list@) {
                Err(f) => Err(f),
                Ok(l) => Ok(ExprShape::InList { expr: Box::new(x), list: l, negated }),
            },
        },
        IrExpr::IsNull { expr, negated } => match translated(*expr) {
            Err(f) => Err(f),
            Ok(x) => Ok(
                if negated {
                    ExprShape::IsNotNull(Box::new(x))
                } else {
                    ExprShape::IsNull(Box::new(x))
                },
            ),
        },
        IrExpr::Function { name, args } => match translated_list(args@) {
            Err(f) => Err(f),
            Ok(a) => called(name@, a),
        },
    }
}

/// The translation of an optional expression.
pub open spec fn translated_opt(e: Option<Box<IrExpr>>) -> Result<Option<Box<ExprShape>>, Fault>
    decreases e,
{
    match e {
        None => Ok(None),
        Some(x) => match translated(*x) {
            Err(f) => Err(f),
            Ok(s) => Ok(Some(Box::new(s))),
        },
    }
}

/// The translations of a list, or the fault of the first that has one.
pub open spec fn translated_list(list: Seq<IrExpr>) -> Result<Seq<ExprShape>, Fault>
    decreases list,
{
    if list.len() == 0 {
        Ok(Seq::empty())
    } else {
        match translated_list(list.drop_last()) {
            Err(f) => Err(f),
            Ok(head) => match translated(list.last()) {
                Err(f) => Err(f),
                Ok(s) => Ok(head.push(s)),
            },
        }
    }
}

/// The translations of CASE branches, or the fault of the first that has one.
pub open spec fn translated_whens(list: Seq<WhenThen>) -> Result<
    Seq<(ExprShape, ExprShape)>,
    Fault,
>
    decreases list,
{
    if list.len() == 0 {
        Ok(Seq::empty())
    } else {
        match translated_whens(list.drop_last()) {
            Err(f) => Err(f),
            Ok(head) => match translated(list.last().when) {
                Err(f) => Err(f),
                Ok(w) => match translated(list.last().result) {
                    Err(f) => Err(f),
                    Ok(x) => Ok(head.push((w, x))),
                },
            },
        }
    }
}

/// `outcome` is an expression of the expected shape, or the expected fault.
pub open spec fn translates(
    outcome: Result<Expr, PlanError>,
    expected: Result<ExprShape, Fault>,
) -> bool {
    match outcome {
        Ok(e) => expected == Ok::<ExprShape, Fault>(shape(e)),
        Err(e) => expected == Err::<ExprShape, Fault>(e@),
    }
}

/// Build a DataFusion `Expr` from a plan expression. The unparser can be handed
/// whatever comes out.
pub fn to_df_expr(e: &IrExpr) -> (r: Result<Expr, PlanError>)
    ensures
        translates(r, translated(*e)),
        r matches Ok(x) ==> always_drawable(shape(x)),
    decreases *e,
{
    match e {
        IrExpr::Column { relation, name } => Ok(
            Expr::Column(column(relation.clone(), name.clone())),
        ),
        IrExpr::Literal { value } => Ok(literal(value)),
        IrExpr::Binary { op, left, right } => {
            let l = to_df_expr(left)?;
            let r = to_df_expr(right)?;
            let op = operator(op.as_str())?;
            Ok(Expr::BinaryExpr(BinaryExpr { left: Box::new(l), op, right: Box::new(r) }))
        },
        IrExpr::Unary { op, operand } => {
            let inner = to_df_expr(operand)?;
            if same(op.as_str(), "not") {
                Ok(Expr::Not(Box::new(inner)))
            } else if same(op.as_str(), "neg") || same(op.as_str(), "-") {
                Ok(Expr::Negative(Box::new(inner)))
            } else {
                Err(plan_err(naming_text("unsupported unary operator ", op.as_str(), "")))
            }
        },
        IrExpr::Cast { expr, to } => {
            let inner = to_df_expr(expr)?;
            let data_type = data_type(to.as_str())?;
            Ok(Expr::Cast(Cast { expr: Box::new(inner), data_type }))
        },
        IrExpr::Case { operand, whens, else_expr } => {
            let base = to_df_opt(operand)?;
            let pairs = to_df_whens(whens)?;
            let els = to_df_opt(else_expr)?;
            Ok(Expr::Case(Case { expr: base, when_then_expr: pairs, else_expr: els }))
        },
        IrExpr::InList { expr, list, negated } => {
            let inner = to_df_expr(expr)?;
            let items = to_df_list(list)?;
            Ok(Expr::InList(InList { expr: Box::new(inner), list: items, negated: *negated }))
        },
        IrExpr::IsNull { expr, negated } => {
            let inner = to_df_expr(expr)?;
            Ok(
                if *negated {
                    Expr::IsNotNull(Box::new(inner))
                } else {
                    Expr::IsNull(Box::new(inner))
                },
            )
        },
        IrExpr::Function { name, args } => {
            let args = to_df_list(args)?;
            build_function(name.as_str(), args)
        },
    }
}

/// Build an optional expression.
fn to_df_opt(e: &Option<Box<IrExpr>>) -> (r: Result<Option<Box<Expr>>, PlanError>)
    ensures
        match r {
            Ok(x) => translated_opt(*e) == Ok::<Option<Box<ExprShape>>, Fault>(opt_shape(x))
                && opt_drawable(opt_shape(x), true) && opt_drawable(opt_shape(x), false),
            Err(x) => translated_opt(*e) == Err::<Option<Box<ExprShape>>, Fault>(x@),
        },
    decreases *e,
{
    match e {
        Some(x) => {
            let inner = to_df_expr(x)?;
            Ok(Some(Box::new(inner)))
        },
        None => Ok(None),
    }
}

/// Build a list of expressions.
pub fn to_df_list(list: &Vec<IrExpr>) -> (r: Result<Vec<Expr>, PlanError>)
    ensures
        match r {
            Ok(x) => translated_list(list@) == Ok::<Seq<ExprShape>, Fault>(shapes(x@))
                && all_drawable(shapes(x@), true) && all_drawable(shapes(x@), false),
            Err(x) => translated_list(list@) == Err::<Seq<ExprShape>, Fault>(x@),
        },
    decreases list@,
{
    let mut items: Vec<Expr> = Vec::new();
    for i in 0..list.len()
        invariant
            translated_list(list@.take(i as int)) == Ok::<Seq<ExprShape>, Fault>(shapes(items@)),
            all_drawable(shapes(items@), true),
            all_drawable(shapes(items@), false),
    {
        proof {
            lemma_list_fault(list@, i + 1);
            assert(list@.take(i + 1).drop_last() == list@.take(i as int));
            assert(list@.take(i + 1).last() == list@[i as int]);
        }
        let item = to_df_expr(&list[i])?;
        let ghost before = items@;
        items.push(item);
        proof {
            assert(items@.drop_last() == before);
            assert(shapes(items@).drop_last() =~= shapes(before));
        }
    }
    proof {
        assert(list@.take(list@.len() as int) == list@);
    }
    Ok(items)
}

/// Build the branches of a CASE.
fn to_df_whens(list: &Vec<WhenThen>) -> (r: Result<Vec<(Box<Expr>, Box<Expr>)>, PlanError>)
    ensures
        match r {
            Ok(x) => translated_whens(list@) == Ok::<Seq<(ExprShape, ExprShape)>, Fault>(
                pair_shapes(x@),
            ) && pairs_drawable(pair_shapes(x@), true) && pairs_drawable(pair_shapes(x@), false),
            Err(x) => translated_whens(list@) == Err::<Seq<(ExprShape, ExprShape)>, Fault>(x@),
        },
    decreases list@,
{
    let mut pairs: Vec<(Box<Expr>, Box<Expr>)> = Vec::new();
    for i in 0..list.len()
        invariant
            translated_whens(list@.take(i as int)) == Ok::<Seq<(ExprShape, ExprShape)>, Fault>(
                pair_shapes(pairs@),
            ),
            pairs_drawable(pair_shapes(pairs@), true),
            pairs_drawable(pair_shapes(pairs@), false),
    {
        proof {
            lemma_whens_fault(list@, i + 1);
            assert(list@.take(i + 1).drop_last() == list@.take(i as int));
            assert(list@.take(i + 1).last() == list@[i as int]);
        }
        let when = to_df_expr(&list[i].when)?;
        let result = to_df_expr(&list[i].result)?;
        let ghost before = pairs@;
        pairs.push((Box::new(when), Box::new(result)));
        proof {
            assert(pairs@.drop_last() == before);
            assert(pair_shapes(pairs@).drop_last() =~= pair_shapes(before));
        }
    }
    proof {
        assert(list@.take(list@.len() as int) == list@);
    }
    Ok(pairs)
}

/// A fault of a leading part of a list is the fault of the list.
proof fn lemma_list_fault(list: Seq<IrExpr>, n: int)
    requires
        0 <= n <= list.len(),
    ensures
        translated_list(list.take(n)) matches Err(f) ==> translated_list(list) == Err::<
            Seq<ExprShape>,
            Fault,
        >(f),
    decreases list.len() - n,
{
    if n < list.len() {
        assert(list.take(n + 1).drop_last() == list.take(n));
        lemma_list_fault(list, n + 1);
    } else {
        assert(list.take(n) == list);
    }
}

/// A fault of a leading part of the branches is the fault of the branches.
proof fn lemma_whens_fault(list: Seq<WhenThen>, n: int)
    requires
        0 <= n <= list.len(),
    ensures
        translated_whens(list.take(n)) matches Err(f) ==> translated_whens(list) == Err::<
            Seq<(ExprShape, ExprShape)>,
            Fault,
        >(f),
    decreases list.len() - n,
{
    if n < list.len() {
        assert(list.take(n + 1).drop_last() == list.take(n));
        lemma_whens_fault(list, n + 1);
    } else {
        assert(list.take(n) == list);
    }
}

// What the translation keeps.

/// Whether everything in an expression is known: its operators, its cast
/// targets and its functions.
pub open spec fn mapped(e: IrExpr) -> bool
    decreases e,
{
    match e {
        IrExpr::Column { .. } => true,
        IrExpr::Literal { .. } => true,
        IrExpr::Binary { op, left, right } => operator_of(op@) is Some && mapped(*left) && mapped(
            *right,
        ),
        IrExpr::Unary { op, operand } => (op@ == "not"@ || op@ == "neg"@ || op@ == "-"@) && mapped(
            *operand,
        ),
        IrExpr::Cast { expr, to } => data_type_of(to@) is Some && mapped(*expr),
        IrExpr::Case { operand, whens, else_expr } => mapped_opt(operand) && mapped_whens(whens@)
            && mapped_opt(else_expr),
        IrExpr::InList { expr, list, negated } => mapped(*expr) && mapped_list(list@),
        IrExpr::IsNull { expr, negated } => mapped(*expr),
        IrExpr::Function { name, args } => (resolved(|i: int| scalar_entry(i), name@) is Some
            || resolved(|i: int| aggregate_entry(i), name@) is Some) && mapped_list(args@),
    }
}

/// Whether everything in an optional expression is known.
pub open spec fn mapped_opt(e: Option<Box<IrExpr>>) -> bool
    decreases e,
{
    match e {
        Some(x) => mapped(*x),
        None => true,
    }
}

/// Whether everything in a list of expressions is known.
pub open spec fn mapped_list(list: Seq<IrExpr>) -> bool
    decreases list,
{
    list.len() == 0 || (mapped_list(list.drop_last()) && mapped(list.last()))
}

/// Whether everything in the branches of a CASE is known.
pub open spec fn mapped_whens(list: Seq<WhenThen>) -> bool
    decreases list,
{
    list.len() == 0 || (mapped_whens(list.drop_last()) && mapped(list.last().when) && mapped(
        list.last().result,
    ))
}

/// An expression is translated exactly when everything in it is known: nothing
/// unknown slips through, at any depth, and nothing known is refused.
pub proof fn unmapped_parts_are_refused(e: IrExpr)
    ensures
        translated(e) is Ok <==> mapped(e),
    decreases e,
{
    match e {
        IrExpr::Column { .. } => {},
        IrExpr::Literal { .. } => {},
        IrExpr::Binary { left, right, .. } => {
            unmapped_parts_are_refused(*left);
            unmapped_parts_are_refused(*right);
        },
        IrExpr::Unary { operand, .. } => {
            unmapped_parts_are_refused(*operand);
        },
        IrExpr::Cast { expr, .. } => {
            unmapped_parts_are_refused(*expr);
        },
        IrExpr::Case { operand, whens, else_expr } => {
            lemma_mapped_opt(operand);
            lemma_mapped_whens(whens@);
            lemma_mapped_opt(else_expr);
        },
        IrExpr::InList { expr, list, .. } => {
            unmapped_parts_are_refused(*expr);
            lemma_mapped_list(list@);
        },
        IrExpr::IsNull { expr, .. } => {
            unmapped_parts_are_refused(*expr);
        },
        IrExpr::Function { args, .. } => {
            lemma_mapped_list(args@);
        },
    }
}

/// The same for an optional expression.
proof fn lemma_mapped_opt(e: Option<Box<IrExpr>>)
    ensures
        translated_opt(e) is Ok <==> mapped_opt(e),
    decreases e,
{
    if let Some(x) = e {
        unmapped_parts_are_refused(*x);
    }
}

/// The same for a list.
proof fn lemma_mapped_list(list: Seq<IrExpr>)
    ensures
        translated_list(list) is Ok <==> mapped_list(list),
    decreases list,
{
    if list.len() > 0 {
        lemma_mapped_list(list.drop_last());
        unmapped_parts_are_refused(list.last());
    }
}

/// The same for the branches of a CASE.
proof fn lemma_mapped_whens(list: Seq<WhenThen>)
    ensures
        translated_whens(list) is Ok <==> mapped_whens(list),
    decreases list,
{
    if list.len() > 0 {
        lemma_mapped_whens(list.drop_last());
        unmapped_parts_are_refused(list.last().when);
        unmapped_parts_are_refused(list.last().result);
    }
}

/// The number of nodes of a plan expression.
pub open spec fn plan_nodes(e: IrExpr) -> nat
    decreases e,
{
    match e {
        IrExpr::Column { .. } => 1,
        IrExpr::Literal { .. } => 1,
        IrExpr::Binary { left, right, .. } => 1 + plan_nodes(*left) + plan_nodes(*right),
        IrExpr::Unary { operand, .. } => 1 + plan_nodes(*operand),
        IrExpr::Cast { expr, .. } => 1 + plan_nodes(*expr),
        IrExpr::Case { operand, whens, else_expr } => 1 + plan_nodes_opt(operand)
            + plan_nodes_whens(whens@) + plan_nodes_opt(else_expr),
        IrExpr::InList { expr, list, .. } => 1 + plan_nodes(*expr) + plan_nodes_list(list@),
        IrExpr::IsNull { expr, .. } => 1 + plan_nodes(*expr),
        IrExpr::Function { args, .. } => 1 + plan_nodes_list(args@),
    }
}

/// The number of nodes of an optional plan expression.
pub open spec fn plan_nodes_opt(e: Option<Box<IrExpr>>) -> nat
    decreases e,
{
    match e {
        Some(x) => plan_nodes(*x),
        None => 0,
    }
}

/// The number of nodes of a list of plan expressions.
pub open spec fn plan_nodes_list(list: Seq<IrExpr>) -> nat
    decreases list,
{
    if list.len() == 0 {
        0
    } else {
        plan_nodes_list(list.drop_last()) + plan_nodes(list.last())
    }
}

/// The number of nodes in the branches of a CASE.
pub open spec fn plan_nodes_whens(list: Seq<WhenThen>) -> nat
    decreases list,
{
    if list.len() == 0 {
        0
    } else {
        plan_nodes_whens(list.drop_last()) + plan_nodes(list.last().when) + plan_nodes(
            list.last().result,
        )
    }
}

/// The number of nodes of a translated expression.
pub open spec fn nodes(s: ExprShape) -> nat
    decreases s,
{
    match s {
        ExprShape::Column { .. } => 1,
        ExprShape::Literal(_) => 1,
        ExprShape::Binary { left, right, .. } => 1 + nodes(*left) + nodes(*right),
        ExprShape::Not(x) => 1 + nodes(*x),
        ExprShape::Negative(x) => 1 + nodes(*x),
        ExprShape::IsNull(x) => 1 + nodes(*x),
        ExprShape::IsNotNull(x) => 1 + nodes(*x),
        ExprShape::Cast { expr, .. } => 1 + nodes(*expr),
        ExprShape::Case { operand, whens, otherwise } => 1 + nodes_opt(operand) + nodes_pairs(whens)
            + nodes_opt(otherwise),
        ExprShape::InList { expr, list, .. } => 1 + nodes(*expr) + nodes_list(list),
        ExprShape::ScalarCall { args, .. } => 1 + nodes_list(args),
        ExprShape::AggregateCall { args, .. } => 1 + nodes_list(args),
        ExprShape::Other(_) => 1,
    }
}

/// The number of nodes of an optional translated expression.
pub open spec fn nodes_opt(s: Option<Box<ExprShape>>) -> nat
    decreases s,
{
    match s {
        Some(x) => nodes(*x),
        None => 0,
    }
}

/// The number of nodes of a list of translated expressions.
pub open spec fn nodes_list(list: Seq<ExprShape>) -> nat
    decreases list,
{
    if list.len() == 0 {
        0
    } else {
        nodes_list(list.drop_last()) + nodes(list.last())
    }
}

/// The number of nodes of pairs of translated expressions.
pub open spec fn nodes_pairs(list: Seq<(ExprShape, ExprShape)>) -> nat
    decreases list,
{
    if list.len() == 0 {
        0
    } else {
        nodes_pairs(list.drop_last()) + nodes(list.last().0) + nodes(list.last().1)
    }
}

/// The translation drops nothing and adds nothing: it has a node for each node
/// of the plan expression.
pub proof fn translation_keeps_every_node(e: IrExpr)
    ensures
        translated(e) matches Ok(s) ==> nodes(s) == plan_nodes(e),
    decreases e,
{
    match e {
        IrExpr::Column { .. } => {},
        IrExpr::Literal { .. } => {},
        IrExpr::Binary { left, right, .. } => {
            translation_keeps_every_node(*left);
            translation_keeps_every_node(*right);
        },
        IrExpr::Unary { operand, .. } => {
            translation_keeps_every_node(*operand);
        },
        IrExpr::Cast { expr, .. } => {
            translation_keeps_every_node(*expr);
        },
        IrExpr::Case { operand, whens, else_expr } => {
            lemma_nodes_opt(operand);
            lemma_nodes_whens(whens@);
            lemma_nodes_opt(else_expr);
        },
        IrExpr::InList { expr, list, .. } => {
            translation_keeps_every_node(*expr);
            lemma_nodes_list(list@);
        },
        IrExpr::IsNull { expr, .. } => {
            translation_keeps_every_node(*expr);
        },
        IrExpr::Function { args, .. } => {
            lemma_nodes_list(args@);
        },
    }
}

/// The same for an optional expression.
proof fn lemma_nodes_opt(e: Option<Box<IrExpr>>)
    ensures
        translated_opt(e) matches Ok(s) ==> nodes_opt(s) == plan_nodes_opt(e),
    decreases e,
{
    if let Some(x) = e {
        translation_keeps_every_node(*x);
    }
}

/// The same for a list.
proof fn lemma_nodes_list(list: Seq<IrExpr>)
    ensures
        translated_list(list) matches Ok(s) ==> nodes_list(s) == plan_nodes_list(list),
    decreases list,
{
    if list.len() > 0 {
        lemma_nodes_list(list.drop_last());
        translation_keeps_every_node(list.last());
        if let (Ok(head), Ok(x)) = (translated_list(list.drop_last()), translated(list.last())) {
            assert(head.push(x).drop_last() =~= head);
        }
    }
}

/// The same for the branches of a CASE.
proof fn lemma_nodes_whens(list: Seq<WhenThen>)
    ensures
        translated_whens(list) matches Ok(s) ==> nodes_pairs(s) == plan_nodes_whens(list),
    decreases list,
{
    if list.len() > 0 {
        lemma_nodes_whens(list.drop_last());
        translation_keeps_every_node(list.last().when);
        translation_keeps_every_node(list.last().result);
        if let (Ok(head), Ok(w), Ok(x)) = (
            translated_whens(list.drop_last()),
            translated(list.last().when),
            translated(list.last().result),
        ) {
            assert(head.push((w, x)).drop_last() =~= head);
        }
    }
}

// Key values.

/// One column of values read from a source: an Arrow array, which is a trait
/// object and so is held out of sight of the verifier.
#[verifier::external_body]
pub struct KeyArray {
    pub array: ArrayRef,
}

/// The values of an array as scalars, `None` for a value of a type that has no
/// scalar.
pub uninterp spec fn cells(array: KeyArray) -> Seq<Option<ScalarValue>>;

/// The type of an array's values.
pub uninterp spec fn array_type(array: KeyArray) -> DataType;

/// `Array::data_type`: the type of the values.
#[verifier::external_body]
pub(crate) fn type_of_array(array: &KeyArray) -> (r: DataType)
    ensures
        r == array_type(*array),
{
    array.array.data_type().clone()
}

/// `Array::len`: the number of values.
#[verifier::external_body]
fn array_len(keys: &KeyArray) -> (r: usize)
    ensures
        r == cells(*keys).len(),
{
    keys.array.len()
}

/// `ScalarValue::try_from_array`: the value at `index`, or an error for a type
/// that has no scalar. Where the array's type is not made of fields, the scalar
/// has that type.
#[verifier::external_body]
fn scalar_at(keys: &KeyArray, index: usize) -> (r: Result<ScalarValue, DataFusionError>)
    requires
        index < cells(*keys).len(),
    ensures
        r matches Ok(value) ==> cells(*keys)[index as int] == Some(value),
        r is Err ==> cells(*keys)[index as int] is None,
        !is_nested(array_type(*keys)) ==> (r matches Ok(value) ==> scalar_type(value) == array_type(
            *keys,
        )),
{
    ScalarValue::try_from_array(keys.array.as_ref(), index)
}

/// The number of values of an array.
pub fn key_count(array: &KeyArray) -> (r: usize)
    ensures
        r == cells(*array).len(),
{
    array_len(array)
}

/// Whether every value of an array can be handed to the unparser by its type
/// alone: the type is not made of fields, and no decimal with a scale beyond its
/// precision.
pub open spec fn plain_array(array: KeyArray) -> bool {
    !is_nested(array_type(array)) && drawable_part(array_type(array))
}

/// Whether all arrays of a list are such arrays.
pub open spec fn plain_keys(arrays: Seq<KeyArray>) -> bool {
    forall|i: int| 0 <= i < arrays.len() ==> plain_array(#[trigger] arrays[i])
}

/// Extract a literal from an array, for a list of key values known only at run
/// time.
pub fn literal_from_array(array: &KeyArray, index: usize) -> (r: Result<Expr, PlanError>)
    requires
        index < cells(*array).len(),
    ensures
        translates(r, key_literal(cells(*array)[index as int])),
        plain_array(*array) ==> (r matches Ok(x) ==> drawable(shape(x), false)),
{
    match scalar_at(array, index) {
        Ok(value) => Ok(Expr::Literal(value, None)),
        Err(e) => Err(PlanError::DataFusion(e)),
    }
}

/// The literal of a key value, or the fault of one that has no scalar.
pub open spec fn key_literal(cell: Option<ScalarValue>) -> Result<ExprShape, Fault> {
    match cell {
        Some(value) => Ok(ExprShape::Literal(value)),
        None => Err(Fault::DataFusion),
    }
}

/// All values of a list of arrays, in order.
pub open spec fn all_cells(arrays: Seq<KeyArray>) -> Seq<Option<ScalarValue>>
    decreases arrays.len(),
{
    if arrays.len() == 0 {
        Seq::empty()
    } else {
        all_cells(arrays.drop_last()) + cells(arrays.last())
    }
}

/// The literals of key values, or a fault when one of them has no scalar.
pub open spec fn key_literals(keys: Seq<Option<ScalarValue>>) -> Result<Seq<ExprShape>, Fault> {
    if exists|i: int| 0 <= i < keys.len() && keys[i] is None {
        Err(Fault::DataFusion)
    } else {
        Ok(Seq::new(keys.len(), |i: int| ExprShape::Literal(keys[i]->0)))
    }
}

/// The filter `column IN (keys)`.
pub open spec fn membership(column: Seq<char>, keys: Seq<Option<ScalarValue>>) -> Result<
    ExprShape,
    Fault,
> {
    match key_literals(keys) {
        Ok(list) => Ok(
            ExprShape::InList {
                expr: Box::new(ExprShape::Column { relation: None, name: column }),
                list,
                negated: false,
            },
        ),
        Err(f) => Err(f),
    }
}

/// The number of key values in a list of arrays, `None` when there are more
/// than can be counted.
pub fn count_keys(keys: &Vec<KeyArray>) -> (r: Option<usize>)
    ensures
        match r {
            Some(n) => n == all_cells(keys@).len(),
            None => all_cells(keys@).len() > usize::MAX,
        },
{
    let mut total: usize = 0;
    for i in 0..keys.len()
        invariant
            total == all_cells(keys@.take(i as int)).len(),
    {
        proof {
            lemma_cells_prefix(keys@, i + 1);
            assert(keys@.take(i + 1).drop_last() == keys@.take(i as int));
        }
        match total.checked_add(array_len(&keys[i])) {
            Some(sum) => {
                total = sum;
            },
            None => return None,
        }
    }
    proof {
        assert(keys@.take(keys@.len() as int) == keys@);
    }
    Some(total)
}

/// The values of leading arrays are leading values.
proof fn lemma_cells_prefix(arrays: Seq<KeyArray>, n: int)
    requires
        0 <= n <= arrays.len(),
    ensures
        all_cells(arrays.take(n)).len() <= all_cells(arrays).len(),
        all_cells(arrays).take(all_cells(arrays.take(n)).len() as int) == all_cells(
            arrays.take(n),
        ),
    decreases arrays.len() - n,
{
    if n < arrays.len() {
        assert(arrays.take(n + 1).drop_last() == arrays.take(n));
        lemma_cells_prefix(arrays, n + 1);
        let head = all_cells(arrays.take(n));
        let longer = all_cells(arrays.take(n + 1));
        assert(longer == head + cells(arrays[n]));
        assert(all_cells(arrays).take(head.len() as int) =~= head) by {
            assert(all_cells(arrays).take(longer.len() as int) == longer);
            assert forall|i: int| 0 <= i < head.len() implies all_cells(arrays)[i] == head[i] by {
                assert(all_cells(arrays).take(longer.len() as int)[i] == longer[i]);
            }
        }
    } else {
        assert(arrays.take(n) == arrays);
        assert(all_cells(arrays).take(all_cells(arrays).len() as int) =~= all_cells(arrays));
    }
}

/// `column IN (v1, v2, ...)` over the collected key values. Keys of plain types
/// give a filter that the unparser can be handed.
pub fn in_list_filter(keys: &Vec<KeyArray>, inject_column: &str) -> (r: Result<Expr, PlanError>)
    ensures
        translates(r, membership(inject_column@, all_cells(keys@))),
        plain_keys(keys@) ==> (r matches Ok(x) ==> drawable(shape(x), false)),
{
    let ghost all = all_cells(keys@);
    let ghost plain = plain_keys(keys@);
    let mut values: Vec<Expr> = Vec::new();
    proof {
        let none = all_cells(keys@.take(0));
        assert(Seq::new(none.len(), |i: int| ExprShape::Literal(none[i]->0)) =~= shapes(values@));
    }
    for i in 0..keys.len()
        invariant
            all == all_cells(keys@),
            plain == plain_keys(keys@),
            plain ==> all_drawable(shapes(values@), false),
            key_literals(all_cells(keys@.take(i as int))) == Ok::<Seq<ExprShape>, Fault>(
                shapes(values@),
            ),
    {
        proof {
            lemma_cells_prefix(keys@, i + 1);
            assert(keys@.take(i + 1).drop_last() == keys@.take(i as int));
        }
        let array = &keys[i];
        let ghost head = all_cells(keys@.take(i as int));
        let ghost column = cells(*array);
        let len: usize = array_len(array);
        for j in 0..len
            invariant
                array == keys@[i as int],
                plain ==> plain_array(*array),
                plain ==> all_drawable(shapes(values@), false),
                column == cells(*array),
                len == column.len(),
                all.take((head + column).len() as int) == head + column,
                (head + column).len() <= all.len(),
                all == all_cells(keys@),
                key_literals(head + column.take(j as int)) == Ok::<Seq<ExprShape>, Fault>(
                    shapes(values@),
                ),
        {
            let ghost earlier = values@;
            let ghost done = head + column.take(j as int);
            let ghost next = head + column.take(j + 1);
            proof {
                assert(next =~= done.push(column[j as int]));
                assert((head + column)[head.len() + j] == column[j as int]);
                assert(all[head.len() + j] == all.take((head + column).len() as int)[head.len()
                    + j]);
            }
            let value = literal_from_array(array, j)?;
            values.push(value);
            proof {
                assert(values@.drop_last() == earlier);
                assert(shapes(values@).drop_last() =~= shapes(earlier));
                assert forall|k: int| 0 <= k < next.len() implies next[k] is Some by {
                    if k < done.len() {
                        assert(next[k] == done[k]);
                    }
                }
                let literals = Seq::new(next.len(), |k: int| ExprShape::Literal(next[k]->0));
                let fewer = Seq::new(done.len(), |k: int| ExprShape::Literal(done[k]->0));
                assert(shapes(earlier) == fewer);
                assert(literals =~= fewer.push(ExprShape::Literal(column[j as int]->0)));
            }
        }
        proof {
            assert(column.take(len as int) == column);
        }
    }
    proof {
        assert(keys@.take(keys@.len() as int) == keys@);
    }
    let name = inject_column.to_owned();
    let column = Expr::Column(column(None, name));
    proof {
        assert(drawable(shape(column), false));
    }
    Ok(Expr::InList(InList { expr: Box::new(column), list: values, negated: false }))
}

// What lists and keys keep.

/// A list is translated item by item, each in its place; the first item that is
/// refused refuses the list.
pub proof fn lists_are_translated_item_by_item(list: Seq<IrExpr>)
    ensures
        match translated_list(list) {
            Ok(items) => {
                &&& items.len() == list.len()
                &&& forall|i: int|
                    0 <= i < list.len() ==> translated(#[trigger] list[i]) == Ok::<
                        ExprShape,
                        Fault,
                    >(items[i])
            },
            Err(fault) => exists|i: int|
                {
                    &&& 0 <= i < list.len()
                    &&& translated(#[trigger] list[i]) == Err::<ExprShape, Fault>(fault)
                    &&& forall|j: int| 0 <= j < i ==> translated(#[trigger] list[j]) is Ok
                },
        },
    decreases list.len(),
{
    if list.len() > 0 {
        let fewer = list.drop_last();
        lists_are_translated_item_by_item(fewer);
        let last = list.len() - 1;
        assert(list[last] == list.last());
        match translated_list(fewer) {
            Err(fault) => {
                let i = choose|i: int|
                    {
                        &&& 0 <= i < fewer.len()
                        &&& translated(#[trigger] fewer[i]) == Err::<ExprShape, Fault>(fault)
                        &&& forall|j: int| 0 <= j < i ==> translated(#[trigger] fewer[j]) is Ok
                    };
                assert(list[i] == fewer[i]);
                assert forall|j: int| 0 <= j < i implies translated(#[trigger] list[j]) is Ok by {
                    assert(fewer[j] == list[j]);
                }
            },
            Ok(head) => {
                assert forall|i: int| 0 <= i < last implies translated(#[trigger] list[i]) == Ok::<
                    ExprShape,
                    Fault,
                >(head[i]) by {
                    assert(fewer[i] == list[i]);
                }
            },
        }
    }
}

/// A membership test stays one: of the same expression, in the same items in
/// the same order, and negated if and only if the plan says so.
pub proof fn membership_tests_keep_their_parts(e: IrExpr)
    requires
        e is InList,
    ensures
        translated(e) matches Ok(s) ==> {
            &&& s is InList
            &&& s->InList_negated == e->InList_negated
            &&& translated(*e->InList_expr) == Ok::<ExprShape, Fault>(*s->InList_expr)
            &&& s->InList_list.len() == e->InList_list@.len()
            &&& forall|i: int|
                0 <= i < e->InList_list@.len() ==> translated(#[trigger] e->InList_list@[i]) == Ok::<
                    ExprShape,
                    Fault,
                >(s->InList_list[i])
        },
{
    lists_are_translated_item_by_item(e->InList_list@);
}

/// A literal is the scalar of its own value, and of its own kind.
pub proof fn literals_keep_their_values(value: LiteralValue)
    ensures
        match value {
            LiteralValue::Int { value: n } => literal_scalar(value@) == int_scalar(n),
            LiteralValue::Float { bits } => literal_scalar(value@) == double_scalar(bits),
            LiteralValue::Str { value: text } => literal_scalar(value@) == text_scalar(text@),
            LiteralValue::Bool { value: b } => literal_scalar(value@) == bool_scalar(b),
            LiteralValue::Null => literal_scalar(value@) == null_scalar(DataType::Null),
        },
{
}

/// The values of two lists of arrays, one after the other, are those of the
/// first and behind them those of the second; one array has its own.
pub proof fn key_values_stand_in_order(first: Seq<KeyArray>, second: Seq<KeyArray>, one: KeyArray)
    ensures
        all_cells(first + second) == all_cells(first) + all_cells(second),
        all_cells(seq![one]) == cells(one),
    decreases second.len(),
{
    assert(seq![one].drop_last() =~= Seq::<KeyArray>::empty());
    assert(all_cells(seq![one].drop_last()) =~= Seq::<Option<ScalarValue>>::empty());
    assert(all_cells(seq![one]) =~= cells(one));
    if second.len() == 0 {
        assert(first + second =~= first);
        assert(all_cells(first + second) =~= all_cells(first) + all_cells(second));
    } else {
        key_values_stand_in_order(first, second.drop_last(), one);
        assert((first + second).drop_last() =~= first + second.drop_last());
        assert((first + second).last() == second.last());
        assert(all_cells(first + second) =~= all_cells(first) + all_cells(second));
    }
}

/// A filter on keys tests the column of the given name, with no relation, for
/// membership in all the keys, in their order; a key that has no scalar refuses
/// it, and nothing else does.
pub proof fn key_filters_list_every_key(column: Seq<char>, keys: Seq<Option<ScalarValue>>)
    ensures
        match membership(column, keys) {
            Ok(filter) => {
                &&& filter matches ExprShape::InList { expr, list, negated }
                &&& !negated
                &&& *expr == (ExprShape::Column { relation: None, name: column })
                &&& list.len() == keys.len()
                &&& forall|i: int|
                    0 <= i < keys.len() ==> ((#[trigger] keys[i]) matches Some(value) && list[i]
                        == ExprShape::Literal(value))
            },
            Err(fault) => fault == Fault::DataFusion && exists|i: int|
                0 <= i < keys.len() && (#[trigger] keys[i]) is None,
        },
        forall|cell: Option<ScalarValue>|
            (#[trigger] key_literal(cell)) matches Ok(s) ==> (cell matches Some(value) && s
                == ExprShape::Literal(value)),
        forall|cell: Option<ScalarValue>| #[trigger] key_literal(cell) is Ok <==> cell is Some,
{
}

/// A translation is what is expected only where it is an expression of that
/// shape, or that fault.
pub proof fn translations_agree_in_full(
    outcome: Result<Expr, PlanError>,
    expected: Result<ExprShape, Fault>,
)
    requires
        translates(outcome, expected),
    ensures
        outcome is Ok <==> expected is Ok,
        outcome matches Ok(e) ==> expected->Ok_0 == shape(e),
        outcome matches Err(error) ==> expected->Err_0 == error@,
{
}

/// A name in a message stands between quotes, and what is said of it around
/// them.
pub proof fn messages_quote_names(before: Seq<char>, name: Seq<char>, after: Seq<char>)
    ensures
        naming(before, name, after).take(before.len() as int) == before,
        naming(before, name, after).skip(before.len() as int) == seq!['\''] + name + seq!['\'']
            + after,
{
    reveal_strlit("'");
    assert("'"@ =~= seq!['\'']);
    assert(naming(before, name, after).take(before.len() as int) =~= before);
    assert(naming(before, name, after).skip(before.len() as int) =~= seq!['\''] + name + seq!['\'']
        + after);
}

} // verus!
