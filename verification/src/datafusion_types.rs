//! The Arrow and DataFusion types that this crate passes around.
//!
//! Each declaration makes one outside type known to Verus and claims nothing
//! about it. A type declared without `external_body` has only public fields:
//! Verus reads its definition, so code that builds or matches its values is
//! verified like any other.

use vstd::prelude::*;

verus! {

// Arrow data types. `DataType` is read variant by variant; the field lists of its nested
// variants are carried without being read.

/// The unit of an Arrow time type.
#[verifier::external_type_specification]
pub struct ExTimeUnit(datafusion::arrow::datatypes::TimeUnit);

/// The unit of an Arrow interval type.
#[verifier::external_type_specification]
pub struct ExIntervalUnit(datafusion::arrow::datatypes::IntervalUnit);

/// The layout of an Arrow union.
#[verifier::external_type_specification]
pub struct ExUnionMode(datafusion::arrow::datatypes::UnionMode);

/// An Arrow field, carried only.
#[verifier::external_type_specification]
#[verifier::external_body]
pub struct ExField(datafusion::arrow::datatypes::Field);

/// A list of Arrow fields, carried only.
#[verifier::external_type_specification]
#[verifier::external_body]
pub struct ExFields(datafusion::arrow::datatypes::Fields);

/// The fields of an Arrow union, carried only.
#[verifier::external_type_specification]
#[verifier::external_body]
pub struct ExUnionFields(datafusion::arrow::datatypes::UnionFields);

/// The type of an Arrow column.
#[verifier::external_type_specification]
pub struct ExDataType(datafusion::arrow::datatypes::DataType);

// Values and errors of Arrow and DataFusion, carried only.

/// The error of a DataFusion call.
#[verifier::external_type_specification]
#[verifier::external_body]
pub struct ExDataFusionError(datafusion::common::DataFusionError);

/// The error of an Arrow call.
#[verifier::external_type_specification]
#[verifier::external_body]
pub struct ExArrowError(datafusion::arrow::error::ArrowError);

/// A typed single value.
#[verifier::external_type_specification]
#[verifier::external_body]
pub struct ExScalarValue(datafusion::common::ScalarValue);

/// The metadata a literal may carry.
#[verifier::external_type_specification]
#[verifier::external_body]
pub struct ExFieldMetadata(datafusion::logical_expr::expr::FieldMetadata);

/// A scalar function.
#[verifier::external_type_specification]
#[verifier::external_body]
pub struct ExScalarUDF(datafusion::logical_expr::ScalarUDF);

/// An aggregate function.
#[verifier::external_type_specification]
#[verifier::external_body]
pub struct ExAggregateUDF(datafusion::logical_expr::AggregateUDF);

// The DataFusion nodes that expressions are built from, read field by field.

/// The operator of a binary expression.
#[verifier::external_type_specification]
pub struct ExOperator(datafusion::logical_expr::Operator);

/// The kind of a join.
#[verifier::external_type_specification]
pub struct ExJoinType(datafusion::common::JoinType);

/// Source locations of a column, carried only.
#[verifier::external_type_specification]
#[verifier::external_body]
pub struct ExSpans(datafusion::common::Spans);

/// The table a column belongs to.
#[verifier::external_type_specification]
pub struct ExTableReference(datafusion::common::TableReference);

/// A column reference.
#[verifier::external_type_specification]
pub struct ExColumn(datafusion::common::Column);

/// Two expressions under an operator.
#[verifier::external_type_specification]
pub struct ExBinaryExpr(datafusion::logical_expr::BinaryExpr);

/// A CASE expression.
#[verifier::external_type_specification]
pub struct ExCase(datafusion::logical_expr::Case);

/// A cast to an Arrow type.
#[verifier::external_type_specification]
pub struct ExCast(datafusion::logical_expr::Cast);

/// Membership in a list of expressions.
#[verifier::external_type_specification]
pub struct ExInList(datafusion::logical_expr::expr::InList);

/// A scalar function call.
#[verifier::external_type_specification]
pub struct ExScalarFunction(datafusion::logical_expr::expr::ScalarFunction);

/// An aggregate function call.
#[verifier::external_type_specification]
pub struct ExAggregateFunction(datafusion::logical_expr::expr::AggregateFunction);

/// The arguments of an aggregate function call.
#[verifier::external_type_specification]
pub struct ExAggregateFunctionParams(datafusion::logical_expr::expr::AggregateFunctionParams);

/// A named expression.
#[verifier::external_type_specification]
pub struct ExAlias(datafusion::logical_expr::expr::Alias);

/// A sort key.
#[verifier::external_type_specification]
pub struct ExSort(datafusion::logical_expr::expr::Sort);

/// A DataFusion expression.
#[verifier::external_type_specification]
pub struct ExExpr(datafusion::logical_expr::Expr);

// The remaining parts of a DataFusion expression. Those declared with `external_body` are carried
// only.

/// A pattern match.
#[verifier::external_type_specification]
pub struct ExLike(datafusion::logical_expr::Like);

/// A range test.
#[verifier::external_type_specification]
pub struct ExBetween(datafusion::logical_expr::Between);

/// A cast that gives NULL where it fails.
#[verifier::external_type_specification]
pub struct ExTryCast(datafusion::logical_expr::TryCast);

/// How an aggregate treats NULLs.
#[verifier::external_type_specification]
#[verifier::external_body]
pub struct ExNullTreatment(datafusion::sql::sqlparser::ast::NullTreatment);

/// A window function call.
#[verifier::external_type_specification]
pub struct ExWindowFunction(datafusion::logical_expr::expr::WindowFunction);

/// The arguments of a window function call.
#[verifier::external_type_specification]
pub struct ExWindowFunctionParams(datafusion::logical_expr::expr::WindowFunctionParams);

/// The function of a window function call.
#[verifier::external_type_specification]
#[verifier::external_body]
pub struct ExWindowFunctionDefinition(datafusion::logical_expr::WindowFunctionDefinition);

/// The frame of a window.
#[verifier::external_type_specification]
#[verifier::external_body]
pub struct ExWindowFrame(datafusion::logical_expr::WindowFrame);

/// A boundary of the frame of a window.
#[verifier::external_type_specification]
pub struct ExWindowFrameBound(datafusion::logical_expr::WindowFrameBound);

/// An EXISTS test.
#[verifier::external_type_specification]
#[verifier::external_body]
pub struct ExExists(datafusion::logical_expr::expr::Exists);

/// Membership in a subquery.
#[verifier::external_type_specification]
#[verifier::external_body]
pub struct ExInSubquery(datafusion::logical_expr::expr::InSubquery);

/// A subquery.
#[verifier::external_type_specification]
#[verifier::external_body]
pub struct ExSubquery(datafusion::logical_expr::Subquery);

/// The options of a wildcard.
#[verifier::external_type_specification]
#[verifier::external_body]
pub struct ExWildcardOptions(datafusion::logical_expr::expr::WildcardOptions);

/// A grouping set.
#[verifier::external_type_specification]
pub struct ExGroupingSet(datafusion::logical_expr::expr::GroupingSet);

/// A query parameter.
#[verifier::external_type_specification]
#[verifier::external_body]
pub struct ExPlaceholder(datafusion::logical_expr::expr::Placeholder);

/// An unnested list.
#[verifier::external_type_specification]
pub struct ExUnnest(datafusion::logical_expr::expr::Unnest);

} // verus!
