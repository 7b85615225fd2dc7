//! The pieces of local operators: aggregate SQL, projections, sort keys, the
//! single-row guard, and the schemas of operator results.

use datafusion::arrow::datatypes::DataType;
use datafusion::common::Column;
use datafusion::common::JoinType;
use datafusion::logical_expr::expr::Alias;
use datafusion::logical_expr::expr::Sort;
use datafusion::logical_expr::Expr;
use vstd::prelude::*;
use vstd::string::*;

use crate::error::{
    agrees, collected, collecting_keeps_every_part, lemma_collected_fault, plan_err, Fault,
    PlanError,
};
use crate::expr::{shape, to_df_expr, translated, ExprShape};
use crate::ir::{opt_text, AggCall, AggSelectItem, IrExpr, JoinKind, Projection, SortKey};
use crate::sql::{render_ir, rendered_ir, SqlDialect};
use crate::text::{
    decimal, decimals_are_injective, join, joined, joining_adds_part_by_part, push_decimal,
    quote_ident, quoted, texts,
};

verus! {

// Rendered expressions.

/// The SQL of a list of expressions, or the fault of the first that has one.
pub open spec fn rendered_list(list: Seq<IrExpr>) -> Result<Seq<Seq<char>>, Fault> {
    collected(list.map_values(|e: IrExpr| rendered_ir(SqlDialect::Default, e)))
}

/// `outcome` holds the expected texts, or is the expected fault.
pub open spec fn lists(
    outcome: Result<Vec<String>, PlanError>,
    expected: Result<Seq<Seq<char>>, Fault>,
) -> bool {
    match outcome {
        Ok(parts) => expected == Ok::<Seq<Seq<char>>, Fault>(texts(parts@)),
        Err(e) => expected == Err::<Seq<Seq<char>>, Fault>(e@),
    }
}

/// Render a list of expressions.
fn render_list(list: &Vec<IrExpr>) -> (r: Result<Vec<String>, PlanError>)
    ensures
        lists(r, rendered_list(list@)),
{
    let ghost all = list@.map_values(|e: IrExpr| rendered_ir(SqlDialect::Default, e));
    let mut parts: Vec<String> = Vec::new();
    proof {
        assert(texts(parts@) =~= Seq::empty());
    }
    for i in 0..list.len()
        invariant
            all == list@.map_values(|e: IrExpr| rendered_ir(SqlDialect::Default, e)),
            collected(all.take(i as int)) == Ok::<Seq<Seq<char>>, Fault>(texts(parts@)),
    {
        proof {
            lemma_collected_fault(all, i + 1);
            assert(all.take(i + 1).drop_last() == all.take(i as int));
        }
        let ghost before = texts(parts@);
        let part = render_ir(&list[i])?;
        parts.push(part);
        proof {
            assert(texts(parts@) =~= before.push(part@));
        }
    }
    proof {
        assert(all.take(all.len() as int) == all);
    }
    Ok(parts)
}

// Aggregates.

/// `func([DISTINCT ]inner) [WITHIN GROUP (ORDER BY key[ DESC])]`.
pub open spec fn call_text(
    func: Seq<char>,
    distinct: bool,
    inner: Seq<char>,
    order: Option<(Seq<char>, bool)>,
) -> Seq<char> {
    func + "("@ + (if distinct {
        "DISTINCT "@
    } else {
        Seq::empty()
    }) + inner + ")"@ + (match order {
        Some((key, desc)) => " WITHIN GROUP (ORDER BY "@ + key + (if desc {
            " DESC"@
        } else {
            Seq::empty()
        }) + ")"@,
        None => Seq::empty(),
    })
}

/// The arguments of an aggregate call: `*`, or the rendered list.
pub open spec fn inner_text(agg: AggCall) -> Result<Seq<char>, Fault> {
    if agg.star {
        Ok("*"@)
    } else {
        match rendered_list(agg.args@) {
            Ok(parts) => Ok(joined(parts, ", "@)),
            Err(f) => Err(f),
        }
    }
}

/// The SQL of an aggregate call.
pub open spec fn agg_text(agg: AggCall) -> Result<Seq<char>, Fault> {
    match inner_text(agg) {
        Err(f) => Err(f),
        Ok(inner) => match agg.within_group {
            None => Ok(call_text(agg.func@, agg.distinct, inner, None)),
            Some(group) => match rendered_ir(SqlDialect::Default, group.key) {
                Ok(key) => Ok(call_text(agg.func@, agg.distinct, inner, Some((key, group.desc)))),
                Err(f) => Err(f),
            },
        },
    }
}

/// The view of an ORDER BY key and its direction.
pub open spec fn order_view(order: Option<(String, bool)>) -> Option<(Seq<char>, bool)> {
    match order {
        Some((key, desc)) => Some((key@, desc)),
        None => None,
    }
}

/// An aggregate call, given its rendered arguments and ORDER BY key.
pub fn call_sql(func: &str, distinct: bool, inner: &str, order: &Option<(String, bool)>) -> (r:
    String)
    ensures
        r@ == call_text(func@, distinct, inner@, order_view(*order)),
{
    let mut sql = func.to_owned();
    sql.append("(");
    if distinct {
        sql.append("DISTINCT ");
    }
    sql.append(inner);
    sql.append(")");
    if let Some((key, desc)) = order {
        sql.append(" WITHIN GROUP (ORDER BY ");
        sql.append(key.as_str());
        if *desc {
            sql.append(" DESC");
        }
        sql.append(")");
    }
    proof {
        assert(sql@ =~= call_text(func@, distinct, inner@, order_view(*order)));
    }
    sql
}

/// Render an aggregate call.
pub fn render_agg(agg: &AggCall) -> (r: Result<String, PlanError>)
    ensures
        agrees(r, agg_text(*agg)),
{
    let inner = if agg.star {
        "*".to_owned()
    } else {
        let parts = render_list(&agg.args)?;
        join(&parts, ", ")
    };
    let order = match &agg.within_group {
        Some(group) => {
            let key = render_ir(&group.key)?;
            Some((key, group.desc))
        },
        None => None,
    };
    Ok(call_sql(agg.func.as_str(), agg.distinct, inner.as_str(), &order))
}

/// ` GROUP BY GROUPING SETS ((a, b), (a), ())`, over rendered sets.
pub open spec fn sets_text(sets: Seq<Seq<Seq<char>>>) -> Seq<char> {
    " GROUP BY GROUPING SETS ("@ + joined(
        sets.map_values(|set: Seq<Seq<char>>| "("@ + joined(set, ", "@) + ")"@),
        ", "@,
    ) + ")"@
}

/// The SQL of grouping sets.
pub open spec fn grouping_sets_text(sets: Seq<Vec<IrExpr>>) -> Result<Seq<char>, Fault> {
    match collected(sets.map_values(|set: Vec<IrExpr>| rendered_list(set@))) {
        Ok(rendered) => Ok(sets_text(rendered)),
        Err(f) => Err(f),
    }
}

/// The SQL of a grouping: grouping sets when there are any, else the grouping
/// keys, else nothing.
pub open spec fn group_by_text(group_by: Seq<IrExpr>, sets: Seq<Vec<IrExpr>>) -> Result<
    Seq<char>,
    Fault,
> {
    if sets.len() > 0 {
        grouping_sets_text(sets)
    } else if group_by.len() == 0 {
        Ok(Seq::empty())
    } else {
        match rendered_list(group_by) {
            Ok(groups) => Ok(" GROUP BY "@ + joined(groups, ", "@)),
            Err(f) => Err(f),
        }
    }
}

/// Render `GROUP BY GROUPING SETS (...)`.
fn grouping_sets_clause(grouping_sets: &Vec<Vec<IrExpr>>) -> (r: Result<String, PlanError>)
    ensures
        agrees(r, grouping_sets_text(grouping_sets@)),
{
    let ghost all = grouping_sets@.map_values(|set: Vec<IrExpr>| rendered_list(set@));
    let ghost mut sets: Seq<Seq<Seq<char>>> = Seq::empty();
    let mut parts: Vec<String> = Vec::new();
    for i in 0..grouping_sets.len()
        invariant
            all == grouping_sets@.map_values(|set: Vec<IrExpr>| rendered_list(set@)),
            collected(all.take(i as int)) == Ok::<Seq<Seq<Seq<char>>>, Fault>(sets),
            texts(parts@) == sets.map_values(
                |set: Seq<Seq<char>>| "("@ + joined(set, ", "@) + ")"@,
            ),
    {
        proof {
            lemma_collected_fault(all, i + 1);
            assert(all.take(i + 1).drop_last() == all.take(i as int));
        }
        let cols = render_list(&grouping_sets[i])?;
        let mut part = "(".to_owned();
        part.append(join(&cols, ", ").as_str());
        part.append(")");
        let ghost before = texts(parts@);
        parts.push(part);
        proof {
            sets = sets.push(texts(cols@));
            assert(texts(parts@) =~= before.push(part@));
            assert(texts(parts@) =~= sets.map_values(
                |set: Seq<Seq<char>>| "("@ + joined(set, ", "@) + ")"@,
            ));
        }
    }
    proof {
        assert(all.take(all.len() as int) == all);
    }
    let mut sql = " GROUP BY GROUPING SETS (".to_owned();
    sql.append(join(&parts, ", ").as_str());
    sql.append(")");
    Ok(sql)
}

/// The GROUP BY clause: `GROUPING SETS (...)` when sets are given, else the
/// plain key list, else empty.
pub fn group_by_clause(group_by: &Vec<IrExpr>, grouping_sets: &Vec<Vec<IrExpr>>) -> (r: Result<
    String,
    PlanError,
>)
    ensures
        agrees(r, group_by_text(group_by@, grouping_sets@)),
{
    if grouping_sets.len() > 0 {
        return grouping_sets_clause(grouping_sets);
    }
    if group_by.len() == 0 {
        return Ok(String::new());
    }
    let groups = render_list(group_by)?;
    let mut sql = " GROUP BY ".to_owned();
    sql.append(join(&groups, ", ").as_str());
    Ok(sql)
}

/// One output column of an aggregate: `call AS "alias"`.
pub open spec fn item_text(item: AggSelectItem) -> Result<Seq<char>, Fault> {
    let value = match item.agg {
        Some(agg) => agg_text(agg),
        None => match item.expr {
            Some(e) => rendered_ir(SqlDialect::Default, e),
            None => Err(Fault::Plan("aggregate select item has neither expr nor agg"@)),
        },
    };
    match value {
        Ok(text) => Ok(text + " AS "@ + quoted(item.alias@)),
        Err(f) => Err(f),
    }
}

/// The query of an aggregate over `in_0`.
pub open spec fn aggregate_text(
    select: Seq<AggSelectItem>,
    group_by: Seq<IrExpr>,
    sets: Seq<Vec<IrExpr>>,
) -> Result<Seq<char>, Fault> {
    match collected(select.map_values(|item: AggSelectItem| item_text(item))) {
        Err(f) => Err(f),
        Ok(items) => match group_by_text(group_by, sets) {
            Err(f) => Err(f),
            Ok(clause) => Ok("SELECT "@ + joined(items, ", "@) + " FROM \"in_0\""@ + clause),
        },
    }
}

/// Render one output column of an aggregate.
fn aggregate_item(item: &AggSelectItem) -> (r: Result<String, PlanError>)
    ensures
        agrees(r, item_text(*item)),
{
    let mut text = match &item.agg {
        Some(agg) => render_agg(agg)?,
        None => match &item.expr {
            Some(e) => render_ir(e)?,
            None => return Err(
                plan_err("aggregate select item has neither expr nor agg".to_owned()),
            ),
        },
    };
    text.append(" AS ");
    text.append(quote_ident(item.alias.as_str()).as_str());
    Ok(text)
}

/// The query of an aggregate over `in_0`, so that every aggregate function that
/// DataFusion knows works without wiring of its own.
pub fn aggregate_sql(
    select: &Vec<AggSelectItem>,
    group_by: &Vec<IrExpr>,
    grouping_sets: &Vec<Vec<IrExpr>>,
) -> (r: Result<String, PlanError>)
    ensures
        agrees(r, aggregate_text(select@, group_by@, grouping_sets@)),
{
    let ghost all = select@.map_values(|item: AggSelectItem| item_text(item));
    let mut items: Vec<String> = Vec::new();
    proof {
        assert(texts(items@) =~= Seq::empty());
    }
    for i in 0..select.len()
        invariant
            all == select@.map_values(|item: AggSelectItem| item_text(item)),
            collected(all.take(i as int)) == Ok::<Seq<Seq<char>>, Fault>(texts(items@)),
    {
        proof {
            lemma_collected_fault(all, i + 1);
            assert(all.take(i + 1).drop_last() == all.take(i as int));
        }
        let ghost before = texts(items@);
        let item = aggregate_item(&select[i])?;
        items.push(item);
        proof {
            assert(texts(items@) =~= before.push(item@));
        }
    }
    proof {
        assert(all.take(all.len() as int) == all);
    }
    let clause = group_by_clause(group_by, grouping_sets)?;
    let mut sql = "SELECT ".to_owned();
    sql.append(join(&items, ", ").as_str());
    sql.append(" FROM \"in_0\"");
    sql.append(clause.as_str());
    Ok(sql)
}

// Projections.

/// The internal name of the output column at `index`. DataFusion wants the
/// names of a projection to differ; the result is renamed afterwards.
pub open spec fn internal_name(index: nat) -> Seq<char> {
    "__c"@ + decimal(index)
}

/// The internal name of the output column at `index`.
fn internal_column(index: usize) -> (r: String)
    ensures
        r@ == internal_name(index as nat),
{
    let mut name = "__c".to_owned();
    push_decimal(&mut name, index as u64);
    name
}

/// The translated expressions of a projection, or the fault of the first that
/// has one.
pub open spec fn projected(project: Seq<Projection>) -> Result<Seq<ExprShape>, Fault> {
    collected(project.map_values(|p: Projection| translated(p.expr)))
}

/// The shape of what a projected column names.
pub open spec fn named_shape(e: Expr) -> ExprShape {
    match e {
        Expr::Alias(a) => shape(*a.expr),
        _ => shape(e),
    }
}

/// Whether a column is an expression under `name`.
pub open spec fn is_named(e: Expr, name: Seq<char>) -> bool {
    e matches Expr::Alias(a) && a.name@ == name && a.relation is None && a.metadata is None
}

/// The expressions of a projection, each under its internal name.
pub fn project_columns(project: &Vec<Projection>) -> (r: Result<Vec<Expr>, PlanError>)
    ensures
        match r {
            Ok(columns) => projected(project@) == Ok::<Seq<ExprShape>, Fault>(
                columns@.map_values(|c: Expr| named_shape(c)),
            ) && columns@.len() == project@.len() && (forall|i: int|
                0 <= i < columns@.len() ==> is_named(
                    #[trigger] columns@[i],
                    internal_name(i as nat),
                )),
            Err(e) => projected(project@) == Err::<Seq<ExprShape>, Fault>(e@),
        },
{
    let ghost all = project@.map_values(|p: Projection| translated(p.expr));
    let mut columns: Vec<Expr> = Vec::new();
    proof {
        assert(columns@.map_values(|c: Expr| named_shape(c)) =~= Seq::empty());
    }
    for i in 0..project.len()
        invariant
            all == project@.map_values(|p: Projection| translated(p.expr)),
            columns@.len() == i,
            collected(all.take(i as int)) == Ok::<Seq<ExprShape>, Fault>(
                columns@.map_values(|c: Expr| named_shape(c)),
            ),
            forall|j: int|
                0 <= j < columns@.len() ==> is_named(
                    #[trigger] columns@[j],
                    internal_name(j as nat),
                ),
    {
        proof {
            lemma_collected_fault(all, i + 1);
            assert(all.take(i + 1).drop_last() == all.take(i as int));
        }
        let ghost before = columns@.map_values(|c: Expr| named_shape(c));
        let e = to_df_expr(&project[i].expr)?;
        let ghost s = shape(e);
        columns.push(
            Expr::Alias(
                Alias {
                    expr: Box::new(e),
                    relation: None,
                    name: internal_column(i),
                    metadata: None,
                },
            ),
        );
        proof {
            assert(columns@.map_values(|c: Expr| named_shape(c)) =~= before.push(s));
        }
    }
    proof {
        assert(all.take(all.len() as int) == all);
    }
    Ok(columns)
}

// Sort keys and join kinds.

/// The translated sort keys, or the fault of the first that has one.
pub open spec fn sorted_by(keys: Seq<SortKey>) -> Result<Seq<ExprShape>, Fault> {
    collected(keys.map_values(|k: SortKey| translated(k.expr)))
}

/// The sort keys, each with its direction and the place of NULLs.
pub fn sort_keys(keys: &Vec<SortKey>) -> (r: Result<Vec<Sort>, PlanError>)
    ensures
        match r {
            Ok(exprs) => sorted_by(keys@) == Ok::<Seq<ExprShape>, Fault>(
                exprs@.map_values(|k: Sort| shape(k.expr)),
            ) && exprs@.len() == keys@.len() && (forall|i: int|
                0 <= i < exprs@.len() ==> (#[trigger] exprs@[i]).asc == keys@[i].ascending
                    && exprs@[i].nulls_first == keys@[i].nulls_first),
            Err(e) => sorted_by(keys@) == Err::<Seq<ExprShape>, Fault>(e@),
        },
{
    let ghost all = keys@.map_values(|k: SortKey| translated(k.expr));
    let mut exprs: Vec<Sort> = Vec::new();
    proof {
        assert(exprs@.map_values(|k: Sort| shape(k.expr)) =~= Seq::empty());
    }
    for i in 0..keys.len()
        invariant
            all == keys@.map_values(|k: SortKey| translated(k.expr)),
            exprs@.len() == i,
            collected(all.take(i as int)) == Ok::<Seq<ExprShape>, Fault>(
                exprs@.map_values(|k: Sort| shape(k.expr)),
            ),
            forall|j: int|
                0 <= j < exprs@.len() ==> (#[trigger] exprs@[j]).asc == keys@[j].ascending
                    && exprs@[j].nulls_first == keys@[j].nulls_first,
    {
        proof {
            lemma_collected_fault(all, i + 1);
            assert(all.take(i + 1).drop_last() == all.take(i as int));
        }
        let ghost before = exprs@.map_values(|k: Sort| shape(k.expr));
        let e = to_df_expr(&keys[i].expr)?;
        let ghost s = shape(e);
        exprs.push(Sort { expr: e, asc: keys[i].ascending, nulls_first: keys[i].nulls_first });
        proof {
            assert(exprs@.map_values(|k: Sort| shape(k.expr)) =~= before.push(s));
        }
    }
    proof {
        assert(all.take(all.len() as int) == all);
    }
    Ok(exprs)
}

/// The condition of a nested-loop join as a list of at most one expression.
pub fn join_condition(condition: &Option<IrExpr>) -> (r: Result<Vec<Expr>, PlanError>)
    ensures
        match *condition {
            None => r matches Ok(on) && on@.len() == 0,
            Some(e) => match r {
                Ok(on) => on@.len() == 1 && translated(e) == Ok::<ExprShape, Fault>(shape(on@[0])),
                Err(error) => translated(e) == Err::<ExprShape, Fault>(error@),
            },
        },
{
    let mut on: Vec<Expr> = Vec::new();
    if let Some(e) = condition {
        let translated_condition = to_df_expr(e)?;
        on.push(translated_condition);
    }
    Ok(on)
}

/// DataFusion's name for a join kind. Semi and anti joins keep the left side.
pub open spec fn join_type_of(kind: JoinKind) -> JoinType {
    match kind {
        JoinKind::Inner => JoinType::Inner,
        JoinKind::Left => JoinType::Left,
        JoinKind::Right => JoinType::Right,
        JoinKind::Full => JoinType::Full,
        JoinKind::Semi => JoinType::LeftSemi,
        JoinKind::Anti => JoinType::LeftAnti,
    }
}

/// Map the join kind of a plan to DataFusion's.
pub fn datafusion_join_type(kind: JoinKind) -> (r: JoinType)
    ensures
        r == join_type_of(kind),
{
    match kind {
        JoinKind::Inner => JoinType::Inner,
        JoinKind::Left => JoinType::Left,
        JoinKind::Right => JoinType::Right,
        JoinKind::Full => JoinType::Full,
        JoinKind::Semi => JoinType::LeftSemi,
        JoinKind::Anti => JoinType::LeftAnti,
    }
}

// Key columns.

/// The column that a name written in SQL stands for.
pub uninterp spec fn parsed_column(name: Seq<char>) -> ExprShape;

/// `Column::from` a name written in SQL, which it parses. Trusted: the column
/// is determined by the name.
#[verifier::external_body]
fn column_by_name(name: &str) -> (r: Column)
    ensures
        shape(Expr::Column(r)) == parsed_column(name@),
{
    Column::from(name)
}

/// What the distinct values of a key column are collected by: the filter that
/// leaves out NULLs, and the column.
pub fn key_exprs(key: &str) -> (r: (Expr, Expr))
    ensures
        shape(r.0) == ExprShape::IsNotNull(Box::new(parsed_column(key@))),
        shape(r.1) == parsed_column(key@),
{
    let not_null = Expr::IsNotNull(Box::new(Expr::Column(column_by_name(key))));
    (not_null, Expr::Column(column_by_name(key)))
}

// The single-row guard.

/// The query whose rows are the keys that stand in more than one row of `in_0`.
pub open spec fn repeated_keys_text(keys: Seq<Seq<char>>) -> Seq<char> {
    "SELECT 1 FROM \"in_0\" GROUP BY "@ + joined(keys, ", "@) + " HAVING count(*) > 1 LIMIT 1"@
}

/// The query of a single-row guard, or nothing when there are no keys.
pub open spec fn guard_text(keys: Seq<IrExpr>) -> Result<Option<Seq<char>>, Fault> {
    if keys.len() == 0 {
        Ok(None)
    } else {
        match rendered_list(keys) {
            Ok(parts) => Ok(Some(repeated_keys_text(parts))),
            Err(f) => Err(f),
        }
    }
}

/// The query that finds a repeated key for a single-row guard. Without keys
/// there is none to run: the guard counts the rows of its input.
pub fn guard_sql(keys: &Vec<IrExpr>) -> (r: Result<Option<String>, PlanError>)
    ensures
        match r {
            Ok(text) => guard_text(keys@) == Ok::<Option<Seq<char>>, Fault>(opt_text(text)),
            Err(e) => guard_text(keys@) == Err::<Option<Seq<char>>, Fault>(e@),
        },
{
    if keys.len() == 0 {
        return Ok(None);
    }
    let parts = render_list(keys)?;
    let mut sql = "SELECT 1 FROM \"in_0\" GROUP BY ".to_owned();
    sql.append(join(&parts, ", ").as_str());
    sql.append(" HAVING count(*) > 1 LIMIT 1");
    Ok(Some(sql))
}

/// Whether a single-row guard holds. `found` is the number of rows that the
/// guard's query returned, or the rows of the input for a guard without keys.
pub fn guard_holds(has_keys: bool, found: usize) -> (r: Result<(), PlanError>)
    ensures
        r is Ok <==> found <= (if has_keys {
            0int
        } else {
            1int
        }),
        r matches Err(e) ==> e@ == Fault::Plan("scalar subquery returned more than one row"@),
{
    let allowed: usize = if has_keys {
        0
    } else {
        1
    };
    if found <= allowed {
        Ok(())
    } else {
        Err(plan_err("scalar subquery returned more than one row".to_owned()))
    }
}

// Result schemas.

/// `DataType::clone` gives the same type.
pub assume_specification[ <DataType as Clone>::clone ](t: &DataType) -> (r: DataType)
    ensures
        r == *t,
;

/// A column of a result.
#[derive(Debug)]
pub struct ColumnSpec {
    pub name: String,
    pub data_type: DataType,
    pub nullable: bool,
}

/// The schema under which batches that differ only in nullability agree: every
/// column nullable, names and types kept.
pub fn nullable_columns(columns: &Vec<ColumnSpec>) -> (r: Vec<ColumnSpec>)
    ensures
        r@.len() == columns@.len(),
        forall|i: int|
            0 <= i < r@.len() ==> (#[trigger] r@[i]).name@ == columns@[i].name@
                && r@[i].data_type == columns@[i].data_type && r@[i].nullable,
{
    let mut out: Vec<ColumnSpec> = Vec::new();
    for i in 0..columns.len()
        invariant
            out@.len() == i,
            forall|j: int|
                0 <= j < i ==> (#[trigger] out@[j]).name@ == columns@[j].name@
                    && out@[j].data_type == columns@[j].data_type && out@[j].nullable,
    {
        let column = &columns[i];
        let name = column.name.clone();
        let data_type = column.data_type.clone();
        out.push(ColumnSpec { name, data_type, nullable: true });
    }
    out
}

/// The schema of a projection: the types of the internal columns under the
/// output names, which may repeat.
pub fn output_columns(internal: &Vec<ColumnSpec>, project: &Vec<Projection>) -> (r: Vec<ColumnSpec>)
    ensures
        r@.len() == if internal@.len() < project@.len() {
            internal@.len()
        } else {
            project@.len()
        },
        forall|i: int|
            0 <= i < r@.len() ==> (#[trigger] r@[i]).name@ == project@[i].alias@
                && r@[i].data_type == internal@[i].data_type && r@[i].nullable
                == internal@[i].nullable,
{
    let mut out: Vec<ColumnSpec> = Vec::new();
    let mut i: usize = 0;
    while i < internal.len() && i < project.len()
        invariant
            out@.len() == i,
            i <= internal@.len(),
            i <= project@.len(),
            forall|j: int|
                0 <= j < i ==> (#[trigger] out@[j]).name@ == project@[j].alias@
                    && out@[j].data_type == internal@[j].data_type && out@[j].nullable
                    == internal@[j].nullable,
        decreases internal.len() - i,
    {
        let column = &internal[i];
        let name = project[i].alias.clone();
        let data_type = column.data_type.clone();
        out.push(ColumnSpec { name, data_type, nullable: column.nullable });
        i = i + 1;
    }
    out
}

/// No two output columns of a projection share an internal name.
pub proof fn internal_names_are_distinct(i: nat, j: nat)
    requires
        internal_name(i) == internal_name(j),
    ensures
        i == j,
{
    let skip = "__c"@.len() as int;
    assert(internal_name(i).skip(skip) =~= decimal(i));
    assert(internal_name(j).skip(skip) =~= decimal(j));
    decimals_are_injective(i, j);
}

// What aggregates, projections and guards keep.

/// A list is rendered expression by expression, each in its place; the first
/// that is not rendered refuses the list.
pub proof fn lists_are_rendered_item_by_item(list: Seq<IrExpr>)
    ensures
        match rendered_list(list) {
            Ok(parts) => {
                &&& parts.len() == list.len()
                &&& forall|i: int|
                    0 <= i < list.len() ==> rendered_ir(SqlDialect::Default, #[trigger] list[i])
                        == Ok::<Seq<char>, Fault>(parts[i])
            },
            Err(fault) => exists|i: int|
                {
                    &&& 0 <= i < list.len()
                    &&& rendered_ir(SqlDialect::Default, #[trigger] list[i]) == Err::<
                        Seq<char>,
                        Fault,
                    >(fault)
                    &&& forall|j: int|
                        0 <= j < i ==> rendered_ir(SqlDialect::Default, #[trigger] list[j]) is Ok
                },
        },
{
    let all = list.map_values(|e: IrExpr| rendered_ir(SqlDialect::Default, e));
    collecting_keeps_every_part(all);
    match rendered_list(list) {
        Ok(parts) => {
            assert forall|i: int| 0 <= i < list.len() implies rendered_ir(
                SqlDialect::Default,
                #[trigger] list[i],
            ) == Ok::<Seq<char>, Fault>(parts[i]) by {
                assert(all[i] == Ok::<Seq<char>, Fault>(parts[i]));
            }
        },
        Err(fault) => {
            let i = choose|i: int|
                {
                    &&& 0 <= i < all.len()
                    &&& #[trigger] all[i] == Err::<Seq<char>, Fault>(fault)
                    &&& forall|j: int| 0 <= j < i ==> (#[trigger] all[j]) is Ok
                };
            assert(rendered_ir(SqlDialect::Default, list[i]) == all[i]);
            assert forall|j: int| 0 <= j < i implies rendered_ir(
                SqlDialect::Default,
                #[trigger] list[j],
            ) is Ok by {
                assert(all[j] is Ok);
            }
        },
    }
}

/// A call is its function over its arguments. DISTINCT stands before the
/// arguments and the order behind the call; each is there exactly when it is
/// asked for, and changes nothing else.
pub proof fn calls_are_built_part_by_part(
    func: Seq<char>,
    inner: Seq<char>,
    distinct: bool,
    key: Seq<char>,
    desc: bool,
)
    ensures
        call_text(func, false, inner, None) == func + "("@ + inner + ")"@,
        call_text(func, true, inner, None) == func + "(DISTINCT "@ + inner + ")"@,
        call_text(func, distinct, inner, Some((key, false))) == call_text(
            func,
            distinct,
            inner,
            None,
        ) + " WITHIN GROUP (ORDER BY "@ + key + ")"@,
        call_text(func, distinct, inner, Some((key, true))) == call_text(func, distinct, inner, None)
            + " WITHIN GROUP (ORDER BY "@ + key + " DESC)"@,
{
    reveal_strlit("(");
    reveal_strlit(")");
    reveal_strlit("DISTINCT ");
    reveal_strlit("(DISTINCT ");
    reveal_strlit(" DESC");
    reveal_strlit(" DESC)");
    assert(call_text(func, false, inner, None) =~= func + "("@ + inner + ")"@);
    assert(call_text(func, true, inner, None) =~= func + "(DISTINCT "@ + inner + ")"@);
    assert(call_text(func, distinct, inner, Some((key, false))) =~= call_text(
        func,
        distinct,
        inner,
        None,
    ) + " WITHIN GROUP (ORDER BY "@ + key + ")"@);
    assert(call_text(func, distinct, inner, Some((key, true))) =~= call_text(
        func,
        distinct,
        inner,
        None,
    ) + " WITHIN GROUP (ORDER BY "@ + key + " DESC)"@);
}

/// An aggregate call is a call of the plan's function, DISTINCT if and only if
/// the plan says so, over a star or over all the arguments in their order, with
/// the plan's order where it has one.
pub proof fn aggregate_calls_keep_their_parts(agg: AggCall, text: Seq<char>)
    requires
        agg_text(agg) == Ok::<Seq<char>, Fault>(text),
    ensures
        exists|inner: Seq<char>, order: Option<(Seq<char>, bool)>|
            {
                &&& text == #[trigger] call_text(agg.func@, agg.distinct, inner, order)
                &&& agg.star ==> inner == "*"@
                &&& !agg.star ==> (rendered_list(agg.args@) matches Ok(parts) && inner == joined(
                    parts,
                    ", "@,
                ))
                &&& match agg.within_group {
                    None => order is None,
                    Some(group) => order matches Some((key, desc)) && desc == group.desc
                        && rendered_ir(SqlDialect::Default, group.key) == Ok::<Seq<char>, Fault>(
                        key,
                    ),
                }
            },
{
    let inner = inner_text(agg)->Ok_0;
    match agg.within_group {
        None => assert(text == call_text(agg.func@, agg.distinct, inner, None)),
        Some(group) => {
            let key = rendered_ir(SqlDialect::Default, group.key)->Ok_0;
            assert(text == call_text(agg.func@, agg.distinct, inner, Some((key, group.desc))));
        },
    }
}

/// A grouping by sets writes one parenthesised list for each set: a set added
/// to others stands at the end of them.
pub proof fn grouping_sets_grow_at_the_end(sets: Seq<Seq<Seq<char>>>, set: Seq<Seq<char>>)
    ensures
        sets_text(seq![set]) == " GROUP BY GROUPING SETS (("@ + joined(set, ", "@) + "))"@,
        sets.len() > 0 ==> sets_text(sets.push(set)) == sets_text(sets).drop_last() + ", ("@
            + joined(set, ", "@) + "))"@,
{
    let part = |s: Seq<Seq<char>>| "("@ + joined(s, ", "@) + ")"@;
    reveal_strlit("(");
    reveal_strlit(")");
    reveal_strlit("))");
    reveal_strlit(", (");
    reveal_strlit(", ");
    reveal_strlit(" GROUP BY GROUPING SETS (");
    reveal_strlit(" GROUP BY GROUPING SETS ((");
    assert(seq![set].map_values(part) =~= seq![part(set)]);
    assert(sets.push(set).map_values(part) =~= sets.map_values(part).push(part(set)));
    joining_adds_part_by_part(sets.map_values(part), part(set), ", "@);
    assert(sets_text(seq![set]) =~= " GROUP BY GROUPING SETS (("@ + joined(set, ", "@) + "))"@);
    if sets.len() > 0 {
        assert(sets_text(sets.push(set)) =~= sets_text(sets).drop_last() + ", ("@ + joined(
            set,
            ", "@,
        ) + "))"@);
    }
}

/// A grouping names every set where there are sets, in their order and whatever
/// the keys are; else every key, in its order; else nothing.
pub proof fn groupings_keep_every_set(
    group_by: Seq<IrExpr>,
    sets: Seq<Vec<IrExpr>>,
    clause: Seq<char>,
)
    requires
        group_by_text(group_by, sets) == Ok::<Seq<char>, Fault>(clause),
    ensures
        sets.len() > 0 ==> exists|rendered: Seq<Seq<Seq<char>>>|
            {
                &&& clause == #[trigger] sets_text(rendered)
                &&& rendered.len() == sets.len()
                &&& forall|i: int|
                    0 <= i < sets.len() ==> rendered_list((#[trigger] sets[i])@) == Ok::<
                        Seq<Seq<char>>,
                        Fault,
                    >(rendered[i])
            },
        sets.len() == 0 && group_by.len() > 0 ==> (rendered_list(group_by) matches Ok(keys) && clause
            == " GROUP BY "@ + joined(keys, ", "@)),
        sets.len() == 0 && group_by.len() == 0 ==> clause.len() == 0,
{
    if sets.len() > 0 {
        let all = sets.map_values(|set: Vec<IrExpr>| rendered_list(set@));
        collecting_keeps_every_part(all);
        let rendered = collected(all)->Ok_0;
        assert(clause == sets_text(rendered));
        assert forall|i: int| 0 <= i < sets.len() implies rendered_list((#[trigger] sets[i])@)
            == Ok::<Seq<Seq<char>>, Fault>(rendered[i]) by {
            assert(all[i] == Ok::<Seq<Seq<char>>, Fault>(rendered[i]));
        }
    }
}

/// An output column is an aggregate call where it has one, else an expression,
/// under its alias; without either it is refused.
pub proof fn output_columns_are_named(item: AggSelectItem)
    ensures
        match item_text(item) {
            Ok(text) => exists|value: Seq<char>|
                {
                    &&& text == #[trigger] (value + (" AS "@ + quoted(item.alias@)))
                    &&& item.agg matches Some(agg) ==> agg_text(agg) == Ok::<Seq<char>, Fault>(value)
                    &&& item.agg is None ==> (item.expr matches Some(e) && rendered_ir(
                        SqlDialect::Default,
                        e,
                    ) == Ok::<Seq<char>, Fault>(value))
                },
            Err(fault) => {
                &&& item.agg matches Some(agg) ==> agg_text(agg) == Err::<Seq<char>, Fault>(fault)
                &&& item.agg is None ==> (match item.expr {
                    Some(e) => rendered_ir(SqlDialect::Default, e) == Err::<Seq<char>, Fault>(
                        fault,
                    ),
                    None => fault == Fault::Plan(
                        "aggregate select item has neither expr nor agg"@,
                    ),
                })
            },
        },
{
    if let Ok(text) = item_text(item) {
        let value = match item.agg {
            Some(agg) => agg_text(agg)->Ok_0,
            None => rendered_ir(SqlDialect::Default, item.expr->0)->Ok_0,
        };
        assert(text =~= value + (" AS "@ + quoted(item.alias@)));
    }
}

/// An aggregate query selects every output column, in its order, from the
/// input, and ends in the grouping that its keys and sets give.
pub proof fn aggregate_queries_end_in_their_grouping(
    select: Seq<AggSelectItem>,
    group_by: Seq<IrExpr>,
    sets: Seq<Vec<IrExpr>>,
)
    ensures
        match aggregate_text(select, group_by, sets) {
            Ok(text) => exists|items: Seq<Seq<char>>|
                {
                    &&& group_by_text(group_by, sets) matches Ok(clause)
                    &&& text == "SELECT "@ + #[trigger] joined(items, ", "@) + " FROM \"in_0\""@
                        + clause
                    &&& items.len() == select.len()
                    &&& forall|i: int|
                        0 <= i < select.len() ==> item_text(#[trigger] select[i]) == Ok::<
                            Seq<char>,
                            Fault,
                        >(items[i])
                },
            Err(fault) => group_by_text(group_by, sets) == Err::<Seq<char>, Fault>(fault) || exists|
                i: int,
            |
                0 <= i < select.len() && item_text(#[trigger] select[i]) == Err::<Seq<char>, Fault>(
                    fault,
                ),
        },
{
    let all = select.map_values(|item: AggSelectItem| item_text(item));
    collecting_keeps_every_part(all);
    match collected(all) {
        Ok(items) => {
            assert forall|i: int| 0 <= i < select.len() implies item_text(#[trigger] select[i])
                == Ok::<Seq<char>, Fault>(items[i]) by {
                assert(all[i] == Ok::<Seq<char>, Fault>(items[i]));
            }
            if let Ok(text) = aggregate_text(select, group_by, sets) {
                assert(text == "SELECT "@ + joined(items, ", "@) + " FROM \"in_0\""@
                    + group_by_text(group_by, sets)->Ok_0);
            }
        },
        Err(fault) => {
            let i = choose|i: int|
                {
                    &&& 0 <= i < all.len()
                    &&& #[trigger] all[i] == Err::<Seq<char>, Fault>(fault)
                    &&& forall|j: int| 0 <= j < i ==> (#[trigger] all[j]) is Ok
                };
            assert(item_text(select[i]) == all[i]);
        },
    }
}

/// Two aggregates over the same output columns have the same query only where
/// they have the same grouping.
pub proof fn groupings_show_in_the_query(
    select: Seq<AggSelectItem>,
    group_by: Seq<IrExpr>,
    sets: Seq<Vec<IrExpr>>,
    other_group_by: Seq<IrExpr>,
    other_sets: Seq<Vec<IrExpr>>,
)
    requires
        aggregate_text(select, group_by, sets) is Ok,
        aggregate_text(select, group_by, sets) == aggregate_text(
            select,
            other_group_by,
            other_sets,
        ),
    ensures
        group_by_text(group_by, sets) == group_by_text(other_group_by, other_sets),
{
    let items = collected(select.map_values(|item: AggSelectItem| item_text(item)))->Ok_0;
    let head = "SELECT "@ + joined(items, ", "@) + " FROM \"in_0\""@;
    let text = aggregate_text(select, group_by, sets)->Ok_0;
    let first = group_by_text(group_by, sets)->Ok_0;
    let second = group_by_text(other_group_by, other_sets)->Ok_0;
    assert(text == head + first);
    assert(text == head + second);
    assert((head + first).skip(head.len() as int) =~= first);
    assert((head + second).skip(head.len() as int) =~= second);
}

/// A projection translates every expression, each in its place.
pub proof fn projections_keep_every_column(project: Seq<Projection>)
    ensures
        match projected(project) {
            Ok(columns) => {
                &&& columns.len() == project.len()
                &&& forall|i: int|
                    0 <= i < project.len() ==> translated((#[trigger] project[i]).expr) == Ok::<
                        ExprShape,
                        Fault,
                    >(columns[i])
            },
            Err(fault) => exists|i: int|
                0 <= i < project.len() && translated((#[trigger] project[i]).expr) == Err::<
                    ExprShape,
                    Fault,
                >(fault),
        },
{
    let all = project.map_values(|p: Projection| translated(p.expr));
    collecting_keeps_every_part(all);
    match projected(project) {
        Ok(columns) => {
            assert forall|i: int| 0 <= i < project.len() implies translated(
                (#[trigger] project[i]).expr,
            ) == Ok::<ExprShape, Fault>(columns[i]) by {
                assert(all[i] == Ok::<ExprShape, Fault>(columns[i]));
            }
        },
        Err(fault) => {
            let i = choose|i: int|
                {
                    &&& 0 <= i < all.len()
                    &&& #[trigger] all[i] == Err::<ExprShape, Fault>(fault)
                    &&& forall|j: int| 0 <= j < i ==> (#[trigger] all[j]) is Ok
                };
            assert(translated(project[i].expr) == all[i]);
        },
    }
}

/// A projected column is what it names.
pub proof fn projected_columns_are_what_they_name(a: Alias)
    ensures
        named_shape(Expr::Alias(a)) == shape(*a.expr),
        forall|name: Seq<char>|
            #[trigger] is_named(Expr::Alias(a), name) ==> a.name@ == name && a.relation is None,
{
}

/// A sort goes by every key, the first one first.
pub proof fn sorts_keep_every_key(keys: Seq<SortKey>)
    ensures
        match sorted_by(keys) {
            Ok(exprs) => {
                &&& exprs.len() == keys.len()
                &&& forall|i: int|
                    0 <= i < keys.len() ==> translated((#[trigger] keys[i]).expr) == Ok::<
                        ExprShape,
                        Fault,
                    >(exprs[i])
            },
            Err(fault) => exists|i: int|
                0 <= i < keys.len() && translated((#[trigger] keys[i]).expr) == Err::<
                    ExprShape,
                    Fault,
                >(fault),
        },
{
    let all = keys.map_values(|k: SortKey| translated(k.expr));
    collecting_keeps_every_part(all);
    match sorted_by(keys) {
        Ok(exprs) => {
            assert forall|i: int| 0 <= i < keys.len() implies translated((#[trigger] keys[i]).expr)
                == Ok::<ExprShape, Fault>(exprs[i]) by {
                assert(all[i] == Ok::<ExprShape, Fault>(exprs[i]));
            }
        },
        Err(fault) => {
            let i = choose|i: int|
                {
                    &&& 0 <= i < all.len()
                    &&& #[trigger] all[i] == Err::<ExprShape, Fault>(fault)
                    &&& forall|j: int| 0 <= j < i ==> (#[trigger] all[j]) is Ok
                };
            assert(translated(keys[i].expr) == all[i]);
        },
    }
}

/// What a join returns of a left row and of a right row: each pair that
/// matches, with the right row's columns or without them, and each row that
/// matches nothing.
pub struct JoinRows {
    pub pairs: bool,
    pub matched_left: bool,
    pub unmatched_left: bool,
    pub unmatched_right: bool,
}

/// What a plan's join returns.
pub open spec fn plan_join_rows(kind: JoinKind) -> JoinRows {
    JoinRows {
        pairs: kind is Inner || kind is Left || kind is Right || kind is Full,
        matched_left: kind is Semi,
        unmatched_left: kind is Left || kind is Full || kind is Anti,
        unmatched_right: kind is Right || kind is Full,
    }
}

/// What DataFusion's join returns, where it keeps the left side of a semi or
/// anti join and marks no rows.
pub open spec fn join_rows(t: JoinType) -> Option<JoinRows> {
    if t is RightSemi || t is RightAnti || t is LeftMark || t is RightMark {
        None
    } else {
        Some(
            JoinRows {
                pairs: t is Inner || t is Left || t is Right || t is Full,
                matched_left: t is LeftSemi,
                unmatched_left: t is Left || t is Full || t is LeftAnti,
                unmatched_right: t is Right || t is Full,
            },
        )
    }
}

/// A join returns the rows that the plan asks for.
pub proof fn joins_return_the_rows_of_the_plan(kind: JoinKind)
    ensures
        join_rows(join_type_of(kind)) == Some(plan_join_rows(kind)),
{
}

/// The query of a guard groups its input by every key, in its order, and keeps
/// the groups of more than one row; without keys there is none.
pub proof fn guards_group_by_every_key(keys: Seq<IrExpr>)
    ensures
        keys.len() == 0 ==> guard_text(keys) == Ok::<Option<Seq<char>>, Fault>(None),
        keys.len() > 0 ==> match rendered_list(keys) {
            Ok(parts) => guard_text(keys) == Ok::<Option<Seq<char>>, Fault>(
                Some(
                    "SELECT 1 FROM \"in_0\" GROUP BY "@ + joined(parts, ", "@)
                        + " HAVING count(*) > 1 LIMIT 1"@,
                ),
            ),
            Err(fault) => guard_text(keys) == Err::<Option<Seq<char>>, Fault>(fault),
        },
{
}

/// An aggregate call is refused only where one of its arguments, or the key of
/// its order, is not rendered.
pub proof fn aggregate_calls_are_refused_for_their_parts(agg: AggCall)
    requires
        agg_text(agg) is Err,
    ensures
        ({
            let fault = agg_text(agg)->Err_0;
            ||| !agg.star && rendered_list(agg.args@) == Err::<Seq<Seq<char>>, Fault>(fault)
            ||| agg.within_group matches Some(group) && rendered_ir(SqlDialect::Default, group.key)
                == Err::<Seq<char>, Fault>(fault)
        }),
{
}

/// A grouping is refused only where one of its sets, or without sets one of its
/// keys, is not rendered.
pub proof fn groupings_are_refused_for_their_parts(
    group_by: Seq<IrExpr>,
    sets: Seq<Vec<IrExpr>>,
)
    requires
        group_by_text(group_by, sets) is Err,
    ensures
        ({
            let fault = group_by_text(group_by, sets)->Err_0;
            ||| sets.len() == 0 && rendered_list(group_by) == Err::<Seq<Seq<char>>, Fault>(fault)
            ||| exists|i: int|
                0 <= i < sets.len() && rendered_list((#[trigger] sets[i])@) == Err::<
                    Seq<Seq<char>>,
                    Fault,
                >(fault)
        }),
{
    if sets.len() > 0 {
        let all = sets.map_values(|set: Vec<IrExpr>| rendered_list(set@));
        collecting_keeps_every_part(all);
        let fault = group_by_text(group_by, sets)->Err_0;
        let i = choose|i: int|
            {
                &&& 0 <= i < all.len()
                &&& #[trigger] all[i] == Err::<Seq<Seq<char>>, Fault>(fault)
                &&& forall|j: int| 0 <= j < i ==> (#[trigger] all[j]) is Ok
            };
        assert(rendered_list(sets[i]@) == all[i]);
    }
}

/// Rendered parts are what is expected only where they are those texts, or that
/// fault; and an order shows its key and direction.
pub proof fn rendered_parts_agree_in_full(
    outcome: Result<Vec<String>, PlanError>,
    expected: Result<Seq<Seq<char>>, Fault>,
    order: Option<(String, bool)>,
)
    requires
        lists(outcome, expected),
    ensures
        outcome is Ok <==> expected is Ok,
        outcome matches Ok(parts) ==> expected->Ok_0.len() == parts@.len() && forall|i: int|
            0 <= i < parts@.len() ==> #[trigger] expected->Ok_0[i] == parts@[i]@,
        outcome matches Err(error) ==> expected->Err_0 == error@,
        order matches Some((key, desc)) ==> order_view(order) == Some((key@, desc)),
        order is None <==> order_view(order) is None,
{
}

} // verus!
