//! Render a scan to SQL in the dialect of its source.
//!
//! The SELECT skeleton is built here; filter expressions are rendered by
//! DataFusion's unparser, so that quoting and literal syntax follow the
//! dialect. A dynamic join-key filter arrives as a finished expression and is
//! ANDed in.

use datafusion::common::DataFusionError;
use datafusion::logical_expr::BinaryExpr;
use datafusion::logical_expr::Expr;
use datafusion::logical_expr::Operator;
use datafusion::sql::unparser::dialect::DefaultDialect;
use datafusion::sql::unparser::dialect::PostgreSqlDialect;
use datafusion::sql::unparser::Unparser;
use vstd::prelude::*;
use vstd::string::*;

use crate::error::{agrees, plan_err, Fault, PlanError};
use crate::expr::{naming, naming_text, shape, to_df_expr, translated, ExprShape};
use crate::ir::{opt_text, IrExpr, ScanSpec};
use crate::printing::{can_draw, drawable, lemma_drawable_shape};
use crate::text::{
    decimal, join, joined, joining_adds_part_by_part, push_decimal, quote_ident, quoted, quoted_identifier_reads_back,
    quoting_is_injective, texts,
};
use crate::types::DsKind;

verus! {

// Expressions.

/// A dialect of DataFusion's unparser.
#[derive(Clone, Copy, PartialEq, Eq, Debug, Structural)]
pub enum SqlDialect {
    Postgres,
    Default,
}

/// The dialect of a source. DuckDB and Parquet read the default dialect.
pub open spec fn dialect_of(kind: DsKind) -> SqlDialect {
    match kind {
        DsKind::Postgres => SqlDialect::Postgres,
        DsKind::DuckDb => SqlDialect::Default,
        DsKind::Parquet => SqlDialect::Default,
    }
}

/// The dialect of a source.
fn dialect_for(kind: DsKind) -> (r: SqlDialect)
    ensures
        r == dialect_of(kind),
{
    match kind {
        DsKind::Postgres => SqlDialect::Postgres,
        DsKind::DuckDb => SqlDialect::Default,
        DsKind::Parquet => SqlDialect::Default,
    }
}

/// The SQL text of an expression in a dialect, `None` for an expression that
/// the unparser does not render.
pub uninterp spec fn unparsed(dialect: SqlDialect, e: ExprShape) -> Option<Seq<char>>;

/// `Unparser::expr_to_sql` of an unparser made for the dialect, printed.
/// Trusted: the text is determined by the dialect and the expression's tree;
/// source locations, literal metadata and an aggregate's treatment of NULLs do
/// not enter into it. It is asked for only of an expression without the values
/// that the unparser stops at, and without subqueries, which may hold such
/// values out of sight.
#[verifier::external_body]
fn unparse(dialect: SqlDialect, e: &Expr) -> (r: Result<String, DataFusionError>)
    requires
        drawable(shape(*e), false),
    ensures
        r matches Ok(text) ==> unparsed(dialect, shape(*e)) == Some(text@),
        r is Err ==> unparsed(dialect, shape(*e)) is None,
{
    let sql = match dialect {
        SqlDialect::Postgres => Unparser::new(&PostgreSqlDialect {}).expr_to_sql(e),
        SqlDialect::Default => Unparser::new(&DefaultDialect {}).expr_to_sql(e),
    };
    sql.map(|text| text.to_string())
}

/// The SQL text of an expression, or the fault of one that is not rendered.
pub open spec fn rendered(dialect: SqlDialect, e: ExprShape) -> Result<Seq<char>, Fault> {
    match unparsed(dialect, e) {
        Some(text) => Ok(text),
        None => Err(Fault::DataFusion),
    }
}

/// Why an expression is not handed to the unparser.
pub open spec fn undrawable() -> Fault {
    Fault::Plan("expression holds a value or a subquery without SQL"@)
}

/// Why an expression is not handed to the unparser.
fn undrawable_err() -> (r: PlanError)
    ensures
        r@ == undrawable(),
{
    plan_err("expression holds a value or a subquery without SQL".to_owned())
}

/// The SQL text of any expression: of one that can be handed to the unparser
/// what the unparser makes of it, and a fault of any other.
pub open spec fn drawn(dialect: SqlDialect, e: ExprShape) -> Result<Seq<char>, Fault> {
    if drawable(e, false) {
        rendered(dialect, e)
    } else {
        Err(undrawable())
    }
}

/// The SQL text of a plan expression.
pub open spec fn rendered_ir(dialect: SqlDialect, e: IrExpr) -> Result<Seq<char>, Fault> {
    match translated(e) {
        Ok(s) => rendered(dialect, s),
        Err(f) => Err(f),
    }
}

/// Render an expression in a dialect.
fn render(dialect: SqlDialect, e: &Expr) -> (r: Result<String, PlanError>)
    requires
        drawable(shape(*e), false),
    ensures
        agrees(r, rendered(dialect, shape(*e))),
{
    match unparse(dialect, e) {
        Ok(text) => Ok(text),
        Err(error) => Err(PlanError::DataFusion(error)),
    }
}

/// Whether an expression can be handed to the unparser.
fn draws(e: &Expr) -> (r: bool)
    ensures
        r == drawable(shape(*e), false),
{
    proof {
        lemma_drawable_shape(*e, false);
    }
    can_draw(e, false)
}

/// Render an expression in a dialect, if it can be handed to the unparser.
fn draw(dialect: SqlDialect, e: &Expr) -> (r: Result<String, PlanError>)
    ensures
        agrees(r, drawn(dialect, shape(*e))),
{
    if draws(e) {
        render(dialect, e)
    } else {
        Err(undrawable_err())
    }
}

/// Render an expression in the default dialect, which DataFusion itself parses.
pub fn render_expr(e: &Expr) -> (r: Result<String, PlanError>)
    ensures
        agrees(r, drawn(SqlDialect::Default, shape(*e))),
{
    draw(SqlDialect::Default, e)
}

/// Render a plan expression in the default dialect.
pub fn render_ir(e: &IrExpr) -> (r: Result<String, PlanError>)
    ensures
        agrees(r, rendered_ir(SqlDialect::Default, *e)),
{
    let translated_expr = to_df_expr(e)?;
    render(SqlDialect::Default, &translated_expr)
}

/// Render a filter of the plan in the dialect of its source.
fn render_filter(kind: DsKind, filter: &IrExpr) -> (r: Result<String, PlanError>)
    ensures
        agrees(r, rendered_ir(dialect_of(kind), *filter)),
{
    let translated_filter = to_df_expr(filter)?;
    render(dialect_for(kind), &translated_filter)
}

// Tables and columns.

/// `"schema"."table"`, or `"table"` without a schema.
pub open spec fn qualified(schema: Option<Seq<char>>, table: Seq<char>) -> Seq<char> {
    match schema {
        Some(s) => quoted(s) + seq!['.'] + quoted(table),
        None => quoted(table),
    }
}

/// `"schema"."table" AS "alias"`, without the parts that are absent.
pub open spec fn table_text(
    schema: Option<Seq<char>>,
    table: Seq<char>,
    alias: Option<Seq<char>>,
) -> Seq<char> {
    match alias {
        Some(a) => qualified(schema, table) + " AS "@ + quoted(a),
        None => qualified(schema, table),
    }
}

/// Quote a table reference: `"schema"."table"`, or `"table"` without a schema.
pub fn qualified_table(schema: &Option<String>, table: &str) -> (r: String)
    ensures
        r@ == qualified(opt_text(*schema), table@),
{
    match schema {
        Some(s) => {
            let mut out = quote_ident(s.as_str());
            out.push('.');
            out.append(quote_ident(table).as_str());
            proof {
                assert(out@ =~= qualified(opt_text(*schema), table@));
            }
            out
        },
        None => quote_ident(table),
    }
}

/// A table in a FROM clause: `"schema"."table" AS "alias"`.
pub fn aliased_table(schema: &Option<String>, table: &str, alias: &Option<String>) -> (r: String)
    ensures
        r@ == table_text(opt_text(*schema), table@, opt_text(*alias)),
{
    let mut out = qualified_table(schema, table);
    if let Some(a) = alias {
        out.append(" AS ");
        out.append(quote_ident(a.as_str()).as_str());
    }
    out
}

/// The table of a scan in a FROM clause.
fn table_ref(scan: &ScanSpec, table: &str) -> (r: String)
    ensures
        r@ == table_text(opt_text(scan.schema), table@, opt_text(scan.alias)),
{
    aliased_table(&scan.schema, table, &scan.alias)
}

/// Column names, each quoted, separated by commas.
pub open spec fn column_list(columns: Seq<String>) -> Seq<char> {
    joined(columns.map_values(|c: String| quoted(c@)), ", "@)
}

/// The SELECT column list of a scan.
pub fn select_list_sql(scan: &ScanSpec) -> (r: String)
    ensures
        r@ == column_list(scan.columns@),
{
    let mut parts: Vec<String> = Vec::new();
    for i in 0..scan.columns.len()
        invariant
            parts@.len() == i,
            forall|j: int| 0 <= j < i ==> (#[trigger] parts@[j])@ == quoted(scan.columns@[j]@),
    {
        parts.push(quote_ident(scan.columns[i].as_str()));
    }
    proof {
        assert(texts(parts@) =~= scan.columns@.map_values(|c: String| quoted(c@)));
    }
    join(&parts, ", ")
}

// Scans.

/// `SELECT [DISTINCT] columns FROM table [WHERE condition] [LIMIT n]`.
pub open spec fn select_text(
    scan: ScanSpec,
    table: Seq<char>,
    condition: Option<Seq<char>>,
) -> Seq<char> {
    "SELECT "@ + (if scan.distinct {
        "DISTINCT "@
    } else {
        Seq::empty()
    }) + column_list(scan.columns@) + " FROM "@ + table_text(
        opt_text(scan.schema),
        table,
        opt_text(scan.alias),
    ) + (match condition {
        Some(c) => " WHERE "@ + c,
        None => Seq::empty(),
    }) + (match scan.limit {
        Some(n) => " LIMIT "@ + decimal(n as nat),
        None => Seq::empty(),
    })
}

/// `raw` as a derived table, filtered on its output columns.
pub open spec fn wrapped_text(raw: Seq<char>, condition: Seq<char>) -> Seq<char> {
    "SELECT * FROM ("@ + raw + ") AS \"fedq_probe\" WHERE "@ + condition
}

/// The conjunction of two expressions.
pub open spec fn both(left: ExprShape, right: ExprShape) -> ExprShape {
    ExprShape::Binary { left: Box::new(left), op: Operator::And, right: Box::new(right) }
}

/// The filter of a structured scan: the static filter, the dynamic one, or
/// both.
pub open spec fn combined_filter(scan: ScanSpec, extra: Option<ExprShape>) -> Result<
    Option<ExprShape>,
    Fault,
> {
    match scan.filter {
        None => Ok(extra),
        Some(f) => match translated(f) {
            Err(fault) => Err(fault),
            Ok(s) => match extra {
                Some(x) => Ok(Some(both(s, x))),
                None => Ok(Some(s)),
            },
        },
    }
}

/// The SQL of a scan with `extra` ANDed into its filter, where the filter may
/// be handed to the unparser; a fault in its place where it may not.
pub open spec fn scan_outcome(
    kind: DsKind,
    scan: ScanSpec,
    extra: Option<ExprShape>,
    allowed: bool,
) -> Result<Seq<char>, Fault> {
    match scan.raw_sql {
        Some(raw) => match extra {
            None => Ok(raw@),
            Some(x) => if !allowed {
                Err(undrawable())
            } else {
                match rendered(dialect_of(kind), x) {
                    Ok(condition) => Ok(wrapped_text(raw@, condition)),
                    Err(f) => Err(f),
                }
            },
        },
        None => match scan.table {
            None => Err(Fault::Plan("structured scan needs a 'table'"@)),
            Some(table) => if scan.columns@.len() == 0 {
                Err(Fault::Plan(naming("scan of "@, table@, " has no output columns"@)))
            } else {
                match combined_filter(scan, extra) {
                    Err(f) => Err(f),
                    Ok(None) => Ok(select_text(scan, table@, None)),
                    Ok(Some(filter)) => if !allowed {
                        Err(undrawable())
                    } else {
                        match rendered(dialect_of(kind), filter) {
                            Ok(condition) => Ok(select_text(scan, table@, Some(condition))),
                            Err(f) => Err(f),
                        }
                    },
                }
            },
        },
    }
}

/// The SQL of a scan with `extra` ANDed into its filter.
pub open spec fn scan_text(kind: DsKind, scan: ScanSpec, extra: Option<ExprShape>) -> Result<
    Seq<char>,
    Fault,
> {
    scan_outcome(kind, scan, extra, true)
}

/// The SQL of a scan with any expression ANDed into its filter: with one that
/// cannot be handed to the unparser it is a fault.
pub open spec fn drawn_scan(kind: DsKind, scan: ScanSpec, extra: Option<ExprShape>) -> Result<
    Seq<char>,
    Fault,
> {
    scan_outcome(kind, scan, extra, extra matches Some(x) ==> drawable(x, false))
}

/// The shape of an optional expression.
pub open spec fn maybe_shape(e: Option<Expr>) -> Option<ExprShape> {
    match e {
        Some(x) => Some(shape(x)),
        None => None,
    }
}

/// The query of a structured scan, given its rendered condition.
pub fn select_sql(scan: &ScanSpec, table: &str, condition: &Option<String>) -> (r: String)
    ensures
        r@ == select_text(*scan, table@, opt_text(*condition)),
{
    let mut sql = "SELECT ".to_owned();
    if scan.distinct {
        sql.append("DISTINCT ");
    }
    sql.append(select_list_sql(scan).as_str());
    sql.append(" FROM ");
    sql.append(table_ref(scan, table).as_str());
    if let Some(c) = condition {
        sql.append(" WHERE ");
        sql.append(c.as_str());
    }
    if let Some(n) = scan.limit {
        sql.append(" LIMIT ");
        push_decimal(&mut sql, n as u64);
    }
    proof {
        assert(sql@ =~= select_text(*scan, table@, opt_text(*condition)));
    }
    sql
}

/// A query rendered beforehand, filtered on its output columns.
pub fn wrapped_sql(raw: &str, condition: &str) -> (r: String)
    ensures
        r@ == wrapped_text(raw@, condition@),
{
    let mut sql = "SELECT * FROM (".to_owned();
    sql.append(raw);
    sql.append(") AS \"fedq_probe\" WHERE ");
    sql.append(condition);
    sql
}

/// A query rendered beforehand, filtered by an expression on its output columns.
fn wrapped_raw_sql(kind: DsKind, raw: &str, filter: &Expr) -> (r: Result<String, PlanError>)
    ensures
        agrees(
            r,
            match drawn(dialect_of(kind), shape(*filter)) {
                Ok(condition) => Ok(wrapped_text(raw@, condition)),
                Err(f) => Err(f),
            },
        ),
{
    let condition = draw(dialect_for(kind), filter)?;
    Ok(wrapped_sql(raw, condition.as_str()))
}

/// The conjunction of two expressions.
fn conjunction(left: Expr, right: Expr) -> (r: Expr)
    ensures
        shape(r) == both(shape(left), shape(right)),
        drawable(shape(r), false) == (drawable(shape(left), false) && drawable(
            shape(right),
            false,
        )),
{
    Expr::BinaryExpr(
        BinaryExpr { left: Box::new(left), op: Operator::And, right: Box::new(right) },
    )
}

/// Render a scan to SQL. `extra_filter`, the join keys known only at run time,
/// is ANDed into the condition; SQL rendered beforehand is wrapped as a derived
/// table and filtered on its output columns.
pub fn scan_sql(kind: DsKind, scan: &ScanSpec, extra_filter: Option<Expr>) -> (r: Result<
    String,
    PlanError,
>)
    ensures
        agrees(r, drawn_scan(kind, *scan, maybe_shape(extra_filter))),
{
    if let Some(raw) = &scan.raw_sql {
        return match extra_filter {
            None => Ok(raw.clone()),
            Some(filter) => wrapped_raw_sql(kind, raw.as_str(), &filter),
        };
    }
    match &scan.table {
        None => Err(plan_err("structured scan needs a 'table'".to_owned())),
        Some(table) => {
            if scan.columns.len() == 0 {
                return Err(
                    plan_err(naming_text("scan of ", table.as_str(), " has no output columns")),
                );
            }
            let filter = match &scan.filter {
                None => extra_filter,
                Some(f) => {
                    let fixed = to_df_expr(f)?;
                    match extra_filter {
                        None => Some(fixed),
                        Some(x) => Some(conjunction(fixed, x)),
                    }
                },
            };
            let condition = match &filter {
                None => None,
                Some(f) => Some(draw(dialect_for(kind), f)?),
            };
            Ok(select_sql(scan, table.as_str(), &condition))
        },
    }
}

/// The static filter of a scan as SQL, for a read that leaves out the join keys.
pub fn base_filter_sql(kind: DsKind, scan: &ScanSpec) -> (r: Result<Option<String>, PlanError>)
    ensures
        match r {
            Ok(text) => base_filter(kind, *scan) == Ok::<Option<Seq<char>>, Fault>(opt_text(text)),
            Err(e) => base_filter(kind, *scan) == Err::<Option<Seq<char>>, Fault>(e@),
        },
{
    match &scan.filter {
        Some(f) => {
            let text = render_filter(kind, f)?;
            Ok(Some(text))
        },
        None => Ok(None),
    }
}

/// The static filter of a scan as SQL.
pub open spec fn base_filter(kind: DsKind, scan: ScanSpec) -> Result<Option<Seq<char>>, Fault> {
    match scan.filter {
        None => Ok(None),
        Some(f) => match rendered_ir(dialect_of(kind), f) {
            Ok(text) => Ok(Some(text)),
            Err(fault) => Err(fault),
        },
    }
}

// Scans joined with a table of keys.

/// `"inject" IN (SELECT "key" FROM "temp")`.
pub open spec fn membership_text(
    temp_table: Seq<char>,
    key_col: Seq<char>,
    inject_col: Seq<char>,
) -> Seq<char> {
    quoted(inject_col) + " IN (SELECT "@ + quoted(key_col) + " FROM "@ + quoted(temp_table) + ")"@
}

/// `[condition AND] membership`.
pub open spec fn restricted(condition: Option<Seq<char>>, membership: Seq<char>) -> Seq<char> {
    match condition {
        Some(c) => c + " AND "@ + membership,
        None => membership,
    }
}

/// The SQL of a scan restricted to rows whose `inject_col` stands in a table of
/// keys: the scan's own query, with the membership test in its condition.
pub open spec fn temp_join_text(
    kind: DsKind,
    scan: ScanSpec,
    temp_table: Seq<char>,
    key_col: Seq<char>,
    inject_col: Seq<char>,
) -> Result<Seq<char>, Fault> {
    let membership = membership_text(temp_table, key_col, inject_col);
    match scan.raw_sql {
        Some(raw) => Ok(wrapped_text(raw@, membership)),
        None => match scan.table {
            None => Err(Fault::Plan("temp-join needs a structured table"@)),
            Some(table) => if scan.columns@.len() == 0 {
                Err(Fault::Plan("temp-join scan has no columns"@))
            } else {
                match base_filter(kind, scan) {
                    Err(f) => Err(f),
                    Ok(condition) => Ok(
                        select_text(scan, table@, Some(restricted(condition, membership))),
                    ),
                }
            },
        },
    }
}

/// `"inject" IN (SELECT "key" FROM "temp")`.
fn membership_sql(temp_table: &str, key_col: &str, inject_col: &str) -> (r: String)
    ensures
        r@ == membership_text(temp_table@, key_col@, inject_col@),
{
    let mut out = quote_ident(inject_col);
    out.append(" IN (SELECT ");
    out.append(quote_ident(key_col).as_str());
    out.append(" FROM ");
    out.append(quote_ident(temp_table).as_str());
    out.append(")");
    out
}

/// The condition of a scan, if it has one, and the membership test.
pub fn restricted_sql(condition: &Option<String>, membership: &str) -> (r: String)
    ensures
        r@ == restricted(opt_text(*condition), membership@),
{
    let mut sql = String::new();
    if let Some(c) = condition {
        sql.append(c.as_str());
        sql.append(" AND ");
    }
    sql.append(membership);
    proof {
        assert(sql@ =~= restricted(opt_text(*condition), membership@));
    }
    sql
}

/// Build the temp-table pushdown query: the scan restricted to rows whose
/// `inject_col` appears in the ingested keys. Whether it drops duplicates, and
/// how many rows it may return, stays as the scan says.
pub fn temp_join_sql(
    kind: DsKind,
    scan: &ScanSpec,
    temp_table: &str,
    key_col: &str,
    inject_col: &str,
) -> (r: Result<String, PlanError>)
    ensures
        agrees(r, temp_join_text(kind, *scan, temp_table@, key_col@, inject_col@)),
{
    let membership = membership_sql(temp_table, key_col, inject_col);
    if let Some(raw) = &scan.raw_sql {
        return Ok(wrapped_sql(raw.as_str(), membership.as_str()));
    }
    match &scan.table {
        None => Err(plan_err("temp-join needs a structured table".to_owned())),
        Some(table) => {
            if scan.columns.len() == 0 {
                return Err(plan_err("temp-join scan has no columns".to_owned()));
            }
            let condition = base_filter_sql(kind, scan)?;
            let condition = Some(restricted_sql(&condition, membership.as_str()));
            Ok(select_sql(scan, table.as_str(), &condition))
        },
    }
}

// What the rendered text keeps.

/// SQL rendered beforehand is sent as it stands, whatever the other fields say.
pub proof fn raw_sql_passes_through(kind: DsKind, scan: ScanSpec, raw: String)
    requires
        scan.raw_sql == Some(raw),
    ensures
        scan_text(kind, scan, None) == Ok::<Seq<char>, Fault>(raw@),
{
}

/// Two table references are the same text only for the same schema and table.
pub proof fn qualified_tables_are_distinct(
    schema: Option<Seq<char>>,
    table: Seq<char>,
    other_schema: Option<Seq<char>>,
    other_table: Seq<char>,
)
    requires
        qualified(schema, table) == qualified(other_schema, other_table),
    ensures
        schema == other_schema,
        table == other_table,
{
    let first = match schema {
        Some(s) => (s, seq!['.'] + quoted(table)),
        None => (table, Seq::empty()),
    };
    let second = match other_schema {
        Some(s) => (s, seq!['.'] + quoted(other_table)),
        None => (other_table, Seq::empty()),
    };
    quoted_identifier_reads_back(first.0, first.1);
    quoted_identifier_reads_back(second.0, second.1);
    assert(qualified(schema, table) =~= quoted(first.0) + first.1);
    assert(qualified(other_schema, other_table) =~= quoted(second.0) + second.1);
    if schema is Some && other_schema is Some {
        assert((seq!['.'] + quoted(table)).skip(1) =~= quoted(table));
        assert((seq!['.'] + quoted(other_table)).skip(1) =~= quoted(other_table));
        quoting_is_injective(table, other_table);
    } else if schema is Some {
        assert(first.1.len() > 0);
    } else if other_schema is Some {
        assert(second.1.len() > 0);
    }
}

/// A dynamic filter leaves the query of a structured scan as it is but for the
/// condition: columns, DISTINCT and LIMIT stay. Without a LIMIT it is the query
/// that reads everything, with the condition behind it.
pub proof fn dynamic_filter_only_adds_a_condition(
    kind: DsKind,
    scan: ScanSpec,
    extra: ExprShape,
    condition: Seq<char>,
)
    requires
        scan.raw_sql is None,
        scan.filter is None,
        drawn(dialect_of(kind), extra) == Ok::<Seq<char>, Fault>(condition),
        scan_text(kind, scan, None) is Ok,
    ensures
        ({
            let table = scan.table->0;
            let filtered = select_text(scan, table@, Some(condition));
            &&& scan_text(kind, scan, None) == Ok::<Seq<char>, Fault>(
                select_text(scan, table@, None),
            )
            &&& drawn_scan(kind, scan, Some(extra)) == Ok::<Seq<char>, Fault>(filtered)
            &&& scan.limit is None ==> filtered == select_text(scan, table@, None) + " WHERE "@
                + condition
        }),
{
    let table = scan.table->0;
    if scan.limit is None {
        assert(select_text(scan, table@, None) + " WHERE "@ + condition =~= select_text(
            scan,
            table@,
            Some(condition),
        ));
    }
}

/// Whether a scan can be rendered: SQL rendered beforehand, or a table with
/// columns and a filter that is understood.
pub open spec fn renderable(kind: DsKind, scan: ScanSpec) -> bool {
    scan.raw_sql is Some || (scan.table is Some && scan.columns@.len() > 0 && (match scan.filter {
        Some(f) => rendered_ir(dialect_of(kind), f) is Ok,
        None => true,
    }))
}

/// A scan is rendered exactly when it can be, with its own filter only.
pub proof fn renderable_scans_are_rendered(kind: DsKind, scan: ScanSpec)
    ensures
        scan_text(kind, scan, None) is Ok <==> renderable(kind, scan),
{
}

/// A scan that can be rendered can be joined with a table of keys.
pub proof fn renderable_scans_can_be_joined_with_keys(
    kind: DsKind,
    scan: ScanSpec,
    temp_table: Seq<char>,
    key_col: Seq<char>,
    inject_col: Seq<char>,
)
    ensures
        temp_join_text(kind, scan, temp_table, key_col, inject_col) is Ok <==> renderable(
            kind,
            scan,
        ),
{
}

/// A key join is the scan's own query, restricted. A structured scan and its
/// join differ in the condition alone, where the membership test stands behind
/// the scan's own filter: columns, DISTINCT and LIMIT stay. SQL rendered
/// beforehand is a derived table, filtered by the membership test.
pub proof fn key_join_restricts_the_scan(
    kind: DsKind,
    scan: ScanSpec,
    temp_table: Seq<char>,
    key_col: Seq<char>,
    inject_col: Seq<char>,
)
    requires
        renderable(kind, scan),
    ensures
        ({
            let membership = membership_text(temp_table, key_col, inject_col);
            let join = temp_join_text(kind, scan, temp_table, key_col, inject_col);
            match scan.raw_sql {
                Some(raw) => {
                    &&& scan_text(kind, scan, None) == Ok::<Seq<char>, Fault>(raw@)
                    &&& join == Ok::<Seq<char>, Fault>(wrapped_text(raw@, membership))
                },
                None => {
                    let table = scan.table->0;
                    let filter = base_filter(kind, scan)->Ok_0;
                    &&& scan_text(kind, scan, None) == Ok::<Seq<char>, Fault>(
                        select_text(scan, table@, filter),
                    )
                    &&& join == Ok::<Seq<char>, Fault>(
                        select_text(scan, table@, Some(restricted(filter, membership))),
                    )
                },
            }
        }),
{
}

/// Two column lists are the same text only for the same columns, in the same
/// order.
pub proof fn column_lists_are_distinct(a: Seq<String>, b: Seq<String>)
    requires
        a.len() > 0,
        b.len() > 0,
        column_list(a) == column_list(b),
    ensures
        texts(a) == texts(b),
{
    assert(a.map_values(|c: String| quoted(c@)) =~= texts(a).map_values(|c: Seq<char>| quoted(c)));
    assert(b.map_values(|c: String| quoted(c@)) =~= texts(b).map_values(|c: Seq<char>| quoted(c)));
    lemma_quoted_lists_are_distinct(texts(a), texts(b));
}

/// Names, each quoted, separated by commas.
pub open spec fn quoted_list(names: Seq<Seq<char>>) -> Seq<char> {
    joined(names.map_values(|c: Seq<char>| quoted(c)), ", "@)
}

/// A list of quoted names is its first name and, behind a comma, the others.
proof fn lemma_quoted_list_front(names: Seq<Seq<char>>)
    requires
        names.len() > 0,
    ensures
        quoted_list(names) == quoted(names[0]) + (if names.len() == 1 {
            Seq::empty()
        } else {
            ", "@ + quoted_list(names.skip(1))
        }),
    decreases names.len(),
{
    let parts = names.map_values(|c: Seq<char>| quoted(c));
    if names.len() == 1 {
        assert(quoted_list(names) =~= quoted(names[0]) + Seq::<char>::empty());
    } else {
        let fewer = names.drop_last();
        lemma_quoted_list_front(fewer);
        assert(parts.drop_last() =~= fewer.map_values(|c: Seq<char>| quoted(c)));
        assert(parts.last() == quoted(names.last()));
        let rest = names.skip(1);
        let rest_parts = rest.map_values(|c: Seq<char>| quoted(c));
        if names.len() == 2 {
            assert(quoted_list(rest) == quoted(names[1]));
            assert(quoted_list(fewer) =~= quoted(names[0]));
            assert(quoted_list(names) =~= quoted(names[0]) + (", "@ + quoted_list(rest)));
        } else {
            assert(fewer.skip(1) =~= rest.drop_last());
            assert(rest_parts.drop_last() =~= rest.drop_last().map_values(
                |c: Seq<char>| quoted(c),
            ));
            assert(rest_parts.last() == quoted(names.last()));
            assert(quoted_list(names) =~= quoted(names[0]) + (", "@ + quoted_list(rest)));
        }
    }
}

/// Two lists of quoted names are the same text only for the same names.
proof fn lemma_quoted_lists_are_distinct(a: Seq<Seq<char>>, b: Seq<Seq<char>>)
    requires
        a.len() > 0,
        b.len() > 0,
        quoted_list(a) == quoted_list(b),
    ensures
        a == b,
    decreases a.len(),
{
    reveal_strlit(", ");
    lemma_quoted_list_front(a);
    lemma_quoted_list_front(b);
    let rest_a = if a.len() == 1 {
        Seq::empty()
    } else {
        ", "@ + quoted_list(a.skip(1))
    };
    let rest_b = if b.len() == 1 {
        Seq::empty()
    } else {
        ", "@ + quoted_list(b.skip(1))
    };
    quoted_identifier_reads_back(a[0], rest_a);
    quoted_identifier_reads_back(b[0], rest_b);
    assert(a[0] == b[0] && rest_a == rest_b);
    if a.len() > 1 && b.len() > 1 {
        assert(rest_a.skip(2) =~= quoted_list(a.skip(1)));
        assert(rest_b.skip(2) =~= quoted_list(b.skip(1)));
        lemma_quoted_lists_are_distinct(a.skip(1), b.skip(1));
        assert(a =~= seq![a[0]] + a.skip(1));
        assert(b =~= seq![b[0]] + b.skip(1));
    } else {
        assert(a.len() == 1 && b.len() == 1);
        assert(a =~= b);
    }
}

// What each part of a scan adds to its query.

/// A query reads the scan's columns from the scan's table. A condition stands
/// behind WHERE, a limit behind LIMIT at the end, and DISTINCT before the
/// columns; each is there exactly when the scan says so, and changes nothing
/// else.
pub proof fn queries_are_built_part_by_part(
    scan: ScanSpec,
    table: Seq<char>,
    condition: Option<Seq<char>>,
)
    ensures
        !scan.distinct && scan.limit is None && condition is None ==> select_text(
            scan,
            table,
            condition,
        ) == "SELECT "@ + column_list(scan.columns@) + " FROM "@ + table_text(
            opt_text(scan.schema),
            table,
            opt_text(scan.alias),
        ),
        scan.limit matches Some(n) ==> select_text(scan, table, condition) == select_text(
            (ScanSpec { limit: None, ..scan }),
            table,
            condition,
        ) + " LIMIT "@ + decimal(n as nat),
        scan.limit is None ==> (condition matches Some(c) ==> select_text(scan, table, condition)
            == select_text(scan, table, None) + " WHERE "@ + c),
        scan.distinct ==> {
            let all = select_text((ScanSpec { distinct: false, ..scan }), table, condition);
            let rest = all.skip("SELECT "@.len() as int);
            &&& all == "SELECT "@ + rest
            &&& select_text(scan, table, condition) == "SELECT DISTINCT "@ + rest
        },
{
    if scan.distinct {
        let all = select_text((ScanSpec { distinct: false, ..scan }), table, condition);
        let rest = all.skip("SELECT "@.len() as int);
        reveal_strlit("SELECT ");
        reveal_strlit("DISTINCT ");
        reveal_strlit("SELECT DISTINCT ");
        assert("SELECT "@ + "DISTINCT "@ =~= "SELECT DISTINCT "@);
        assert(all =~= "SELECT "@ + rest);
        assert(select_text(scan, table, condition) =~= "SELECT DISTINCT "@ + rest);
    }
    if let Some(n) = scan.limit {
        assert(select_text(scan, table, condition) =~= select_text(
            (ScanSpec { limit: None, ..scan }),
            table,
            condition,
        ) + " LIMIT "@ + decimal(n as nat));
    } else {
        if let Some(c) = condition {
            assert(select_text(scan, table, condition) =~= select_text(scan, table, None)
                + " WHERE "@ + c);
        }
        if !scan.distinct && condition is None {
            assert(select_text(scan, table, condition) =~= "SELECT "@ + column_list(scan.columns@)
                + " FROM "@ + table_text(opt_text(scan.schema), table, opt_text(scan.alias)));
        }
    }
}

/// A column added to a list stands at its end, quoted; a list of one is that
/// column.
pub proof fn column_lists_grow_at_the_end(columns: Seq<String>, column: String)
    ensures
        column_list(seq![column]) == quoted(column@),
        columns.len() > 0 ==> column_list(columns.push(column)) == column_list(columns) + ", "@
            + quoted(column@),
{
    let quote = |c: String| quoted(c@);
    assert(seq![column].map_values(quote) =~= seq![quoted(column@)]);
    assert(columns.push(column).map_values(quote) =~= columns.map_values(quote).push(
        quoted(column@),
    ));
    joining_adds_part_by_part(columns.map_values(quote), quoted(column@), ", "@);
}

/// A table stands in a query under its schema where it has one, and with its
/// alias where it has one.
pub proof fn tables_are_named_by_their_parts(
    schema: Seq<char>,
    table: Seq<char>,
    alias: Seq<char>,
    any: Option<Seq<char>>,
)
    ensures
        qualified(None, table) == quoted(table),
        qualified(Some(schema), table) == quoted(schema) + "."@ + quoted(table),
        table_text(any, table, None) == qualified(any, table),
        table_text(any, table, Some(alias)) == qualified(any, table) + " AS "@ + quoted(alias),
{
    reveal_strlit(".");
    assert("."@ =~= seq!['.']);
}

/// The condition of a scan's query, in the dialect of the source, is the scan's
/// own filter, the dynamic filter, or both of them joined by AND with the scan's
/// own in front. Nothing else enters the query, and a filter that is not
/// rendered refuses it.
pub proof fn scan_conditions_hold_every_filter(
    kind: DsKind,
    scan: ScanSpec,
    table: String,
    extra: Option<ExprShape>,
)
    requires
        scan.raw_sql is None,
        scan.table == Some(table),
        scan.columns@.len() > 0,
    ensures
        ({
            let dialect = if kind == DsKind::Postgres {
                SqlDialect::Postgres
            } else {
                SqlDialect::Default
            };
            let with = |condition: Result<Seq<char>, Fault>|
                match condition {
                    Ok(c) => Ok::<Seq<char>, Fault>(select_text(scan, table@, Some(c))),
                    Err(f) => Err(f),
                };
            match (scan.filter, extra) {
                (None, None) => scan_text(kind, scan, extra) == Ok::<Seq<char>, Fault>(
                    select_text(scan, table@, None),
                ),
                (Some(f), None) => scan_text(kind, scan, extra) == with(rendered_ir(dialect, f)),
                (None, Some(x)) => scan_text(kind, scan, extra) == with(rendered(dialect, x)),
                (Some(f), Some(x)) => match translated(f) {
                    Ok(s) => scan_text(kind, scan, extra) == with(
                        rendered(
                            dialect,
                            (ExprShape::Binary {
                                left: Box::new(s),
                                op: Operator::And,
                                right: Box::new(x),
                            }),
                        ),
                    ),
                    Err(fault) => scan_text(kind, scan, extra) == Err::<Seq<char>, Fault>(fault),
                },
            }
        }),
{
}

/// A scan without a table, or without columns, has no query; what is wrong is
/// said, and a scan with SQL of its own is not asked for either.
pub proof fn scans_need_a_table_and_columns(
    kind: DsKind,
    scan: ScanSpec,
    extra: Option<ExprShape>,
)
    ensures
        scan.raw_sql is None && scan.table is None ==> scan_text(kind, scan, extra) == Err::<
            Seq<char>,
            Fault,
        >(Fault::Plan("structured scan needs a 'table'"@)),
        scan.raw_sql is None && scan.columns@.len() == 0 ==> (scan.table matches Some(table)
            ==> scan_text(kind, scan, extra) == Err::<Seq<char>, Fault>(
            Fault::Plan("scan of '"@ + table@ + "' has no output columns"@),
        )),
        scan.raw_sql matches Some(raw) ==> (extra matches Some(x) ==> scan_text(kind, scan, extra)
            == match rendered(dialect_of(kind), x) {
            Ok(c) => Ok::<Seq<char>, Fault>(
                "SELECT * FROM ("@ + raw@ + ") AS \"fedq_probe\" WHERE "@ + c,
            ),
            Err(f) => Err(f),
        }),
{
    reveal_strlit("scan of ");
    reveal_strlit("'");
    reveal_strlit(" has no output columns");
    reveal_strlit("scan of '");
    reveal_strlit("' has no output columns");
    if let Some(table) = scan.table {
        assert("scan of "@ + "'"@ + table@ + "'"@ + " has no output columns"@ =~= "scan of '"@
            + table@ + "' has no output columns"@);
    }
}

/// Rendered text is what the unparser writes, all of it and nothing else; what
/// it does not write is a fault.
pub proof fn rendering_is_what_the_unparser_writes(dialect: SqlDialect, e: ExprShape)
    ensures
        rendered(dialect, e) is Ok <==> unparsed(dialect, e) is Some,
        rendered(dialect, e) matches Ok(text) ==> unparsed(dialect, e) == Some(text),
        drawn(dialect, e) is Ok ==> drawn(dialect, e) == rendered(dialect, e),
        drawable(e, false) ==> drawn(dialect, e) == rendered(dialect, e),
        forall|ir: IrExpr|
            #![trigger rendered_ir(dialect, ir)]
            match translated(ir) {
                Ok(s) => rendered_ir(dialect, ir) == rendered(dialect, s),
                Err(f) => rendered_ir(dialect, ir) == Err::<Seq<char>, Fault>(f),
            },
{
}

/// The static filter of a scan is its filter, in the dialect of the source.
pub proof fn static_filter_is_the_scan_filter(kind: DsKind, scan: ScanSpec)
    ensures
        scan.filter is None <==> base_filter(kind, scan) == Ok::<Option<Seq<char>>, Fault>(None),
        scan.filter matches Some(f) ==> match rendered_ir(
            if kind == DsKind::Postgres {
                SqlDialect::Postgres
            } else {
                SqlDialect::Default
            },
            f,
        ) {
            Ok(text) => base_filter(kind, scan) == Ok::<Option<Seq<char>>, Fault>(Some(text)),
            Err(fault) => base_filter(kind, scan) == Err::<Option<Seq<char>>, Fault>(fault),
        },
{
}

/// A key join tests the probe's column against the key column of the table of
/// keys, and keeps the scan's own condition in front of that test.
pub proof fn key_joins_test_the_probe_column(
    temp_table: Seq<char>,
    key_col: Seq<char>,
    inject_col: Seq<char>,
    condition: Seq<char>,
)
    ensures
        ({
            let test = quoted(inject_col) + " IN (SELECT "@ + quoted(key_col) + " FROM "@ + quoted(
                temp_table,
            ) + ")"@;
            &&& restricted(None, membership_text(temp_table, key_col, inject_col)) == test
            &&& restricted(Some(condition), membership_text(temp_table, key_col, inject_col))
                == condition + " AND "@ + test
        }),
{
}

/// A key join is refused where the scan has no table, no columns, or a filter
/// that is not rendered, and says which.
pub proof fn refused_key_joins_say_why(
    kind: DsKind,
    scan: ScanSpec,
    temp_table: Seq<char>,
    key_col: Seq<char>,
    inject_col: Seq<char>,
)
    requires
        scan.raw_sql is None,
    ensures
        ({
            let join = temp_join_text(kind, scan, temp_table, key_col, inject_col);
            &&& scan.table is None ==> join == Err::<Seq<char>, Fault>(
                Fault::Plan("temp-join needs a structured table"@),
            )
            &&& scan.table is Some && scan.columns@.len() == 0 ==> join == Err::<Seq<char>, Fault>(
                Fault::Plan("temp-join scan has no columns"@),
            )
            &&& scan.table is Some && scan.columns@.len() > 0 ==> (base_filter(kind, scan) matches Err(
                fault,
            ) ==> join == Err::<Seq<char>, Fault>(fault))
        }),
{
}

/// A dynamic filter that can be handed to the unparser, or none, changes nothing
/// of the scan's query; one that cannot refuses it, unless the scan is refused
/// already.
pub proof fn dynamic_filters_are_drawn_or_refused(
    kind: DsKind,
    scan: ScanSpec,
    extra: Option<ExprShape>,
)
    ensures
        extra is None ==> drawn_scan(kind, scan, extra) == scan_text(kind, scan, extra),
        extra matches Some(x) ==> (drawable(x, false) ==> drawn_scan(kind, scan, extra) == scan_text(
            kind,
            scan,
            extra,
        )),
        extra matches Some(x) ==> (!drawable(x, false) ==> drawn_scan(kind, scan, extra) is Err),
        extra matches Some(x) ==> (!drawable(x, false) && (scan.raw_sql is Some || (scan.table is Some
            && scan.columns@.len() > 0 && scan.filter is None)) ==> drawn_scan(kind, scan, extra)
            == Err::<Seq<char>, Fault>(undrawable())),
{
}

/// An optional expression shows its shape.
pub proof fn optional_expressions_show_their_shape(e: Option<Expr>)
    ensures
        e matches Some(x) ==> maybe_shape(e) == Some(shape(x)),
        e is None <==> maybe_shape(e) is None,
{
}

} // verus!
