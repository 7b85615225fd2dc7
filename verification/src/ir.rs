//! The execution plan handed over by the planner.
//!
//! Two layers: orchestration steps (`Step`), an ordered list in which every
//! step but the last binds a named intermediate that later steps read by name;
//! and relational fragments (`Fragment`), each of which fully specifies one
//! local operator. Both share one expression language (`IrExpr`).

use vstd::prelude::*;

verus! {

/// The whole plan: the steps and the fragments that `Merge` steps refer to by
/// name. A name stands at most once in `fragments`; where it stands more than
/// once the first one counts.
#[derive(Debug)]
pub struct Ir {
    pub outputs: Vec<String>,
    pub steps: Vec<Step>,
    pub fragments: Vec<(String, Fragment)>,
}

/// One orchestration step.
#[derive(Debug)]
pub enum Step {
    /// Read a source table and bind its result. `materialize` keeps the result
    /// for as long as its name is not bound again, so that more than one
    /// fragment can read it; without it the first fragment that reads the
    /// result consumes it.
    SourceScan { datasource: String, scan: ScanSpec, binding: String, materialize: bool },
    /// Bind the distinct, NULL-free values of one key column of a binding. All
    /// of them are bound: `cap` is the planner's hint of how many are few, and
    /// takes nothing away. How many keys are few enough for a list in the
    /// probe's condition, and how the others reach the source, is decided when
    /// the probe is read.
    CollectDistinct { input: String, key: String, cap: usize, binding: String },
    /// Read a probe source with the collected keys pushed into its SQL.
    /// `inject_column_ndv` is the number of distinct values of the probe
    /// column, where the planner knows it.
    InjectedScan {
        datasource: String,
        scan: ScanSpec,
        inject_column: String,
        keys_from: String,
        binding: String,
        inject_column_ndv: Option<u64>,
    },
    /// Run a fragment over named inputs and bind its result. `inputs` pairs the
    /// fragment's table names with bindings, in the order of the table names.
    Merge { fragment: String, inputs: Vec<(String, String)>, binding: String },
    /// The binding that is the result of the query.
    Return { input: String },
}

/// A source scan: a structured single-table scan, or SQL rendered beforehand.
#[derive(Debug)]
pub struct ScanSpec {
    /// SQL for the whole scan. When set, the structured fields are ignored.
    pub raw_sql: Option<String>,
    pub schema: Option<String>,
    pub table: Option<String>,
    pub alias: Option<String>,
    /// Output columns, in order.
    pub columns: Vec<String>,
    pub filter: Option<IrExpr>,
    pub limit: Option<usize>,
    pub distinct: bool,
    /// Read this scan in partitions over several connections.
    pub parallel: bool,
    /// SQL of the scan with the key filter already placed, reading the keys
    /// from the temporary key table.
    pub injected_sql: Option<String>,
}

/// A single local relational operator.
#[derive(Debug)]
pub enum Fragment {
    /// An equi-join of `in_left` and `in_right` on paired key columns.
    HashJoin {
        join_type: JoinKind,
        left_keys: Vec<String>,
        right_keys: Vec<String>,
        project: Vec<Projection>,
    },
    /// A join of `in_left` and `in_right` on any condition (`None`: all pairs).
    NestedLoopJoin { join_type: JoinKind, condition: Option<IrExpr>, project: Vec<Projection> },
    /// A projection of `in_0`. `distinct` keeps one of each projected row.
    Project { project: Vec<Projection>, distinct: bool },
    /// A GROUP BY over `in_0`, or a grand total when nothing is grouped by.
    Aggregate {
        select: Vec<AggSelectItem>,
        group_by: Vec<IrExpr>,
        /// When not empty, the grouping is `GROUPING SETS (...)`.
        grouping_sets: Vec<Vec<IrExpr>>,
    },
    /// An ORDER BY over `in_0`.
    Sort { keys: Vec<SortKey> },
    /// A boolean filter over `in_0`.
    Filter { predicate: IrExpr },
    /// A LIMIT/OFFSET over `in_0`.
    Limit { limit: Option<usize>, offset: usize },
    /// The cardinality guard of a scalar subquery over `in_0`: at most one row
    /// in total, or, with keys, at most one row for each distinct key tuple.
    SingleRowGuard { keys: Vec<IrExpr> },
    /// SQL rendered beforehand, run over the inputs.
    RawSql { sql: String },
}

/// One ORDER BY key.
#[derive(Debug)]
pub struct SortKey {
    pub expr: IrExpr,
    pub ascending: bool,
    pub nulls_first: bool,
}

/// One output column of an aggregate: an aggregate call or a grouping expression.
#[derive(Debug)]
pub struct AggSelectItem {
    pub expr: Option<IrExpr>,
    pub agg: Option<AggCall>,
    pub alias: String,
}

/// An aggregate function call.
#[derive(Debug)]
pub struct AggCall {
    pub func: String,
    pub distinct: bool,
    /// `count(*)`: no argument, counts rows.
    pub star: bool,
    pub args: Vec<IrExpr>,
    /// The `WITHIN GROUP (ORDER BY ...)` of an ordered-set aggregate.
    pub within_group: Option<WithinGroup>,
}

/// The `WITHIN GROUP (ORDER BY key [DESC])` of an ordered-set aggregate.
#[derive(Debug)]
pub struct WithinGroup {
    pub key: IrExpr,
    pub desc: bool,
}

/// An output column of a fragment: an expression under a result name.
#[derive(Debug)]
pub struct Projection {
    pub expr: IrExpr,
    pub alias: String,
}

/// The kind of a join.
#[derive(Debug, Clone, Copy, PartialEq, Eq, Structural)]
pub enum JoinKind {
    Inner,
    Left,
    Right,
    Full,
    Semi,
    Anti,
}

/// An expression. Columns are already resolved to relation and column names.
#[derive(Debug)]
pub enum IrExpr {
    Column { relation: Option<String>, name: String },
    Literal { value: LiteralValue },
    Binary { op: String, left: Box<IrExpr>, right: Box<IrExpr> },
    Unary { op: String, operand: Box<IrExpr> },
    /// `to` is the name of an Arrow type, such as "int64" or "utf8".
    Cast { expr: Box<IrExpr>, to: String },
    Case { operand: Option<Box<IrExpr>>, whens: Vec<WhenThen>, else_expr: Option<Box<IrExpr>> },
    InList { expr: Box<IrExpr>, list: Vec<IrExpr>, negated: bool },
    IsNull { expr: Box<IrExpr>, negated: bool },
    /// A function call by name, such as `date_part` or `sum`.
    Function { name: String, args: Vec<IrExpr> },
}

/// One branch of a CASE.
#[derive(Debug)]
pub struct WhenThen {
    pub when: IrExpr,
    pub result: IrExpr,
}

/// A typed literal value.
#[derive(Debug, Clone)]
pub enum LiteralValue {
    Int { value: i64 },
    /// A double, by its IEEE 754 bit pattern.
    Float { bits: u64 },
    Str { value: String },
    Bool { value: bool },
    Null,
}

/// A literal as a mathematical value.
pub enum Literal {
    Int(i64),
    Float(u64),
    Str(Seq<char>),
    Bool(bool),
    Null,
}

impl View for LiteralValue {
    type V = Literal;

    open spec fn view(&self) -> Literal {
        match *self {
            LiteralValue::Int { value } => Literal::Int(value),
            LiteralValue::Float { bits } => Literal::Float(bits),
            LiteralValue::Str { value } => Literal::Str(value@),
            LiteralValue::Bool { value } => Literal::Bool(value),
            LiteralValue::Null => Literal::Null,
        }
    }
}

/// The view of an optional text.
pub open spec fn opt_text(t: Option<String>) -> Option<Seq<char>> {
    match t {
        Some(s) => Some(s@),
        None => None,
    }
}

impl Default for ScanSpec {
    /// A scan of nothing: every optional field absent.
    fn default() -> (r: Self)
        ensures
            r.raw_sql is None,
            r.schema is None,
            r.table is None,
            r.alias is None,
            r.columns@.len() == 0,
            r.filter is None,
            r.limit is None,
            !r.distinct,
            !r.parallel,
            r.injected_sql is None,
    {
        ScanSpec {
            raw_sql: None,
            schema: None,
            table: None,
            alias: None,
            columns: Vec::new(),
            filter: None,
            limit: None,
            distinct: false,
            parallel: false,
            injected_sql: None,
        }
    }
}

/// An optional text shows its characters.
pub proof fn optional_texts_show_their_characters(text: Option<String>)
    ensures
        text matches Some(t) ==> opt_text(text) == Some(t@),
        text is None <==> opt_text(text) is None,
{
}

} // verus!
