//! How a source is read, and how join keys known only at run time reach it.
//!
//! Few keys travel as an inline `IN` list. Many keys go into a temporary table
//! at the source, which joins them there, unless the source would return most
//! of the table anyway: then the table is read whole and the join reduces it.

use datafusion::arrow::datatypes::DataType;
use vstd::prelude::*;
use vstd::string::*;

use crate::catalog::{
    duck_stats_text, estimate_selectivity_sql, kind, not_registered, pg_stats_text, DsSpec,
    Registry,
};
use crate::error::{in_engine, EngineError, EngineFault};
use crate::expr::{
    all_cells, bool_scalar, in_list_filter, literal, literal_scalar, membership, plain_keys,
    translated, ExprShape, KeyArray,
};
use crate::ingest::{
    duck_can_ingest, duck_type, dyn_keys_temp_table, key_table, require_key_table,
};
use crate::ir::{opt_text, Literal, LiteralValue, ScanSpec};
use crate::parallel::require_postgres;
use crate::printing::drawable;
use crate::sql::{
    base_filter, base_filter_sql, column_list, drawn_scan, key_joins_test_the_probe_column,
    rendered_ir, scan_conditions_hold_every_filter, scan_sql, scan_text, select_list_sql,
    select_text, temp_join_sql, temp_join_text, unparsed, SqlDialect,
};
use crate::text::quoted;
use crate::types::DsKind;

verus! {

/// Under this many distinct keys the filter is an inline list.
pub const IN_CAP: usize = 2000;

/// Beyond this many keys, putting them into a DuckDB table costs more than
/// reading the probe whole.
pub const DUCK_TEMP_CAP: usize = 2_000_000;

/// The part of a table, in percent, beyond which reading it whole in one stream
/// is cheaper than a semi-join.
pub const FULL_SCAN_PERCENT: u32 = 40;

/// The same for Postgres, whose whole read runs in parallel while a semi-join
/// is tied to one connection.
pub const PG_FULL_SCAN_PERCENT: u32 = 15;

// Reads.

/// What is asked of a source.
#[derive(Debug)]
pub enum Read {
    /// The result of a query.
    Query(String),
    /// The scan's table in page ranges, over several connections.
    Parallel { select_list: String, where_clause: Option<String> },
    /// The result of a query over the scan and a temporary table of the keys.
    KeyJoin(String),
}

/// A read with its texts as characters.
pub enum ReadView {
    Query(Seq<char>),
    Parallel { select_list: Seq<char>, where_clause: Option<Seq<char>> },
    KeyJoin(Seq<char>),
}

impl View for Read {
    type V = ReadView;

    open spec fn view(&self) -> ReadView {
        match *self {
            Read::Query(sql) => ReadView::Query(sql@),
            Read::Parallel { select_list, where_clause } => ReadView::Parallel {
                select_list: select_list@,
                where_clause: opt_text(where_clause),
            },
            Read::KeyJoin(sql) => ReadView::KeyJoin(sql@),
        }
    }
}

/// `outcome` is the expected read, or the expected fault.
pub open spec fn reads(
    outcome: Result<Read, EngineError>,
    expected: Result<ReadView, EngineFault>,
) -> bool {
    match outcome {
        Ok(read) => expected == Ok::<ReadView, EngineFault>(read@),
        Err(e) => expected == Err::<ReadView, EngineFault>(e@),
    }
}

/// The kind of the datasource `name`, or the fault of one that is not registered.
pub open spec fn kind_of(registered: Map<Seq<char>, DsSpec>, name: Seq<char>) -> Result<
    DsKind,
    EngineFault,
> {
    if registered.contains_key(name) {
        Ok(registered[name].kind)
    } else {
        Err(EngineFault::Runtime(not_registered(name)))
    }
}

/// One query for a scan with `extra` ANDed into its filter.
pub open spec fn query_of(kind: DsKind, scan: ScanSpec, extra: Option<ExprShape>) -> Result<
    ReadView,
    EngineFault,
> {
    match scan_text(kind, scan, extra) {
        Ok(sql) => Ok(ReadView::Query(sql)),
        Err(f) => Err(EngineFault::Plan(f)),
    }
}

/// One query for a scan with any expression ANDed into its filter: with one
/// that has no SQL it is a fault.
pub open spec fn drawn_query_of(kind: DsKind, scan: ScanSpec, extra: Option<ExprShape>) -> Result<
    ReadView,
    EngineFault,
> {
    match drawn_scan(kind, scan, extra) {
        Ok(sql) => Ok(ReadView::Query(sql)),
        Err(f) => Err(EngineFault::Plan(f)),
    }
}

/// The table of a structured scan. A scan with SQL of its own has none, whatever
/// its other fields say.
pub open spec fn table_of(scan: ScanSpec) -> Option<Seq<char>> {
    if scan.raw_sql is Some {
        None
    } else {
        opt_text(scan.table)
    }
}

/// The table of a structured scan.
fn structured_table(scan: &ScanSpec) -> (r: Option<&String>)
    ensures
        match r {
            Some(table) => table_of(*scan) == Some(table@),
            None => table_of(*scan) is None,
        },
{
    if scan.raw_sql.is_some() {
        None
    } else {
        scan.table.as_ref()
    }
}

/// A scan's table read in page ranges, with the static filter only.
pub open spec fn parallel_of(kind: DsKind, scan: ScanSpec) -> Result<ReadView, EngineFault> {
    if table_of(scan) is None {
        Err(EngineFault::Runtime("parallel scan needs a structured table"@))
    } else {
        match base_filter(kind, scan) {
            Err(f) => Err(EngineFault::Plan(f)),
            Ok(where_clause) => if kind == DsKind::Postgres {
                Ok(ReadView::Parallel { select_list: column_list(scan.columns@), where_clause })
            } else {
                Err(EngineFault::Runtime("parallel fetch is Postgres-only"@))
            },
        }
    }
}

/// Whether a scan is a plain structured Postgres table read, which page ranges
/// do not change: a DISTINCT or a LIMIT for each range would return other rows,
/// and SQL rendered beforehand is not a table.
pub open spec fn parallelizable(kind: DsKind, scan: ScanSpec) -> bool {
    &&& kind == DsKind::Postgres
    &&& table_of(scan) is Some
    &&& !scan.distinct
    &&& scan.limit is None
}

/// The read of a source scan.
pub open spec fn source_of(
    registered: Map<Seq<char>, DsSpec>,
    datasource: Seq<char>,
    scan: ScanSpec,
) -> Result<ReadView, EngineFault> {
    match kind_of(registered, datasource) {
        Err(f) => Err(f),
        Ok(kind) => if !scan.parallel {
            query_of(kind, scan, None)
        } else if !parallelizable(kind, scan) {
            Err(EngineFault::Runtime("parallel scan spec is not a plain Postgres table read"@))
        } else {
            parallel_of(kind, scan)
        },
    }
}

/// Render a scan to one query.
fn query_read(
    kind: DsKind,
    scan: &ScanSpec,
    extra: Option<datafusion::logical_expr::Expr>,
) -> (r: Result<Read, EngineError>)
    ensures
        reads(r, drawn_query_of(kind, *scan, crate::sql::maybe_shape(extra))),
{
    match scan_sql(kind, scan, extra) {
        Ok(sql) => Ok(Read::Query(sql)),
        Err(e) => Err(EngineError::Plan(e)),
    }
}

/// A whole read of the scan's table in page ranges, with the static filter
/// only; the join that follows does the reduction.
fn parallel_probe_scan(kind: DsKind, scan: &ScanSpec) -> (r: Result<Read, EngineError>)
    ensures
        reads(r, parallel_of(kind, *scan)),
{
    if structured_table(scan).is_none() {
        return Err(EngineError::Runtime("parallel scan needs a structured table".to_owned()));
    }
    let select_list = select_list_sql(scan);
    let where_clause = match base_filter_sql(kind, scan) {
        Ok(text) => text,
        Err(e) => return Err(EngineError::Plan(e)),
    };
    require_postgres(kind)?;
    Ok(Read::Parallel { select_list, where_clause })
}

/// Whether a scan is a plain structured Postgres table read.
fn is_parallelizable(kind: DsKind, scan: &ScanSpec) -> (r: bool)
    ensures
        r == parallelizable(kind, *scan),
{
    kind == DsKind::Postgres && structured_table(scan).is_some() && !scan.distinct
        && scan.limit.is_none()
}

/// A scan marked `parallel` has to be a plain structured Postgres table read;
/// anything else is refused rather than guessed at.
fn require_parallelizable(kind: DsKind, scan: &ScanSpec) -> (r: Result<(), EngineError>)
    ensures
        r is Ok <==> parallelizable(kind, *scan),
        r matches Err(e) ==> e@ == EngineFault::Runtime(
            "parallel scan spec is not a plain Postgres table read"@,
        ),
{
    if is_parallelizable(kind, scan) {
        Ok(())
    } else {
        Err(
            EngineError::Runtime(
                "parallel scan spec is not a plain Postgres table read".to_owned(),
            ),
        )
    }
}

/// The read of a source scan: in page ranges where the planner asks for it, one
/// query otherwise.
pub fn source_read(registry: &Registry, datasource: &str, scan: &ScanSpec) -> (r: Result<
    Read,
    EngineError,
>)
    ensures
        reads(r, source_of(registry@, datasource@, *scan)),
{
    let source_kind = kind(registry, datasource)?;
    if !scan.parallel {
        return query_read(source_kind, scan, None);
    }
    require_parallelizable(source_kind, scan)?;
    parallel_probe_scan(source_kind, scan)
}

// Delivery of join keys.

/// How the keys reach the probe.
#[derive(Clone, Copy, PartialEq, Eq, Debug, Structural)]
pub enum Delivery {
    /// There are no keys: the probe matches nothing.
    MatchNothing,
    /// An inline list in the probe's condition.
    InList,
    /// Not at all: one query reads the probe whole.
    Whole,
    /// Not at all: the probe is read whole in page ranges.
    Parallel,
    /// A temporary table at the source.
    TempTable,
}

/// A delivery, or what has to be asked of the source before one is chosen.
#[derive(Clone, Copy, PartialEq, Eq, Debug, Structural)]
pub enum Decision {
    Deliver(Delivery),
    /// Does the probe column have an index?
    AskIndex,
    /// Would the keys select most of the table?
    AskSelectivity,
}

/// The delivery that reads a probe whole: in page ranges where those return
/// what one query would.
pub open spec fn whole_delivery(kind: DsKind, scan: ScanSpec) -> Delivery {
    if parallelizable(kind, scan) {
        Delivery::Parallel
    } else {
        Delivery::Whole
    }
}

/// The delivery of keys that are too many for a list. `can_ingest` says that a
/// DuckDB table can hold them; `indexed` and `unselective` are the answers of
/// the source, as far as it was asked.
pub open spec fn pushed_delivery(
    kind: DsKind,
    scan: ScanSpec,
    num_keys: int,
    can_ingest: bool,
    indexed: Option<bool>,
    unselective: Option<bool>,
) -> Decision {
    let whole = Decision::Deliver(whole_delivery(kind, scan));
    match kind {
        DsKind::Parquet => whole,
        DsKind::DuckDb => if num_keys > DUCK_TEMP_CAP || !can_ingest {
            whole
        } else if table_of(scan) is None {
            Decision::Deliver(Delivery::TempTable)
        } else {
            match unselective {
                None => Decision::AskSelectivity,
                Some(true) => whole,
                Some(false) => Decision::Deliver(Delivery::TempTable),
            }
        },
        DsKind::Postgres => if table_of(scan) is None {
            Decision::Deliver(Delivery::TempTable)
        } else {
            match indexed {
                None => Decision::AskIndex,
                Some(false) => whole,
                Some(true) => match unselective {
                    None => Decision::AskSelectivity,
                    Some(true) => whole,
                    Some(false) => Decision::Deliver(Delivery::TempTable),
                },
            }
        },
    }
}

/// The delivery of join keys to a probe.
pub open spec fn delivery_of(
    registered: Map<Seq<char>, DsSpec>,
    datasource: Seq<char>,
    scan: ScanSpec,
    num_keys: int,
    key_type: DataType,
    indexed: Option<bool>,
    unselective: Option<bool>,
) -> Result<Decision, EngineFault> {
    if num_keys == 0 {
        Ok(Decision::Deliver(Delivery::MatchNothing))
    } else if num_keys < IN_CAP && scan.injected_sql is None {
        Ok(Decision::Deliver(Delivery::InList))
    } else {
        match kind_of(registered, datasource) {
            Err(f) => Err(f),
            Ok(kind) => Ok(
                pushed_delivery(
                    kind,
                    scan,
                    num_keys,
                    duck_type(key_type) is Some,
                    indexed,
                    unselective,
                ),
            ),
        }
    }
}

/// Choose how the keys reach the probe, or what to ask the source first.
pub fn choose_delivery(
    registry: &Registry,
    datasource: &str,
    scan: &ScanSpec,
    num_keys: usize,
    key_type: &DataType,
    indexed: Option<bool>,
    unselective: Option<bool>,
) -> (r: Result<Decision, EngineError>)
    ensures
        match r {
            Ok(decision) => delivery_of(
                registry@,
                datasource@,
                *scan,
                num_keys as int,
                *key_type,
                indexed,
                unselective,
            ) == Ok::<Decision, EngineFault>(decision),
            Err(e) => delivery_of(
                registry@,
                datasource@,
                *scan,
                num_keys as int,
                *key_type,
                indexed,
                unselective,
            ) == Err::<Decision, EngineFault>(e@),
        },
{
    if num_keys == 0 {
        return Ok(Decision::Deliver(Delivery::MatchNothing));
    }
    if num_keys < IN_CAP && scan.injected_sql.is_none() {
        return Ok(Decision::Deliver(Delivery::InList));
    }
    let source_kind = kind(registry, datasource)?;
    // Parquet is read in process: shipping keys anywhere would be pointless.
    if source_kind == DsKind::Parquet {
        return Ok(Decision::Deliver(Delivery::Whole));
    }
    if source_kind == DsKind::DuckDb && (num_keys > DUCK_TEMP_CAP || !duck_can_ingest(key_type)) {
        return Ok(Decision::Deliver(Delivery::Whole));
    }
    // A subtree rendered beforehand has no catalog entry to ask about.
    if structured_table(scan).is_none() {
        return Ok(Decision::Deliver(Delivery::TempTable));
    }
    // Page ranges would return other rows of a DISTINCT or LIMIT.
    let whole = if is_parallelizable(source_kind, scan) {
        Delivery::Parallel
    } else {
        Delivery::Whole
    };
    // Without an index Postgres would evaluate the semi-join with a full scan.
    if source_kind == DsKind::Postgres {
        match indexed {
            None => return Ok(Decision::AskIndex),
            Some(false) => return Ok(Decision::Deliver(whole)),
            Some(true) => {},
        }
    }
    match unselective {
        None => Ok(Decision::AskSelectivity),
        Some(true) => Ok(Decision::Deliver(whole)),
        Some(false) => Ok(Decision::Deliver(Delivery::TempTable)),
    }
}

/// The read of a probe whose keys are delivered in the given way. `keys` are the
/// key values, `key_col` the name of their column.
pub open spec fn injected_of(
    registered: Map<Seq<char>, DsSpec>,
    datasource: Seq<char>,
    scan: ScanSpec,
    delivery: Delivery,
    keys: Seq<Option<datafusion::common::ScalarValue>>,
    key_col: Seq<char>,
    inject_column: Seq<char>,
) -> Result<ReadView, EngineFault> {
    let kind = kind_of(registered, datasource);
    match delivery {
        Delivery::MatchNothing => match kind {
            Err(f) => Err(f),
            Ok(k) => query_of(
                k,
                scan,
                Some(ExprShape::Literal(literal_scalar(Literal::Bool(false)))),
            ),
        },
        Delivery::InList => match membership(inject_column, keys) {
            Err(f) => Err(EngineFault::Plan(f)),
            Ok(filter) => match kind {
                Err(f) => Err(f),
                Ok(k) => drawn_query_of(k, scan, Some(filter)),
            },
        },
        Delivery::Whole => match kind {
            Err(f) => Err(f),
            Ok(k) => query_of(k, scan, None),
        },
        Delivery::Parallel => match kind {
            Err(f) => Err(f),
            Ok(k) => parallel_of(k, scan),
        },
        Delivery::TempTable => match kind {
            Err(f) => Err(f),
            Ok(k) => key_join_of(k, scan, key_col, inject_column),
        },
    }
}

/// A probe joined with the temporary table of its keys. SQL in which the
/// planner already placed the key filter is preferred.
pub open spec fn key_join_of(
    kind: DsKind,
    scan: ScanSpec,
    key_col: Seq<char>,
    inject_column: Seq<char>,
) -> Result<ReadView, EngineFault> {
    let sql = match scan.injected_sql {
        Some(text) => Ok(text@),
        None => in_engine(temp_join_text(kind, scan, key_table(), key_col, inject_column)),
    };
    match sql {
        Err(f) => Err(f),
        Ok(text) => if kind == DsKind::Parquet {
            Err(EngineFault::Runtime("temp-join pushdown does not apply to in-process Parquet"@))
        } else {
            Ok(ReadView::KeyJoin(text))
        },
    }
}

/// A probe joined with the temporary table of its keys.
fn temp_table_probe(kind: DsKind, scan: &ScanSpec, key_col: &str, inject_column: &str) -> (r: Result<
    Read,
    EngineError,
>)
    ensures
        reads(r, key_join_of(kind, *scan, key_col@, inject_column@)),
{
    let sql = match &scan.injected_sql {
        Some(text) => text.clone(),
        None => match temp_join_sql(kind, scan, dyn_keys_temp_table(), key_col, inject_column) {
            Ok(text) => text,
            Err(e) => return Err(EngineError::Plan(e)),
        },
    };
    require_key_table(kind)?;
    Ok(Read::KeyJoin(sql))
}

/// The read of a probe whose keys are delivered in the given way. Keys of plain
/// types are never refused for want of SQL.
pub fn injected_read(
    registry: &Registry,
    datasource: &str,
    scan: &ScanSpec,
    delivery: Delivery,
    keys: &Vec<KeyArray>,
    key_col: &str,
    inject_column: &str,
) -> (r: Result<Read, EngineError>)
    ensures
        reads(
            r,
            injected_of(
                registry@,
                datasource@,
                *scan,
                delivery,
                all_cells(keys@),
                key_col@,
                inject_column@,
            ),
        ),
        delivery == Delivery::InList && plain_keys(keys@) ==> (membership(
            inject_column@,
            all_cells(keys@),
        ) matches Ok(filter) ==> drawable(filter, false)),
{
    match delivery {
        Delivery::MatchNothing => {
            let nothing = literal(&LiteralValue::Bool { value: false });
            let source_kind = kind(registry, datasource)?;
            query_read(source_kind, scan, Some(nothing))
        },
        Delivery::InList => {
            let filter = match in_list_filter(keys, inject_column) {
                Ok(f) => f,
                Err(e) => return Err(EngineError::Plan(e)),
            };
            let source_kind = kind(registry, datasource)?;
            query_read(source_kind, scan, Some(filter))
        },
        Delivery::Whole => {
            let source_kind = kind(registry, datasource)?;
            query_read(source_kind, scan, None)
        },
        Delivery::Parallel => {
            let source_kind = kind(registry, datasource)?;
            parallel_probe_scan(source_kind, scan)
        },
        Delivery::TempTable => {
            let source_kind = kind(registry, datasource)?;
            temp_table_probe(source_kind, scan, key_col, inject_column)
        },
    }
}

// Selectivity.

/// What the selected part of a table is estimated from.
#[derive(Debug)]
pub enum Basis {
    /// The planner's count of distinct values of the column.
    DistinctValues(u64),
    /// The answer of the source's catalog to a query.
    Catalog(String),
}

/// A basis with its text as characters.
pub enum BasisView {
    DistinctValues(u64),
    Catalog(Seq<char>),
}

impl View for Basis {
    type V = BasisView;

    open spec fn view(&self) -> BasisView {
        match *self {
            Basis::DistinctValues(n) => BasisView::DistinctValues(n),
            Basis::Catalog(sql) => BasisView::Catalog(sql@),
        }
    }
}

/// What the selected part of a probe is estimated from.
pub open spec fn basis_of(
    registered: Map<Seq<char>, DsSpec>,
    datasource: Seq<char>,
    scan: ScanSpec,
    inject_column: Seq<char>,
    distinct_values: Option<u64>,
) -> Result<BasisView, EngineFault> {
    match table_of(scan) {
        None => Err(EngineFault::Runtime("injected scan needs a structured table"@)),
        Some(table) => match kind_of(registered, datasource) {
            Err(f) => Err(f),
            Ok(kind) => if distinct_values matches Some(n) && n > 0 {
                Ok(BasisView::DistinctValues(distinct_values->0))
            } else if kind == DsKind::DuckDb {
                Ok(BasisView::Catalog(duck_stats_text(opt_text(scan.schema), table)))
            } else {
                Ok(
                    BasisView::Catalog(
                        pg_stats_text(opt_text(scan.schema), table, inject_column),
                    ),
                )
            },
        },
    }
}

/// What the selected part of a probe is estimated from: the planner's count of
/// distinct values gives the real fraction, the catalog is asked without it.
pub fn selectivity_basis(
    registry: &Registry,
    datasource: &str,
    scan: &ScanSpec,
    inject_column: &str,
    inject_column_ndv: Option<u64>,
) -> (r: Result<Basis, EngineError>)
    ensures
        match r {
            Ok(basis) => basis_of(
                registry@,
                datasource@,
                *scan,
                inject_column@,
                inject_column_ndv,
            ) == Ok::<BasisView, EngineFault>(basis@),
            Err(e) => basis_of(registry@, datasource@, *scan, inject_column@, inject_column_ndv)
                == Err::<BasisView, EngineFault>(e@),
        },
{
    match structured_table(scan) {
        None => Err(EngineError::Runtime("injected scan needs a structured table".to_owned())),
        Some(table) => {
            let source_kind = kind(registry, datasource)?;
            if let Some(n) = inject_column_ndv {
                if n > 0 {
                    return Ok(Basis::DistinctValues(n));
                }
            }
            Ok(
                Basis::Catalog(
                    estimate_selectivity_sql(
                        source_kind,
                        &scan.schema,
                        table.as_str(),
                        inject_column,
                    ),
                ),
            )
        },
    }
}

/// The part of a table, in percent, beyond which a source reads it whole.
pub fn full_scan_percent(kind: DsKind) -> (r: u32)
    ensures
        r == if kind == DsKind::Postgres {
            PG_FULL_SCAN_PERCENT
        } else {
            FULL_SCAN_PERCENT
        },
{
    if kind == DsKind::Postgres {
        PG_FULL_SCAN_PERCENT
    } else {
        FULL_SCAN_PERCENT
    }
}

// What holds of every choice.

/// Once the source has answered, a delivery is chosen.
pub proof fn answers_settle_the_delivery(
    kind: DsKind,
    scan: ScanSpec,
    num_keys: int,
    can_ingest: bool,
    indexed: bool,
    unselective: bool,
)
    ensures
        pushed_delivery(
            kind,
            scan,
            num_keys,
            can_ingest,
            Some(indexed),
            Some(unselective),
        ) is Deliver,
{
}

/// A delivery chosen without an answer is the one chosen with any answer.
pub proof fn unasked_answers_do_not_matter(
    kind: DsKind,
    scan: ScanSpec,
    num_keys: int,
    can_ingest: bool,
    indexed: Option<bool>,
    unselective: Option<bool>,
)
    ensures
        ({
            let early = pushed_delivery(kind, scan, num_keys, can_ingest, None, None);
            early is Deliver ==> early == pushed_delivery(
                kind,
                scan,
                num_keys,
                can_ingest,
                indexed,
                unselective,
            )
        }),
{
}

/// A probe with SQL of its own is never asked about in the catalog and never
/// read in page ranges, whatever its other fields say; nor is one without a
/// table.
pub proof fn raw_probes_stay_off_the_catalog(
    registered: Map<Seq<char>, DsSpec>,
    datasource: Seq<char>,
    scan: ScanSpec,
    num_keys: int,
    key_type: DataType,
    indexed: Option<bool>,
    unselective: Option<bool>,
)
    requires
        scan.raw_sql is Some || scan.table is None,
        registered.contains_key(datasource),
    ensures
        delivery_of(
            registered,
            datasource,
            scan,
            num_keys,
            key_type,
            indexed,
            unselective,
        ) matches Ok(decision) && decision is Deliver && decision != Decision::Deliver(
            Delivery::Parallel,
        ),
{
}

/// Keys go into a temporary table only where one can hold them: never for
/// Parquet, on DuckDB only within the ceiling and for a type that it takes in.
pub proof fn temp_tables_can_hold_the_keys(
    kind: DsKind,
    scan: ScanSpec,
    num_keys: int,
    can_ingest: bool,
    indexed: Option<bool>,
    unselective: Option<bool>,
)
    requires
        pushed_delivery(kind, scan, num_keys, can_ingest, indexed, unselective)
            == Decision::Deliver(Delivery::TempTable),
    ensures
        kind != DsKind::Parquet,
        kind == DsKind::DuckDb ==> num_keys <= DUCK_TEMP_CAP && can_ingest,
        kind == DsKind::Postgres && table_of(scan) is Some ==> indexed == Some(true),
{
}

/// A probe is only ever read in page ranges where those return what one query
/// would: from a Postgres table, without a DISTINCT, a LIMIT or SQL of its own.
pub proof fn probes_in_page_ranges_are_plain(
    registered: Map<Seq<char>, DsSpec>,
    datasource: Seq<char>,
    scan: ScanSpec,
    num_keys: int,
    key_type: DataType,
    indexed: Option<bool>,
    unselective: Option<bool>,
)
    requires
        delivery_of(
            registered,
            datasource,
            scan,
            num_keys,
            key_type,
            indexed,
            unselective,
        ) == Ok::<Decision, EngineFault>(Decision::Deliver(Delivery::Parallel)),
    ensures
        scan.table is Some,
        scan.raw_sql is None,
        !scan.distinct,
        scan.limit is None,
        registered.contains_key(datasource),
        registered[datasource].kind == DsKind::Postgres,
{
}

/// A scan that is read in page ranges returns what one query would: it has no
/// DISTINCT, no LIMIT and no SQL of its own.
pub proof fn parallel_reads_are_plain(
    registered: Map<Seq<char>, DsSpec>,
    datasource: Seq<char>,
    scan: ScanSpec,
)
    requires
        scan.parallel,
        source_of(registered, datasource, scan) is Ok,
    ensures
        scan.table is Some,
        scan.raw_sql is None,
        !scan.distinct,
        scan.limit is None,
        registered.contains_key(datasource),
        registered[datasource].kind == DsKind::Postgres,
{
}

/// A delivery that was chosen for a registered datasource can be carried out:
/// its read fails only where the plan itself is at fault.
pub proof fn chosen_deliveries_can_be_carried_out(
    registered: Map<Seq<char>, DsSpec>,
    datasource: Seq<char>,
    scan: ScanSpec,
    keys: Seq<Option<datafusion::common::ScalarValue>>,
    key_type: DataType,
    key_col: Seq<char>,
    inject_column: Seq<char>,
    indexed: Option<bool>,
    unselective: Option<bool>,
    delivery: Delivery,
)
    requires
        registered.contains_key(datasource),
        delivery_of(
            registered,
            datasource,
            scan,
            keys.len() as int,
            key_type,
            indexed,
            unselective,
        ) == Ok::<Decision, EngineFault>(Decision::Deliver(delivery)),
    ensures
        injected_of(registered, datasource, scan, delivery, keys, key_col, inject_column) matches Err(
            fault,
        ) ==> fault is Plan,
{
}

/// Few keys, but some, always travel in the probe's own condition, unless the
/// planner already placed the key filter.
pub proof fn few_keys_travel_inline(
    registered: Map<Seq<char>, DsSpec>,
    datasource: Seq<char>,
    scan: ScanSpec,
    num_keys: int,
    key_type: DataType,
    indexed: Option<bool>,
    unselective: Option<bool>,
)
    requires
        0 < num_keys < IN_CAP,
        scan.injected_sql is None,
    ensures
        delivery_of(registered, datasource, scan, num_keys, key_type, indexed, unselective) == Ok::<
            Decision,
            EngineFault,
        >(Decision::Deliver(Delivery::InList)),
{
}

// What a read keeps of its scan.

/// The dialect of a source, told of its kind.
pub open spec fn source_dialect(kind: DsKind) -> SqlDialect {
    if kind == DsKind::Postgres {
        SqlDialect::Postgres
    } else {
        SqlDialect::Default
    }
}

/// Whether a scan reads columns of a table, with no SQL of its own.
pub open spec fn is_structured(scan: ScanSpec) -> bool {
    scan.raw_sql is None && scan.table is Some && scan.columns@.len() > 0
}

/// A read carries a condition on its rows: a query of the scan's columns behind
/// WHERE, a read in page ranges beside it.
pub open spec fn carries(read: ReadView, scan: ScanSpec, condition: Option<Seq<char>>) -> bool {
    match read {
        ReadView::Query(sql) => sql == select_text(scan, scan.table->0@, condition),
        ReadView::Parallel { select_list, where_clause } => select_list == column_list(
            scan.columns@,
        ) && where_clause == condition,
        ReadView::KeyJoin(sql) => false,
    }
}

/// Whatever way a scan is read, its own filter is kept: a read carries the
/// rendering of the scan's filter, and none only where the scan has none. A
/// scan whose filter is not rendered is refused, and so is one whose source is
/// not registered.
pub proof fn source_reads_keep_the_filter(
    registered: Map<Seq<char>, DsSpec>,
    datasource: Seq<char>,
    scan: ScanSpec,
)
    requires
        is_structured(scan),
    ensures
        source_of(registered, datasource, scan) matches Ok(read) ==> {
            &&& registered.contains_key(datasource)
            &&& read is Parallel <==> scan.parallel
            &&& match scan.filter {
                Some(f) => rendered_ir(
                    source_dialect(registered[datasource].kind),
                    f,
                ) matches Ok(text) && carries(read, scan, Some(text)),
                None => carries(read, scan, None),
            }
        },
{
}

/// A scan is refused for want of a source, for a filter that is not rendered,
/// or for being marked `parallel` without being a plain table read of Postgres,
/// and for nothing else.
pub proof fn readable_scans_are_read(
    registered: Map<Seq<char>, DsSpec>,
    datasource: Seq<char>,
    scan: ScanSpec,
)
    requires
        registered.contains_key(datasource),
        is_structured(scan),
        scan.filter matches Some(f) ==> rendered_ir(
            source_dialect(registered[datasource].kind),
            f,
        ) is Ok,
        scan.parallel ==> registered[datasource].kind == DsKind::Postgres && !scan.distinct
            && scan.limit is None,
    ensures
        source_of(registered, datasource, scan) is Ok,
{
}

/// SQL rendered beforehand is sent as it stands, in one query.
pub proof fn raw_scans_are_sent_as_they_stand(
    registered: Map<Seq<char>, DsSpec>,
    datasource: Seq<char>,
    scan: ScanSpec,
    raw: String,
)
    requires
        registered.contains_key(datasource),
        scan.raw_sql == Some(raw),
        !scan.parallel,
    ensures
        source_of(registered, datasource, scan) == Ok::<ReadView, EngineFault>(
            ReadView::Query(raw@),
        ),
{
}

/// A datasource that is not registered is refused by name, whatever is asked of
/// it.
pub proof fn unregistered_sources_are_refused(
    registered: Map<Seq<char>, DsSpec>,
    datasource: Seq<char>,
    scan: ScanSpec,
    delivery: Delivery,
    keys: Seq<Option<datafusion::common::ScalarValue>>,
    key_col: Seq<char>,
    inject_column: Seq<char>,
)
    requires
        !registered.contains_key(datasource),
    ensures
        ({
            let refused = EngineFault::Runtime(
                "datasource "@ + "'"@ + datasource + "'"@ + " is not registered"@,
            );
            &&& source_of(registered, datasource, scan) == Err::<ReadView, EngineFault>(refused)
            &&& injected_of(
                registered,
                datasource,
                scan,
                delivery,
                keys,
                key_col,
                inject_column,
            ) is Err
            &&& delivery != Delivery::InList ==> injected_of(
                registered,
                datasource,
                scan,
                delivery,
                keys,
                key_col,
                inject_column,
            ) == Err::<ReadView, EngineFault>(refused)
        }),
{
}

/// A probe that is read whole is read as a scan of the same source: in one
/// query, or in page ranges where the scan could be marked for them.
pub proof fn whole_probes_are_read_as_scans(
    registered: Map<Seq<char>, DsSpec>,
    datasource: Seq<char>,
    scan: ScanSpec,
    keys: Seq<Option<datafusion::common::ScalarValue>>,
    key_col: Seq<char>,
    inject_column: Seq<char>,
)
    requires
        registered.contains_key(datasource),
    ensures
        injected_of(
            registered,
            datasource,
            scan,
            Delivery::Whole,
            keys,
            key_col,
            inject_column,
        ) == source_of(registered, datasource, (ScanSpec { parallel: false, ..scan })),
        registered[datasource].kind == DsKind::Postgres && scan.raw_sql is None && scan.table is Some
            && !scan.distinct && scan.limit is None ==> injected_of(
            registered,
            datasource,
            scan,
            Delivery::Parallel,
            keys,
            key_col,
            inject_column,
        ) == source_of(registered, datasource, (ScanSpec { parallel: true, ..scan })),
{
    let kind = registered[datasource].kind;
    let plain = ScanSpec { parallel: false, ..scan };
    assert(scan_text(kind, plain, None) == scan_text(kind, scan, None)) by {
        if is_structured(scan) {
            scan_conditions_hold_every_filter(kind, scan, scan.table->0, None);
            scan_conditions_hold_every_filter(kind, plain, scan.table->0, None);
            lemma_parallel_is_not_in_the_text(scan, scan.table->0@, None);
            if let Some(f) = scan.filter {
                if let Ok(c) = rendered_ir(source_dialect(kind), f) {
                    lemma_parallel_is_not_in_the_text(scan, scan.table->0@, Some(c));
                }
            }
        }
    }
}

/// The text of a query does not depend on how it is read.
proof fn lemma_parallel_is_not_in_the_text(
    scan: ScanSpec,
    table: Seq<char>,
    condition: Option<Seq<char>>,
)
    ensures
        select_text((ScanSpec { parallel: false, ..scan }), table, condition) == select_text(
            scan,
            table,
            condition,
        ),
{
}

/// Every delivery keeps the probe's own filter. A probe without keys adds a
/// condition that is false to it; keys in a list add their membership test; a
/// probe read whole, in one query or in page ranges, carries its own filter
/// alone; and a key join has it in front of the membership test, unless the
/// planner wrote the join itself.
pub proof fn deliveries_keep_the_filter(
    registered: Map<Seq<char>, DsSpec>,
    datasource: Seq<char>,
    scan: ScanSpec,
    delivery: Delivery,
    keys: Seq<Option<datafusion::common::ScalarValue>>,
    key_col: Seq<char>,
    inject_column: Seq<char>,
)
    requires
        is_structured(scan),
    ensures
        injected_of(
            registered,
            datasource,
            scan,
            delivery,
            keys,
            key_col,
            inject_column,
        ) matches Ok(read) ==> {
            let dialect = source_dialect(registered[datasource].kind);
            let joined_with = |extra: ExprShape|
                match scan.filter {
                    None => extra,
                    Some(f) => ExprShape::Binary {
                        left: Box::new(translated(f)->Ok_0),
                        op: datafusion::logical_expr::Operator::And,
                        right: Box::new(extra),
                    },
                };
            &&& registered.contains_key(datasource)
            &&& scan.filter matches Some(f) ==> translated(f) is Ok || scan.injected_sql is Some
            &&& match delivery {
                Delivery::MatchNothing => unparsed(
                    dialect,
                    joined_with(ExprShape::Literal(bool_scalar(false))),
                ) matches Some(text) && read is Query && carries(read, scan, Some(text)),
                Delivery::InList => membership(inject_column, keys) matches Ok(filter) && (unparsed(
                    dialect,
                    joined_with(filter),
                ) matches Some(text) && read is Query && carries(read, scan, Some(text))),
                Delivery::Whole => read is Query && (match scan.filter {
                    None => carries(read, scan, None),
                    Some(f) => rendered_ir(dialect, f) matches Ok(text) && carries(
                        read,
                        scan,
                        Some(text),
                    ),
                }),
                Delivery::Parallel => read is Parallel && (match scan.filter {
                    None => carries(read, scan, None),
                    Some(f) => rendered_ir(dialect, f) matches Ok(text) && carries(
                        read,
                        scan,
                        Some(text),
                    ),
                }),
                Delivery::TempTable => read matches ReadView::KeyJoin(sql) && (
                match scan.injected_sql {
                    Some(written) => sql == written@,
                    None => {
                        let test = quoted(inject_column) + " IN (SELECT "@ + quoted(key_col)
                            + " FROM "@ + quoted("fedq_dyn_keys"@) + ")"@;
                        match scan.filter {
                            None => sql == select_text(scan, scan.table->0@, Some(test)),
                            Some(f) => rendered_ir(dialect, f) matches Ok(text) && sql
                                == select_text(
                                scan,
                                scan.table->0@,
                                Some(text + " AND "@ + test),
                            ),
                        }
                    },
                }),
            }
        },
{
    if registered.contains_key(datasource) {
        let kind = registered[datasource].kind;
        let table = scan.table->0;
        let nothing = ExprShape::Literal(bool_scalar(false));
        scan_conditions_hold_every_filter(kind, scan, table, Some(nothing));
        scan_conditions_hold_every_filter(kind, scan, table, None);
        if let Ok(filter) = membership(inject_column, keys) {
            scan_conditions_hold_every_filter(kind, scan, table, Some(filter));
        }
        key_joins_test_the_probe_column(
            "fedq_dyn_keys"@,
            key_col,
            inject_column,
            base_filter(kind, scan)->Ok_0->0,
        );
    }
}

/// How many keys there are, and what the source answered, decide how they are
/// delivered, and the scan and the source decide what stands open to them.
pub proof fn deliveries_are_decided_by_the_keys(
    registered: Map<Seq<char>, DsSpec>,
    datasource: Seq<char>,
    scan: ScanSpec,
    num_keys: int,
    key_type: DataType,
    indexed: Option<bool>,
    unselective: Option<bool>,
)
    requires
        num_keys >= 0,
        registered.contains_key(datasource),
    ensures
        ({
            let decision = delivery_of(
                registered,
                datasource,
                scan,
                num_keys,
                key_type,
                indexed,
                unselective,
            );
            let kind = registered[datasource].kind;
            let has_table = scan.raw_sql is None && scan.table is Some;
            let few = 0 < num_keys < 2000 && scan.injected_sql is None;
            let many = num_keys > 0 && !few;
            let can_hold = kind == DsKind::Postgres || (kind == DsKind::DuckDb && num_keys
                <= 2_000_000 && duck_type(key_type) is Some);
            let unindexed = kind == DsKind::Postgres && indexed == Some(false);
            let asked = kind != DsKind::Postgres || indexed is Some;
            let plain = kind == DsKind::Postgres && has_table && !scan.distinct && scan.limit is None;
            &&& decision matches Ok(d)
            // No keys: nothing matches.
            &&& d == Decision::Deliver(Delivery::MatchNothing) <==> num_keys == 0
            // Few keys: a list.
            &&& d == Decision::Deliver(Delivery::InList) <==> few
            // Many keys, which the source can hold: a table of them, unless the
            // source would read its own table whole anyway.
            &&& d == Decision::Deliver(Delivery::TempTable) <==> many && can_hold && (!has_table || (
            asked && !unindexed && unselective == Some(false)))
            // Otherwise the probe is read whole, in page ranges where those are
            // plain.
            &&& d == Decision::Deliver(Delivery::Parallel) <==> many && plain && (unindexed || (
            indexed == Some(true) && unselective == Some(true)))
            &&& d == Decision::Deliver(Delivery::Whole) <==> many && (!can_hold || (has_table && !plain
                && (unindexed || (asked && unselective == Some(true)))))
            // The source is asked what is not known yet.
            &&& d == Decision::AskIndex <==> many && can_hold && kind == DsKind::Postgres && has_table
                && indexed is None
            &&& d == Decision::AskSelectivity <==> many && can_hold && has_table && asked
                && !unindexed && unselective is None
        }),
{
}

/// The part of a table that keys select is estimated from the planner's count
/// of distinct values where it has one, else from the catalog's entry of the
/// very table and column.
pub proof fn estimates_are_of_the_probe(
    registered: Map<Seq<char>, DsSpec>,
    datasource: Seq<char>,
    scan: ScanSpec,
    inject_column: Seq<char>,
    distinct_values: Option<u64>,
)
    requires
        registered.contains_key(datasource),
        scan.raw_sql is None,
    ensures
        ({
            let basis = basis_of(registered, datasource, scan, inject_column, distinct_values);
            match scan.table {
                None => basis == Err::<BasisView, EngineFault>(
                    EngineFault::Runtime("injected scan needs a structured table"@),
                ),
                Some(table) => match distinct_values {
                    Some(n) if n > 0 => basis == Ok::<BasisView, EngineFault>(
                        BasisView::DistinctValues(n),
                    ),
                    _ => basis == Ok::<BasisView, EngineFault>(
                        BasisView::Catalog(
                            if registered[datasource].kind == DsKind::DuckDb {
                                duck_stats_text(opt_text(scan.schema), table@)
                            } else {
                                pg_stats_text(opt_text(scan.schema), table@, inject_column)
                            },
                        ),
                    ),
                },
            }
        }),
{
}

/// A read shows its texts, and so does a basis.
pub proof fn reads_show_their_texts(read: Read, basis: Basis)
    ensures
        read matches Read::Query(sql) ==> read@ == ReadView::Query(sql@),
        read matches Read::KeyJoin(sql) ==> read@ == ReadView::KeyJoin(sql@),
        read matches Read::Parallel { select_list, where_clause } ==> (
        read@ matches ReadView::Parallel { select_list: shown, where_clause: condition } && shown
            == select_list@ && (match where_clause {
            Some(c) => condition == Some(c@),
            None => condition is None,
        })),
        basis matches Basis::DistinctValues(n) ==> basis@ == BasisView::DistinctValues(n),
        basis matches Basis::Catalog(sql) ==> basis@ == BasisView::Catalog(sql@),
{
}

/// The parts of a table beyond which it is read whole.
pub proof fn whole_reads_start_at_fixed_parts()
    ensures
        PG_FULL_SCAN_PERCENT == 15,
        FULL_SCAN_PERCENT == 40,
        IN_CAP == 2000,
        DUCK_TEMP_CAP == 2_000_000,
{
}

/// A read is what is expected only where it is that read, or that fault.
pub proof fn reads_agree_in_full(
    outcome: Result<Read, EngineError>,
    expected: Result<ReadView, EngineFault>,
)
    requires
        reads(outcome, expected),
    ensures
        outcome is Ok <==> expected is Ok,
        outcome matches Ok(read) ==> expected->Ok_0 == read@,
        outcome matches Err(error) ==> expected->Err_0 == error@,
{
}

/// A delivery that can be made is made: the source is registered, the filters
/// are rendered, and the source takes keys in that way.
pub proof fn deliveries_that_can_be_made_are_made(
    registered: Map<Seq<char>, DsSpec>,
    datasource: Seq<char>,
    scan: ScanSpec,
    delivery: Delivery,
    keys: Seq<Option<datafusion::common::ScalarValue>>,
    key_col: Seq<char>,
    inject_column: Seq<char>,
)
    requires
        is_structured(scan),
        registered.contains_key(datasource),
        scan.filter matches Some(f) ==> rendered_ir(
            source_dialect(registered[datasource].kind),
            f,
        ) is Ok,
        ({
            let dialect = source_dialect(registered[datasource].kind);
            let joined_with = |extra: ExprShape|
                match scan.filter {
                    None => extra,
                    Some(f) => ExprShape::Binary {
                        left: Box::new(translated(f)->Ok_0),
                        op: datafusion::logical_expr::Operator::And,
                        right: Box::new(extra),
                    },
                };
            match delivery {
                Delivery::MatchNothing => unparsed(
                    dialect,
                    joined_with(ExprShape::Literal(bool_scalar(false))),
                ) is Some,
                Delivery::InList => membership(inject_column, keys) matches Ok(filter) && drawable(
                    filter,
                    false,
                ) && unparsed(dialect, joined_with(filter)) is Some,
                Delivery::Whole => true,
                Delivery::Parallel => registered[datasource].kind == DsKind::Postgres,
                Delivery::TempTable => registered[datasource].kind != DsKind::Parquet,
            }
        }),
    ensures
        injected_of(
            registered,
            datasource,
            scan,
            delivery,
            keys,
            key_col,
            inject_column,
        ) is Ok,
{
    let kind = registered[datasource].kind;
    let table = scan.table->0;
    let nothing = ExprShape::Literal(bool_scalar(false));
    scan_conditions_hold_every_filter(kind, scan, table, Some(nothing));
    scan_conditions_hold_every_filter(kind, scan, table, None);
    if let Ok(filter) = membership(inject_column, keys) {
        scan_conditions_hold_every_filter(kind, scan, table, Some(filter));
    }
}

/// A probe with SQL of its own keeps it, whatever way the keys reach it: as it
/// stands, or as a derived table with the keys' condition on its columns. It is
/// never read in page ranges, and Parquet takes no table of keys.
pub proof fn raw_probes_keep_their_sql(
    registered: Map<Seq<char>, DsSpec>,
    datasource: Seq<char>,
    scan: ScanSpec,
    raw: String,
    delivery: Delivery,
    keys: Seq<Option<datafusion::common::ScalarValue>>,
    key_col: Seq<char>,
    inject_column: Seq<char>,
)
    requires
        scan.raw_sql == Some(raw),
    ensures
        injected_of(
            registered,
            datasource,
            scan,
            delivery,
            keys,
            key_col,
            inject_column,
        ) matches Ok(read) ==> {
            let dialect = source_dialect(registered[datasource].kind);
            let filtered = |condition: Seq<char>|
                "SELECT * FROM ("@ + raw@ + ") AS \"fedq_probe\" WHERE "@ + condition;
            &&& registered.contains_key(datasource)
            &&& match delivery {
                Delivery::MatchNothing => unparsed(
                    dialect,
                    ExprShape::Literal(bool_scalar(false)),
                ) matches Some(text) && read == ReadView::Query(filtered(text)),
                Delivery::InList => membership(inject_column, keys) matches Ok(filter) && (unparsed(
                    dialect,
                    filter,
                ) matches Some(text) && read == ReadView::Query(filtered(text))),
                Delivery::Whole => read == ReadView::Query(raw@),
                Delivery::Parallel => false,
                Delivery::TempTable => {
                    &&& registered[datasource].kind != DsKind::Parquet
                    &&& match scan.injected_sql {
                        Some(written) => read == ReadView::KeyJoin(written@),
                        None => read == ReadView::KeyJoin(
                            filtered(
                                quoted(inject_column) + " IN (SELECT "@ + quoted(key_col)
                                    + " FROM "@ + quoted("fedq_dyn_keys"@) + ")"@,
                            ),
                        ),
                    }
                },
            }
        },
{
}

} // verus!
