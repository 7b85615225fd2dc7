//! Datasources by name, and the catalog queries that the engine asks them.

use vstd::prelude::*;
use vstd::string::*;

use crate::error::{EngineError, EngineFault};
use crate::expr::{naming, naming_text};
use crate::ir::opt_text;
use crate::text::{doubled, esc, quoted_text_reads_back, same, unquoted};
use crate::text_map::TextMap;
use crate::types::DsKind;

verus! {

// The registry.

/// The connection parameters of a datasource.
#[derive(Debug)]
pub struct DsSpec {
    pub kind: DsKind,
    /// Postgres: the connection URI. DuckDB: the database file. Parquet: the
    /// directory.
    pub uri: String,
    /// The path of the ADBC driver library, for Postgres.
    pub adbc_driver: Option<String>,
}

impl DsSpec {
    /// The parameters with their texts as characters.
    pub open spec fn parts(self) -> (DsKind, Seq<char>, Option<Seq<char>>) {
        (self.kind, self.uri@, opt_text(self.adbc_driver))
    }

    /// The same parameters again.
    pub fn duplicate(&self) -> (r: DsSpec)
        ensures
            r.parts() == self.parts(),
    {
        let adbc_driver = match &self.adbc_driver {
            Some(path) => Some(path.clone()),
            None => None,
        };
        DsSpec { kind: self.kind, uri: self.uri.clone(), adbc_driver }
    }

    /// The ADBC driver that a Postgres connection is opened with.
    pub fn driver_path(&self) -> (r: Result<&String, EngineError>)
        ensures
            match r {
                Ok(path) => self.adbc_driver == Some(*path),
                Err(e) => self.adbc_driver is None && e@ == EngineFault::Runtime(
                    "postgres datasource requires an 'adbc_driver' path"@,
                ),
            },
    {
        match &self.adbc_driver {
            Some(path) => Ok(path),
            None => Err(
                EngineError::Runtime("postgres datasource requires an 'adbc_driver' path".to_owned()),
            ),
        }
    }
}

/// The registered datasources.
pub struct Registry {
    entries: TextMap<DsSpec>,
}

impl View for Registry {
    type V = Map<Seq<char>, DsSpec>;

    closed spec fn view(&self) -> Map<Seq<char>, DsSpec> {
        self.entries@
    }
}

/// The message for a datasource that nobody registered.
pub open spec fn not_registered(name: Seq<char>) -> Seq<char> {
    naming("datasource "@, name, " is not registered"@)
}

/// No datasources.
pub fn registry() -> (r: Registry)
    ensures
        r@ == Map::<Seq<char>, DsSpec>::empty(),
{
    Registry { entries: TextMap::new() }
}

/// Register a datasource under `name`, replacing an earlier one.
pub fn register(registry: &mut Registry, name: String, params: DsSpec)
    ensures
        final(registry)@ == old(registry)@.insert(name@, params),
{
    registry.entries.insert(name, params);
}

/// The parameters of a registered datasource.
pub fn datasource_spec<'a>(registry: &'a Registry, name: &str) -> (r: Result<&'a DsSpec, EngineError>)
    ensures
        match r {
            Ok(s) => registry@.contains_key(name@) && *s == registry@[name@],
            Err(e) => !registry@.contains_key(name@) && e@ == EngineFault::Runtime(
                not_registered(name@),
            ),
        },
{
    match registry.entries.get(name) {
        Some(s) => Ok(s),
        None => Err(EngineError::Runtime(naming_text("datasource ", name, " is not registered"))),
    }
}

/// The kind of a registered datasource.
pub fn kind(registry: &Registry, name: &str) -> (r: Result<DsKind, EngineError>)
    ensures
        match r {
            Ok(k) => registry@.contains_key(name@) && k == registry@[name@].kind,
            Err(e) => !registry@.contains_key(name@) && e@ == EngineFault::Runtime(
                not_registered(name@),
            ),
        },
{
    let s = datasource_spec(registry, name)?;
    Ok(s.kind)
}

/// A datasource that was registered is found with the parameters it was last
/// registered with, and no other datasource is changed by it.
pub proof fn registered_datasource_is_found(
    registered: Map<Seq<char>, DsSpec>,
    name: Seq<char>,
    params: DsSpec,
    other: Seq<char>,
)
    ensures
        registered.insert(name, params).contains_key(name),
        registered.insert(name, params)[name] == params,
        other != name ==> registered.insert(name, params).contains_key(other)
            == registered.contains_key(other),
        other != name && registered.contains_key(other) ==> registered.insert(name, params)[other]
            == registered[other],
{
}

// Registration parameters.

/// The text under `key`: absent, present, or present but not text.
pub open spec fn param(params: Map<Seq<char>, Option<String>>, key: Seq<char>) -> Result<
    Option<Seq<char>>,
    EngineFault,
> {
    if params.contains_key(key) {
        match params[key] {
            Some(text) => Ok(Some(text@)),
            None => Err(EngineFault::NotText(key)),
        }
    } else {
        Ok(None)
    }
}

/// The text under `key`, which has to be there.
pub open spec fn needed(
    params: Map<Seq<char>, Option<String>>,
    key: Seq<char>,
    missing: Seq<char>,
) -> Result<Seq<char>, EngineFault> {
    match param(params, key) {
        Err(f) => Err(f),
        Ok(Some(text)) => Ok(text),
        Ok(None) => Err(EngineFault::Value(missing)),
    }
}

/// The datasource that a kind and its parameters describe.
pub open spec fn described(kind: Seq<char>, params: Map<Seq<char>, Option<String>>) -> Result<
    (DsKind, Seq<char>, Option<Seq<char>>),
    EngineFault,
> {
    if kind == "postgres"@ || kind == "postgresql"@ {
        match needed(params, "uri"@, "postgres datasource needs 'uri'"@) {
            Err(f) => Err(f),
            Ok(uri) => match param(params, "adbc_driver"@) {
                Err(f) => Err(f),
                Ok(driver) => Ok((DsKind::Postgres, uri, driver)),
            },
        }
    } else if kind == "duckdb"@ {
        match needed(params, "path"@, "duckdb datasource needs 'path'"@) {
            Err(f) => Err(f),
            Ok(path) => Ok((DsKind::DuckDb, path, None)),
        }
    } else if kind == "parquet"@ {
        match needed(params, "dir"@, "parquet datasource needs 'dir'"@) {
            Err(f) => Err(f),
            Ok(dir) => Ok((DsKind::Parquet, dir, None)),
        }
    } else {
        Err(EngineFault::Value(naming("unknown datasource kind "@, kind, ""@)))
    }
}

/// The text under `key` of registration parameters.
fn get_param(params: &TextMap<Option<String>>, key: &str) -> (r: Result<
    Option<String>,
    EngineError,
>)
    ensures
        match r {
            Ok(text) => param(params@, key@) == Ok::<Option<Seq<char>>, EngineFault>(
                opt_text(text),
            ),
            Err(e) => param(params@, key@) == Err::<Option<Seq<char>>, EngineFault>(e@),
        },
{
    match params.get(key) {
        None => Ok(None),
        Some(Some(text)) => Ok(Some(text.clone())),
        Some(None) => Err(EngineError::NotText(key.to_owned())),
    }
}

/// The text under `key` of registration parameters, which has to be there.
fn need_param(params: &TextMap<Option<String>>, key: &str, missing: &str) -> (r: Result<
    String,
    EngineError,
>)
    ensures
        match r {
            Ok(text) => needed(params@, key@, missing@) == Ok::<Seq<char>, EngineFault>(text@),
            Err(e) => needed(params@, key@, missing@) == Err::<Seq<char>, EngineFault>(e@),
        },
{
    match get_param(params, key)? {
        Some(text) => Ok(text),
        None => Err(EngineError::Value(missing.to_owned())),
    }
}

/// Read the parameters of a datasource. A parameter that is present but is not
/// text stands in `params` without a value.
pub fn spec_from_params(kind: &str, params: &TextMap<Option<String>>) -> (r: Result<
    DsSpec,
    EngineError,
>)
    ensures
        match r {
            Ok(s) => described(kind@, params@) == Ok::<
                (DsKind, Seq<char>, Option<Seq<char>>),
                EngineFault,
            >(s.parts()),
            Err(e) => described(kind@, params@) == Err::<
                (DsKind, Seq<char>, Option<Seq<char>>),
                EngineFault,
            >(e@),
        },
{
    if same(kind, "postgres") || same(kind, "postgresql") {
        let uri = need_param(params, "uri", "postgres datasource needs 'uri'")?;
        let adbc_driver = get_param(params, "adbc_driver")?;
        Ok(DsSpec { kind: DsKind::Postgres, uri, adbc_driver })
    } else if same(kind, "duckdb") {
        let uri = need_param(params, "path", "duckdb datasource needs 'path'")?;
        Ok(DsSpec { kind: DsKind::DuckDb, uri, adbc_driver: None })
    } else if same(kind, "parquet") {
        let uri = need_param(params, "dir", "parquet datasource needs 'dir'")?;
        Ok(DsSpec { kind: DsKind::Parquet, uri, adbc_driver: None })
    } else {
        Err(EngineError::Value(naming_text("unknown datasource kind ", kind, "")))
    }
}

// Catalog queries.

/// `lead'value'`, with single quotes in the value doubled.
pub open spec fn equals(lead: Seq<char>, value: Seq<char>) -> Seq<char> {
    lead + "'"@ + doubled(value, '\'') + "'"@
}

/// `lead'value'`, with single quotes in the value doubled.
fn equals_sql(lead: &str, value: &str) -> (r: String)
    ensures
        r@ == equals(lead@, value@),
{
    let mut out = lead.to_owned();
    out.append("'");
    out.append(esc(value).as_str());
    out.append("'");
    out
}

/// A condition on a table name and, where one is given, its schema name.
pub open spec fn named_table(
    table_lead: Seq<char>,
    table: Seq<char>,
    schema_lead: Seq<char>,
    schema: Option<Seq<char>>,
) -> Seq<char> {
    match schema {
        Some(s) => equals(table_lead, table) + " AND "@ + equals(schema_lead, s),
        None => equals(table_lead, table),
    }
}

/// A condition on a table name and, where one is given, its schema name.
fn named_table_sql(
    table_lead: &str,
    table: &str,
    schema_lead: &str,
    schema: &Option<String>,
) -> (r: String)
    ensures
        r@ == named_table(table_lead@, table@, schema_lead@, opt_text(*schema)),
{
    let mut out = equals_sql(table_lead, table);
    if let Some(s) = schema {
        out.append(" AND ");
        out.append(equals_sql(schema_lead, s.as_str()).as_str());
    }
    out
}

/// The query for the heap page count of a table.
pub open spec fn relpages_text(schema: Option<Seq<char>>, table: Seq<char>) -> Seq<char> {
    "SELECT c.relpages::bigint FROM pg_class c JOIN pg_namespace n ON n.oid = c.relnamespace WHERE "@
        + named_table("c.relname = "@, table, "n.nspname = "@, schema)
}

/// The query for the heap page count of a table.
pub fn relpages_sql(schema: &Option<String>, table: &str) -> (r: String)
    ensures
        r@ == relpages_text(opt_text(*schema), table@),
{
    let mut sql =
        "SELECT c.relpages::bigint FROM pg_class c JOIN pg_namespace n ON n.oid = c.relnamespace WHERE ".to_owned();
    sql.append(named_table_sql("c.relname = ", table, "n.nspname = ", schema).as_str());
    sql
}

/// The page count that the answer to the page-count query gives. `first` is the
/// first value of the answer: absent when the answer has no rows.
pub open spec fn pages_of(first: Option<i64>, table: Seq<char>) -> Result<int, EngineFault> {
    match first {
        Some(n) => if n < 0 {
            Ok(0)
        } else {
            Ok(n as int % 0x1_0000_0000)
        },
        None => Err(EngineFault::Runtime(naming("table "@, table, " not found for relpages"@))),
    }
}

/// The page count that the answer to the page-count query gives: negative
/// counts are none, larger ones are taken as 32-bit numbers.
pub fn relpages(first: Option<i64>, table: &str) -> (r: Result<u32, EngineError>)
    ensures
        match r {
            Ok(pages) => pages_of(first, table@) == Ok::<int, EngineFault>(pages as int),
            Err(e) => pages_of(first, table@) == Err::<int, EngineFault>(e@),
        },
{
    match first {
        Some(n) => {
            let count: u64 = if n < 0 {
                0
            } else {
                n as u64
            };
            Ok((count % 0x1_0000_0000) as u32)
        },
        None => Err(
            EngineError::Runtime(naming_text("table ", table, " not found for relpages")),
        ),
    }
}

/// The query for the statistics of a Postgres column.
pub open spec fn pg_stats_text(
    schema: Option<Seq<char>>,
    table: Seq<char>,
    column: Seq<char>,
) -> Seq<char> {
    "SELECT c.reltuples::float8, s.n_distinct::float8 FROM pg_class c JOIN pg_namespace n ON n.oid=c.relnamespace LEFT JOIN pg_stats s ON s.schemaname=n.nspname AND s.tablename=c.relname AND "@
        + equals("s.attname="@, column) + " WHERE "@ + named_table(
        "c.relname="@,
        table,
        "n.nspname="@,
        schema,
    )
}

/// The query for the estimated row count of a DuckDB table.
pub open spec fn duck_stats_text(schema: Option<Seq<char>>, table: Seq<char>) -> Seq<char> {
    "SELECT estimated_size::DOUBLE FROM duckdb_tables() WHERE "@ + named_table(
        "table_name="@,
        table,
        "schema_name="@,
        schema,
    )
}

/// The query that tells how selective a key filter on a column is: row count
/// and distinct values on Postgres, the row count on DuckDB.
pub fn estimate_selectivity_sql(
    kind: DsKind,
    schema: &Option<String>,
    table: &str,
    column: &str,
) -> (r: String)
    ensures
        r@ == if kind == DsKind::DuckDb {
            duck_stats_text(opt_text(*schema), table@)
        } else {
            pg_stats_text(opt_text(*schema), table@, column@)
        },
{
    if kind == DsKind::DuckDb {
        let mut sql = "SELECT estimated_size::DOUBLE FROM duckdb_tables() WHERE ".to_owned();
        sql.append(named_table_sql("table_name=", table, "schema_name=", schema).as_str());
        return sql;
    }
    let mut sql =
        "SELECT c.reltuples::float8, s.n_distinct::float8 FROM pg_class c JOIN pg_namespace n ON n.oid=c.relnamespace LEFT JOIN pg_stats s ON s.schemaname=n.nspname AND s.tablename=c.relname AND ".to_owned();
    sql.append(equals_sql("s.attname=", column).as_str());
    sql.append(" WHERE ");
    sql.append(named_table_sql("c.relname=", table, "n.nspname=", schema).as_str());
    sql
}

/// The query for an index whose leading key is a column.
pub open spec fn column_index_text(
    schema: Option<Seq<char>>,
    table: Seq<char>,
    column: Seq<char>,
) -> Seq<char> {
    "SELECT 1 FROM pg_index i JOIN pg_class c ON c.oid=i.indrelid JOIN pg_namespace n ON n.oid=c.relnamespace JOIN pg_attribute a ON a.attrelid=c.oid AND a.attnum=i.indkey[0] WHERE "@
        + named_table("c.relname="@, table, "n.nspname="@, schema) + " AND "@ + equals(
        "a.attname="@,
        column,
    ) + " LIMIT 1"@
}

/// The query for an index whose leading key is a column. The column has one
/// when the query returns a row.
pub fn pg_column_indexed_sql(schema: &Option<String>, table: &str, column: &str) -> (r: String)
    ensures
        r@ == column_index_text(opt_text(*schema), table@, column@),
{
    let mut sql =
        "SELECT 1 FROM pg_index i JOIN pg_class c ON c.oid=i.indrelid JOIN pg_namespace n ON n.oid=c.relnamespace JOIN pg_attribute a ON a.attrelid=c.oid AND a.attnum=i.indkey[0] WHERE ".to_owned();
    sql.append(named_table_sql("c.relname=", table, "n.nspname=", schema).as_str());
    sql.append(" AND ");
    sql.append(equals_sql("a.attname=", column).as_str());
    sql.append(" LIMIT 1");
    sql
}

/// The name under which it is remembered whether a column has an index. The
/// parts are separated by a character that names do not hold.
pub open spec fn index_key_text(
    name: Seq<char>,
    schema: Option<Seq<char>>,
    table: Seq<char>,
    column: Seq<char>,
) -> Seq<char> {
    let separator = "\u{1}"@;
    name + separator + (match schema {
        Some(s) => s,
        None => Seq::empty(),
    }) + separator + table + separator + column
}

/// The name under which it is remembered whether a column has an index.
pub fn index_key(name: &str, schema: &Option<String>, table: &str, column: &str) -> (r: String)
    ensures
        r@ == index_key_text(name@, opt_text(*schema), table@, column@),
{
    let mut key = name.to_owned();
    key.append("\u{1}");
    if let Some(s) = schema {
        key.append(s.as_str());
    }
    key.append("\u{1}");
    key.append(table);
    key.append("\u{1}");
    key.append(column);
    proof {
        assert(key@ =~= index_key_text(name@, opt_text(*schema), table@, column@));
    }
    key
}

// Parquet directories.

/// The table that a file of a Parquet directory holds, by the file's name:
/// what stands before `.parquet`, unless nothing does.
pub fn parquet_table(file_name: &str) -> (r: Option<String>)
    ensures
        match r {
            Some(table) => table@.len() > 0 && file_name@ == table@ + ".parquet"@,
            None => forall|table: Seq<char>|
                table.len() > 0 ==> file_name@ != #[trigger] (table + ".parquet"@),
        },
{
    let len: usize = file_name.unicode_len();
    let suffix: usize = ".parquet".unicode_len();
    if len > suffix {
        let cut: usize = len - suffix;
        let tail = file_name.substring_char(cut, len);
        if same(tail, ".parquet") {
            let table = file_name.substring_char(0, cut).to_owned();
            proof {
                assert(file_name@ =~= table@ + ".parquet"@);
            }
            return Some(table);
        }
        proof {
            assert forall|table: Seq<char>| table.len() > 0 implies file_name@
                != #[trigger] (table + ".parquet"@) by {
                if file_name@ == table + ".parquet"@ {
                    assert(tail@ =~= ".parquet"@);
                }
            }
        }
    }
    None
}

// What a catalog query asks for.

/// A text between single quotes, with those inside doubled.
pub open spec fn sql_text(s: Seq<char>) -> Seq<char> {
    seq!['\''] + doubled(s, '\'') + seq!['\'']
}

/// A catalog query asks for the table of the given name, and where a schema is
/// given for the table of that schema only; one about a column asks for that
/// column. Names are written as texts with their quotes doubled.
pub proof fn catalog_queries_ask_for_the_table(
    schema: Seq<char>,
    table: Seq<char>,
    column: Seq<char>,
)
    ensures
        ({
            let pages = relpages_text(None, table);
            let rows = duck_stats_text(None, table);
            let stats = pg_stats_text(None, table, column);
            let index_head =
                "SELECT 1 FROM pg_index i JOIN pg_class c ON c.oid=i.indrelid JOIN pg_namespace n ON n.oid=c.relnamespace JOIN pg_attribute a ON a.attrelid=c.oid AND a.attnum=i.indkey[0] WHERE "@
                + "c.relname="@ + sql_text(table);
            let index_tail = " AND "@ + "a.attname="@ + sql_text(column) + " LIMIT 1"@;
            // A schema adds a condition on its name.
            &&& relpages_text(Some(schema), table) == pages + " AND "@ + "n.nspname = "@ + sql_text(
                schema,
            )
            &&& duck_stats_text(Some(schema), table) == rows + " AND "@ + "schema_name="@ + sql_text(
                schema,
            )
            &&& pg_stats_text(Some(schema), table, column) == stats + " AND "@ + "n.nspname="@
                + sql_text(schema)
            &&& column_index_text(Some(schema), table, column) == index_head + " AND "@
                + "n.nspname="@ + sql_text(schema) + index_tail
            // The table, and the column, is the one of the given name.
            &&& column_index_text(None, table, column) == index_head + index_tail
            &&& pages
                == "SELECT c.relpages::bigint FROM pg_class c JOIN pg_namespace n ON n.oid = c.relnamespace WHERE "@
                + "c.relname = "@ + sql_text(table)
            &&& rows == "SELECT estimated_size::DOUBLE FROM duckdb_tables() WHERE "@
                + "table_name="@ + sql_text(table)
            &&& stats
                == "SELECT c.reltuples::float8, s.n_distinct::float8 FROM pg_class c JOIN pg_namespace n ON n.oid=c.relnamespace LEFT JOIN pg_stats s ON s.schemaname=n.nspname AND s.tablename=c.relname AND "@
                + "s.attname="@ + sql_text(column) + " WHERE "@ + "c.relname="@ + sql_text(table)
        }),
{
    reveal_strlit("'");
    assert("'"@ =~= seq!['\'']);
    assert forall|lead: Seq<char>, s: Seq<char>| #[trigger] equals(lead, s) == lead + sql_text(
        s,
    ) by {
        assert(equals(lead, s) =~= lead + sql_text(s));
    }
    let index_head =
        "SELECT 1 FROM pg_index i JOIN pg_class c ON c.oid=i.indrelid JOIN pg_namespace n ON n.oid=c.relnamespace JOIN pg_attribute a ON a.attrelid=c.oid AND a.attnum=i.indkey[0] WHERE "@
        + "c.relname="@ + sql_text(table);
    let index_tail = " AND "@ + "a.attname="@ + sql_text(column) + " LIMIT 1"@;
    assert(relpages_text(Some(schema), table) =~= relpages_text(None, table) + " AND "@
        + "n.nspname = "@ + sql_text(schema));
    assert(duck_stats_text(Some(schema), table) =~= duck_stats_text(None, table) + " AND "@
        + "schema_name="@ + sql_text(schema));
    assert(pg_stats_text(Some(schema), table, column) =~= pg_stats_text(None, table, column)
        + " AND "@ + "n.nspname="@ + sql_text(schema));
    assert(column_index_text(Some(schema), table, column) =~= index_head + " AND "@ + "n.nspname="@
        + sql_text(schema) + index_tail);
    assert(column_index_text(None, table, column) =~= index_head + index_tail);
    assert(relpages_text(None, table)
        =~= "SELECT c.relpages::bigint FROM pg_class c JOIN pg_namespace n ON n.oid = c.relnamespace WHERE "@
        + "c.relname = "@ + sql_text(table));
    assert(duck_stats_text(None, table)
        =~= "SELECT estimated_size::DOUBLE FROM duckdb_tables() WHERE "@ + "table_name="@
        + sql_text(table));
    assert(pg_stats_text(None, table, column)
        =~= "SELECT c.reltuples::float8, s.n_distinct::float8 FROM pg_class c JOIN pg_namespace n ON n.oid=c.relnamespace LEFT JOIN pg_stats s ON s.schemaname=n.nspname AND s.tablename=c.relname AND "@
        + "s.attname="@ + sql_text(column) + " WHERE "@ + "c.relname="@ + sql_text(table));
}

/// A name in a catalog query reads back, whatever characters it holds, when no
/// quote follows it.
pub proof fn catalog_names_read_back(name: Seq<char>, rest: Seq<char>)
    requires
        rest.len() == 0 || rest[0] != '\'',
    ensures
        unquoted((sql_text(name) + rest).skip(1), '\'') == Some((name, rest)),
{
    quoted_text_reads_back(name, rest, '\'');
    assert((sql_text(name) + rest).skip(1) =~= doubled(name, '\'') + seq!['\''] + rest);
}

/// A datasource is of the kind that it is registered as, at the place that its
/// parameters name; only Postgres has a driver, and only where one is named.
/// What is missing, and what is no text, is refused and named.
pub proof fn datasources_are_as_described(
    kind: Seq<char>,
    params: Map<Seq<char>, Option<String>>,
)
    ensures
        ({
            let is_postgres = kind == "postgres"@ || kind == "postgresql"@;
            let place = if is_postgres {
                "uri"@
            } else if kind == "duckdb"@ {
                "path"@
            } else {
                "dir"@
            };
            let known = is_postgres || kind == "duckdb"@ || kind == "parquet"@;
            match described(kind, params) {
                Ok((described_kind, uri, driver)) => {
                    &&& known
                    &&& described_kind == if is_postgres {
                        DsKind::Postgres
                    } else if kind == "duckdb"@ {
                        DsKind::DuckDb
                    } else {
                        DsKind::Parquet
                    }
                    &&& params.contains_key(place) && (params[place] matches Some(text) && text@
                        == uri)
                    &&& driver matches Some(path) ==> is_postgres && params.contains_key(
                        "adbc_driver"@,
                    ) && (params["adbc_driver"@] matches Some(text) && text@ == path)
                    &&& is_postgres && params.contains_key("adbc_driver"@) ==> driver is Some
                },
                Err(EngineFault::NotText(key)) => known && (key == place || (is_postgres && key
                    == "adbc_driver"@)) && params.contains_key(key) && params[key] is None,
                Err(EngineFault::Value(message)) => if known {
                    !params.contains_key(place) && message == (if is_postgres {
                        "postgres datasource needs 'uri'"@
                    } else if kind == "duckdb"@ {
                        "duckdb datasource needs 'path'"@
                    } else {
                        "parquet datasource needs 'dir'"@
                    })
                } else {
                    message == "unknown datasource kind "@ + "'"@ + kind + "'"@
                },
                Err(_) => false,
            }
        }),
{
    reveal_strlit("");
    assert("unknown datasource kind "@ + "'"@ + kind + "'"@ + ""@ =~= "unknown datasource kind "@
        + "'"@ + kind + "'"@);
    reveal_strlit("uri");
    reveal_strlit("path");
    reveal_strlit("dir");
    reveal_strlit("duckdb");
    reveal_strlit("parquet");
    reveal_strlit("postgres");
    reveal_strlit("postgresql");
    assert("duckdb"@.len() == 6 && "parquet"@.len() == 7);
}

/// Parameters that name the place of a datasource, and its driver if they name
/// one, describe it.
pub proof fn complete_parameters_are_accepted(
    kind: Seq<char>,
    params: Map<Seq<char>, Option<String>>,
)
    requires
        ({
            let is_postgres = kind == "postgres"@ || kind == "postgresql"@;
            let place = if is_postgres {
                "uri"@
            } else if kind == "duckdb"@ {
                "path"@
            } else {
                "dir"@
            };
            &&& is_postgres || kind == "duckdb"@ || kind == "parquet"@
            &&& params.contains_key(place) && params[place] is Some
            &&& is_postgres && params.contains_key("adbc_driver"@) ==> params["adbc_driver"@] is Some
        }),
    ensures
        described(kind, params) is Ok,
{
}

/// A page count is the count that the catalog gives, within 32 bits; a table
/// that was never counted has none, and one that is not there is refused by
/// name.
pub proof fn page_counts_are_those_of_the_catalog(first: Option<i64>, table: Seq<char>)
    ensures
        first matches Some(n) ==> (0 <= n < 0x1_0000_0000 ==> pages_of(first, table) == Ok::<
            int,
            EngineFault,
        >(n as int)),
        first matches Some(n) ==> (n < 0 ==> pages_of(first, table) == Ok::<int, EngineFault>(0)),
        first is None ==> pages_of(first, table) == Err::<int, EngineFault>(
            EngineFault::Runtime("table "@ + "'"@ + table + "'"@ + " not found for relpages"@),
        ),
{
}

/// Whether a column has an index is remembered for that column of that table of
/// that schema of that datasource only: under names without the separator no
/// two of them share a key, and no schema counts as the empty one.
pub proof fn index_keys_are_distinct(
    name: Seq<char>,
    schema: Option<Seq<char>>,
    table: Seq<char>,
    column: Seq<char>,
    other_name: Seq<char>,
    other_schema: Option<Seq<char>>,
    other_table: Seq<char>,
    other_column: Seq<char>,
)
    requires
        index_key_text(name, schema, table, column) == index_key_text(
            other_name,
            other_schema,
            other_table,
            other_column,
        ),
        !name.contains('\u{1}') && !other_name.contains('\u{1}'),
        schema matches Some(s) ==> !s.contains('\u{1}'),
        other_schema matches Some(s) ==> !s.contains('\u{1}'),
        !table.contains('\u{1}') && !other_table.contains('\u{1}'),
    ensures
        name == other_name,
        (match schema {
            Some(s) => s,
            None => Seq::empty(),
        }) == (match other_schema {
            Some(s) => s,
            None => Seq::empty(),
        }),
        table == other_table,
        column == other_column,
{
    let c = '\u{1}';
    reveal_strlit("\u{1}");
    assert("\u{1}"@ =~= seq![c]);
    let s1 = match schema {
        Some(s) => s,
        None => Seq::empty(),
    };
    let s2 = match other_schema {
        Some(s) => s,
        None => Seq::empty(),
    };
    let rest1 = s1 + seq![c] + (table + seq![c] + column);
    let rest2 = s2 + seq![c] + (other_table + seq![c] + other_column);
    assert(index_key_text(name, schema, table, column) =~= name + seq![c] + rest1);
    assert(index_key_text(other_name, other_schema, other_table, other_column) =~= other_name
        + seq![c] + rest2);
    lemma_same_front(name, rest1, other_name, rest2, c);
    lemma_same_front(
        s1,
        table + seq![c] + column,
        s2,
        other_table + seq![c] + other_column,
        c,
    );
    lemma_same_front(table, column, other_table, other_column, c);
}

/// Where texts that hold no separator are followed by one, they and what follows
/// can be told apart.
proof fn lemma_same_front(a: Seq<char>, x: Seq<char>, b: Seq<char>, y: Seq<char>, c: char)
    requires
        a + seq![c] + x == b + seq![c] + y,
        !a.contains(c),
        !b.contains(c),
    ensures
        a == b,
        x == y,
{
    let whole = a + seq![c] + x;
    assert(whole[a.len() as int] == c);
    assert((b + seq![c] + y)[b.len() as int] == c);
    if a.len() < b.len() {
        assert(b[a.len() as int] == (b + seq![c] + y)[a.len() as int]);
    } else if b.len() < a.len() {
        assert(a[b.len() as int] == whole[b.len() as int]);
    }
    assert(a =~= whole.take(a.len() as int));
    assert(b =~= (b + seq![c] + y).take(b.len() as int));
    assert(x =~= whole.skip(a.len() as int + 1));
    assert(y =~= (b + seq![c] + y).skip(b.len() as int + 1));
}

/// The parts of a datasource are all that it holds: two datasources of the same
/// parts are of one kind, at one place, with one driver.
pub proof fn parts_are_all_of_a_datasource(a: DsSpec, b: DsSpec)
    requires
        a.parts() == b.parts(),
    ensures
        a.kind == b.kind,
        a.uri@ == b.uri@,
        a.adbc_driver is Some <==> b.adbc_driver is Some,
        a.adbc_driver matches Some(path) ==> b.adbc_driver->0@ == path@,
{
}

} // verus!
