//! Datasources and catalog queries.

use fedqrs::catalog::{
    datasource_spec, estimate_selectivity_sql, index_key, kind, parquet_table,
    pg_column_indexed_sql, register,
    registry, relpages, relpages_sql, spec_from_params, DsSpec,
};
use fedqrs::error::EngineError;
use fedqrs::text_map::TextMap;
use fedqrs::types::DsKind;

fn params(entries: &[(&str, Option<&str>)]) -> TextMap<Option<String>> {
    let mut map = TextMap::new();
    for (key, value) in entries {
        map.insert(key.to_string(), value.map(|v| v.to_string()));
    }
    map
}

fn runtime<T>(outcome: Result<T, EngineError>) -> String {
    match outcome {
        Err(EngineError::Runtime(message)) => message,
        Err(other) => panic!("{other:?}"),
        Ok(_) => panic!("expected an error"),
    }
}

fn value<T>(outcome: Result<T, EngineError>) -> String {
    match outcome {
        Err(EngineError::Value(message)) => message,
        Err(other) => panic!("{other:?}"),
        Ok(_) => panic!("expected an error"),
    }
}

fn some(text: &str) -> Option<String> {
    Some(text.to_string())
}

#[test]
fn registered_datasources_are_found() {
    let mut sources = registry();
    assert_eq!(runtime(kind(&sources, "pg")), "datasource 'pg' is not registered");
    let spec = |kind: DsKind, uri: &str| DsSpec { kind, uri: uri.to_string(), adbc_driver: None };
    register(&mut sources, "pg".to_string(), spec(DsKind::Postgres, "one"));
    register(&mut sources, "duck".to_string(), spec(DsKind::DuckDb, "two"));
    assert_eq!(kind(&sources, "pg").unwrap(), DsKind::Postgres);
    // registering again replaces, and leaves the others alone
    register(&mut sources, "pg".to_string(), spec(DsKind::Parquet, "three"));
    assert_eq!(kind(&sources, "pg").unwrap(), DsKind::Parquet);
    assert_eq!(datasource_spec(&sources, "pg").unwrap().uri, "three");
    assert_eq!(datasource_spec(&sources, "duck").unwrap().uri, "two");
    assert_eq!(runtime(datasource_spec(&sources, "PG")), "datasource 'PG' is not registered");
}

#[test]
fn parameters_of_each_kind() {
    let pg = spec_from_params("postgres", &params(&[("uri", Some("u")), ("adbc_driver", Some("d"))]))
        .unwrap();
    assert_eq!((pg.kind, pg.uri.as_str()), (DsKind::Postgres, "u"));
    assert_eq!(pg.adbc_driver.as_deref(), Some("d"));
    assert_eq!(pg.driver_path().unwrap(), "d");
    let pg = spec_from_params("postgresql", &params(&[("uri", Some("u"))])).unwrap();
    assert!(pg.adbc_driver.is_none());
    assert_eq!(
        runtime(pg.driver_path()),
        "postgres datasource requires an 'adbc_driver' path"
    );
    let duck = spec_from_params("duckdb", &params(&[("path", Some("p"))])).unwrap();
    assert_eq!((duck.kind, duck.uri.as_str()), (DsKind::DuckDb, "p"));
    let parquet = spec_from_params("parquet", &params(&[("dir", Some("d"))])).unwrap();
    assert_eq!((parquet.kind, parquet.uri.as_str()), (DsKind::Parquet, "d"));
    let again = parquet.duplicate();
    assert_eq!((again.kind, again.uri.as_str()), (DsKind::Parquet, "d"));
}

#[test]
fn missing_and_wrong_parameters() {
    let none = params(&[]);
    assert_eq!(value(spec_from_params("postgres", &none)), "postgres datasource needs 'uri'");
    assert_eq!(value(spec_from_params("duckdb", &none)), "duckdb datasource needs 'path'");
    assert_eq!(value(spec_from_params("parquet", &none)), "parquet datasource needs 'dir'");
    assert_eq!(value(spec_from_params("mysql", &none)), "unknown datasource kind 'mysql'");
    let odd = params(&[("uri", Some("u")), ("adbc_driver", None)]);
    assert!(matches!(
        spec_from_params("postgres", &odd),
        Err(EngineError::NotText(name)) if name == "adbc_driver"
    ));
    let odd = params(&[("uri", None)]);
    assert!(matches!(
        spec_from_params("postgres", &odd),
        Err(EngineError::NotText(name)) if name == "uri"
    ));
}

#[test]
fn page_counts() {
    assert_eq!(
        relpages_sql(&None, "o'hara"),
        "SELECT c.relpages::bigint FROM pg_class c JOIN pg_namespace n \
         ON n.oid = c.relnamespace WHERE c.relname = 'o''hara'"
    );
    assert_eq!(
        relpages_sql(&some("s"), "t"),
        "SELECT c.relpages::bigint FROM pg_class c JOIN pg_namespace n \
         ON n.oid = c.relnamespace WHERE c.relname = 't' AND n.nspname = 's'"
    );
    assert_eq!(relpages(Some(17), "t").unwrap(), 17);
    assert_eq!(relpages(Some(-1), "t").unwrap(), 0);
    assert_eq!(relpages(Some(0x1_0000_0003), "t").unwrap(), 3);
    assert_eq!(runtime(relpages(None, "t")), "table 't' not found for relpages");
}

#[test]
fn statistics_queries() {
    assert_eq!(
        estimate_selectivity_sql(DsKind::Postgres, &some("s"), "t", "c"),
        "SELECT c.reltuples::float8, s.n_distinct::float8 FROM pg_class c \
         JOIN pg_namespace n ON n.oid=c.relnamespace \
         LEFT JOIN pg_stats s ON s.schemaname=n.nspname AND s.tablename=c.relname \
         AND s.attname='c' WHERE c.relname='t' AND n.nspname='s'"
    );
    assert_eq!(
        estimate_selectivity_sql(DsKind::DuckDb, &some("s"), "t", "c"),
        "SELECT estimated_size::DOUBLE FROM duckdb_tables() \
         WHERE table_name='t' AND schema_name='s'"
    );
    assert_eq!(
        estimate_selectivity_sql(DsKind::DuckDb, &None, "t'", "c"),
        "SELECT estimated_size::DOUBLE FROM duckdb_tables() WHERE table_name='t'''"
    );
}

#[test]
fn index_queries() {
    assert_eq!(
        pg_column_indexed_sql(&None, "t", "c'd"),
        "SELECT 1 FROM pg_index i \
         JOIN pg_class c ON c.oid=i.indrelid \
         JOIN pg_namespace n ON n.oid=c.relnamespace \
         JOIN pg_attribute a ON a.attrelid=c.oid AND a.attnum=i.indkey[0] \
         WHERE c.relname='t' AND a.attname='c''d' LIMIT 1"
    );
    assert_eq!(index_key("pg", &some("s"), "t", "c"), "pg\u{1}s\u{1}t\u{1}c");
    assert_eq!(index_key("pg", &None, "t", "c"), "pg\u{1}\u{1}t\u{1}c");
}

#[test]
fn parquet_files_are_tables() {
    assert_eq!(parquet_table("orders.parquet"), some("orders"));
    assert_eq!(parquet_table("a.b.parquet"), some("a.b"));
    assert_eq!(parquet_table("..parquet"), some("."));
    assert_eq!(parquet_table(".parquet"), None);
    assert_eq!(parquet_table("orders.PARQUET"), None);
    assert_eq!(parquet_table("parquet"), None);
    assert_eq!(parquet_table("orders.csv"), None);
    assert_eq!(parquet_table(""), None);
}
