//! Key tables.

use datafusion::arrow::datatypes::{DataType, TimeUnit};
use fedqrs::error::EngineError;
use fedqrs::ingest::{
    create_temp_sql, drop_temp_sql, duck_can_ingest, duck_type_name, dyn_keys_temp_table,
    no_ingest_type, require_key_table,
};
use fedqrs::types::DsKind;

#[test]
fn duck_type_names_cover_the_join_key_types() {
    assert_eq!(duck_type_name(&DataType::Int32).unwrap(), "INTEGER");
    assert_eq!(duck_type_name(&DataType::Int64).unwrap(), "BIGINT");
    assert_eq!(duck_type_name(&DataType::Utf8).unwrap(), "VARCHAR");
    assert_eq!(duck_type_name(&DataType::Date32).unwrap(), "DATE");
    assert_eq!(
        duck_type_name(&DataType::Decimal128(12, 2)).unwrap(),
        "DECIMAL(12,2)"
    );
    assert!(duck_type_name(&DataType::Binary).is_err());
}

#[test]
fn every_ingested_type_has_a_name() {
    let pairs = [
        (DataType::Boolean, "BOOLEAN"),
        (DataType::Int8, "TINYINT"),
        (DataType::Int16, "SMALLINT"),
        (DataType::UInt8, "UTINYINT"),
        (DataType::UInt16, "USMALLINT"),
        (DataType::UInt32, "UINTEGER"),
        (DataType::UInt64, "UBIGINT"),
        (DataType::Float32, "FLOAT"),
        (DataType::Float64, "DOUBLE"),
        (DataType::LargeUtf8, "VARCHAR"),
        (DataType::Date64, "DATE"),
        (DataType::Timestamp(TimeUnit::Microsecond, None), "TIMESTAMP"),
        (DataType::Decimal128(38, -3), "DECIMAL(38,-3)"),
    ];
    for (data_type, name) in pairs {
        assert_eq!(duck_type_name(&data_type).unwrap(), name);
        assert!(duck_can_ingest(&data_type));
    }
}

#[test]
fn other_types_are_refused_by_name() {
    assert_eq!(
        duck_type_name(&DataType::Binary).unwrap_err(),
        "no DuckDB ingest type for Arrow Binary"
    );
    assert!(!duck_can_ingest(&DataType::Binary));
    assert!(!duck_can_ingest(&DataType::Null));
    assert_eq!(no_ingest_type("X"), "no DuckDB ingest type for Arrow X");
}

#[test]
fn key_table_statements() {
    assert_eq!(dyn_keys_temp_table(), "fedq_dyn_keys");
    assert_eq!(
        create_temp_sql("fedq_dyn_keys", "k\"1", &DataType::Int64).unwrap(),
        "CREATE TEMP TABLE \"fedq_dyn_keys\" (\"k\"\"1\" BIGINT)"
    );
    assert!(matches!(
        create_temp_sql("t", "k", &DataType::Binary),
        Err(EngineError::Runtime(m)) if m == "no DuckDB ingest type for Arrow Binary"
    ));
    assert_eq!(drop_temp_sql("a\"b"), "DROP TABLE IF EXISTS \"a\"\"b\"");
}

#[test]
fn parquet_has_no_key_table() {
    assert!(require_key_table(DsKind::Postgres).is_ok());
    assert!(require_key_table(DsKind::DuckDb).is_ok());
    assert!(matches!(
        require_key_table(DsKind::Parquet),
        Err(EngineError::Runtime(m))
            if m == "temp-join pushdown does not apply to in-process Parquet"
    ));
}
