//! Reads and key delivery.

use std::sync::Arc;

use datafusion::arrow::array::{Array, ArrayRef, Int64Array, StructArray};
use datafusion::arrow::datatypes::{DataType, Field};
use fedqrs::catalog::{register, registry, DsSpec, Registry};
use fedqrs::error::{EngineError, PlanError};
use fedqrs::expr::KeyArray;
use fedqrs::ir::{IrExpr, LiteralValue, ScanSpec};
use fedqrs::strategy::{
    choose_delivery, full_scan_percent, injected_read, selectivity_basis, source_read, Basis,
    Decision, Delivery, Read,
};
use fedqrs::types::DsKind;

fn sources() -> Registry {
    let mut sources = registry();
    for (name, kind) in
        [("pg", DsKind::Postgres), ("duck", DsKind::DuckDb), ("pq", DsKind::Parquet)]
    {
        register(
            &mut sources,
            name.to_string(),
            DsSpec { kind, uri: "u".to_string(), adbc_driver: None },
        );
    }
    sources
}

fn scan() -> ScanSpec {
    ScanSpec {
        schema: Some("s".to_string()),
        table: Some("t".to_string()),
        columns: vec!["a".to_string(), "b".to_string()],
        ..ScanSpec::default()
    }
}

fn raw() -> ScanSpec {
    ScanSpec { raw_sql: Some("SELECT k FROM x".to_string()), ..ScanSpec::default() }
}

fn keys(values: Vec<i64>) -> Vec<KeyArray> {
    vec![KeyArray { array: Arc::new(Int64Array::from(values)) }]
}

fn runtime<T>(outcome: Result<T, EngineError>) -> String {
    match outcome {
        Err(EngineError::Runtime(message)) => message,
        Err(other) => panic!("{other:?}"),
        Ok(_) => panic!("expected an error"),
    }
}

fn query(outcome: Result<Read, EngineError>) -> String {
    match outcome.unwrap() {
        Read::Query(sql) => sql,
        other => panic!("{other:?}"),
    }
}

#[test]
fn plain_scans_are_one_query() {
    let sources = sources();
    assert_eq!(
        query(source_read(&sources, "duck", &scan())),
        "SELECT \"a\", \"b\" FROM \"s\".\"t\""
    );
    assert_eq!(query(source_read(&sources, "pg", &raw())), "SELECT k FROM x");
    assert_eq!(
        runtime(source_read(&sources, "no", &scan())),
        "datasource 'no' is not registered"
    );
    let nothing = ScanSpec::default();
    assert!(matches!(
        source_read(&sources, "pg", &nothing),
        Err(EngineError::Plan(PlanError::Plan(m))) if m == "structured scan needs a 'table'"
    ));
}

#[test]
fn parallel_scans_are_plain_postgres_reads() {
    let sources = sources();
    let mut s = scan();
    s.parallel = true;
    s.filter = Some(IrExpr::Binary {
        op: ">".to_string(),
        left: Box::new(IrExpr::Column { relation: None, name: "a".to_string() }),
        right: Box::new(IrExpr::Literal { value: LiteralValue::Int { value: 1 } }),
    });
    match source_read(&sources, "pg", &s).unwrap() {
        Read::Parallel { select_list, where_clause } => {
            assert_eq!(select_list, "\"a\", \"b\"");
            assert_eq!(where_clause, Some("(\"a\" > 1)".to_string()));
        }
        other => panic!("{other:?}"),
    }
    let refused = "parallel scan spec is not a plain Postgres table read";
    assert_eq!(runtime(source_read(&sources, "duck", &s)), refused);
    s.limit = Some(1);
    assert_eq!(runtime(source_read(&sources, "pg", &s)), refused);
    s.limit = None;
    s.distinct = true;
    assert_eq!(runtime(source_read(&sources, "pg", &s)), refused);
    s.distinct = false;
    s.table = None;
    assert_eq!(runtime(source_read(&sources, "pg", &s)), refused);
    let mut s = raw();
    s.parallel = true;
    s.table = Some("t".to_string());
    assert_eq!(runtime(source_read(&sources, "pg", &s)), refused);
}

fn decide(
    source: &str,
    scan: &ScanSpec,
    num_keys: usize,
    key_type: DataType,
    indexed: Option<bool>,
    unselective: Option<bool>,
) -> Decision {
    choose_delivery(&sources(), source, scan, num_keys, &key_type, indexed, unselective).unwrap()
}

#[test]
fn few_keys_travel_inline() {
    let s = scan();
    let int64 = DataType::Int64;
    assert_eq!(
        decide("pg", &s, 0, int64.clone(), None, None),
        Decision::Deliver(Delivery::MatchNothing)
    );
    for n in [1, 1999] {
        assert_eq!(
            decide("pg", &s, n, int64.clone(), None, None),
            Decision::Deliver(Delivery::InList)
        );
    }
    // the source is not looked at for so few keys
    assert_eq!(
        decide("unregistered", &s, 5, int64.clone(), None, None),
        Decision::Deliver(Delivery::InList)
    );
    // SQL with the key filter placed in it reads a key table
    let mut prepared = raw();
    prepared.injected_sql = Some("SELECT 1".to_string());
    assert_eq!(
        decide("pg", &prepared, 5, int64, None, None),
        Decision::Deliver(Delivery::TempTable)
    );
    let outcome =
        choose_delivery(&sources(), "no", &s, 2000, &DataType::Int64, None, None);
    assert_eq!(runtime(outcome), "datasource 'no' is not registered");
}

#[test]
fn postgres_is_asked_for_an_index_and_selectivity() {
    let s = scan();
    let t = || DataType::Binary;
    assert_eq!(decide("pg", &s, 2000, t(), None, None), Decision::AskIndex);
    assert_eq!(
        decide("pg", &s, 2000, t(), Some(false), None),
        Decision::Deliver(Delivery::Parallel)
    );
    assert_eq!(decide("pg", &s, 2000, t(), Some(true), None), Decision::AskSelectivity);
    assert_eq!(
        decide("pg", &s, 2000, t(), Some(true), Some(true)),
        Decision::Deliver(Delivery::Parallel)
    );
    assert_eq!(
        decide("pg", &s, 5_000_000, t(), Some(true), Some(false)),
        Decision::Deliver(Delivery::TempTable)
    );
    assert_eq!(
        decide("pg", &raw(), 2000, t(), None, None),
        Decision::Deliver(Delivery::TempTable)
    );
}

#[test]
fn scans_with_sql_of_their_own_have_no_table() {
    let mut s = raw();
    s.table = Some("t".to_string());
    s.columns = vec!["a".to_string()];
    for source in ["pg", "duck"] {
        assert_eq!(
            decide(source, &s, 5000, DataType::Int64, Some(false), Some(true)),
            Decision::Deliver(Delivery::TempTable)
        );
    }
    let read = |delivery: Delivery| {
        injected_read(&sources(), "pg", &s, delivery, &keys(vec![7]), "key", "a")
    };
    assert_eq!(runtime(read(Delivery::Parallel)), "parallel scan needs a structured table");
    assert!(matches!(
        read(Delivery::TempTable),
        Ok(Read::KeyJoin(sql)) if sql == "SELECT * FROM (SELECT k FROM x) AS \"fedq_probe\" \
            WHERE \"a\" IN (SELECT \"key\" FROM \"fedq_dyn_keys\")"
    ));
    assert_eq!(
        runtime(selectivity_basis(&sources(), "pg", &s, "a", Some(10))),
        "injected scan needs a structured table"
    );
}

#[test]
fn probes_with_distinct_or_limit_are_read_in_one_query() {
    let mut distinct = scan();
    distinct.distinct = true;
    let mut limited = scan();
    limited.limit = Some(3);
    for s in [&distinct, &limited] {
        for (indexed, unselective) in [(Some(false), None), (Some(true), Some(true))] {
            assert_eq!(
                decide("pg", s, 5000, DataType::Int64, indexed, unselective),
                Decision::Deliver(Delivery::Whole)
            );
        }
        assert_eq!(
            decide("pg", s, 5000, DataType::Int64, Some(true), Some(false)),
            Decision::Deliver(Delivery::TempTable)
        );
    }
    assert_eq!(
        query(injected_read(
            &sources(),
            "pg",
            &distinct,
            Delivery::Whole,
            &keys(vec![7]),
            "key",
            "a"
        )),
        "SELECT DISTINCT \"a\", \"b\" FROM \"s\".\"t\""
    );
}

#[test]
fn duckdb_is_bounded_by_what_it_can_take_in() {
    let s = scan();
    let t = || DataType::Int64;
    assert_eq!(decide("duck", &s, 2000, t(), None, None), Decision::AskSelectivity);
    assert_eq!(
        decide("duck", &s, 2_000_000, t(), None, Some(false)),
        Decision::Deliver(Delivery::TempTable)
    );
    assert_eq!(
        decide("duck", &s, 2_000_001, t(), None, Some(false)),
        Decision::Deliver(Delivery::Whole)
    );
    assert_eq!(
        decide("duck", &s, 2000, DataType::Binary, None, Some(false)),
        Decision::Deliver(Delivery::Whole)
    );
    assert_eq!(
        decide("duck", &s, 2000, t(), None, Some(true)),
        Decision::Deliver(Delivery::Whole)
    );
    assert_eq!(
        decide("duck", &raw(), 2000, t(), None, None),
        Decision::Deliver(Delivery::TempTable)
    );
    assert_eq!(
        decide("pq", &s, 2000, t(), None, None),
        Decision::Deliver(Delivery::Whole)
    );
}

#[test]
fn each_delivery_is_one_read() {
    let sources = sources();
    let s = scan();
    let read = |source: &str, scan: &ScanSpec, delivery: Delivery| {
        injected_read(&sources, source, scan, delivery, &keys(vec![7, 9]), "key", "a")
    };
    assert_eq!(
        query(read("pg", &s, Delivery::MatchNothing)),
        "SELECT \"a\", \"b\" FROM \"s\".\"t\" WHERE false"
    );
    assert_eq!(
        query(read("pg", &s, Delivery::InList)),
        "SELECT \"a\", \"b\" FROM \"s\".\"t\" WHERE \"a\" IN (7, 9)"
    );
    assert_eq!(
        query(read("duck", &raw(), Delivery::InList)),
        "SELECT * FROM (SELECT k FROM x) AS \"fedq_probe\" WHERE a IN (7, 9)"
    );
    assert_eq!(
        query(read("duck", &s, Delivery::Whole)),
        "SELECT \"a\", \"b\" FROM \"s\".\"t\""
    );
    assert!(matches!(
        read("pg", &s, Delivery::Parallel),
        Ok(Read::Parallel { where_clause: None, .. })
    ));
    match read("duck", &s, Delivery::TempTable).unwrap() {
        Read::KeyJoin(sql) => assert_eq!(
            sql,
            "SELECT \"a\", \"b\" FROM \"s\".\"t\" \
             WHERE \"a\" IN (SELECT \"key\" FROM \"fedq_dyn_keys\")"
        ),
        other => panic!("{other:?}"),
    }
    let mut prepared = raw();
    prepared.injected_sql = Some("SELECT 1 FROM fedq_dyn_keys".to_string());
    assert!(matches!(
        read("pg", &prepared, Delivery::TempTable),
        Ok(Read::KeyJoin(sql)) if sql == "SELECT 1 FROM fedq_dyn_keys"
    ));
}

#[test]
fn reads_that_cannot_be_made() {
    let sources = sources();
    let read = |source: &str, scan: &ScanSpec, delivery: Delivery| {
        injected_read(&sources, source, scan, delivery, &keys(vec![7]), "key", "a")
    };
    for delivery in [
        Delivery::MatchNothing,
        Delivery::InList,
        Delivery::Whole,
        Delivery::Parallel,
        Delivery::TempTable,
    ] {
        assert_eq!(
            runtime(read("no", &scan(), delivery)),
            "datasource 'no' is not registered"
        );
    }
    assert_eq!(
        runtime(read("pg", &raw(), Delivery::Parallel)),
        "parallel scan needs a structured table"
    );
    assert_eq!(
        runtime(read("duck", &scan(), Delivery::Parallel)),
        "parallel fetch is Postgres-only"
    );
    assert_eq!(
        runtime(read("pq", &scan(), Delivery::TempTable)),
        "temp-join pushdown does not apply to in-process Parquet"
    );
}

#[test]
fn keys_without_sql_are_refused() {
    let field = Arc::new(Field::new("a", DataType::Int64, false));
    let values: ArrayRef = Arc::new(Int64Array::from(vec![1]));
    let array = StructArray::from(vec![(field, values)]);
    let keys = vec![KeyArray { array: Arc::new(array) }];
    let outcome =
        injected_read(&sources(), "pg", &scan(), Delivery::InList, &keys, "key", "a");
    assert!(matches!(
        outcome,
        Err(EngineError::Plan(PlanError::Plan(m)))
            if m == "expression holds a value or a subquery without SQL"
    ));
}

#[test]
fn keys_without_a_scalar_are_refused() {
    // a run-end encoded array has no scalar of its own in this version
    let run_ends = datafusion::arrow::array::Int32Array::from(vec![2]);
    let run_values = Int64Array::from(vec![1]);
    let array =
        datafusion::arrow::array::RunArray::try_new(&run_ends, &run_values as &dyn Array).unwrap();
    let keys = vec![KeyArray { array: Arc::new(array) }];
    let outcome =
        injected_read(&sources(), "pg", &scan(), Delivery::InList, &keys, "key", "a");
    assert!(matches!(outcome, Err(EngineError::Plan(PlanError::DataFusion(_)))));
}

#[test]
fn selectivity_has_a_basis() {
    let sources = sources();
    let basis = |source: &str, scan: &ScanSpec, ndv: Option<u64>| {
        selectivity_basis(&sources, source, scan, "a", ndv)
    };
    assert!(matches!(basis("pg", &scan(), Some(10)), Ok(Basis::DistinctValues(10))));
    match basis("duck", &scan(), Some(0)).unwrap() {
        Basis::Catalog(sql) => assert_eq!(
            sql,
            "SELECT estimated_size::DOUBLE FROM duckdb_tables() \
             WHERE table_name='t' AND schema_name='s'"
        ),
        other => panic!("{other:?}"),
    }
    match basis("pg", &scan(), None).unwrap() {
        Basis::Catalog(sql) => assert!(sql.contains("s.attname='a'"), "{sql}"),
        other => panic!("{other:?}"),
    }
    assert_eq!(
        runtime(basis("pg", &raw(), Some(10))),
        "injected scan needs a structured table"
    );
    assert_eq!(
        runtime(basis("no", &scan(), Some(10))),
        "datasource 'no' is not registered"
    );
    assert_eq!(full_scan_percent(DsKind::Postgres), 15);
    assert_eq!(full_scan_percent(DsKind::DuckDb), 40);
    assert_eq!(full_scan_percent(DsKind::Parquet), 40);
}
