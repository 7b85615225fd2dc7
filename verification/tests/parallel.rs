//! Parallel reads.

use fedqrs::error::EngineError;
use fedqrs::parallel::{
    concat_parts, partition_queries, require_postgres, worker_of, PARALLEL_WORKERS,
};
use fedqrs::types::DsKind;

fn some(text: &str) -> Option<String> {
    Some(text.to_string())
}

#[test]
fn each_range_is_one_query() {
    let queries = partition_queries(&some("s"), "t", &some("x"), "\"a\"", 4, 2, &some("b > 1"));
    assert_eq!(
        queries,
        vec![
            "SELECT \"a\" FROM \"s\".\"t\" AS \"x\" WHERE ctid >= '(0,0)'::tid \
             AND ctid < '(2,0)'::tid AND (b > 1)"
                .to_string(),
            "SELECT \"a\" FROM \"s\".\"t\" AS \"x\" WHERE ctid >= '(2,0)'::tid \
             AND ctid < '(4294967295,0)'::tid AND (b > 1)"
                .to_string(),
        ]
    );
    let queries = partition_queries(&None, "t", &None, "*", 0, 8, &None);
    assert_eq!(
        queries,
        vec![
            "SELECT * FROM \"t\" WHERE ctid >= '(0,0)'::tid AND ctid < '(4294967295,0)'::tid"
                .to_string()
        ]
    );
}

#[test]
fn readers_take_turns() {
    let turns: Vec<usize> = (0..10).map(|i| worker_of(i, PARALLEL_WORKERS)).collect();
    assert_eq!(turns, vec![0, 1, 2, 3, 4, 5, 6, 7, 0, 1]);
}

#[test]
fn only_postgres_is_read_in_parallel() {
    assert!(require_postgres(DsKind::Postgres).is_ok());
    for kind in [DsKind::DuckDb, DsKind::Parquet] {
        assert!(matches!(
            require_postgres(kind),
            Err(EngineError::Runtime(m)) if m == "parallel fetch is Postgres-only"
        ));
    }
}

#[test]
fn parts_are_put_together_in_order() {
    let parts = vec![Ok(("first", vec![1, 2])), Ok(("second", vec![])), Ok(("third", vec![3]))];
    let (schema, batches) = concat_parts(parts).unwrap();
    assert_eq!(schema, "first");
    assert_eq!(batches, vec![1, 2, 3]);
}

#[test]
fn the_first_failed_part_fails_the_read() {
    let parts: Vec<Result<(&str, Vec<i32>), String>> = vec![
        Ok(("first", vec![1])),
        Err("gone".to_string()),
        Err("also gone".to_string()),
    ];
    assert!(matches!(concat_parts(parts), Err(EngineError::Runtime(m)) if m == "gone"));
    let none: Vec<Result<(&str, Vec<i32>), String>> = vec![];
    assert!(matches!(
        concat_parts(none),
        Err(EngineError::Runtime(m)) if m == "parallel fetch produced no partitions"
    ));
}
