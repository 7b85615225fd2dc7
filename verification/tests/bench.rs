//! What the benchmarks compute.

use datafusion::arrow::datatypes::DataType;
use fedqrs::bench::{
    arrow_type, column_kind, count_rows, first_keys, merge_sql, pure_join_sql, setup_sql,
    slice_to_vec, text_column, to_binary, ColumnKind, FIRST_DAY, FIRST_SECOND, LAST_DAY,
    LAST_SECOND, Printable, VEC,
};

fn strings(list: &[&str]) -> Vec<String> {
    list.iter().map(|s| s.to_string()).collect()
}

#[test]
fn rows_are_summed() {
    assert_eq!(count_rows(&vec![]), Some(0));
    assert_eq!(count_rows(&vec![3, 0, 4]), Some(7));
    assert_eq!(count_rows(&vec![usize::MAX, 0]), Some(usize::MAX));
    assert_eq!(count_rows(&vec![usize::MAX, 1, 0]), None);
}

#[test]
fn batches_are_sliced() {
    assert_eq!(slice_to_vec(5000, VEC), vec![(0, 2048), (2048, 2048), (4096, 904)]);
    assert_eq!(slice_to_vec(4096, VEC), vec![(0, 2048), (2048, 2048)]);
    assert_eq!(slice_to_vec(1, VEC), vec![(0, 1)]);
    assert!(slice_to_vec(0, VEC).is_empty());
    for rows in 0..40usize {
        let slices = slice_to_vec(rows, 7);
        assert_eq!(slices.iter().map(|s| s.1).sum::<usize>(), rows);
        assert!(slices.iter().all(|s| 0 < s.1 && s.1 <= 7));
    }
}

#[test]
fn key_samples_are_the_first_values() {
    let values = strings(&["a", "b", "c"]);
    assert_eq!(first_keys(&values, 2), strings(&["a", "b"]));
    assert_eq!(first_keys(&values, 9), values);
}

#[test]
fn uuids_become_bytes() {
    let values = strings(&[
        "550e8400-e29b-41d4-a716-446655440000",
        "{00000000-0000-0000-0000-0000000000ff}",
    ]);
    let rows = to_binary(&values).unwrap();
    assert_eq!(
        rows[0],
        vec![85, 14, 132, 0, 226, 155, 65, 212, 167, 22, 68, 102, 85, 68, 0, 0]
    );
    assert_eq!(rows[1][15], 255);
    assert_eq!(rows[1].len(), 16);
    let bad = strings(&["550e8400e29b41d4a716446655440000", "nope", "also not"]);
    assert_eq!(to_binary(&bad), Err(1));
}

#[test]
fn values_are_printed() {
    let uuid = vec![85, 14, 132, 0, 226, 155, 65, 212, 167, 22, 68, 102, 85, 68, 0, 0];
    let texts = text_column(&vec![
        Some(Printable::Uuid(uuid)),
        Some(Printable::TimestampTz { seconds: 1_700_000_000, nanos: 500_000_000 }),
        Some(Printable::Timestamp { seconds: 1_700_000_000, nanos: 0 }),
        Some(Printable::Date { days: 719_163 }),
        Some(Printable::Text("as it is".to_string())),
        None,
    ]);
    let expected = vec![
        Some("550e8400-e29b-41d4-a716-446655440000".to_string()),
        Some("2023-11-14T22:13:20.500+00:00".to_string()),
        Some("2023-11-14 22:13:20".to_string()),
        Some("1970-01-01".to_string()),
        Some("as it is".to_string()),
        None,
    ];
    assert_eq!(texts, expected);
}

#[test]
fn values_out_of_range_have_no_text() {
    let texts = text_column(&vec![
        Some(Printable::Uuid(vec![1, 2, 3])),
        Some(Printable::TimestampTz { seconds: i64::MAX, nanos: 0 }),
        Some(Printable::Timestamp { seconds: 0, nanos: 2_000_000_000 }),
        Some(Printable::Date { days: i32::MAX }),
    ]);
    assert_eq!(texts, vec![None, None, None, None]);
}

#[test]
fn column_kinds() {
    let pairs = [
        ("int8", ColumnKind::Int8, DataType::Int64),
        ("int4", ColumnKind::Int4, DataType::Int64),
        ("int2", ColumnKind::Int2, DataType::Int64),
        ("float8", ColumnKind::Float8, DataType::Float64),
        ("float4", ColumnKind::Float4, DataType::Float64),
        ("bool", ColumnKind::Bool, DataType::Boolean),
        ("uuid", ColumnKind::Uuid, DataType::Utf8),
        ("timestamptz", ColumnKind::TimestampTz, DataType::Utf8),
        ("timestamp", ColumnKind::Timestamp, DataType::Utf8),
        ("date", ColumnKind::Date, DataType::Utf8),
        ("text", ColumnKind::Text, DataType::Utf8),
        ("varchar", ColumnKind::Text, DataType::Utf8),
        ("bpchar", ColumnKind::Text, DataType::Utf8),
        ("name", ColumnKind::Text, DataType::Utf8),
    ];
    for (name, kind, data_type) in pairs {
        assert_eq!(column_kind(name).unwrap(), kind);
        assert_eq!(arrow_type(kind), data_type);
    }
    assert_eq!(
        column_kind("jsonb").unwrap_err(),
        "unsupported column type 'jsonb' (cast it to text in --sql)"
    );
}

#[test]
fn the_calendar_has_ends() {
    let has_text = |value: Printable| text_column(&vec![Some(value)])[0].is_some();
    let utc = |seconds: i64, nanos: u32| has_text(Printable::TimestampTz { seconds, nanos });
    let wall = |seconds: i64, nanos: u32| has_text(Printable::Timestamp { seconds, nanos });
    for (seconds, nanos, expected) in [
        (FIRST_SECOND, 0, true),
        (FIRST_SECOND - 1, 0, false),
        (LAST_SECOND, 999_999_999, true),
        (LAST_SECOND + 1, 0, false),
        (0, 1_000_000_000, false),
        (59, 1_000_000_000, true),
        (-1, 1_999_999_999, true),
        (59, 2_000_000_000, false),
    ] {
        assert_eq!(utc(seconds, nanos), expected);
        assert_eq!(wall(seconds, nanos), expected);
    }
    let day = |days: i32| has_text(Printable::Date { days });
    assert!(day(FIRST_DAY) && day(LAST_DAY));
    assert!(!day(FIRST_DAY - 1) && !day(LAST_DAY + 1) && !day(i32::MAX) && !day(i32::MIN));
    assert!(!has_text(Printable::Uuid(vec![0; 15])));
}

#[test]
fn benchmark_queries() {
    assert_eq!(
        merge_sql("build_str"),
        "SELECT count(*) FROM arrow(?, ?) p JOIN build_str b ON p.id = b.id"
    );
    assert_eq!(
        pure_join_sql("p.id = b.id"),
        "SELECT count(*) FROM t p JOIN samp b ON p.id = b.id"
    );
    let setup = setup_sql(100_000, 1_000);
    assert_eq!(
        setup,
        "CREATE TABLE t AS SELECT gen_random_uuid() AS id, gen_random_uuid() AS tid \
           FROM range(100000);
         CREATE TABLE samp AS SELECT id FROM t LIMIT 1000;
         CREATE TABLE build_str AS SELECT CAST(id AS VARCHAR) AS id FROM samp;
         CREATE TABLE build_bin AS SELECT CAST(id AS BLOB) AS id FROM samp;"
    );
}
