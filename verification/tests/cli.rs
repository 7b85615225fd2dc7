//! The command line.

use fedqrs::cli::{choose_mode, conn_string, parse_args, uri, Mode};
use fedqrs::text_map::TextMap;

fn argv(args: &[&str]) -> Vec<String> {
    args.iter().map(|a| a.to_string()).collect()
}

fn value(map: &TextMap<String>, key: &str) -> Option<String> {
    map.get(key).cloned()
}

#[test]
fn both_option_forms_are_read() {
    let map = parse_args(&argv(&["--host=h", "--port", "1", "stray", "--sql=a=b", "-x", "--last"]));
    assert_eq!(value(&map, "host").as_deref(), Some("h"));
    assert_eq!(value(&map, "port").as_deref(), Some("1"));
    assert_eq!(value(&map, "sql").as_deref(), Some("a=b"));
    assert_eq!(value(&map, "last").as_deref(), Some(""));
    assert!(!map.contains_key("stray") && !map.contains_key("x") && !map.contains_key("-x"));
    let same = parse_args(&argv(&["--host", "h"]));
    assert_eq!(value(&same, "host"), value(&map, "host"));
}

#[test]
fn an_option_takes_the_next_argument_whatever_it_is() {
    let map = parse_args(&argv(&["--a", "--b", "c", "--a=2", "--=v", "--"]));
    assert_eq!(value(&map, "a").as_deref(), Some("2"));
    assert!(!map.contains_key("b"));
    assert_eq!(value(&map, "").as_deref(), Some(""));
    let map = parse_args(&argv(&["--=v"]));
    assert_eq!(value(&map, "").as_deref(), Some("v"));
    assert!(!parse_args(&argv(&[])).contains_key(""));
}

#[test]
fn connection_uris() {
    let none = parse_args(&argv(&[]));
    assert_eq!(uri(&none), "postgresql://postgres@localhost:5432/test_db");
    let all = parse_args(&argv(&[
        "--host=h", "--port=1", "--user=u", "--password=pw", "--database=d", "--dbname=x",
    ]));
    assert_eq!(uri(&all), "postgresql://u:pw@h:1/d");
    let alias = parse_args(&argv(&["--dbname=x"]));
    assert_eq!(uri(&alias), "postgresql://postgres@localhost:5432/x");
}

#[test]
fn connection_strings() {
    let none = parse_args(&argv(&[]));
    assert_eq!(conn_string(&none), "host=localhost port=5432 user=postgres dbname=test_db");
    let all = parse_args(&argv(&[
        "--host=h", "--port=1", "--user=u", "--password=pw", "--database=d",
    ]));
    assert_eq!(conn_string(&all), "host=h port=1 user=u dbname=d password=pw");
}

#[test]
fn modes_are_chosen_by_option() {
    assert!(matches!(choose_mode(&argv(&["--duckdb", "--help"])), Mode::Help));
    assert!(matches!(choose_mode(&argv(&["-h"])), Mode::Help));
    assert!(matches!(choose_mode(&argv(&["--duckdb", "1", "--datafusion"])), Mode::DuckDb));
    assert!(matches!(choose_mode(&argv(&["--datafusion"])), Mode::DataFusion));
    match choose_mode(&argv(&["--adbc-df=1", "--sql=Q", "--adbc-driver=D"])) {
        Mode::AdbcDataFusion { driver, uri, sql } => {
            assert_eq!((driver.as_str(), sql.as_str()), ("D", "Q"));
            assert_eq!(uri, "postgresql://postgres@localhost:5432/test_db");
        }
        other => panic!("{other:?}"),
    }
    assert!(matches!(choose_mode(&argv(&["--adbc-duckdb"])), Mode::AdbcDuckDb { .. }));
    match choose_mode(&argv(&["--federated"])) {
        Mode::Federated { duck_path, .. } => assert_eq!(duck_path, "/tmp/fedq_source.duckdb"),
        other => panic!("{other:?}"),
    }
    match choose_mode(&argv(&["--federated=1", "--duckdb-path", "p"])) {
        Mode::Federated { duck_path, .. } => assert_eq!(duck_path, "p"),
        other => panic!("{other:?}"),
    }
    match choose_mode(&argv(&[])) {
        Mode::Compare { conn, driver, uri, sql } => {
            assert_eq!(conn, "host=localhost port=5432 user=postgres dbname=test_db");
            assert!(driver.ends_with("/libadbc_driver_postgresql.so"));
            assert_eq!(uri, "postgresql://postgres@localhost:5432/test_db");
            assert!(sql.ends_with("created_at FROM perf_files"));
        }
        other => panic!("{other:?}"),
    }
}
