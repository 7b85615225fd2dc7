//! The plan's types.

use fedqrs::ir::ScanSpec;

#[test]
fn scanspec_defaults_apply() {
    // Only table+columns given; optional fields default.
    let s = ScanSpec {
        table: Some("t".to_string()),
        columns: vec!["a".to_string()],
        ..ScanSpec::default()
    };
    assert_eq!(s.table.as_deref(), Some("t"));
    assert!(s.raw_sql.is_none() && s.filter.is_none() && !s.distinct);
    assert!(s.schema.is_none() && s.alias.is_none() && s.limit.is_none());
    assert!(!s.parallel && s.injected_sql.is_none());
}
