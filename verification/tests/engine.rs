//! Bindings and steps.

use std::sync::Arc;

use fedqrs::bindings::{Binding, Bindings};
use fedqrs::catalog::{register, registry, DsSpec, Registry};
use fedqrs::engine::{
    find_fragment, fragment_kind, log_step, profile_enabled, Action, Run,
};
use fedqrs::error::{EngineError, PlanError};
use fedqrs::ir::{Fragment, Ir, IrExpr, JoinKind, ScanSpec, Step};
use fedqrs::strategy::Read;
use fedqrs::types::DsKind;

fn sources() -> Registry {
    let mut sources = registry();
    register(
        &mut sources,
        "pg".to_string(),
        DsSpec { kind: DsKind::Postgres, uri: "u".to_string(), adbc_driver: None },
    );
    sources
}

fn scan(table: &str) -> ScanSpec {
    ScanSpec {
        table: Some(table.to_string()),
        columns: vec!["a".to_string()],
        ..ScanSpec::default()
    }
}

fn source(binding: &str) -> Step {
    Step::SourceScan {
        datasource: "pg".to_string(),
        scan: scan("t"),
        binding: binding.to_string(),
        materialize: false,
    }
}

fn materialized_source(binding: &str) -> Step {
    Step::SourceScan {
        datasource: "pg".to_string(),
        scan: scan("t"),
        binding: binding.to_string(),
        materialize: true,
    }
}

fn once<T>(value: T) -> Binding<T> {
    Binding::Materialized { value: Arc::new(value), kept: false }
}

fn kept<T>(value: T) -> Binding<T> {
    Binding::Materialized { value: Arc::new(value), kept: true }
}

fn collect(input: &str, binding: &str) -> Step {
    Step::CollectDistinct {
        input: input.to_string(),
        key: "k".to_string(),
        cap: 2000,
        binding: binding.to_string(),
    }
}

fn probe(keys_from: &str, binding: &str) -> Step {
    Step::InjectedScan {
        datasource: "pg".to_string(),
        scan: scan("p"),
        inject_column: "k".to_string(),
        keys_from: keys_from.to_string(),
        binding: binding.to_string(),
        inject_column_ndv: None,
    }
}

fn merge(inputs: &[(&str, &str)], binding: &str) -> Step {
    Step::Merge {
        fragment: "f1".to_string(),
        inputs: inputs.iter().map(|(t, b)| (t.to_string(), b.to_string())).collect(),
        binding: binding.to_string(),
    }
}

fn give_back(input: &str) -> Step {
    Step::Return { input: input.to_string() }
}

fn plan(steps: Vec<Step>) -> Ir {
    Ir {
        outputs: vec![],
        steps,
        fragments: vec![("f1".to_string(), Fragment::RawSql { sql: "SELECT 1".to_string() })],
    }
}

fn runtime<T>(outcome: Result<T, EngineError>) -> String {
    match outcome {
        Err(EngineError::Runtime(message)) => message,
        Err(other) => panic!("{other:?}"),
        Ok(_) => panic!("expected an error"),
    }
}

fn planning<T>(outcome: Result<T, EngineError>) -> String {
    match outcome {
        Err(EngineError::Plan(PlanError::Plan(message))) => message,
        Err(other) => panic!("{other:?}"),
        Ok(_) => panic!("expected an error"),
    }
}

#[test]
fn bound_values_come_back() {
    let mut b: Bindings<u32> = Bindings::new();
    b.bind("r".to_string(), once(1));
    b.bind("k".to_string(), Binding::Keys(2));
    assert_eq!(b.materialized("r").unwrap(), &1);
    assert_eq!(b.keys_binding("k").unwrap(), &2);
    assert_eq!(runtime(b.materialized("k")), "binding 'k' is not a relation");
    assert_eq!(runtime(b.materialized("x")), "unknown binding 'x'");
    assert_eq!(runtime(b.keys_binding("r")), "binding 'r' does not hold distinct keys");
    assert_eq!(runtime(b.keys_binding("x")), "binding 'x' does not hold distinct keys");
    assert!(matches!(b.get("k"), Some(Binding::Keys(2))));
    // binding a name again replaces it
    b.bind("r".to_string(), once(3));
    assert_eq!(b.materialized("r").unwrap(), &3);
    assert_eq!(*b.take_materialized("r").unwrap(), 3);
    assert!(b.get("r").is_none());
}

#[test]
fn taking_a_binding_consumes_it() {
    let mut b: Bindings<u32> = Bindings::new();
    b.bind("k".to_string(), Binding::Keys(2));
    assert!(matches!(
        b.take_materialized("k"),
        Err(PlanError::Plan(m)) if m == "binding 'k' is not a relation"
    ));
    assert!(matches!(
        b.take_materialized("k"),
        Err(PlanError::Plan(m)) if m == "unknown binding 'k'"
    ));
}

#[test]
fn exported_bindings_are_relations() {
    let mut b: Bindings<u32> = Bindings::new();
    b.bind("r".to_string(), once(1));
    b.bind("k".to_string(), Binding::Keys(2));
    assert_eq!(runtime(b.export("k")), "cannot return non-relation binding 'k'");
    assert_eq!(runtime(b.export("x")), "return of unknown binding 'x'");
    assert_eq!(*b.export("r").unwrap(), 1);
    assert_eq!(runtime(b.export("r")), "return of unknown binding 'r'");
}

#[test]
fn inputs_are_consumed_in_order() {
    let mut b: Bindings<u32> = Bindings::new();
    for (name, value) in [("a", 1), ("b", 2), ("c", 3)] {
        b.bind(name.to_string(), once(value));
    }
    let inputs = |list: &[(&str, &str)]| -> Vec<(String, String)> {
        list.iter().map(|(t, n)| (t.to_string(), n.to_string())).collect()
    };
    let taken = b.take_inputs(&inputs(&[("in_left", "a"), ("in_right", "c")])).unwrap();
    assert_eq!(
        taken,
        vec![("in_left".to_string(), Arc::new(1)), ("in_right".to_string(), Arc::new(3))]
    );
    assert!(b.get("a").is_none() && b.get("c").is_none());
    assert_eq!(b.materialized("b").unwrap(), &2);
    // one binding cannot be two inputs, and is gone after the attempt
    assert!(matches!(
        b.take_inputs(&inputs(&[("in_left", "b"), ("in_right", "b")])),
        Err(PlanError::Plan(m)) if m == "unknown binding 'b'"
    ));
    assert!(b.get("b").is_none());
}

#[test]
fn a_plan_runs_step_by_step() {
    let ir = plan(vec![
        source("build"),
        collect("build", "keys"),
        probe("keys", "probe"),
        merge(&[("in_left", "build"), ("in_right", "probe")], "joined"),
        give_back("joined"),
    ]);
    let sources = sources();
    let mut run: Run<&str> = Run::start();
    assert_eq!(run.next_step(), 0);
    match run.begin(&ir, &sources).unwrap() {
        Action::Read(Read::Query(sql)) => assert_eq!(sql, "SELECT \"a\" FROM \"t\""),
        _ => panic!("expected a read"),
    }
    run.finish(&ir, "build rows");
    assert!(matches!(run.begin(&ir, &sources).unwrap(), Action::Collect));
    assert_eq!(run.bindings().materialized("build").unwrap(), &"build rows");
    run.finish(&ir, "key rows");
    assert!(matches!(run.begin(&ir, &sources).unwrap(), Action::Probe));
    assert_eq!(run.bindings().keys_binding("keys").unwrap(), &"key rows");
    run.finish(&ir, "probe rows");
    match run.begin(&ir, &sources).unwrap() {
        Action::Merge(inputs) => assert_eq!(
            inputs,
            vec![
                ("in_left".to_string(), Arc::new("build rows")),
                ("in_right".to_string(), Arc::new("probe rows")),
            ]
        ),
        _ => panic!("expected a merge"),
    }
    assert!(run.bindings().get("build").is_none());
    run.finish(&ir, "joined rows");
    assert_eq!(run.next_step(), 4);
    match run.begin(&ir, &sources).unwrap() {
        Action::Done(result) => assert_eq!(*result, "joined rows"),
        _ => panic!("expected the result"),
    }
}

#[test]
fn the_result_is_the_last_relation_bound_to_the_name() {
    let ir = plan(vec![source("r"), source("other"), source("r"), source("more"), give_back("r")]);
    let sources = sources();
    let mut run: Run<u32> = Run::start();
    for value in [1, 2, 3, 4] {
        run.begin(&ir, &sources).unwrap();
        run.finish(&ir, value);
    }
    assert!(matches!(run.begin(&ir, &sources).unwrap(), Action::Done(r) if *r == 3));
}

#[test]
fn kept_relations_can_be_taken_again() {
    let mut b: Bindings<u32> = Bindings::new();
    b.bind("r".to_string(), kept(1));
    assert_eq!(*b.take_materialized("r").unwrap(), 1);
    assert_eq!(*b.take_materialized("r").unwrap(), 1);
    let inputs = vec![
        ("in_left".to_string(), "r".to_string()),
        ("in_right".to_string(), "r".to_string()),
    ];
    let taken = b.take_inputs(&inputs).unwrap();
    assert_eq!(
        taken,
        vec![("in_left".to_string(), Arc::new(1)), ("in_right".to_string(), Arc::new(1))]
    );
    assert_eq!(b.materialized("r").unwrap(), &1);
    // binding the name again replaces what was kept
    b.bind("r".to_string(), once(2));
    assert_eq!(*b.take_materialized("r").unwrap(), 2);
    assert!(b.get("r").is_none());
    // the return step takes a kept relation for good
    b.bind("r".to_string(), kept(3));
    assert_eq!(*b.export("r").unwrap(), 3);
    assert!(b.get("r").is_none());
}

#[test]
fn two_merges_share_a_materialized_scan() {
    let ir = plan(vec![
        materialized_source("b"),
        merge(&[("in_0", "b")], "m1"),
        merge(&[("in_0", "b")], "m2"),
        give_back("m2"),
    ]);
    let sources = sources();
    let mut run: Run<&str> = Run::start();
    assert!(matches!(run.begin(&ir, &sources).unwrap(), Action::Read(Read::Query(_))));
    run.finish(&ir, "rows of b");
    for result in ["first", "second"] {
        match run.begin(&ir, &sources).unwrap() {
            Action::Merge(inputs) => {
                assert_eq!(inputs, vec![("in_0".to_string(), Arc::new("rows of b"))])
            }
            _ => panic!("expected a merge"),
        }
        run.finish(&ir, result);
    }
    match run.begin(&ir, &sources).unwrap() {
        Action::Done(result) => assert_eq!(*result, "second"),
        _ => panic!("expected the result"),
    }
}

#[test]
fn a_scan_that_is_not_materialized_feeds_one_merge() {
    let ir = plan(vec![
        source("b"),
        merge(&[("in_0", "b")], "m1"),
        merge(&[("in_0", "b")], "m2"),
        give_back("m2"),
    ]);
    let sources = sources();
    let mut run: Run<u32> = Run::start();
    run.begin(&ir, &sources).unwrap();
    run.finish(&ir, 1);
    run.begin(&ir, &sources).unwrap();
    run.finish(&ir, 2);
    assert_eq!(planning(run.begin(&ir, &sources)), "unknown binding 'b'");
}

#[test]
fn steps_that_cannot_begin() {
    let sources = sources();
    let begin = |step: Step| -> Result<Action<u32>, EngineError> {
        Run::start().begin(&plan(vec![step]), &sources)
    };
    assert_eq!(runtime(begin(collect("x", "k"))), "unknown binding 'x'");
    assert_eq!(runtime(begin(probe("x", "p"))), "binding 'x' does not hold distinct keys");
    assert_eq!(runtime(begin(give_back("x"))), "return of unknown binding 'x'");
    assert_eq!(planning(begin(merge(&[("in_0", "x")], "y"))), "unknown binding 'x'");
    let unknown = Step::Merge {
        fragment: "nope".to_string(),
        inputs: vec![],
        binding: "y".to_string(),
    };
    assert_eq!(runtime(begin(unknown)), "unknown fragment 'nope'");
    let unregistered = Step::SourceScan {
        datasource: "gone".to_string(),
        scan: scan("t"),
        binding: "b".to_string(),
        materialize: true,
    };
    assert_eq!(runtime(begin(unregistered)), "datasource 'gone' is not registered");
    let empty: Result<Action<u32>, EngineError> = Run::start().begin(&plan(vec![]), &sources);
    assert_eq!(runtime(empty), "IR had no `return` step");
}

#[test]
fn fragments_have_names() {
    let ir = plan(vec![]);
    assert!(find_fragment(&ir, "f1").is_some());
    assert!(find_fragment(&ir, "f2").is_none());
    let column = IrExpr::Column { relation: None, name: "a".to_string() };
    let labelled = [
        (
            Fragment::HashJoin {
                join_type: JoinKind::Inner,
                left_keys: vec![],
                right_keys: vec![],
                project: vec![],
            },
            "hash_join",
        ),
        (
            Fragment::NestedLoopJoin { join_type: JoinKind::Left, condition: None, project: vec![] },
            "nested_loop_join",
        ),
        (Fragment::Project { project: vec![], distinct: true }, "project"),
        (
            Fragment::Aggregate { select: vec![], group_by: vec![], grouping_sets: vec![] },
            "aggregate",
        ),
        (Fragment::Sort { keys: vec![] }, "sort"),
        (Fragment::Filter { predicate: column }, "filter"),
        (Fragment::Limit { limit: None, offset: 0 }, "limit"),
        (Fragment::SingleRowGuard { keys: vec![] }, "single_row_guard"),
        (Fragment::RawSql { sql: String::new() }, "raw_sql"),
    ];
    for (fragment, label) in labelled {
        assert_eq!(fragment_kind(&fragment), label);
    }
}

#[test]
fn finished_steps_are_described() {
    let ir = plan(vec![]);
    assert_eq!(log_step(&source("b"), &ir, 42), "source_scan   ds=pg     rows=42        t");
    assert_eq!(
        log_step(&collect("b", "k"), &ir, 7),
        "collect_dist  key=k                    rows=7"
    );
    assert_eq!(
        log_step(&probe("k", "p"), &ir, 1234567890),
        "injected_scan ds=pg     rows=1234567890 col=k p"
    );
    assert_eq!(log_step(&merge(&[], "m"), &ir, 5), "merge         raw_sql          rows=5");
    let unknown = Step::Merge {
        fragment: "nope".to_string(),
        inputs: vec![],
        binding: "y".to_string(),
    };
    assert_eq!(log_step(&unknown, &ir, 0), "merge         ?                rows=0");
    assert_eq!(log_step(&give_back("m"), &ir, 0), "return");
    let long = Step::SourceScan {
        datasource: "postgres".to_string(),
        scan: ScanSpec { raw_sql: Some("x".repeat(200)), ..ScanSpec::default() },
        binding: "b".to_string(),
        materialize: false,
    };
    assert_eq!(
        log_step(&long, &ir, 1),
        format!("source_scan   ds=postgres rows=1         {}", "x".repeat(100))
    );
}

#[test]
fn profiling_is_off_unless_asked_for() {
    let value = |v: &str| Some(v.to_string());
    assert!(!profile_enabled(&None));
    assert!(!profile_enabled(&value("")));
    assert!(!profile_enabled(&value("0")));
    assert!(profile_enabled(&value("1")));
    assert!(profile_enabled(&value("00")));
}
