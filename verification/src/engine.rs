//! Running a plan, step by step.
//!
//! A `Run` knows which step is next and what is bound. `begin` says what has to
//! be done for the next step; the caller does it and hands the result to
//! `finish`, which binds it and moves on. `T` is whatever the caller holds a
//! relation in.

use std::sync::Arc;
use vstd::prelude::*;
use vstd::string::*;

use crate::bindings::{
    consumed, consuming_keeps_other_names, is_kept, kept_relations_stay_bound, key_values, relation,
    returned, tables, Binding, Bindings,
};
use crate::catalog::{DsSpec, Registry};
use crate::error::{EngineError, EngineFault, Fault};
use crate::expr::{naming, naming_text};
use crate::ir::{Fragment, Ir, ScanSpec, Step};
use crate::strategy::{source_of, source_read, Read, ReadView};
use crate::text::{clip, clipped, decimal, decimal_text, pad, padded, same};

verus! {

// Fragments by name.

/// The place of the fragment `name` in a list, the list's length when it is not
/// there.
pub open spec fn fragment_place(fragments: Seq<(String, Fragment)>, name: Seq<char>) -> int
    decreases fragments.len(),
{
    if fragments.len() == 0 {
        0
    } else if fragments[0].0@ == name {
        0
    } else {
        1 + fragment_place(fragments.skip(1), name)
    }
}

/// The fragment `name` of a plan.
pub open spec fn fragment_named(ir: Ir, name: Seq<char>) -> Option<Fragment> {
    let place = fragment_place(ir.fragments@, name);
    if place < ir.fragments@.len() {
        Some(ir.fragments@[place].1)
    } else {
        None
    }
}

/// The fragment `name` of a plan.
pub fn find_fragment<'a>(ir: &'a Ir, name: &str) -> (r: Option<&'a Fragment>)
    ensures
        match r {
            Some(fragment) => fragment_named(*ir, name@) == Some(*fragment),
            None => fragment_named(*ir, name@) is None,
        },
        r matches Some(fragment) ==> exists|i: int|
            {
                &&& 0 <= i < ir.fragments@.len()
                &&& (#[trigger] ir.fragments@[i]).0@ == name@
                &&& ir.fragments@[i].1 == *fragment
                &&& forall|j: int| 0 <= j < i ==> (#[trigger] ir.fragments@[j]).0@ != name@
            },
        r is None ==> forall|i: int|
            0 <= i < ir.fragments@.len() ==> (#[trigger] ir.fragments@[i]).0@ != name@,
{
    let ghost all = ir.fragments@;
    proof {
        assert(all.skip(0) =~= all);
    }
    for i in 0..ir.fragments.len()
        invariant
            all == ir.fragments@,
            fragment_place(all, name@) == i + fragment_place(all.skip(i as int), name@),
            forall|j: int| 0 <= j < i ==> (#[trigger] all[j]).0@ != name@,
    {
        proof {
            assert(all.skip(i as int)[0] == all[i as int]);
            assert(all.skip(i as int).skip(1) =~= all.skip(i + 1));
        }
        if same(ir.fragments[i].0.as_str(), name) {
            return Some(&ir.fragments[i].1);
        }
    }
    None
}

/// A fragment is found by its name: it stands in the plan under that name, and
/// no fragment before it does. A name that no fragment stands under is not
/// found.
pub proof fn fragments_are_found_by_name(ir: Ir, name: Seq<char>)
    ensures
        match fragment_named(ir, name) {
            Some(fragment) => exists|i: int|
                {
                    &&& 0 <= i < ir.fragments@.len()
                    &&& (#[trigger] ir.fragments@[i]).0@ == name
                    &&& ir.fragments@[i].1 == fragment
                    &&& forall|j: int| 0 <= j < i ==> (#[trigger] ir.fragments@[j]).0@ != name
                },
            None => forall|i: int|
                0 <= i < ir.fragments@.len() ==> (#[trigger] ir.fragments@[i]).0@ != name,
        },
{
    lemma_fragment_place(ir.fragments@, name);
    let place = fragment_place(ir.fragments@, name);
    if place < ir.fragments@.len() {
        assert(ir.fragments@[place].0@ == name);
    }
}

/// Under distinct names, every fragment is found by its own.
pub proof fn every_fragment_is_found_by_its_name(ir: Ir, i: int)
    requires
        0 <= i < ir.fragments@.len(),
        forall|j: int, k: int|
            0 <= j < k < ir.fragments@.len() ==> (#[trigger] ir.fragments@[j]).0@ != (
            #[trigger] ir.fragments@[k]).0@,
    ensures
        fragment_named(ir, ir.fragments@[i].0@) == Some(ir.fragments@[i].1),
{
    fragments_are_found_by_name(ir, ir.fragments@[i].0@);
}

/// The place of a fragment is the first under its name.
proof fn lemma_fragment_place(fragments: Seq<(String, Fragment)>, name: Seq<char>)
    ensures
        0 <= fragment_place(fragments, name) <= fragments.len(),
        fragment_place(fragments, name) < fragments.len() ==> fragments[fragment_place(
            fragments,
            name,
        )].0@ == name,
        forall|j: int|
            0 <= j < fragment_place(fragments, name) ==> (#[trigger] fragments[j]).0@ != name,
    decreases fragments.len(),
{
    if fragments.len() > 0 && fragments[0].0@ != name {
        lemma_fragment_place(fragments.skip(1), name);
        let place = fragment_place(fragments.skip(1), name);
        assert forall|j: int| 0 <= j < place + 1 implies (#[trigger] fragments[j]).0@ != name by {
            if j > 0 {
                assert(fragments.skip(1)[j - 1] == fragments[j]);
            }
        }
    }
}

// The steps of a run.

/// What has to be done for a step.
pub enum Action<T> {
    /// Read a source.
    Read(Read),
    /// Collect the distinct, NULL-free values of the step's key column.
    Collect,
    /// Read a probe with the step's keys.
    Probe,
    /// Run the step's fragment over these inputs, by table name.
    Merge(Vec<(String, Arc<T>)>),
    /// Nothing: this is the result of the query.
    Done(Arc<T>),
}

/// An action with its texts as characters.
pub enum ActionView<T> {
    Read(ReadView),
    Collect,
    Probe,
    Merge(Seq<(Seq<char>, T)>),
    Done(T),
}

impl<T> View for Action<T> {
    type V = ActionView<T>;

    open spec fn view(&self) -> ActionView<T> {
        match *self {
            Action::Read(read) => ActionView::Read(read@),
            Action::Collect => ActionView::Collect,
            Action::Probe => ActionView::Probe,
            Action::Merge(inputs) => ActionView::Merge(tables(inputs@)),
            Action::Done(value) => ActionView::Done(*value),
        }
    }
}

/// What beginning a step leaves bound, and what has to be done for it.
pub open spec fn begun<T>(
    ir: Ir,
    step: Step,
    bound: Map<Seq<char>, Binding<T>>,
    registered: Map<Seq<char>, DsSpec>,
) -> (Map<Seq<char>, Binding<T>>, Result<ActionView<T>, EngineFault>) {
    match step {
        Step::SourceScan { datasource, scan, binding, materialize } => (
            bound,
            match source_of(registered, datasource@, scan) {
                Ok(read) => Ok(ActionView::Read(read)),
                Err(f) => Err(f),
            },
        ),
        Step::CollectDistinct { input, key, cap, binding } => (
            bound,
            match relation(bound, input@) {
                Ok(_) => Ok(ActionView::Collect),
                Err(message) => Err(EngineFault::Runtime(message)),
            },
        ),
        Step::InjectedScan { keys_from, .. } => (
            bound,
            match key_values(bound, keys_from@) {
                Ok(_) => Ok(ActionView::Probe),
                Err(message) => Err(EngineFault::Runtime(message)),
            },
        ),
        Step::Merge { fragment, inputs, binding } => match fragment_named(ir, fragment@) {
            None => (
                bound,
                Err(EngineFault::Runtime(naming("unknown fragment "@, fragment@, ""@))),
            ),
            Some(_) => (
                consumed(bound, inputs@).0,
                match consumed(bound, inputs@).1 {
                    Ok(list) => Ok(ActionView::Merge(list)),
                    Err(message) => Err(EngineFault::Plan(Fault::Plan(message))),
                },
            ),
        },
        Step::Return { input } => (
            bound.remove(input@),
            match returned(bound, input@) {
                Ok(value) => Ok(ActionView::Done(value)),
                Err(message) => Err(EngineFault::Runtime(message)),
            },
        ),
    }
}

/// What a step binds its result to: the name and the result, as a relation or
/// as key values. A scan marked `materialize` gives a relation that is kept.
/// The return step binds nothing.
pub open spec fn bound_by<T>(step: Step, value: T) -> Option<(Seq<char>, Binding<T>)> {
    let value = Arc::new(value);
    match step {
        Step::SourceScan { binding, materialize, .. } => Some(
            (binding@, Binding::Materialized { value, kept: materialize }),
        ),
        Step::CollectDistinct { binding, .. } => Some((binding@, Binding::Keys(*value))),
        Step::InjectedScan { binding, .. } => Some(
            (binding@, Binding::Materialized { value, kept: false }),
        ),
        Step::Merge { binding, .. } => Some(
            (binding@, Binding::Materialized { value, kept: false }),
        ),
        Step::Return { .. } => None,
    }
}

/// A plan in the course of being run.
pub struct Run<T> {
    bindings: Bindings<T>,
    next: usize,
}

impl<T> Run<T> {
    /// What is bound.
    pub closed spec fn bound(self) -> Map<Seq<char>, Binding<T>> {
        self.bindings@
    }

    /// The place of the next step.
    pub closed spec fn place(self) -> nat {
        self.next as nat
    }

    /// A plan that no step of was run yet.
    pub fn start() -> (r: Self)
        ensures
            r.bound() == Map::<Seq<char>, Binding<T>>::empty(),
            r.place() == 0,
    {
        Run { bindings: Bindings::new(), next: 0 }
    }

    /// The intermediates bound so far.
    pub fn bindings(&self) -> (r: &Bindings<T>)
        ensures
            r@ == self.bound(),
    {
        &self.bindings
    }

    /// The place of the next step.
    pub fn next_step(&self) -> (r: usize)
        ensures
            r == self.place(),
    {
        self.next
    }

    /// Begin the next step: what has to be done for it. A plan that runs out of
    /// steps has no result.
    pub fn begin(&mut self, ir: &Ir, registry: &Registry) -> (r: Result<Action<T>, EngineError>)
        ensures
            final(self).place() == old(self).place(),
            old(self).place() < ir.steps@.len() ==> {
                let expected = begun(
                    *ir,
                    ir.steps@[old(self).place() as int],
                    old(self).bound(),
                    registry@,
                );
                &&& final(self).bound() == expected.0
                &&& match r {
                    Ok(action) => expected.1 == Ok::<ActionView<T>, EngineFault>(action@),
                    Err(e) => expected.1 == Err::<ActionView<T>, EngineFault>(e@),
                }
            },
            old(self).place() >= ir.steps@.len() ==> {
                &&& final(self).bound() == old(self).bound()
                &&& r matches Err(e)
                &&& e@ == EngineFault::Runtime("IR had no `return` step"@)
            },
    {
        if self.next >= ir.steps.len() {
            return Err(EngineError::Runtime("IR had no `return` step".to_owned()));
        }
        match &ir.steps[self.next] {
            Step::SourceScan { datasource, scan, binding: _, materialize: _ } => {
                let read = source_read(registry, datasource.as_str(), scan)?;
                Ok(Action::Read(read))
            },
            Step::CollectDistinct { input, key: _, cap: _, binding: _ } => {
                let _source = self.bindings.materialized(input.as_str())?;
                Ok(Action::Collect)
            },
            Step::InjectedScan { keys_from, .. } => {
                let _keys = self.bindings.keys_binding(keys_from.as_str())?;
                Ok(Action::Probe)
            },
            Step::Merge { fragment, inputs, binding: _ } => {
                if find_fragment(ir, fragment.as_str()).is_none() {
                    return Err(
                        EngineError::Runtime(
                            naming_text("unknown fragment ", fragment.as_str(), ""),
                        ),
                    );
                }
                match self.bindings.take_inputs(inputs) {
                    Ok(list) => Ok(Action::Merge(list)),
                    Err(e) => Err(EngineError::Plan(e)),
                }
            },
            Step::Return { input } => {
                let value = self.bindings.export(input.as_str())?;
                Ok(Action::Done(value))
            },
        }
    }

    /// Finish the step that was begun: bind its result and move on.
    pub fn finish(&mut self, ir: &Ir, value: T)
        requires
            old(self).place() < ir.steps@.len(),
            ir.steps@[old(self).place() as int] !is Return,
        ensures
            final(self).place() == old(self).place() + 1,
            ({
                let entry = bound_by(ir.steps@[old(self).place() as int], value)->0;
                final(self).bound() == old(self).bound().insert(entry.0, entry.1)
            }),
    {
        match &ir.steps[self.next] {
            Step::SourceScan { binding, materialize, .. } => {
                let relation = Binding::Materialized { value: Arc::new(value), kept: *materialize };
                self.bindings.bind(binding.clone(), relation);
            },
            Step::CollectDistinct { binding, .. } => {
                self.bindings.bind(binding.clone(), Binding::Keys(value));
            },
            Step::InjectedScan { binding, .. } => {
                let relation = Binding::Materialized { value: Arc::new(value), kept: false };
                self.bindings.bind(binding.clone(), relation);
            },
            Step::Merge { binding, .. } => {
                let relation = Binding::Materialized { value: Arc::new(value), kept: false };
                self.bindings.bind(binding.clone(), relation);
            },
            Step::Return { .. } => {},
        }
        proof {
            assert(self.next < ir.steps.len());
        }
        self.next = self.next + 1;
    }
}

/// Only a merge and the return step consume bindings: the other steps leave
/// what they read in place.
pub proof fn reading_steps_keep_bindings<T>(
    ir: Ir,
    step: Step,
    bound: Map<Seq<char>, Binding<T>>,
    registered: Map<Seq<char>, DsSpec>,
)
    requires
        step !is Merge,
        step !is Return,
    ensures
        begun(ir, step, bound, registered).0 == bound,
{
}

/// The result of a step is the result of the query when the next step returns
/// it.
pub proof fn returned_result_is_the_last_bound<T>(
    ir: Ir,
    step: Step,
    value: T,
    last: Step,
    bound: Map<Seq<char>, Binding<T>>,
    registered: Map<Seq<char>, DsSpec>,
)
    requires
        step !is Return,
        step !is CollectDistinct,
        last is Return,
        bound_by(step, value) matches Some(entry) && entry.0 == last->Return_input@,
    ensures
        ({
            let entry = bound_by(step, value)->0;
            begun(ir, last, bound.insert(entry.0, entry.1), registered).1 == Ok::<
                ActionView<T>,
                EngineFault,
            >(ActionView::Done(value))
        }),
{
}

/// Collected keys reach the probe that names them, and are no input of a
/// fragment and no result.
pub proof fn collected_keys_reach_the_probe<T>(
    ir: Ir,
    step: Step,
    keys: T,
    probe: Step,
    bound: Map<Seq<char>, Binding<T>>,
    registered: Map<Seq<char>, DsSpec>,
)
    requires
        step is CollectDistinct,
        probe is InjectedScan,
        bound_by(step, keys) matches Some(entry) && entry.0 == probe->InjectedScan_keys_from@,
    ensures
        ({
            let entry = bound_by(step, keys)->0;
            let after = bound.insert(entry.0, entry.1);
            &&& begun(ir, probe, after, registered).1 == Ok::<ActionView<T>, EngineFault>(
                ActionView::Probe,
            )
            &&& key_values(after, entry.0) == Ok::<T, Seq<char>>(keys)
            &&& returned(after, entry.0) is Err
        }),
{
}

/// What is bound after the first `n` steps of a plan, when step `i` gave
/// `results[i]`.
pub open spec fn bound_after<T>(
    ir: Ir,
    results: Seq<T>,
    n: int,
    registered: Map<Seq<char>, DsSpec>,
) -> Map<Seq<char>, Binding<T>>
    decreases n,
{
    if n <= 0 {
        Map::empty()
    } else {
        let step = ir.steps@[n - 1];
        let before = bound_after(ir, results, n - 1, registered);
        let begun_with = begun(ir, step, before, registered).0;
        match bound_by(step, results[n - 1]) {
            Some(entry) => begun_with.insert(entry.0, entry.1),
            None => begun_with,
        }
    }
}

/// Whether a step binds `name` or may consume what is bound to it.
pub open spec fn touches(step: Step, name: Seq<char>) -> bool {
    match step {
        Step::SourceScan { binding, .. } => binding@ == name,
        Step::CollectDistinct { binding, .. } => binding@ == name,
        Step::InjectedScan { binding, .. } => binding@ == name,
        Step::Merge { inputs, binding, .. } => binding@ == name || exists|i: int|
            0 <= i < inputs@.len() && (#[trigger] inputs@[i]).1@ == name,
        Step::Return { input } => input@ == name,
    }
}

/// What a step bound stays bound, whatever the steps in between do, until a
/// step binds the name again or consumes it.
pub proof fn bindings_last_until_touched<T>(
    ir: Ir,
    results: Seq<T>,
    at: int,
    n: int,
    name: Seq<char>,
    registered: Map<Seq<char>, DsSpec>,
)
    requires
        0 <= at < n <= ir.steps@.len(),
        bound_by(ir.steps@[at], results[at]) matches Some(entry) && entry.0 == name,
        forall|i: int| at < i < n ==> !touches(#[trigger] ir.steps@[i], name),
    ensures
        bound_after(ir, results, n, registered).contains_key(name),
        bound_after(ir, results, n, registered)[name] == (bound_by(
            ir.steps@[at],
            results[at],
        )->0).1,
    decreases n,
{
    if at < n - 1 {
        bindings_last_until_touched(ir, results, at, n - 1, name, registered);
        let step = ir.steps@[n - 1];
        assert(!touches(step, name));
        if let Step::Merge { inputs, .. } = step {
            consuming_keeps_other_names(
                bound_after(ir, results, n - 1, registered),
                inputs@,
                name,
            );
        }
    }
}

/// The result of a query is the relation that the last step to bind its name
/// gave, whatever ran in between.
pub proof fn result_is_what_was_bound<T>(
    ir: Ir,
    results: Seq<T>,
    at: int,
    n: int,
    registered: Map<Seq<char>, DsSpec>,
)
    requires
        0 <= at < n < ir.steps@.len(),
        ir.steps@[n] is Return,
        ir.steps@[at] !is CollectDistinct,
        bound_by(ir.steps@[at], results[at]) matches Some(entry) && entry.0
            == ir.steps@[n]->Return_input@,
        forall|i: int|
            at < i < n ==> !touches(#[trigger] ir.steps@[i], ir.steps@[n]->Return_input@),
    ensures
        begun(ir, ir.steps@[n], bound_after(ir, results, n, registered), registered).1 == Ok::<
            ActionView<T>,
            EngineFault,
        >(ActionView::Done(results[at])),
{
    bindings_last_until_touched(
        ir,
        results,
        at,
        n,
        ir.steps@[n]->Return_input@,
        registered,
    );
}

/// Whether a step binds `name`, or returns what is bound to it.
pub open spec fn rebinds(step: Step, name: Seq<char>) -> bool {
    match step {
        Step::SourceScan { binding, .. } => binding@ == name,
        Step::CollectDistinct { binding, .. } => binding@ == name,
        Step::InjectedScan { binding, .. } => binding@ == name,
        Step::Merge { binding, .. } => binding@ == name,
        Step::Return { input } => input@ == name,
    }
}

/// The result of a scan marked `materialize` stays bound until a step binds its
/// name again or returns it: any number of merges in between may read it, and
/// each gets what the scan gave.
pub proof fn materialized_scans_stay_bound<T>(
    ir: Ir,
    results: Seq<T>,
    at: int,
    n: int,
    registered: Map<Seq<char>, DsSpec>,
)
    requires
        0 <= at < n <= ir.steps@.len(),
        ir.steps@[at] matches Step::SourceScan { materialize, .. } && materialize,
        forall|i: int|
            at < i < n ==> !rebinds(
                #[trigger] ir.steps@[i],
                ir.steps@[at]->SourceScan_binding@,
            ),
    ensures
        ({
            let name = ir.steps@[at]->SourceScan_binding@;
            let bound = bound_after(ir, results, n, registered);
            &&& is_kept(bound, name)
            &&& relation(bound, name) == Ok::<T, Seq<char>>(results[at])
        }),
    decreases n,
{
    if at < n - 1 {
        materialized_scans_stay_bound(ir, results, at, n - 1, registered);
        let name = ir.steps@[at]->SourceScan_binding@;
        let step = ir.steps@[n - 1];
        assert(!rebinds(step, name));
        if let Step::Merge { inputs, .. } = step {
            kept_relations_stay_bound(
                bound_after(ir, results, n - 1, registered),
                inputs@,
                name,
            );
        }
    }
}

/// A fragment over the result of a scan marked `materialize` gets that result,
/// also when a fragment before it did.
pub proof fn merges_share_a_materialized_scan<T>(
    ir: Ir,
    results: Seq<T>,
    at: int,
    n: int,
    table: String,
    registered: Map<Seq<char>, DsSpec>,
)
    requires
        0 <= at < n < ir.steps@.len(),
        ir.steps@[at] matches Step::SourceScan { materialize, .. } && materialize,
        forall|i: int|
            at < i < n ==> !rebinds(
                #[trigger] ir.steps@[i],
                ir.steps@[at]->SourceScan_binding@,
            ),
        ir.steps@[n] matches Step::Merge { fragment, inputs, .. } && fragment_named(
            ir,
            fragment@,
        ) is Some && inputs@ == seq![(table, ir.steps@[at]->SourceScan_binding)],
    ensures
        begun(ir, ir.steps@[n], bound_after(ir, results, n, registered), registered).1 == Ok::<
            ActionView<T>,
            EngineFault,
        >(ActionView::Merge(seq![(table@, results[at])])),
{
    materialized_scans_stay_bound(ir, results, at, n, registered);
    let bound = bound_after(ir, results, n, registered);
    let inputs = ir.steps@[n]->Merge_inputs@;
    assert(inputs.drop_last() =~= Seq::empty());
    assert(consumed(bound, inputs.drop_last()) == (
        bound,
        Ok::<Seq<(Seq<char>, T)>, Seq<char>>(Seq::empty()),
    ));
    assert(consumed(bound, inputs).1->Ok_0 =~= seq![(table@, results[at])]);
}

// Profiling.

/// The operator name of a fragment.
pub open spec fn fragment_label(fragment: Fragment) -> Seq<char> {
    match fragment {
        Fragment::HashJoin { .. } => "hash_join"@,
        Fragment::NestedLoopJoin { .. } => "nested_loop_join"@,
        Fragment::Project { .. } => "project"@,
        Fragment::Aggregate { .. } => "aggregate"@,
        Fragment::Sort { .. } => "sort"@,
        Fragment::Filter { .. } => "filter"@,
        Fragment::Limit { .. } => "limit"@,
        Fragment::SingleRowGuard { .. } => "single_row_guard"@,
        Fragment::RawSql { .. } => "raw_sql"@,
    }
}

/// The operator name of a fragment.
pub fn fragment_kind(fragment: &Fragment) -> (r: &'static str)
    ensures
        r@ == fragment_label(*fragment),
{
    match fragment {
        Fragment::HashJoin { .. } => "hash_join",
        Fragment::NestedLoopJoin { .. } => "nested_loop_join",
        Fragment::Project { .. } => "project",
        Fragment::Aggregate { .. } => "aggregate",
        Fragment::Sort { .. } => "sort",
        Fragment::Filter { .. } => "filter",
        Fragment::Limit { .. } => "limit",
        Fragment::SingleRowGuard { .. } => "single_row_guard",
        Fragment::RawSql { .. } => "raw_sql",
    }
}

/// What a scan reads, in a word: its SQL, its table, or a question mark.
pub open spec fn scan_label(scan: ScanSpec) -> Seq<char> {
    match scan.raw_sql {
        Some(raw) => raw@,
        None => match scan.table {
            Some(table) => table@,
            None => "?"@,
        },
    }
}

/// One line about a finished step: what ran, and how many rows it bound.
pub open spec fn step_line(step: Step, ir: Ir, rows: nat) -> Seq<char> {
    match step {
        Step::SourceScan { datasource, scan, .. } => "source_scan   ds="@ + padded(datasource@, 6)
            + " rows="@ + padded(decimal(rows), 9) + " "@ + clipped(scan_label(scan), 100),
        Step::CollectDistinct { key, .. } => "collect_dist  key="@ + padded(key@, 20) + " rows="@
            + decimal(rows),
        Step::InjectedScan { datasource, scan, inject_column, .. } => "injected_scan ds="@ + padded(
            datasource@,
            6,
        ) + " rows="@ + padded(decimal(rows), 9) + " col="@ + inject_column@ + " "@ + clipped(
            scan_label(scan),
            80,
        ),
        Step::Merge { fragment, .. } => "merge         "@ + padded(
            match fragment_named(ir, fragment@) {
                Some(f) => fragment_label(f),
                None => "?"@,
            },
            16,
        ) + " rows="@ + decimal(rows),
        Step::Return { .. } => "return"@,
    }
}

/// What a scan reads, in a word, cut to `limit` characters.
fn scan_words(scan: &ScanSpec, limit: usize) -> (r: String)
    ensures
        r@ == clipped(scan_label(*scan), limit as nat),
{
    match &scan.raw_sql {
        Some(raw) => clip(raw.as_str(), limit),
        None => match &scan.table {
            Some(table) => clip(table.as_str(), limit),
            None => clip("?", limit),
        },
    }
}

/// One line about a finished step: what ran, and how many rows it bound.
pub fn log_step(step: &Step, ir: &Ir, rows: usize) -> (r: String)
    ensures
        r@ == step_line(*step, *ir, rows as nat),
{
    let count = decimal_text(rows as u64);
    match step {
        Step::SourceScan { datasource, scan, .. } => {
            let mut line = "source_scan   ds=".to_owned();
            line.append(pad(datasource.as_str(), 6).as_str());
            line.append(" rows=");
            line.append(pad(count.as_str(), 9).as_str());
            line.append(" ");
            line.append(scan_words(scan, 100).as_str());
            line
        },
        Step::CollectDistinct { key, .. } => {
            let mut line = "collect_dist  key=".to_owned();
            line.append(pad(key.as_str(), 20).as_str());
            line.append(" rows=");
            line.append(count.as_str());
            line
        },
        Step::InjectedScan { datasource, scan, inject_column, .. } => {
            let mut line = "injected_scan ds=".to_owned();
            line.append(pad(datasource.as_str(), 6).as_str());
            line.append(" rows=");
            line.append(pad(count.as_str(), 9).as_str());
            line.append(" col=");
            line.append(inject_column.as_str());
            line.append(" ");
            line.append(scan_words(scan, 80).as_str());
            line
        },
        Step::Merge { fragment, .. } => {
            let label = match find_fragment(ir, fragment.as_str()) {
                Some(f) => fragment_kind(f),
                None => "?",
            };
            let mut line = "merge         ".to_owned();
            line.append(pad(label, 16).as_str());
            line.append(" rows=");
            line.append(count.as_str());
            line
        },
        Step::Return { .. } => "return".to_owned(),
    }
}

/// Whether the value of the profiling variable asks for a line for each step:
/// it is set, not empty and not "0".
pub fn profile_enabled(value: &Option<String>) -> (r: bool)
    ensures
        r == (value matches Some(v) && v@ != "0"@ && v@.len() > 0),
{
    match value {
        Some(v) => !same(v.as_str(), "0") && v.as_str().unicode_len() > 0,
        None => false,
    }
}

// What a step does.

/// What has to be done for a step is what the step says: a scan is read as its
/// own source is, keys are collected from a relation, a probe is read with
/// collected keys, a merge runs a fragment of the plan over all its inputs, and
/// the result is what is bound to the name that is returned.
pub proof fn steps_do_what_they_say<T>(
    ir: Ir,
    step: Step,
    bound: Map<Seq<char>, Binding<T>>,
    registered: Map<Seq<char>, DsSpec>,
)
    ensures
        begun(ir, step, bound, registered).1 matches Ok(action) ==> match step {
            Step::SourceScan { datasource, scan, .. } => action matches ActionView::Read(read)
                && source_of(registered, datasource@, scan) == Ok::<ReadView, EngineFault>(read),
            Step::CollectDistinct { input, .. } => action is Collect && relation(bound, input@) is Ok,
            Step::InjectedScan { keys_from, .. } => action is Probe && key_values(
                bound,
                keys_from@,
            ) is Ok,
            Step::Merge { fragment, inputs, .. } => {
                &&& action matches ActionView::Merge(list)
                &&& consumed(bound, inputs@).1 == Ok::<Seq<(Seq<char>, T)>, Seq<char>>(list)
                &&& exists|i: int|
                    0 <= i < ir.fragments@.len() && (#[trigger] ir.fragments@[i]).0@ == fragment@
            },
            Step::Return { input } => action matches ActionView::Done(value) && relation(
                bound,
                input@,
            ) == Ok::<T, Seq<char>>(value),
        },
{
    if let Step::Merge { fragment, .. } = step {
        fragments_are_found_by_name(ir, fragment@);
    }
}

/// A step that can be done is not refused: its source can be read, what it reads
/// is bound, and its fragment stands in the plan.
pub proof fn steps_that_can_be_done_are_not_refused<T>(
    ir: Ir,
    step: Step,
    bound: Map<Seq<char>, Binding<T>>,
    registered: Map<Seq<char>, DsSpec>,
)
    ensures
        match step {
            Step::SourceScan { datasource, scan, .. } => source_of(
                registered,
                datasource@,
                scan,
            ) is Ok,
            Step::CollectDistinct { input, .. } => relation(bound, input@) is Ok,
            Step::InjectedScan { keys_from, .. } => key_values(bound, keys_from@) is Ok,
            Step::Merge { fragment, inputs, .. } => consumed(bound, inputs@).1 is Ok && exists|i: int|
                0 <= i < ir.fragments@.len() && (#[trigger] ir.fragments@[i]).0@ == fragment@,
            Step::Return { input } => relation(bound, input@) is Ok,
        } ==> begun(ir, step, bound, registered).1 is Ok,
        step matches Step::Merge { fragment, .. } ==> (fragment_named(ir, fragment@) is None
            ==> begun(ir, step, bound, registered).1 == Err::<ActionView<T>, EngineFault>(
            EngineFault::Runtime("unknown fragment "@ + "'"@ + fragment@ + "'"@),
        )),
{
    if let Step::Merge { fragment, .. } = step {
        fragments_are_found_by_name(ir, fragment@);
        reveal_strlit("");
        assert("unknown fragment "@ + "'"@ + fragment@ + "'"@ + ""@ =~= "unknown fragment "@ + "'"@
            + fragment@ + "'"@);
    }
}

/// A step binds its own result under its own name: as keys if it collects keys,
/// else as a relation, which is kept exactly when a scan is marked
/// `materialize`. The return step binds nothing.
pub proof fn steps_bind_their_result<T>(step: Step, value: T)
    ensures
        match step {
            Step::Return { .. } => bound_by(step, value) is None,
            _ => {
                &&& bound_by(step, value) matches Some((name, binding))
                &&& name == match step {
                    Step::SourceScan { binding, .. } => binding@,
                    Step::CollectDistinct { binding, .. } => binding@,
                    Step::InjectedScan { binding, .. } => binding@,
                    Step::Merge { binding, .. } => binding@,
                    Step::Return { input } => input@,
                }
                &&& match binding {
                    Binding::Keys(keys) => step is CollectDistinct && keys == value,
                    Binding::Materialized { value: held, kept } => step !is CollectDistinct && *held
                        == value && (kept <==> (step matches Step::SourceScan { materialize, .. }
                        && materialize)),
                }
            },
        },
{
}

/// An action shows what it holds.
pub proof fn actions_show_what_they_hold<T>(action: Action<T>)
    ensures
        action matches Action::Read(read) ==> action@ == ActionView::<T>::Read(read@),
        action is Collect <==> action@ is Collect,
        action is Probe <==> action@ is Probe,
        action matches Action::Merge(inputs) ==> (action@ matches ActionView::Merge(list)
            && list.len() == inputs@.len() && forall|i: int|
            0 <= i < list.len() ==> #[trigger] list[i] == (inputs@[i].0@, *inputs@[i].1)),
        action matches Action::Done(value) ==> action@ == ActionView::Done(*value),
{
}

/// The line about a step names what ran, where it read and how many rows it
/// bound, in the columns of its kind of step.
pub proof fn step_lines_name_the_step(step: Step, ir: Ir, rows: nat)
    ensures
        match step {
            Step::SourceScan { datasource, scan, .. } => step_line(step, ir, rows)
                == "source_scan   ds="@ + (padded(datasource@, 6) + " rows="@ + padded(
                decimal(rows),
                9,
            ) + " "@ + clipped(scan_label(scan), 100)),
            Step::CollectDistinct { key, .. } => step_line(step, ir, rows) == "collect_dist  key="@
                + (padded(key@, 20) + " rows="@ + decimal(rows)),
            Step::InjectedScan { datasource, scan, inject_column, .. } => step_line(step, ir, rows)
                == "injected_scan ds="@ + (padded(datasource@, 6) + " rows="@ + padded(
                decimal(rows),
                9,
            ) + " col="@ + inject_column@ + " "@ + clipped(scan_label(scan), 80)),
            Step::Merge { fragment, .. } => step_line(step, ir, rows) == "merge         "@ + (padded(
                match fragment_named(ir, fragment@) {
                    Some(f) => fragment_label(f),
                    None => "?"@,
                },
                16,
            ) + " rows="@ + decimal(rows)),
            Step::Return { .. } => step_line(step, ir, rows) == "return"@,
        },
{
    match step {
        Step::SourceScan { datasource, scan, .. } => assert(step_line(step, ir, rows)
            =~= "source_scan   ds="@ + (padded(datasource@, 6) + " rows="@ + padded(
            decimal(rows),
            9,
        ) + " "@ + clipped(scan_label(scan), 100))),
        Step::CollectDistinct { key, .. } => assert(step_line(step, ir, rows)
            =~= "collect_dist  key="@ + (padded(key@, 20) + " rows="@ + decimal(rows))),
        Step::InjectedScan { datasource, scan, inject_column, .. } => assert(step_line(
            step,
            ir,
            rows,
        ) =~= "injected_scan ds="@ + (padded(datasource@, 6) + " rows="@ + padded(decimal(rows), 9)
            + " col="@ + inject_column@ + " "@ + clipped(scan_label(scan), 80))),
        Step::Merge { fragment, .. } => assert(step_line(step, ir, rows) =~= "merge         "@ + (
        padded(
            match fragment_named(ir, fragment@) {
                Some(f) => fragment_label(f),
                None => "?"@,
            },
            16,
        ) + " rows="@ + decimal(rows))),
        Step::Return { .. } => {},
    }
}

/// A scan goes by its SQL where it has any, else by its table.
pub proof fn scans_go_by_their_sql_or_table(scan: ScanSpec)
    ensures
        scan.raw_sql matches Some(raw) ==> scan_label(scan) == raw@,
        scan.raw_sql is None ==> (scan.table matches Some(table) ==> scan_label(scan) == table@),
        scan.raw_sql is None && scan.table is None ==> scan_label(scan) == "?"@,
{
}

} // verus!
