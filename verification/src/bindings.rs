//! The named intermediates of a query.
//!
//! Every step but the last binds its result under a name. A relation is read
//! by name any number of times until a fragment or the return step consumes
//! it. A fragment leaves a relation that is marked as kept in place, so that
//! further fragments can read it. Collected key values are no relations.

use std::sync::Arc;
use vstd::prelude::*;

use crate::error::{plan_err, EngineError, PlanError};
use crate::expr::{naming, naming_text};
use crate::text_map::TextMap;

verus! {

/// A named intermediate.
pub enum Binding<T> {
    /// The result of a source read or of a fragment. One that is `kept` stays
    /// bound when a fragment reads it.
    Materialized { value: Arc<T>, kept: bool },
    /// The distinct, NULL-free join-key values of a build side.
    Keys(T),
}

/// The intermediates that a query holds at some moment.
pub struct Bindings<T> {
    entries: TextMap<Binding<T>>,
}

impl<T> View for Bindings<T> {
    type V = Map<Seq<char>, Binding<T>>;

    closed spec fn view(&self) -> Map<Seq<char>, Binding<T>> {
        self.entries@
    }
}

/// The relation bound to `name`, or why there is none.
pub open spec fn relation<T>(bound: Map<Seq<char>, Binding<T>>, name: Seq<char>) -> Result<
    T,
    Seq<char>,
> {
    if bound.contains_key(name) {
        match bound[name] {
            Binding::Materialized { value, .. } => Ok(*value),
            Binding::Keys(_) => Err(naming("binding "@, name, " is not a relation"@)),
        }
    } else {
        Err(naming("unknown binding "@, name, ""@))
    }
}

/// The key values bound to `name`, or why there are none.
pub open spec fn key_values<T>(bound: Map<Seq<char>, Binding<T>>, name: Seq<char>) -> Result<
    T,
    Seq<char>,
> {
    if bound.contains_key(name) && bound[name] is Keys {
        Ok(bound[name]->Keys_0)
    } else {
        Err(naming("binding "@, name, " does not hold distinct keys"@))
    }
}

/// The result bound to `name`, or why it cannot be returned.
pub open spec fn returned<T>(bound: Map<Seq<char>, Binding<T>>, name: Seq<char>) -> Result<
    T,
    Seq<char>,
> {
    if bound.contains_key(name) {
        match bound[name] {
            Binding::Materialized { value, .. } => Ok(*value),
            Binding::Keys(_) => Err(naming("cannot return non-relation binding "@, name, ""@)),
        }
    } else {
        Err(naming("return of unknown binding "@, name, ""@))
    }
}

/// Whether `name` is bound to a relation that is kept.
pub open spec fn is_kept<T>(bound: Map<Seq<char>, Binding<T>>, name: Seq<char>) -> bool {
    bound.contains_key(name) && (bound[name] matches Binding::Materialized { kept, .. } && kept)
}

/// What stays bound when `name` is an input of a fragment: everything else,
/// and `name` too when it is kept.
pub open spec fn left_by<T>(bound: Map<Seq<char>, Binding<T>>, name: Seq<char>) -> Map<
    Seq<char>,
    Binding<T>,
> {
    if is_kept(bound, name) {
        bound
    } else {
        bound.remove(name)
    }
}

/// What consuming the inputs of a fragment leaves behind, and the relations it
/// gives under their table names, or why it stops. Each input is consumed in
/// turn; a binding named by two inputs is gone at the second, unless it is
/// kept.
pub open spec fn consumed<T>(
    bound: Map<Seq<char>, Binding<T>>,
    inputs: Seq<(String, String)>,
) -> (Map<Seq<char>, Binding<T>>, Result<Seq<(Seq<char>, T)>, Seq<char>>)
    decreases inputs.len(),
{
    if inputs.len() == 0 {
        (bound, Ok(Seq::empty()))
    } else {
        let (left, taken) = consumed(bound, inputs.drop_last());
        let (table, name) = (inputs.last().0@, inputs.last().1@);
        match taken {
            Err(message) => (left, Err(message)),
            Ok(relations) => (
                left_by(left, name),
                match relation(left, name) {
                    Ok(value) => Ok(relations.push((table, value))),
                    Err(message) => Err(message),
                },
            ),
        }
    }
}

/// The table names and relations of consumed inputs.
pub open spec fn tables<T>(list: Seq<(String, Arc<T>)>) -> Seq<(Seq<char>, T)> {
    list.map_values(|entry: (String, Arc<T>)| (entry.0@, *entry.1))
}

impl<T> Bindings<T> {
    /// Nothing bound.
    pub fn new() -> (r: Self)
        ensures
            r@ == Map::<Seq<char>, Binding<T>>::empty(),
    {
        Bindings { entries: TextMap::new() }
    }

    /// Bind a value to `name`, replacing what was bound to it.
    pub fn bind(&mut self, name: String, value: Binding<T>)
        ensures
            final(self)@ == old(self)@.insert(name@, value),
    {
        self.entries.insert(name, value);
    }

    /// What is bound to `name`.
    pub fn get(&self, name: &str) -> (r: Option<&Binding<T>>)
        ensures
            match r {
                Some(value) => self@.contains_key(name@) && *value == self@[name@],
                None => !self@.contains_key(name@),
            },
    {
        self.entries.get(name)
    }

    /// Borrow a binding as a relation.
    pub fn materialized(&self, name: &str) -> (r: Result<&T, EngineError>)
        ensures
            match r {
                Ok(value) => relation(self@, name@) == Ok::<T, Seq<char>>(*value),
                Err(e) => e@ is Runtime && relation(self@, name@) == Err::<T, Seq<char>>(
                    e@->Runtime_0,
                ),
            },
    {
        match self.entries.get(name) {
            Some(Binding::Materialized { value, .. }) => Ok(value),
            Some(Binding::Keys(_)) => Err(
                EngineError::Runtime(naming_text("binding ", name, " is not a relation")),
            ),
            None => Err(EngineError::Runtime(naming_text("unknown binding ", name, ""))),
        }
    }

    /// Borrow the key values that a binding holds.
    pub fn keys_binding(&self, keys_from: &str) -> (r: Result<&T, EngineError>)
        ensures
            match r {
                Ok(value) => key_values(self@, keys_from@) == Ok::<T, Seq<char>>(*value),
                Err(e) => e@ is Runtime && key_values(self@, keys_from@) == Err::<T, Seq<char>>(
                    e@->Runtime_0,
                ),
            },
    {
        match self.entries.get(keys_from) {
            Some(Binding::Keys(value)) => Ok(value),
            _ => Err(
                EngineError::Runtime(
                    naming_text("binding ", keys_from, " does not hold distinct keys"),
                ),
            ),
        }
    }

    /// Give a relation to a fragment. The name is unbound afterwards, unless
    /// the relation is kept; also when it was bound to key values.
    pub fn take_materialized(&mut self, name: &str) -> (r: Result<Arc<T>, PlanError>)
        ensures
            final(self)@ == left_by(old(self)@, name@),
            match r {
                Ok(value) => relation(old(self)@, name@) == Ok::<T, Seq<char>>(*value),
                Err(e) => e@ is Plan && relation(old(self)@, name@) == Err::<T, Seq<char>>(
                    e@->Plan_0,
                ),
            },
    {
        if let Some(Binding::Materialized { value, kept: true }) = self.entries.get(name) {
            return Ok(value.clone());
        }
        match self.entries.remove(name) {
            Some(Binding::Materialized { value, .. }) => Ok(value),
            Some(Binding::Keys(_)) => Err(
                plan_err(naming_text("binding ", name, " is not a relation")),
            ),
            None => Err(plan_err(naming_text("unknown binding ", name, ""))),
        }
    }

    /// Consume the inputs of a fragment, in the order given.
    pub fn take_inputs(&mut self, inputs: &Vec<(String, String)>) -> (r: Result<
        Vec<(String, Arc<T>)>,
        PlanError,
    >)
        ensures
            final(self)@ == consumed(old(self)@, inputs@).0,
            match r {
                Ok(list) => consumed(old(self)@, inputs@).1 == Ok::<
                    Seq<(Seq<char>, T)>,
                    Seq<char>,
                >(tables(list@)),
                Err(e) => e@ is Plan && consumed(old(self)@, inputs@).1 == Err::<
                    Seq<(Seq<char>, T)>,
                    Seq<char>,
                >(e@->Plan_0),
            },
    {
        let ghost start = self@;
        let mut list: Vec<(String, Arc<T>)> = Vec::new();
        proof {
            assert(tables(list@) =~= Seq::empty());
        }
        for i in 0..inputs.len()
            invariant
                start == old(self)@,
                consumed(start, inputs@.take(i as int)) == (
                    self@,
                    Ok::<Seq<(Seq<char>, T)>, Seq<char>>(tables(list@)),
                ),
        {
            proof {
                assert(inputs@.take(i + 1).drop_last() == inputs@.take(i as int));
                lemma_consuming_stops(start, inputs@, i + 1);
            }
            let ghost before = tables(list@);
            let value = self.take_materialized(inputs[i].1.as_str())?;
            let ghost v = value;
            list.push((inputs[i].0.clone(), value));
            proof {
                assert(tables(list@) =~= before.push((inputs@[i as int].0@, *v)));
            }
        }
        proof {
            assert(inputs@.take(inputs@.len() as int) == inputs@);
        }
        Ok(list)
    }

    /// Consume a binding as the result of the query.
    pub fn export(&mut self, input: &str) -> (r: Result<Arc<T>, EngineError>)
        ensures
            final(self)@ == old(self)@.remove(input@),
            match r {
                Ok(value) => returned(old(self)@, input@) == Ok::<T, Seq<char>>(*value),
                Err(e) => e@ is Runtime && returned(old(self)@, input@) == Err::<T, Seq<char>>(
                    e@->Runtime_0,
                ),
            },
    {
        match self.entries.remove(input) {
            Some(Binding::Materialized { value, .. }) => Ok(value),
            Some(Binding::Keys(_)) => Err(
                EngineError::Runtime(naming_text("cannot return non-relation binding ", input, "")),
            ),
            None => Err(EngineError::Runtime(naming_text("return of unknown binding ", input, ""))),
        }
    }
}

/// Where consuming leading inputs stops, consuming all of them stops.
proof fn lemma_consuming_stops<T>(
    bound: Map<Seq<char>, Binding<T>>,
    inputs: Seq<(String, String)>,
    n: int,
)
    requires
        0 <= n <= inputs.len(),
    ensures
        consumed(bound, inputs.take(n)).1 is Err ==> consumed(bound, inputs) == consumed(
            bound,
            inputs.take(n),
        ),
    decreases inputs.len() - n,
{
    if n < inputs.len() {
        assert(inputs.take(n + 1).drop_last() == inputs.take(n));
        lemma_consuming_stops(bound, inputs, n + 1);
    } else {
        assert(inputs.take(n) == inputs);
    }
}

// What holds across steps.

/// A relation that was bound comes back when it is read, consumed or returned,
/// until its name is bound again.
pub proof fn bound_relation_comes_back<T>(
    bound: Map<Seq<char>, Binding<T>>,
    name: Seq<char>,
    value: T,
    kept: bool,
)
    ensures
        ({
            let after = bound.insert(
                name,
                (Binding::Materialized { value: Arc::new(value), kept }),
            );
            &&& relation(after, name) == Ok::<T, Seq<char>>(value)
            &&& returned(after, name) == Ok::<T, Seq<char>>(value)
        }),
{
}

/// Key values are no relation: they come back as key values only.
pub proof fn key_values_are_kept_apart<T>(
    bound: Map<Seq<char>, Binding<T>>,
    name: Seq<char>,
    keys: T,
)
    ensures
        key_values(bound.insert(name, Binding::Keys(keys)), name) == Ok::<T, Seq<char>>(keys),
        relation(bound.insert(name, Binding::Keys(keys)), name) is Err,
        returned(bound.insert(name, Binding::Keys(keys)), name) is Err,
{
}

/// Binding one name leaves every other name as it was.
pub proof fn binding_touches_one_name<T>(
    bound: Map<Seq<char>, Binding<T>>,
    name: Seq<char>,
    value: Binding<T>,
    other: Seq<char>,
)
    requires
        other != name,
    ensures
        relation(bound.insert(name, value), other) == relation(bound, other),
        key_values(bound.insert(name, value), other) == key_values(bound, other),
        returned(bound.insert(name, value), other) == returned(bound, other),
{
}

/// Consuming inputs unbinds exactly the names that were consumed: a name stays
/// bound, to what it was bound to, when no input mentions it.
pub proof fn consuming_keeps_other_names<T>(
    bound: Map<Seq<char>, Binding<T>>,
    inputs: Seq<(String, String)>,
    other: Seq<char>,
)
    requires
        forall|i: int| 0 <= i < inputs.len() ==> (#[trigger] inputs[i]).1@ != other,
    ensures
        consumed(bound, inputs).0.contains_key(other) == bound.contains_key(other),
        bound.contains_key(other) ==> consumed(bound, inputs).0[other] == bound[other],
    decreases inputs.len(),
{
    if inputs.len() > 0 {
        assert(inputs.last().1@ != other);
        assert forall|i: int| 0 <= i < inputs.drop_last().len() implies (
        #[trigger] inputs.drop_last()[i]).1@ != other by {
            assert(inputs.drop_last()[i] == inputs[i]);
        }
        consuming_keeps_other_names(bound, inputs.drop_last(), other);
    }
}

/// Consuming inputs binds nothing: what is bound afterwards was bound before,
/// to the same.
pub proof fn consuming_only_unbinds<T>(
    bound: Map<Seq<char>, Binding<T>>,
    inputs: Seq<(String, String)>,
    name: Seq<char>,
)
    ensures
        consumed(bound, inputs).0.contains_key(name) ==> bound.contains_key(name) && consumed(
            bound,
            inputs,
        ).0[name] == bound[name],
    decreases inputs.len(),
{
    if inputs.len() > 0 {
        consuming_only_unbinds(bound, inputs.drop_last(), name);
    }
}

/// After its inputs were consumed, a fragment's bindings are gone, but for
/// those that are kept.
pub proof fn consumed_inputs_are_unbound<T>(
    bound: Map<Seq<char>, Binding<T>>,
    inputs: Seq<(String, String)>,
    i: int,
)
    requires
        0 <= i < inputs.len(),
        consumed(bound, inputs).1 is Ok,
        !is_kept(bound, inputs[i].1@),
    ensures
        !consumed(bound, inputs).0.contains_key(inputs[i].1@),
    decreases inputs.len(),
{
    consuming_only_unbinds(bound, inputs.drop_last(), inputs[i].1@);
    if i < inputs.len() - 1 {
        assert(inputs.drop_last()[i] == inputs[i]);
        consumed_inputs_are_unbound(bound, inputs.drop_last(), i);
    }
}

/// A relation that is kept stays bound, to the same value, whatever inputs are
/// consumed, and whether or not it is among them.
pub proof fn kept_relations_stay_bound<T>(
    bound: Map<Seq<char>, Binding<T>>,
    inputs: Seq<(String, String)>,
    name: Seq<char>,
)
    requires
        is_kept(bound, name),
    ensures
        is_kept(consumed(bound, inputs).0, name),
        relation(consumed(bound, inputs).0, name) == relation(bound, name),
        consumed(bound, inputs).0[name] == bound[name],
    decreases inputs.len(),
{
    if inputs.len() > 0 {
        kept_relations_stay_bound(bound, inputs.drop_last(), name);
    }
}

/// Inputs that are all kept are given every time, and leave everything bound:
/// one relation can be two inputs of a fragment, or the input of many.
pub proof fn kept_relations_can_be_given_again<T>(
    bound: Map<Seq<char>, Binding<T>>,
    inputs: Seq<(String, String)>,
)
    requires
        forall|i: int| 0 <= i < inputs.len() ==> is_kept(bound, (#[trigger] inputs[i]).1@),
    ensures
        consumed(bound, inputs).0 == bound,
        consumed(bound, inputs).1 matches Ok(list) && list.len() == inputs.len() && forall|i: int|
            0 <= i < inputs.len() ==> #[trigger] list[i] == (
                inputs[i].0@,
                relation(bound, inputs[i].1@)->Ok_0,
            ),
    decreases inputs.len(),
{
    if inputs.len() > 0 {
        let fewer = inputs.drop_last();
        assert forall|i: int| 0 <= i < fewer.len() implies is_kept(
            bound,
            (#[trigger] fewer[i]).1@,
        ) by {
            assert(fewer[i] == inputs[i]);
        }
        kept_relations_can_be_given_again(bound, fewer);
        assert(is_kept(bound, inputs[inputs.len() - 1].1@));
    }
}

/// What is read, taken as keys or returned under a name is what is bound to it,
/// and of that kind; a name that is bound to nothing, or to the other kind, is
/// refused in words of its own.
pub proof fn names_stand_for_what_is_bound<T>(
    bound: Map<Seq<char>, Binding<T>>,
    name: Seq<char>,
)
    ensures
        match relation(bound, name) {
            Ok(value) => bound.contains_key(name) && (bound[name] matches Binding::Materialized {
                value: held,
                ..
            } && *held == value),
            Err(message) => if bound.contains_key(name) {
                bound[name] is Keys && message == "binding "@ + "'"@ + name + "'"@
                    + " is not a relation"@
            } else {
                message == "unknown binding "@ + "'"@ + name + "'"@
            },
        },
        match key_values(bound, name) {
            Ok(keys) => bound.contains_key(name) && bound[name] == Binding::Keys(keys),
            Err(message) => !(bound.contains_key(name) && bound[name] is Keys) && message
                == "binding "@ + "'"@ + name + "'"@ + " does not hold distinct keys"@,
        },
        match returned(bound, name) {
            Ok(value) => relation(bound, name) == Ok::<T, Seq<char>>(value),
            Err(message) => relation(bound, name) is Err && message == (if bound.contains_key(
                name,
            ) {
                "cannot return non-relation binding "@
            } else {
                "return of unknown binding "@
            }) + "'"@ + name + "'"@,
        },
{
    reveal_strlit("");
    assert(""@ =~= Seq::<char>::empty());
    assert("unknown binding "@ + "'"@ + name + "'"@ + ""@ =~= "unknown binding "@ + "'"@ + name
        + "'"@);
    assert("cannot return non-relation binding "@ + "'"@ + name + "'"@ + ""@
        =~= "cannot return non-relation binding "@ + "'"@ + name + "'"@);
    assert("return of unknown binding "@ + "'"@ + name + "'"@ + ""@
        =~= "return of unknown binding "@ + "'"@ + name + "'"@);
}

/// A fragment is given all its inputs, in their order, each under its table
/// name and with the relation that was bound to it, when all of them are bound
/// to relations and none that is not kept is named twice.
pub proof fn inputs_are_given_in_order<T>(
    bound: Map<Seq<char>, Binding<T>>,
    inputs: Seq<(String, String)>,
)
    requires
        forall|i: int|
            0 <= i < inputs.len() ==> relation(bound, (#[trigger] inputs[i]).1@) is Ok,
        forall|i: int, j: int|
            0 <= i < j < inputs.len() ==> (#[trigger] inputs[i]).1@ != (#[trigger] inputs[j]).1@
                || is_kept(bound, inputs[i].1@),
    ensures
        consumed(bound, inputs).1 matches Ok(list) && list.len() == inputs.len() && forall|i: int|
            0 <= i < inputs.len() ==> #[trigger] list[i] == (
                inputs[i].0@,
                relation(bound, inputs[i].1@)->Ok_0,
            ),
    decreases inputs.len(),
{
    if inputs.len() > 0 {
        let fewer = inputs.drop_last();
        let last = inputs.len() - 1;
        assert(inputs[last] == inputs.last());
        assert forall|i: int| 0 <= i < fewer.len() implies relation(
            bound,
            (#[trigger] fewer[i]).1@,
        ) is Ok by {
            assert(fewer[i] == inputs[i]);
        }
        assert forall|i: int, j: int| 0 <= i < j < fewer.len() implies (#[trigger] fewer[i]).1@ != (
        #[trigger] fewer[j]).1@ || is_kept(bound, fewer[i].1@) by {
            assert(fewer[i] == inputs[i]);
            assert(fewer[j] == inputs[j]);
        }
        inputs_are_given_in_order(bound, fewer);
        let name = inputs.last().1@;
        if is_kept(bound, name) {
            kept_relations_stay_bound(bound, fewer, name);
        } else {
            assert forall|i: int| 0 <= i < fewer.len() implies (#[trigger] fewer[i]).1@
                != name by {
                assert(fewer[i] == inputs[i]);
            }
            consuming_keeps_other_names(bound, fewer, name);
        }
    }
}

/// What cannot be given stops a fragment: an input that is bound to nothing, or
/// to keys.
pub proof fn missing_inputs_stop_a_fragment<T>(
    bound: Map<Seq<char>, Binding<T>>,
    inputs: Seq<(String, String)>,
    i: int,
)
    requires
        0 <= i < inputs.len(),
        relation(bound, inputs[i].1@) is Err,
    ensures
        consumed(bound, inputs).1 is Err,
    decreases inputs.len(),
{
    if i < inputs.len() - 1 {
        assert(inputs.drop_last()[i] == inputs[i]);
        missing_inputs_stop_a_fragment(bound, inputs.drop_last(), i);
    } else {
        consuming_only_unbinds(bound, inputs.drop_last(), inputs.last().1@);
    }
}

} // verus!
