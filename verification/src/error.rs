//! Why a query cannot be planned or run.

use datafusion::common::DataFusionError;
use vstd::prelude::*;

verus! {

/// A plan that cannot be turned into SQL or into an operator.
#[derive(Debug)]
pub enum PlanError {
    /// The plan itself is at fault; the message says how.
    Plan(String),
    /// DataFusion refused the expression.
    DataFusion(DataFusionError),
}

/// What a `PlanError` says. The wording of a DataFusion error is not part of it.
pub enum Fault {
    Plan(Seq<char>),
    DataFusion,
}

impl View for PlanError {
    type V = Fault;

    open spec fn view(&self) -> Fault {
        match *self {
            PlanError::Plan(message) => Fault::Plan(message@),
            PlanError::DataFusion(_) => Fault::DataFusion,
        }
    }
}

/// A request that the engine refuses.
#[derive(Debug)]
pub enum EngineError {
    /// The query cannot run as it stands.
    Runtime(String),
    /// An argument has a value that is not understood.
    Value(String),
    /// The named parameter is present but is not text.
    NotText(String),
    /// The plan of a step is at fault.
    Plan(PlanError),
}

/// What an `EngineError` says.
pub enum EngineFault {
    Runtime(Seq<char>),
    Value(Seq<char>),
    NotText(Seq<char>),
    Plan(Fault),
}

impl View for EngineError {
    type V = EngineFault;

    open spec fn view(&self) -> EngineFault {
        match *self {
            EngineError::Runtime(message) => EngineFault::Runtime(message@),
            EngineError::Value(message) => EngineFault::Value(message@),
            EngineError::NotText(name) => EngineFault::NotText(name@),
            EngineError::Plan(error) => EngineFault::Plan(error@),
        }
    }
}

/// `outcome` is what `expected` says, success for success and fault for fault.
pub open spec fn agrees<T: View>(
    outcome: Result<T, PlanError>,
    expected: Result<T::V, Fault>,
) -> bool {
    match outcome {
        Ok(value) => expected == Ok::<T::V, Fault>(value@),
        Err(error) => expected == Err::<T::V, Fault>(error@),
    }
}

/// What the engine makes of a planning outcome: a fault of the plan is a fault
/// of the query.
pub open spec fn in_engine<T>(outcome: Result<T, Fault>) -> Result<T, EngineFault> {
    match outcome {
        Ok(value) => Ok(value),
        Err(f) => Err(EngineFault::Plan(f)),
    }
}

/// A planning error with `message`.
pub fn plan_err(message: String) -> (r: PlanError)
    ensures
        r@ == Fault::Plan(message@),
{
    PlanError::Plan(message)
}

/// The values of all parts, or the fault of the first part that has one.
pub open spec fn collected<T>(parts: Seq<Result<T, Fault>>) -> Result<Seq<T>, Fault>
    decreases parts.len(),
{
    if parts.len() == 0 {
        Ok(Seq::empty())
    } else {
        match collected(parts.drop_last()) {
            Err(f) => Err(f),
            Ok(head) => match parts.last() {
                Err(f) => Err(f),
                Ok(value) => Ok(head.push(value)),
            },
        }
    }
}

/// A fault of leading parts is the fault of all parts.
pub proof fn lemma_collected_fault<T>(parts: Seq<Result<T, Fault>>, n: int)
    requires
        0 <= n <= parts.len(),
    ensures
        collected(parts.take(n)) matches Err(f) ==> collected(parts) == Err::<Seq<T>, Fault>(f),
    decreases parts.len() - n,
{
    if n < parts.len() {
        assert(parts.take(n + 1).drop_last() == parts.take(n));
        lemma_collected_fault(parts, n + 1);
    } else {
        assert(parts.take(n) == parts);
    }
}

/// What is collected is every part, each in its place; what stops the
/// collecting is the first part that is a fault.
pub proof fn collecting_keeps_every_part<T>(parts: Seq<Result<T, Fault>>)
    ensures
        match collected(parts) {
            Ok(values) => {
                &&& values.len() == parts.len()
                &&& forall|i: int|
                    0 <= i < parts.len() ==> #[trigger] parts[i] == Ok::<T, Fault>(values[i])
            },
            Err(fault) => exists|i: int|
                {
                    &&& 0 <= i < parts.len()
                    &&& #[trigger] parts[i] == Err::<T, Fault>(fault)
                    &&& forall|j: int| 0 <= j < i ==> (#[trigger] parts[j]) is Ok
                },
        },
    decreases parts.len(),
{
    if parts.len() > 0 {
        let fewer = parts.drop_last();
        collecting_keeps_every_part(fewer);
        match collected(fewer) {
            Err(fault) => {
                let i = choose|i: int|
                    {
                        &&& 0 <= i < fewer.len()
                        &&& #[trigger] fewer[i] == Err::<T, Fault>(fault)
                        &&& forall|j: int| 0 <= j < i ==> (#[trigger] fewer[j]) is Ok
                    };
                assert(parts[i] == fewer[i]);
                assert forall|j: int| 0 <= j < i implies (#[trigger] parts[j]) is Ok by {
                    assert(fewer[j] is Ok);
                }
            },
            Ok(head) => {
                let last = parts.len() - 1;
                assert forall|i: int| 0 <= i < last implies #[trigger] parts[i] == Ok::<T, Fault>(
                    head[i],
                ) by {
                    assert(fewer[i] == parts[i]);
                }
                assert(parts[last] == parts.last());
            },
        }
    }
}

/// An error says what it was made with.
pub proof fn errors_keep_their_words(plan: PlanError, engine: EngineError)
    ensures
        plan matches PlanError::Plan(message) ==> plan@ == Fault::Plan(message@),
        plan is DataFusion <==> plan@ is DataFusion,
        engine matches EngineError::Runtime(message) ==> engine@ == EngineFault::Runtime(message@),
        engine matches EngineError::Value(message) ==> engine@ == EngineFault::Value(message@),
        engine matches EngineError::NotText(name) ==> engine@ == EngineFault::NotText(name@),
        engine matches EngineError::Plan(error) ==> engine@ == EngineFault::Plan(error@),
{
}

/// An outcome agrees with what is expected only where it is that value, or that
/// fault.
pub proof fn outcomes_agree_in_full<T: View>(
    outcome: Result<T, PlanError>,
    expected: Result<T::V, Fault>,
)
    requires
        agrees(outcome, expected),
    ensures
        outcome is Ok <==> expected is Ok,
        outcome matches Ok(value) ==> expected->Ok_0 == value@,
        outcome matches Err(error) ==> expected->Err_0 == error@,
{
}

/// The engine passes on a planning outcome, value or fault.
pub proof fn the_engine_passes_outcomes_on<T>(outcome: Result<T, Fault>)
    ensures
        outcome matches Ok(value) ==> in_engine(outcome) == Ok::<T, EngineFault>(value),
        outcome matches Err(fault) ==> in_engine(outcome) == Err::<T, EngineFault>(
            EngineFault::Plan(fault),
        ),
{
}

} // verus!
