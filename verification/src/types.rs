//! Small shared value types.

use vstd::prelude::*;

verus! {

/// The kind of a datasource, used to pick the SQL dialect and read path.
#[derive(Clone, Copy, PartialEq, Eq, Debug, Structural)]
pub enum DsKind {
    Postgres,
    DuckDb,
    Parquet,
}

} // verus!
