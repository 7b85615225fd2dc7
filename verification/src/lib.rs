//! Planning core of a federated query engine.
//!
//! A planner hands over a query as an ordered list of steps (`ir`). This crate
//! decides everything about running it that does not touch a driver: how its
//! expressions map to DataFusion (`expr`, `meaning`, `printing`), which SQL
//! each source is sent (`sql`, `catalog`, `ingest`), how a large table is split
//! for a parallel read (`partition`, `parallel`), how join keys known only at
//! run time reach a probe (`strategy`), what each step may read, consume and
//! bind (`bindings`, `engine`), and what local operators are made of
//! (`fragment`, `numeric`). `cli` and `bench` serve the fetch benchmark.
//!
//! Reading from a database and running an operator are left to the caller,
//! which does what this crate asks for and hands back the result.

pub mod bench;
pub mod bindings;
pub mod catalog;
pub mod cli;
pub mod datafusion_types;
pub mod engine;
pub mod error;
pub mod expr;
pub mod fragment;
pub mod ingest;
pub mod ir;
pub mod meaning;
pub mod numeric;
pub mod parallel;
pub mod partition;
pub mod printing;
pub mod sql;
pub mod strategy;
pub mod text;
pub mod text_map;
pub mod types;
