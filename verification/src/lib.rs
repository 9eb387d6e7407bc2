//! Error-driven partitioning of a raw command line into schema-recognized
//! values and an order-preserving pass-through list, for a compiler-wrapper
//! front end; together with the wrapper's configuration profiles and a
//! fuzzing stats monitor that formats aggregate counters for an output sink.

pub mod config;
pub mod decimal;
pub mod monitor;
pub mod parse;
pub mod partition;
pub mod schema;
pub mod tokens;
