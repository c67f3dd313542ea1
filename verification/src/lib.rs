//! Snapshot hashes of stored configurations: a 256-bit value carried with the
//! scheme that produced it, in decimal, big-endian and hex forms, together with
//! the ClickHouse queries and decisions that store and look them up.

pub mod numeric;
pub mod bignum;
pub mod digest;
pub mod snapshot;
pub mod laws;
pub mod migration;
pub mod config_queries;
pub mod statement_laws;
