//! Connections to the storage cluster.
pub mod cql;
