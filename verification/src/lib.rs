//! Actor lifecycle, service-status bookkeeping, websocket request routing and
//! CQL connection helpers, with their contracts proved by Verus.
pub mod actor;
pub mod websocket;
pub mod connection;
pub mod bundles;
pub mod shutdown_stream;
pub mod dependencies;
