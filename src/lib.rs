//! Core of a registration hub: clients register identifiers in a durable
//! store, and every connected observer is kept up to date on the running
//! total and on who joins and leaves.
//!
//! The library holds the decisions: the handshake, the membership registry,
//! the lifecycle of a connection, and the request processor that turns store
//! answers into a broadcast and a direct reply. Sockets, channels and the
//! database are driven from outside, which feeds events in and performs the
//! effects handed back.
pub mod data;
pub mod error;
pub mod hub;
pub mod processor;
pub mod protocol;
pub mod registry;
pub mod session;
pub mod store;
