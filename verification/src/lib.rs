//! Endpoint runtime of a remote message bus: a router of dotted command
//! paths, the decisions of the server's work runner and dispatch loop, the
//! client's request builder and call collector, and the wire records that
//! both sides exchange.

pub mod body;
pub mod client;
pub mod named;
pub mod path;
pub mod protocol;
pub mod server;
pub mod util;
