//! Connection-level dispatch logic for a multi-protocol HTTP server.
//!
//! This crate holds the decision core of the server, fully verified:
//! which wire protocol governs an accepted connection, when a cleartext
//! connection is promoted to HTTP/2 via the `h2c` upgrade, how the HTTP/2
//! frame loop turns batches of frames into at-most-once stream dispatches,
//! how requests are routed to middleware endpoints, and how the broadcast
//! registry of live duplex peers is maintained under joins, leaves and
//! delivery failures.
//!
//! All I/O — sockets, TLS handshakes, frame codecs — lives outside this
//! crate; callers feed the results of those operations in as plain values
//! and act on the decisions handed back.

pub mod classify;
pub mod headers;
pub mod registry;
pub mod routes;
pub mod session;
