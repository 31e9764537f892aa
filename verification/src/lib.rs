//! A small Raft-style replicated key-value store.
//!
//! The verified part of the project: the node's state machine (`node`) and
//! the properties that span its steps (`laws`) and whole runs of calls
//! (`runs`), the wire messages (`api`),
//! what each endpoint answers (`server`), command-line peer parsing (`cli`),
//! the decisions of the election and heartbeat loops (`election`), the
//! client tool's decisions and output (`client`), text helpers (`text`) and
//! the few calls into the clock, the random number generator and `Debug`
//! formatting (`platform`).
pub mod api;
pub mod cli;
pub mod client;
pub mod election;
pub mod laws;
pub mod node;
pub mod platform;
pub mod runs;
pub mod server;
pub mod text;
