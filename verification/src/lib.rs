//! A replicated key-value store: every node keeps a last-write-wins register
//! per key, answers client requests against it and forwards each accepted
//! write to all its peers.
//!
//! The crate holds the decisions of a node and their proofs. Sockets, threads
//! and the command line belong to the program built around it.

pub mod agent;
pub mod client_handler;
mod clock;
pub mod json;
pub mod mesh;
pub mod messages;
pub mod node;
pub mod storage;
