//! A replicated key-value store: the request semantics that every replica
//! applies, the wire format of its messages, the client and service stubs,
//! and the decisions that drive a replica's consensus node.
pub mod codec;
pub mod wire;
pub mod kvproto;
pub mod server;
pub mod membership;
pub mod cli;
