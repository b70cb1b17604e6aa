//! The logic of a replica: applying committed requests, dispatching
//! committed entries, and driving the consensus node.
pub mod apply;
pub mod node;
pub mod peer;
pub mod util;
pub mod applier;
pub mod service;
pub mod peers;
