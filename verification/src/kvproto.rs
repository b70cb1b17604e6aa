//! The messages of the store and the stubs of its RPC service.
pub mod kvrpcpb;
pub mod eraftpb;
pub mod kvpb_grpc;
