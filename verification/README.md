# kv

A key-value store replicated with Raft, written in Verus.

Clients send gets, puts and deletes over gRPC to any replica; the replica
proposes the request to its Raft node and, once the request is committed,
applies it to its storage engine and answers. Each client numbers its
writes, and a replica serves each write at most once.

## Layout

- `src/` is the verified library.
  - `codec.rs`: decimal numerals and varints, with their round trips.
  - `wire.rs`: the field layer of the message format.
  - `kvproto/kvrpcpb.rs`: requests and responses and how they are written and
    read back; `kvproto/eraftpb.rs`: the consensus messages of the `raft`
    crate; `kvproto/kvpb_grpc.rs`: the calls of a client and the routing of a
    service.
  - `server/apply.rs`: the semantics of a request on the store, the
    conversation with the storage engine that applies it, and the laws of the
    store (read after write, at most once).
  - `server/applier.rs`: what is done with a committed entry, and who waits
    for its answer.
  - `server/node.rs`: the calls made on a Raft node, recorded in order, and
    the protocol of taking, persisting and advancing a ready state.
  - `server/peer.rs`, `server/util.rs`: the consensus peer: its clock, what it
    hands its node, and how a ready state is persisted, sent and applied.
  - `server/service.rs`, `server/peers.rs`: the answers of the service, and
    the replicas a replica reaches.
  - `membership.rs`: joining a running cluster.
  - `cli.rs`: the values a replica is started with.
- `app/` is the program around it: threads, channels, gRPC, RocksDB.
- `tests/` runs the library on concrete values.
