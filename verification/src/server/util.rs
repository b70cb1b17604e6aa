//! Settings of a replica's consensus node, and reading entry data.
use vstd::prelude::*;
use crate::server::node::{RaftConfig, RaftSettings};
use crate::kvproto::kvrpcpb::{KvReq, kv_req_decoding};

verus! {

/// The settings a replica's node starts with: this id and these peers, an
/// election after ten ticks without a leader, a heartbeat every tick,
/// messages of up to 1 GiB, up to 256 appends in flight, nothing applied.
pub open spec fn default_settings(id: u64, peers: Seq<u64>) -> RaftSettings {
    RaftSettings {
        id,
        peers,
        election_tick: 10,
        heartbeat_tick: 1,
        max_size_per_msg: 1073741824,
        max_inflight_msgs: 256,
        applied: 0,
    }
}

/// The settings a replica's node starts with (see [`default_settings`]);
/// the node can be made with them where the id is not zero and no peer is
/// named twice.
pub fn default_raft_config(id: u64, peers: Vec<u64>) -> (r: RaftConfig)
    ensures
        r@ == default_settings(id, peers@),
        r.valid() <==> (id != 0 && peers@.no_duplicates()),
{
    RaftConfig {
        id,
        peers,
        election_tick: 10,
        heartbeat_tick: 1,
        max_size_per_msg: 1024 * 1024 * 1024,
        max_inflight_msgs: 256,
        applied: 0,
    }
}

/// The request that a committed entry's data holds, or `None` where the
/// data is corrupted.
pub fn parse_data(data: &[u8]) -> (r: Option<KvReq>)
    ensures
        match kv_req_decoding(data@) {
            Some(v) => r matches Some(x) && x@ == v,
            None => r is None,
        },
{
    KvReq::parse_from_bytes(data)
}

} // verus!
