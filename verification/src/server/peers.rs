//! The clients through which a replica reaches the other replicas, by id.
use vstd::prelude::*;
use std::collections::HashMap;
use raft::eraftpb::Message;
use crate::kvproto::eraftpb::{message_addressee, message_encoding, message_to};
use crate::kvproto::kvpb_grpc::{CallMode, KvClient, KvMethod, UnaryCall};

verus! {

broadcast use vstd::std_specs::hash::group_hash_axioms;

/// The replicas a replica knows, each with the client that reaches it.
pub struct PeerTable {
    clients: HashMap<u64, KvClient>,
}

impl PeerTable {
    /// The ids of the known replicas, with the address each client reaches.
    pub closed spec fn targets(&self) -> Map<u64, Seq<char>> {
        Map::new(|id: u64| self.clients@.contains_key(id), |id: u64| self.clients@[id].target())
    }

    /// No replicas known.
    pub fn new() -> (r: PeerTable)
        ensures
            r.targets() == Map::<u64, Seq<char>>::empty(),
    {
        let r = PeerTable { clients: HashMap::new() };
        assert(r.targets() =~= Map::<u64, Seq<char>>::empty());
        r
    }

    /// Knows a replica, through this client; it replaces any client known
    /// for the same id.
    pub fn insert(&mut self, id: u64, client: KvClient)
        ensures
            final(self).targets() == old(self).targets().insert(id, client.target()),
    {
        let ghost t = client.target();
        self.clients.insert(id, client);
        assert(final(self).targets() =~= old(self).targets().insert(id, t));
    }

    /// Whether a replica with this id is known.
    pub fn contains(&self, id: u64) -> (r: bool)
        ensures
            r == self.targets().contains_key(id),
    {
        self.clients.contains_key(&id)
    }

    /// The call that carries a consensus message to the replica with id
    /// `to`, where that replica is known: a blocking `Raft` call with
    /// default options.
    pub fn call_to(&self, to: u64, m: &Message) -> (r: Option<UnaryCall>)
        ensures
            r is Some <==> self.targets().contains_key(to),
            r matches Some(call) ==> call.target@ == self.targets()[to] && call.method
                == KvMethod::Raft && call.payload@ == message_encoding(*m) && call.mode
                == CallMode::Blocking && call.option.timeout_millis is None,
    {
        match self.clients.get(&to) {
            Some(c) => Some(c.raft(m)),
            None => None,
        }
    }

    /// The replica a consensus message is addressed to, and the call that
    /// carries it there where that replica is known.
    pub fn call_for(&self, m: &Message) -> (r: (u64, Option<UnaryCall>))
        ensures
            r.0 == message_addressee(*m),
            r.1 is Some <==> self.targets().contains_key(r.0),
            r.1 matches Some(call) ==> call.target@ == self.targets()[r.0] && call.method
                == KvMethod::Raft && call.payload@ == message_encoding(*m) && call.mode
                == CallMode::Blocking && call.option.timeout_millis is None,
    {
        let to = message_to(m);
        (to, self.call_to(to, m))
    }
}

} // verus!
