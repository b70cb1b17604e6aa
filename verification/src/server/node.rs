//! The consensus node of a replica, from the `raft` crate: its types and the
//! calls that the replica makes on it.
//!
//! What a node answers depends on its state, which is the `raft` crate's own.
//! The library records instead what is done to a node: every call made on it,
//! in order ([`node_calls`]), and the settings it was made with. Over that
//! record [`node_phase`] states the protocol that the crate asks of its user
//! (take a ready state, persist its snapshot, entries and hard state, then
//! advance the node with it), which keeps the crate's own assertions from
//! firing.
use vstd::prelude::*;
use raft::eraftpb::{Entry, EntryType, HardState, Message, Snapshot};
use crate::kvproto::eraftpb::{ConfChange, ConfChangeType};
use raft::storage::MemStorage;
use raft::{Ready, RawNode};

verus! {

/// A consensus node on an in-memory log: `RawNode<MemStorage>`, held in a
/// private field and reached only through the calls below.
#[verifier::external_body]
pub struct RaftNode {
    node: RawNode<MemStorage>,
}

#[verifier::external_type_specification]
#[verifier::external_body]
pub struct ExReady(Ready);

/// The settings a replica starts its consensus node with.
pub struct RaftConfig {
    pub id: u64,
    pub peers: Vec<u64>,
    pub election_tick: usize,
    pub heartbeat_tick: usize,
    pub max_size_per_msg: u64,
    pub max_inflight_msgs: usize,
    pub applied: u64,
}

/// The settings of a node, as values.
pub struct RaftSettings {
    pub id: u64,
    pub peers: Seq<u64>,
    pub election_tick: usize,
    pub heartbeat_tick: usize,
    pub max_size_per_msg: u64,
    pub max_inflight_msgs: usize,
    pub applied: u64,
}

impl View for RaftConfig {
    type V = RaftSettings;

    open spec fn view(&self) -> RaftSettings {
        RaftSettings {
            id: self.id,
            peers: self.peers@,
            election_tick: self.election_tick,
            heartbeat_tick: self.heartbeat_tick,
            max_size_per_msg: self.max_size_per_msg,
            max_inflight_msgs: self.max_inflight_msgs,
            applied: self.applied,
        }
    }
}

impl RaftConfig {
    /// Whether the `raft` crate builds a node with these settings on a fresh
    /// log: `Config::validate` accepts them (with the election timeout range
    /// left at its default of one to two election timeouts, whose upper end
    /// must not overflow), the id is not zero, which `RawNode::new` asserts,
    /// no peer is named twice, which the progress set refuses, and nothing
    /// is marked applied, since nothing is committed yet.
    pub open spec fn valid(&self) -> bool {
        &&& self.id != 0
        &&& self.heartbeat_tick > 0
        &&& self.election_tick > self.heartbeat_tick
        &&& self.election_tick <= usize::MAX / 2
        &&& self.max_inflight_msgs > 0
        &&& self.peers@.no_duplicates()
        &&& self.applied == 0
    }
}

/// What an entry of the replicated log carries.
#[derive(Clone, Copy, Debug, PartialEq, Eq, Structural)]
pub enum EntryKind {
    /// A client request.
    Normal,
    /// A membership change.
    ConfChange,
}

/// A call made on a node, with what the library saw of its outcome.
pub enum NodeCall {
    Tick,
    /// A proposal of these bytes, and whether the node took it.
    Propose(Seq<u8>, bool),
    /// A message from a peer, and whether the node took it.
    Step(Message, bool),
    /// A proposed membership change, and whether the node took it.
    ProposeConfChange(ConfChange, bool),
    /// The node's ready state was taken out.
    TakeReady(Ready),
    /// A snapshot was installed in the log, and whether the log took it.
    ApplySnapshot(Snapshot, bool),
    /// Entries were appended to the log.
    Append(Seq<Entry>),
    /// A hard state was recorded in the log.
    SetHardState(HardState),
    /// The node was told that this ready state was handled.
    Advance(Ready),
}

/// Where a node stands in handling its ready state.
pub enum NodePhase {
    /// No ready state is being handled.
    Idle,
    /// This ready state was taken out; which of its parts are persisted.
    Handling { rd: Ready, snapshot_done: bool, entries_done: bool, hardstate_done: bool },
    /// A call broke the protocol; the node is not to be driven further.
    Broken,
}

/// The calls made on the node since it was made, in order.
pub uninterp spec fn node_calls(n: RaftNode) -> Seq<NodeCall>;

/// The settings the node was made with.
pub uninterp spec fn node_settings(n: RaftNode) -> RaftSettings;

/// What `RawNode::has_ready` answers on the node.
pub uninterp spec fn node_has_ready_of(n: RaftNode) -> bool;

/// The ready state that `RawNode::ready` takes out of the node.
pub uninterp spec fn ready_of(n: RaftNode) -> Ready;

/// The leader that the node knows of (its `leader_id`).
pub uninterp spec fn node_leader_of(n: RaftNode) -> u64;

/// Whether `RawNode::step` on the node with this message returns rather than
/// panics: the crate asserts, for one, that an append never conflicts with
/// committed entries, which a message from a faulty peer could break.
pub uninterp spec fn steps_cleanly(n: RaftNode, m: Message) -> bool;

/// The `snapshot` field of a ready state.
pub uninterp spec fn ready_snapshot_of(rd: Ready) -> Snapshot;

/// The `entries` field of a ready state: entries to persist.
pub uninterp spec fn ready_entries_of(rd: Ready) -> Seq<Entry>;

/// The `hs` field of a ready state: a hard state to persist, if any.
pub uninterp spec fn ready_hardstate_of(rd: Ready) -> Option<HardState>;

/// The `messages` field of a ready state: messages for other peers.
pub uninterp spec fn ready_messages_of(rd: Ready) -> Seq<Message>;

/// The `committed_entries` field of a ready state: entries to apply.
pub uninterp spec fn ready_committed_of(rd: Ready) -> Option<Seq<Entry>>;

/// What `raft::is_empty_snap` answers on a snapshot.
pub uninterp spec fn snapshot_empty_of(s: Snapshot) -> bool;

/// The data an entry carries.
pub uninterp spec fn entry_data_of(e: Entry) -> Seq<u8>;

/// The kind of an entry.
pub uninterp spec fn entry_kind_of(e: Entry) -> EntryKind;

/// Two ready states that agree in what persisting reads of them and what
/// `RawNode::advance` can fail on: the snapshot, the entries and the hard
/// state. (`advance` also reads the soft state and the read states, which
/// it only records.)
pub open spec fn same_ready(a: Ready, b: Ready) -> bool {
    &&& ready_snapshot_of(a) == ready_snapshot_of(b)
    &&& ready_entries_of(a) == ready_entries_of(b)
    &&& ready_hardstate_of(a) == ready_hardstate_of(b)
}

/// Whether every part of a ready state that is there is persisted.
pub open spec fn ready_persisted(rd: Ready, snapshot_done: bool, entries_done: bool, hardstate_done: bool) -> bool {
    &&& snapshot_done || snapshot_empty_of(ready_snapshot_of(rd))
    &&& entries_done || ready_entries_of(rd).len() == 0
    &&& hardstate_done || ready_hardstate_of(rd) is None
}

/// Whether the node may be handed input or asked for its ready state: no
/// part of a ready state is persisted without the node being advanced.
pub open spec fn fresh(p: NodePhase) -> bool {
    match p {
        NodePhase::Idle => true,
        NodePhase::Handling { rd, snapshot_done, entries_done, hardstate_done } => !snapshot_done
            && !entries_done && !hardstate_done,
        NodePhase::Broken => false,
    }
}

/// The phase after a call. Input may come while no ready state is half
/// persisted, and drops a ready state taken out. A snapshot is installed
/// first, entries only once the snapshot is in, and the node is advanced
/// with the ready state it gave once all of it is persisted.
pub open spec fn next_phase(p: NodePhase, c: NodeCall) -> NodePhase {
    match c {
        NodeCall::TakeReady(rd) => if fresh(p) {
            NodePhase::Handling { rd, snapshot_done: false, entries_done: false, hardstate_done: false }
        } else {
            NodePhase::Broken
        },
        NodeCall::ApplySnapshot(s, ok) => match p {
            NodePhase::Handling { rd, snapshot_done, entries_done, hardstate_done } => if ok
                && !snapshot_done && !entries_done && s == ready_snapshot_of(rd) {
                NodePhase::Handling { rd, snapshot_done: true, entries_done, hardstate_done }
            } else {
                NodePhase::Broken
            },
            _ => NodePhase::Broken,
        },
        NodeCall::Append(ents) => match p {
            NodePhase::Handling { rd, snapshot_done, entries_done, hardstate_done } => if ents
                == ready_entries_of(rd) && (snapshot_done || snapshot_empty_of(ready_snapshot_of(rd))) {
                NodePhase::Handling { rd, snapshot_done, entries_done: true, hardstate_done }
            } else {
                NodePhase::Broken
            },
            _ => NodePhase::Broken,
        },
        NodeCall::SetHardState(h) => match p {
            NodePhase::Handling { rd, snapshot_done, entries_done, hardstate_done } => if
            ready_hardstate_of(rd) == Some(h) {
                NodePhase::Handling { rd, snapshot_done, entries_done, hardstate_done: true }
            } else {
                NodePhase::Broken
            },
            _ => NodePhase::Broken,
        },
        NodeCall::Advance(rd2) => match p {
            NodePhase::Handling { rd, snapshot_done, entries_done, hardstate_done } => if same_ready(
                rd,
                rd2,
            ) && ready_persisted(rd, snapshot_done, entries_done, hardstate_done) {
                NodePhase::Idle
            } else {
                NodePhase::Broken
            },
            _ => NodePhase::Broken,
        },
        _ => if fresh(p) {
            NodePhase::Idle
        } else {
            NodePhase::Broken
        },
    }
}

/// The phase a node is in after these calls, from a fresh node.
pub open spec fn node_phase(calls: Seq<NodeCall>) -> NodePhase
    decreases calls.len(),
{
    if calls.len() == 0 {
        NodePhase::Idle
    } else {
        next_phase(node_phase(calls.drop_last()), calls.last())
    }
}

/// The phase after one more call follows from the phase before it.
pub proof fn lemma_node_phase_push(calls: Seq<NodeCall>, c: NodeCall)
    ensures
        node_phase(calls.push(c)) == next_phase(node_phase(calls), c),
{
    assert(calls.push(c).drop_last() =~= calls);
}

/// Whether the node accepts input now.
pub open spec fn accepts_input(n: RaftNode) -> bool {
    fresh(node_phase(node_calls(n)))
}

/// `RawNode::new` on a fresh `MemStorage` and no initial peers, with a
/// `Config` that holds these settings and the crate's defaults for the rest.
/// It returns `Ok` on a fresh storage; it panics where the settings are not
/// valid, which `requires` leaves out. The node starts with no calls made
/// on it and these settings.
#[verifier::external_body]
pub fn raw_node_new(cfg: &RaftConfig) -> (r: RaftNode)
    requires
        cfg.valid(),
    ensures
        node_calls(r) == Seq::<NodeCall>::empty(),
        node_settings(r) == cfg@,
{
    let c = raft::Config {
        id: cfg.id,
        peers: cfg.peers.clone(),
        election_tick: cfg.election_tick,
        heartbeat_tick: cfg.heartbeat_tick,
        max_size_per_msg: cfg.max_size_per_msg,
        max_inflight_msgs: cfg.max_inflight_msgs,
        applied: cfg.applied,
        ..Default::default()
    };
    RaftNode { node: RawNode::new(&c, MemStorage::new(), vec![]).unwrap() }
}

/// `RawNode::tick`: advances the node's logical clock. The call is
/// recorded; its answer (whether a ready state is likely) is not stated.
#[verifier::external_body]
pub fn node_tick(node: &mut RaftNode) -> (r: bool)
    requires
        accepts_input(*old(node)),
    ensures
        node_calls(*final(node)) == node_calls(*old(node)).push(NodeCall::Tick),
        node_settings(*final(node)) == node_settings(*old(node)),
{
    node.node.tick()
}

/// `RawNode::propose`: proposes `data` with an empty context. Whether the
/// node takes it depends on its state; the call is recorded with the answer.
#[verifier::external_body]
pub fn node_propose(node: &mut RaftNode, data: Vec<u8>) -> (r: Result<(), raft::Error>)
    requires
        accepts_input(*old(node)),
    ensures
        node_calls(*final(node)) == node_calls(*old(node)).push(NodeCall::Propose(data@, r is Ok)),
        node_settings(*final(node)) == node_settings(*old(node)),
{
    node.node.propose(vec![], data)
}

/// `RawNode::step`: hands the node a message from a peer. Whether the node
/// takes it depends on its state and on the message; the call is recorded
/// with the answer. The crate panics on some messages (see
/// [`steps_cleanly`]), which `requires` leaves out.
#[verifier::external_body]
pub fn node_step(node: &mut RaftNode, m: Message) -> (r: Result<(), raft::Error>)
    requires
        accepts_input(*old(node)),
        steps_cleanly(*old(node), m),
    ensures
        steps_cleanly(*old(node), m),
        node_calls(*final(node)) == node_calls(*old(node)).push(NodeCall::Step(m, r is Ok)),
        node_settings(*final(node)) == node_settings(*old(node)),
{
    node.node.step(m)
}

/// `RawNode::has_ready`: whether the node has something for the replica to
/// persist, send or apply. It reads the node and changes nothing.
#[verifier::external_body]
pub fn node_has_ready(node: &RaftNode) -> (r: bool)
    ensures
        r == node_has_ready_of(*node),
{
    node.node.has_ready()
}

/// `RawNode::ready`: takes out what the node has for the replica to
/// persist, send and apply. The node's leader and settings stay.
#[verifier::external_body]
pub fn node_ready(node: &mut RaftNode) -> (r: Ready)
    requires
        accepts_input(*old(node)),
    ensures
        r == ready_of(*old(node)),
        node_calls(*final(node)) == node_calls(*old(node)).push(NodeCall::TakeReady(r)),
        node_settings(*final(node)) == node_settings(*old(node)),
        node_leader_of(*final(node)) == node_leader_of(*old(node)),
{
    node.node.ready()
}

/// `RawNode::advance`: tells the node that the ready state it gave was
/// handled. The crate panics where the hard state's commit index lies
/// outside what the node has committed and applied, which a ready state
/// taken from this node and fully persisted never does: `requires` asks
/// for that.
#[verifier::external_body]
pub fn node_advance(node: &mut RaftNode, rd: Ready)
    requires
        node_phase(node_calls(*old(node))) matches NodePhase::Handling {
            rd: taken,
            snapshot_done,
            entries_done,
            hardstate_done,
        } && same_ready(taken, rd) && ready_persisted(taken, snapshot_done, entries_done, hardstate_done),
    ensures
        node_calls(*final(node)) == node_calls(*old(node)).push(NodeCall::Advance(rd)),
        node_settings(*final(node)) == node_settings(*old(node)),
{
    node.node.advance(rd)
}

/// The leader the node knows of and the node's own id, read from the
/// `leader_id` and `id` fields of its `Raft` state; the id is the one the
/// node was made with.
#[verifier::external_body]
pub fn node_leader_and_id(node: &RaftNode) -> (r: (u64, u64))
    ensures
        r == (node_leader_of(*node), node_settings(*node).id),
{
    (node.node.raft.leader_id, node.node.raft.id)
}

/// `MemStorageCore::apply_snapshot`, through the node's storage: replaces
/// the stored log with a snapshot. It fails where the snapshot is not newer
/// than the stored one; which it is, is not stated, and the call is
/// recorded with the answer.
#[verifier::external_body]
pub fn node_apply_snapshot(node: &mut RaftNode, s: Snapshot) -> (r: Result<(), raft::Error>)
    ensures
        node_calls(*final(node)) == node_calls(*old(node)).push(NodeCall::ApplySnapshot(s, r is Ok)),
        node_settings(*final(node)) == node_settings(*old(node)),
{
    node.node.mut_store().wl().apply_snapshot(s)
}

/// `MemStorageCore::append`, through the node's storage: appends entries to
/// the stored log. It returns `Ok` whenever it returns, and panics where the
/// entries leave a gap after the stored log; the entries of the ready state
/// being handled, once its snapshot is in, leave none, and `requires` asks
/// for those.
#[verifier::external_body]
pub fn node_append(node: &mut RaftNode, ents: &[Entry]) -> (r: Result<(), raft::Error>)
    requires
        node_phase(node_calls(*old(node))) matches NodePhase::Handling { rd, snapshot_done, .. }
            && ents@ == ready_entries_of(rd) && (snapshot_done || snapshot_empty_of(
            ready_snapshot_of(rd),
        )),
    ensures
        r is Ok,
        node_calls(*final(node)) == node_calls(*old(node)).push(NodeCall::Append(ents@)),
        node_settings(*final(node)) == node_settings(*old(node)),
{
    node.node.mut_store().wl().append(ents)
}

/// `MemStorageCore::set_hardstate`, through the node's storage.
#[verifier::external_body]
pub fn node_set_hardstate(node: &mut RaftNode, hs: HardState)
    ensures
        node_calls(*final(node)) == node_calls(*old(node)).push(NodeCall::SetHardState(hs)),
        node_settings(*final(node)) == node_settings(*old(node)),
{
    node.node.mut_store().wl().set_hardstate(hs)
}

/// `raft::is_empty_snap`: whether the snapshot is the empty one.
#[verifier::external_body]
pub fn snapshot_is_empty(s: &Snapshot) -> (r: bool)
    ensures
        r == snapshot_empty_of(*s),
{
    raft::is_empty_snap(s)
}

/// The snapshot of a ready state, cloned out of its `snapshot` field.
#[verifier::external_body]
pub fn ready_snapshot(rd: &Ready) -> (r: Snapshot)
    ensures
        r == ready_snapshot_of(*rd),
{
    rd.snapshot.clone()
}

/// The entries of a ready state that are to be persisted: its `entries` field.
#[verifier::external_body]
pub fn ready_entries(rd: &Ready) -> (r: &[Entry])
    ensures
        r@ == ready_entries_of(*rd),
{
    &rd.entries
}

/// The hard state of a ready state, cloned out of its `hs` field, which
/// keeps it for `RawNode::advance`.
#[verifier::external_body]
pub fn ready_hardstate(rd: &Ready) -> (r: Option<HardState>)
    ensures
        r == ready_hardstate_of(*rd),
{
    rd.hs.clone()
}

/// The messages of a ready state, drained out of its `messages` field; the
/// other fields stay.
#[verifier::external_body]
pub fn ready_take_messages(rd: &mut Ready) -> (r: Vec<Message>)
    ensures
        r@ == ready_messages_of(*old(rd)),
        ready_messages_of(*final(rd)) == Seq::<Message>::empty(),
        same_ready(*old(rd), *final(rd)),
        ready_committed_of(*final(rd)) == ready_committed_of(*old(rd)),
{
    rd.messages.drain(..).collect()
}

/// The committed entries of a ready state, taken out of its
/// `committed_entries` field, which is left `None`; the other fields stay.
#[verifier::external_body]
pub fn ready_take_committed(rd: &mut Ready) -> (r: Option<Vec<Entry>>)
    ensures
        match ready_committed_of(*old(rd)) {
            Some(s) => r matches Some(v) && v@ == s,
            None => r is None,
        },
        ready_committed_of(*final(rd)) is None,
        same_ready(*old(rd), *final(rd)),
        ready_messages_of(*final(rd)) == ready_messages_of(*old(rd)),
{
    rd.committed_entries.take()
}

/// `Entry::get_entry_type`, as the library's kind of entry.
#[verifier::external_body]
pub fn entry_kind(e: &Entry) -> (r: EntryKind)
    ensures
        r == entry_kind_of(*e),
{
    match e.get_entry_type() {
        EntryType::EntryNormal => EntryKind::Normal,
        EntryType::EntryConfChange => EntryKind::ConfChange,
    }
}

/// `Entry::get_data`, copied out.
#[verifier::external_body]
pub fn entry_data(e: &Entry) -> (r: Vec<u8>)
    ensures
        r@ == entry_data_of(*e),
{
    e.get_data().to_vec()
}

/// `RawNode::propose_conf_change`: proposes a membership change, built as
/// the crate's `ConfChange` from these values, with an empty context.
/// Whether the node takes it depends on its state; the call is recorded
/// with the answer.
#[verifier::external_body]
pub fn node_propose_conf_change(node: &mut RaftNode, cc: &ConfChange) -> (r: Result<(), raft::Error>)
    requires
        accepts_input(*old(node)),
    ensures
        node_calls(*final(node)) == node_calls(*old(node)).push(NodeCall::ProposeConfChange(*cc, r is Ok)),
        node_settings(*final(node)) == node_settings(*old(node)),
{
    let mut c = raft::eraftpb::ConfChange::new();
    c.set_id(cc.id);
    c.set_node_id(cc.node_id);
    c.set_change_type(match cc.change_type {
        ConfChangeType::AddNode => raft::eraftpb::ConfChangeType::AddNode,
        ConfChangeType::RemoveNode => raft::eraftpb::ConfChangeType::RemoveNode,
        ConfChangeType::AddLearnerNode => raft::eraftpb::ConfChangeType::AddLearnerNode,
    });
    node.node.propose_conf_change(vec![], c)
}

} // verus!
