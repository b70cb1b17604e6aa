//! A replica's consensus peer: it feeds its node with proposals, messages
//! from other peers and clock ticks, and hands out what the node has ready.
//!
//! The peer's loop waits on a channel with a timeout, which is I/O: the
//! caller runs it, and asks this module what each outcome means.
use vstd::prelude::*;
use raft::eraftpb::{Entry, Message};
use raft::Ready;
use crate::kvproto::eraftpb::{ConfChange, entry_new, entry_clone};
use crate::server::node::{
    EntryKind, NodeCall, NodePhase, RaftNode, raw_node_new, node_tick, node_propose, node_step,
    node_has_ready, node_ready, node_advance, node_leader_and_id, node_apply_snapshot,
    node_append, node_set_hardstate, snapshot_is_empty, ready_snapshot, ready_entries,
    ready_hardstate, ready_take_messages, ready_take_committed, entry_kind, entry_data,
    node_propose_conf_change, node_calls, node_settings, node_has_ready_of, ready_of,
    steps_cleanly, ready_snapshot_of, ready_entries_of, ready_hardstate_of, ready_messages_of,
    ready_committed_of, snapshot_empty_of, entry_data_of, entry_kind_of, same_ready,
    accepts_input, node_phase, lemma_node_phase_push, node_leader_of,
};
use crate::server::util::{default_raft_config, default_settings};

verus! {

/// The interval between two clock ticks of the node, in nanoseconds.
pub const TICK_INTERVAL_NANOS: u64 = 100_000_000;

/// How long the peer still waits before its next tick.
pub struct TickTimer {
    pub timeout_nanos: u64,
}

impl TickTimer {
    /// The timer's invariant: it waits for a positive time, at most one
    /// tick interval.
    pub open spec fn wf(&self) -> bool {
        0 < self.timeout_nanos <= TICK_INTERVAL_NANOS
    }

    /// A timer that waits a whole tick interval.
    pub fn new() -> (r: TickTimer)
        ensures
            r.timeout_nanos == TICK_INTERVAL_NANOS,
            r.wf(),
    {
        TickTimer { timeout_nanos: TICK_INTERVAL_NANOS }
    }

    /// How long to wait for the next message.
    pub fn timeout(&self) -> (r: u64)
        ensures
            r == self.timeout_nanos,
    {
        self.timeout_nanos
    }

    /// Takes the time elapsed since the last tick and says whether the node
    /// is to tick now. When it is, the timer waits a whole interval again and
    /// the caller restarts its clock; otherwise the elapsed time is taken
    /// off what is left to wait.
    pub fn elapsed(&mut self, elapsed_nanos: u64) -> (tick: bool)
        requires
            old(self).wf(),
        ensures
            final(self).wf(),
            tick == (elapsed_nanos >= old(self).timeout_nanos),
            tick ==> final(self).timeout_nanos == TICK_INTERVAL_NANOS,
            !tick ==> final(self).timeout_nanos == old(self).timeout_nanos - elapsed_nanos,
    {
        if elapsed_nanos >= self.timeout_nanos {
            self.timeout_nanos = TICK_INTERVAL_NANOS;
            true
        } else {
            self.timeout_nanos = self.timeout_nanos - elapsed_nanos;
            false
        }
    }
}

/// What reaches a peer on its channel.
pub enum PeerMessage {
    /// A client request to replicate, written as bytes.
    Propose(Vec<u8>),
    /// A message from another peer.
    Message(Message),
    /// A membership change to replicate.
    ConfChange(ConfChange),
}

/// What waiting on the channel gave.
pub enum PeerEvent {
    Received(PeerMessage),
    /// Nothing came within the timeout.
    Timeout,
    /// Every sender is gone.
    Disconnected,
}

/// What the caller is to do after an event.
#[derive(Clone, Copy, Debug, PartialEq, Eq, Structural)]
pub enum Reaction {
    /// Go on with the loop.
    Continue,
    /// The proposal was not taken: hand an empty entry to the applier, which
    /// answers the waiting client that this replica does not lead.
    ApplyEmpty,
    /// The node refused a message from a peer: the peer cannot go on.
    Fault,
    /// Leave the loop.
    Stop,
}

/// The kind of an event, without its contents.
#[derive(Clone, Copy, Debug, PartialEq, Eq, Structural)]
pub enum EventKind {
    Propose,
    Message,
    ConfChange,
    Timeout,
    Disconnected,
}

/// How the peer reacts to an event, given whether the node took what the
/// event handed it (for events that hand it nothing, `taken` is ignored).
pub open spec fn reaction_spec(kind: EventKind, taken: bool) -> Reaction {
    match kind {
        EventKind::Propose => if taken {
            Reaction::Continue
        } else {
            Reaction::ApplyEmpty
        },
        EventKind::Message => if taken {
            Reaction::Continue
        } else {
            Reaction::Fault
        },
        EventKind::ConfChange => Reaction::Continue,
        EventKind::Timeout => Reaction::Continue,
        EventKind::Disconnected => Reaction::Stop,
    }
}

/// How the peer reacts to an event, given whether the node took what the
/// event handed it.
pub fn reaction(kind: EventKind, taken: bool) -> (r: Reaction)
    ensures
        r == reaction_spec(kind, taken),
{
    match kind {
        EventKind::Propose => if taken {
            Reaction::Continue
        } else {
            Reaction::ApplyEmpty
        },
        EventKind::Message => if taken {
            Reaction::Continue
        } else {
            Reaction::Fault
        },
        EventKind::ConfChange => Reaction::Continue,
        EventKind::Timeout => Reaction::Continue,
        EventKind::Disconnected => Reaction::Stop,
    }
}

/// What each reaction means: the loop stops exactly on a closed channel; a
/// fault is exactly a message from a peer that the node refused; an empty
/// entry is applied exactly for a proposal that the node did not take; in
/// every other case the loop goes on, so an event whose input the node took
/// never stops or faults the peer.
pub proof fn lemma_reaction_meaning(kind: EventKind, taken: bool)
    ensures
        (reaction_spec(kind, taken) == Reaction::Stop) == (kind == EventKind::Disconnected),
        (reaction_spec(kind, taken) == Reaction::Fault) == (kind == EventKind::Message && !taken),
        (reaction_spec(kind, taken) == Reaction::ApplyEmpty) == (kind == EventKind::Propose && !taken),
        (reaction_spec(kind, taken) == Reaction::Continue) == (kind != EventKind::Disconnected && (
        taken || kind == EventKind::ConfChange || kind == EventKind::Timeout)),
{
}

/// Whether a committed entry is handed to the applier: it carries data (the
/// empty entry a new leader appends carries none) and is a client request.
pub open spec fn to_apply(data_empty: bool, kind: EntryKind) -> bool {
    !data_empty && kind == EntryKind::Normal
}

/// Whether a committed entry is handed to the applier.
pub fn should_apply(data_empty: bool, kind: EntryKind) -> (r: bool)
    ensures
        r == to_apply(data_empty, kind),
{
    !data_empty && match kind {
        EntryKind::Normal => true,
        EntryKind::ConfChange => false,
    }
}

/// The committed entries that are handed to the applier, in order: those
/// that `to_apply` keeps.
pub open spec fn applied_entries(s: Seq<Entry>) -> Seq<Entry>
    decreases s.len(),
{
    if s.len() == 0 {
        Seq::empty()
    } else {
        let rest = applied_entries(s.drop_last());
        if to_apply(entry_data_of(s.last()).len() == 0, entry_kind_of(s.last())) {
            rest.push(s.last())
        } else {
            rest
        }
    }
}

/// Whether an entry is a client request that carries data.
pub open spec fn carries_request(e: Entry) -> bool {
    entry_data_of(e).len() > 0 && entry_kind_of(e) == EntryKind::Normal
}

/// A single committed entry is handed on exactly when it carries data and
/// is a client request.
pub proof fn lemma_applied_entries_single(e: Entry)
    ensures
        applied_entries(seq![e]) == (if entry_data_of(e).len() > 0 && entry_kind_of(e)
            == EntryKind::Normal {
            seq![e]
        } else {
            Seq::<Entry>::empty()
        }),
{
    assert(seq![e].drop_last() =~= Seq::<Entry>::empty());
    assert(applied_entries(Seq::<Entry>::empty()) == Seq::<Entry>::empty());
    assert(Seq::<Entry>::empty().push(e) =~= seq![e]);
}

/// A run of committed entries hands on what its parts hand on, in order.
pub proof fn lemma_applied_entries_concat(a: Seq<Entry>, b: Seq<Entry>)
    ensures
        applied_entries(a + b) == applied_entries(a) + applied_entries(b),
    decreases b.len(),
{
    if b.len() == 0 {
        assert(a + b =~= a);
        assert(applied_entries(a) + applied_entries(b) =~= applied_entries(a));
    } else {
        lemma_applied_entries_concat(a, b.drop_last());
        assert((a + b).drop_last() =~= a + b.drop_last());
        assert((a + b).last() == b.last());
        let x = applied_entries(a);
        let y = applied_entries(b.drop_last());
        assert((x + y).push(b.last()) =~= x + y.push(b.last()));
    }
}

/// The committed entries handed on are exactly those that carry data and
/// are client requests, all of them, in the order they were committed.
pub proof fn lemma_applied_entries_filter(s: Seq<Entry>)
    ensures
        applied_entries(s) == s.filter(|e: Entry| carries_request(e)),
        forall|i: int| 0 <= i < applied_entries(s).len() ==> s.contains(#[trigger] applied_entries(s)[i])
            && carries_request(applied_entries(s)[i]),
        forall|e: Entry| #[trigger] s.contains(e) && carries_request(e) ==> applied_entries(s).contains(e),
    decreases s.len(),
{
    reveal(Seq::filter);
    if s.len() > 0 {
        lemma_applied_entries_filter(s.drop_last());
        let rest = applied_entries(s.drop_last());
        assert forall|e: Entry| #[trigger] s.contains(e) && carries_request(e) implies applied_entries(
            s,
        ).contains(e) by {
            let k = choose|k: int| 0 <= k < s.len() && s[k] == e;
            if k < s.len() - 1 {
                assert(s.drop_last()[k] == e);
                assert(s.drop_last().contains(e));
                let j = choose|j: int| 0 <= j < rest.len() && rest[j] == e;
                if carries_request(s.last()) {
                    assert(applied_entries(s)[j] == e);
                } else {
                    assert(applied_entries(s)[j] == e);
                }
            } else {
                assert(applied_entries(s)[applied_entries(s).len() - 1] == e);
            }
        }
        assert forall|i: int| 0 <= i < applied_entries(s).len() implies s.contains(
            #[trigger] applied_entries(s)[i],
        ) && carries_request(applied_entries(s)[i]) by {
            if i < rest.len() {
                assert(applied_entries(s)[i] == rest[i]);
                assert(s.drop_last().contains(rest[i]));
                let k = choose|k: int| 0 <= k < s.drop_last().len() && s.drop_last()[k] == rest[i];
                assert(s[k] == rest[i]);
            } else {
                assert(s[s.len() - 1] == s.last());
            }
        }
    }
}

/// What handling a ready state hands out, in order: messages for other
/// peers and committed entries for the applier.
pub struct ReadyOutput {
    pub messages: Vec<Message>,
    pub committed: Vec<Entry>,
}

/// Why handling a ready state could not finish.
#[derive(Clone, Copy, Debug, PartialEq, Eq, Structural)]
pub enum ReadyFault {
    /// The log refused the snapshot.
    Snapshot,
}

/// The calls that persist a ready state, in order: its snapshot where it is
/// not the empty one, its entries where there are any, its hard state where
/// there is one.
pub open spec fn persist_calls(rd: Ready) -> Seq<NodeCall> {
    (if !snapshot_empty_of(ready_snapshot_of(rd)) {
        seq![NodeCall::ApplySnapshot(ready_snapshot_of(rd), true)]
    } else {
        Seq::empty()
    }) + (if ready_entries_of(rd).len() > 0 {
        seq![NodeCall::Append(ready_entries_of(rd))]
    } else {
        Seq::empty()
    }) + (match ready_hardstate_of(rd) {
        Some(h) => seq![NodeCall::SetHardState(h)],
        None => Seq::empty(),
    })
}

/// A ready state taken out of the node and not yet persisted, with whether
/// the node led when it was taken.
pub struct ReadyInFlight {
    ready: Ready,
    is_leader: bool,
}

impl ReadyInFlight {
    /// The ready state, as it stands after what was handed out of it.
    pub closed spec fn ready_state(&self) -> Ready {
        self.ready
    }

    /// Whether the node led when the ready state was taken.
    pub closed spec fn leader(&self) -> bool {
        self.is_leader
    }
}

/// What starting on a ready state hands out: the ready state to finish, and
/// the messages to send before persisting (a leader's).
pub struct ReadyStart {
    pub in_flight: ReadyInFlight,
    pub messages: Vec<Message>,
}

/// What starting on the ready state of node `n0` did, leaving node `n1` and
/// handing out `s`. The ready state is taken out. A leader hands its
/// messages out at once, to be sent while the ready state is persisted; a
/// follower keeps them in the ready state until it is persisted.
pub open spec fn ready_started(n0: RaftNode, n1: RaftNode, s: ReadyStart) -> bool {
    let rd = ready_of(n0);
    let lead = node_leader_of(n0) == node_settings(n0).id;
    let kept = s.in_flight.ready_state();
    &&& node_calls(n1) == node_calls(n0).push(NodeCall::TakeReady(rd))
    &&& s.in_flight.leader() == lead
    &&& same_ready(rd, kept)
    &&& ready_committed_of(kept) == ready_committed_of(rd)
    &&& s.messages@ == (if lead {
        ready_messages_of(rd)
    } else {
        Seq::empty()
    })
    &&& ready_messages_of(kept) == (if lead {
        Seq::empty()
    } else {
        ready_messages_of(rd)
    })
}

/// What finishing the ready state `f` did, from node `n0` to node `n1`,
/// answering `r`. On success the ready state is persisted and the node
/// advanced with it; the messages still in it (a follower's) are handed out
/// to be sent, only now, after persisting, and its committed entries that
/// `to_apply` keeps, in order, to be applied. The one failure is a snapshot
/// that the log refuses, after which nothing more is done.
pub open spec fn ready_finished(
    n0: RaftNode,
    n1: RaftNode,
    f: ReadyInFlight,
    r: Result<ReadyOutput, ReadyFault>,
) -> bool {
    let rd = f.ready_state();
    match r {
        Ok(out) => {
            &&& exists|rd2: Ready|
                same_ready(rd, rd2) && node_calls(n1) == node_calls(n0) + persist_calls(rd) + seq![
                    NodeCall::Advance(rd2),
                ]
            &&& out.messages@ == ready_messages_of(rd)
            &&& out.committed@ == applied_entries(
                match ready_committed_of(rd) {
                    Some(s) => s,
                    None => Seq::empty(),
                },
            )
        },
        Err(_) => {
            &&& !snapshot_empty_of(ready_snapshot_of(rd))
            &&& node_calls(n1) == node_calls(n0).push(NodeCall::ApplySnapshot(ready_snapshot_of(rd), false))
        },
    }
}

/// Starting and then finishing a ready state hands out each of its
/// messages once, in order: a leader's all before persisting, a
/// follower's all after. The node is handed, in order, the taking of the
/// ready state, the calls that persist it, and its advance; and the
/// committed entries that `to_apply` keeps are handed on, in order.
pub proof fn lemma_ready_cycle(
    n0: RaftNode,
    n1: RaftNode,
    s: ReadyStart,
    n2: RaftNode,
    out: ReadyOutput,
)
    requires
        ready_started(n0, n1, s),
        ready_finished(n1, n2, s.in_flight, Ok(out)),
    ensures
        s.messages@ + out.messages@ == ready_messages_of(ready_of(n0)),
        s.in_flight.leader() ==> out.messages@.len() == 0,
        !s.in_flight.leader() ==> s.messages@.len() == 0,
        exists|rd2: Ready|
            same_ready(ready_of(n0), rd2) && node_calls(n2) == node_calls(n0).push(
                NodeCall::TakeReady(ready_of(n0)),
            ) + persist_calls(ready_of(n0)) + seq![NodeCall::Advance(rd2)],
        out.committed@ == applied_entries(
            match ready_committed_of(ready_of(n0)) {
                Some(c) => c,
                None => Seq::empty(),
            },
        ),
{
    let rd = ready_of(n0);
    let kept = s.in_flight.ready_state();
    assert(persist_calls(kept) == persist_calls(rd));
    let rd2 = choose|rd2: Ready|
        same_ready(kept, rd2) && node_calls(n2) == node_calls(n1) + persist_calls(kept) + seq![
            NodeCall::Advance(rd2),
        ];
    assert(same_ready(rd, rd2));
    if s.in_flight.leader() {
        assert(s.messages@ + out.messages@ =~= ready_messages_of(rd));
    } else {
        assert(s.messages@ + out.messages@ =~= ready_messages_of(rd));
    }
}

/// A replica's consensus peer.
pub struct Peer {
    raft_group: RaftNode,
    last_applying_idx: u64,
    last_compacted_idx: u64,
}

impl Peer {
    /// A peer whose node has this id, a fresh in-memory log and the default
    /// settings. The `raft` crate panics on id zero, which `requires` leaves out.
    pub fn new(id: u64) -> (r: Peer)
        requires
            id != 0,
        ensures
            r.wf(),
            node_calls(r.node()) == Seq::<NodeCall>::empty(),
            node_settings(r.node()) == default_settings(id, Seq::empty()),
            r.applying_index() == 0,
            r.compacted_index() == 0,
    {
        let cfg = default_raft_config(id, Vec::new());
        Peer { raft_group: raw_node_new(&cfg), last_applying_idx: 0, last_compacted_idx: 0 }
    }

    /// The peer's consensus node.
    pub closed spec fn node(&self) -> RaftNode {
        self.raft_group
    }

    /// The peer's invariant: its node accepts input.
    pub open spec fn wf(&self) -> bool {
        accepts_input(self.node())
    }

    /// The index of the last entry handed to the applier.
    pub closed spec fn applying_index(&self) -> u64 {
        self.last_applying_idx
    }

    /// The index up to which the log is compacted.
    pub closed spec fn compacted_index(&self) -> u64 {
        self.last_compacted_idx
    }

    /// Takes out what the node has ready.
    pub fn ready(&mut self) -> (r: Ready)
        requires
            old(self).wf(),
        ensures
            final(self).wf(),
            r == ready_of(old(self).node()),
            node_calls(final(self).node()) == node_calls(old(self).node()).push(NodeCall::TakeReady(r)),
            node_settings(final(self).node()) == node_settings(old(self).node()),
            final(self).applying_index() == old(self).applying_index(),
            final(self).compacted_index() == old(self).compacted_index(),
    {
        proof {
            lemma_node_phase_push(node_calls(self.raft_group), NodeCall::TakeReady(ready_of(self.raft_group)));
        }
        node_ready(&mut self.raft_group)
    }

    /// Advances the node's clock by one tick.
    pub fn tick(&mut self)
        requires
            old(self).wf(),
        ensures
            final(self).wf(),
            node_calls(final(self).node()) == node_calls(old(self).node()).push(NodeCall::Tick),
            node_settings(final(self).node()) == node_settings(old(self).node()),
            final(self).applying_index() == old(self).applying_index(),
            final(self).compacted_index() == old(self).compacted_index(),
    {
        proof {
            lemma_node_phase_push(node_calls(self.raft_group), NodeCall::Tick);
        }
        let _ = node_tick(&mut self.raft_group);
    }

    /// Hands the node what arrived on the channel, and says what to do next:
    /// a proposal is proposed with an empty context, a message is stepped, a
    /// membership change is proposed; a timeout or a membership change goes
    /// on, a closed channel stops, a proposal the node does not take is
    /// answered by an empty entry, and a message the node refuses is a
    /// fault. The `raft` crate panics on a message that does not step
    /// cleanly, which `requires` leaves out.
    pub fn handle(&mut self, ev: PeerEvent) -> (r: Reaction)
        requires
            old(self).wf(),
            ev matches PeerEvent::Received(PeerMessage::Message(m)) ==> steps_cleanly(old(self).node(), m),
        ensures
            final(self).wf(),
            node_settings(final(self).node()) == node_settings(old(self).node()),
            final(self).applying_index() == old(self).applying_index(),
            final(self).compacted_index() == old(self).compacted_index(),
            match ev {
                PeerEvent::Received(PeerMessage::Propose(p)) => exists|taken: bool|
                    node_calls(final(self).node()) == node_calls(old(self).node()).push(
                        NodeCall::Propose(p@, taken),
                    ) && r == reaction_spec(EventKind::Propose, taken),
                PeerEvent::Received(PeerMessage::Message(m)) => exists|taken: bool|
                    node_calls(final(self).node()) == node_calls(old(self).node()).push(
                        NodeCall::Step(m, taken),
                    ) && r == reaction_spec(EventKind::Message, taken),
                PeerEvent::Received(PeerMessage::ConfChange(cc)) => exists|taken: bool|
                    node_calls(final(self).node()) == node_calls(old(self).node()).push(
                        NodeCall::ProposeConfChange(cc, taken),
                    ) && r == Reaction::Continue,
                PeerEvent::Timeout => final(self).node() == old(self).node() && r
                    == Reaction::Continue,
                PeerEvent::Disconnected => final(self).node() == old(self).node() && r
                    == Reaction::Stop,
            },
    {
        let ghost calls = node_calls(self.raft_group);
        match ev {
            PeerEvent::Received(PeerMessage::Propose(p)) => {
                let ghost data = p@;
                let res = node_propose(&mut self.raft_group, p);
                proof {
                    lemma_node_phase_push(calls, NodeCall::Propose(data, res is Ok));
                }
                reaction(EventKind::Propose, res.is_ok())
            },
            PeerEvent::Received(PeerMessage::Message(m)) => {
                let ghost gm = m;
                let res = node_step(&mut self.raft_group, m);
                proof {
                    lemma_node_phase_push(calls, NodeCall::Step(gm, res is Ok));
                }
                reaction(EventKind::Message, res.is_ok())
            },
            PeerEvent::Received(PeerMessage::ConfChange(cc)) => {
                let res = node_propose_conf_change(&mut self.raft_group, &cc);
                proof {
                    lemma_node_phase_push(calls, NodeCall::ProposeConfChange(cc, res is Ok));
                }
                reaction(EventKind::ConfChange, true)
            },
            PeerEvent::Timeout => reaction(EventKind::Timeout, true),
            PeerEvent::Disconnected => reaction(EventKind::Disconnected, true),
        }
    }

    /// Whether `f` is the ready state the node gave last, with nothing done
    /// on the node since: what `finish_ready` goes on with.
    pub open spec fn pending(&self, f: ReadyInFlight) -> bool {
        node_phase(node_calls(self.node())) matches NodePhase::Handling {
            rd,
            snapshot_done,
            entries_done,
            hardstate_done,
        } && !snapshot_done && !entries_done && !hardstate_done && same_ready(rd, f.ready_state())
            && ready_committed_of(f.ready_state()) == ready_committed_of(rd) && ready_messages_of(
            f.ready_state(),
        ) == (if f.leader() {
            Seq::empty()
        } else {
            ready_messages_of(rd)
        })
    }

    /// Starts on what the node has ready, if anything. Without a ready
    /// state it does nothing and gives `None`. Otherwise it takes the ready
    /// state out; a leader hands its messages out at once, for the caller
    /// to send while the rest is persisted by `finish_ready`, which is to
    /// follow before anything else is done on the peer.
    pub fn on_ready(&mut self) -> (r: Option<ReadyStart>)
        requires
            old(self).wf(),
        ensures
            !node_has_ready_of(old(self).node()) ==> (r is None && final(self).node() == old(self).node()),
            node_has_ready_of(old(self).node()) ==> (r matches Some(s) && ready_started(
                old(self).node(),
                final(self).node(),
                s,
            ) && final(self).pending(s.in_flight)),
            final(self).wf(),
            node_settings(final(self).node()) == node_settings(old(self).node()),
            final(self).applying_index() == old(self).applying_index(),
            final(self).compacted_index() == old(self).compacted_index(),
    {
        if !node_has_ready(&self.raft_group) {
            return None;
        }
        let ghost n0 = self.raft_group;
        let ghost rd = ready_of(n0);
        proof {
            lemma_node_phase_push(node_calls(n0), NodeCall::TakeReady(rd));
        }
        let mut ready = node_ready(&mut self.raft_group);
        let (leader_id, id) = node_leader_and_id(&self.raft_group);
        let is_leader = leader_id == id;
        let messages = if is_leader {
            ready_take_messages(&mut ready)
        } else {
            Vec::new()
        };
        let r = ReadyStart { in_flight: ReadyInFlight { ready, is_leader }, messages };
        assert(r.messages@ =~= (if is_leader {
            ready_messages_of(rd)
        } else {
            Seq::empty()
        }));
        Some(r)
    }

    /// Finishes the ready state that `on_ready` started on: persists its
    /// snapshot, its entries and its hard state, in this order, takes out
    /// the messages still in it (a follower's), keeps the committed entries
    /// that `should_apply` keeps, in order, and advances the node. The
    /// messages and entries are handed out for the caller to send and apply.
    pub fn finish_ready(&mut self, f: ReadyInFlight) -> (r: Result<ReadyOutput, ReadyFault>)
        requires
            old(self).pending(f),
        ensures
            ready_finished(old(self).node(), final(self).node(), f, r),
            r is Ok ==> final(self).wf() && node_phase(node_calls(final(self).node()))
                == NodePhase::Idle,
            node_settings(final(self).node()) == node_settings(old(self).node()),
            final(self).applying_index() == old(self).applying_index(),
            final(self).compacted_index() == old(self).compacted_index(),
    {
        let ghost rd = f.ready;
        let ghost taken = node_calls(self.raft_group);
        let ReadyInFlight { ready, is_leader } = f;
        let mut ready = ready;
        let mut out = ReadyOutput { messages: Vec::new(), committed: Vec::new() };
        let snap = ready_snapshot(&ready);
        let ghost gsnap = snap;
        let snapshot_empty = snapshot_is_empty(&snap);
        let ghost c1: Seq<NodeCall> = if !snapshot_empty {
            seq![NodeCall::ApplySnapshot(gsnap, true)]
        } else {
            Seq::empty()
        };
        if !snapshot_empty {
            let res = node_apply_snapshot(&mut self.raft_group, snap);
            proof {
                lemma_node_phase_push(taken, NodeCall::ApplySnapshot(gsnap, res is Ok));
            }
            if res.is_err() {
                assert(node_calls(self.raft_group) == taken.push(NodeCall::ApplySnapshot(ready_snapshot_of(rd), false)));
                return Err(ReadyFault::Snapshot);
            }
        }
        assert(node_calls(self.raft_group) == taken + c1);
        let has_entries = ready_entries(&ready).len() > 0;
        let ghost c2: Seq<NodeCall> = if has_entries {
            seq![NodeCall::Append(ready_entries_of(rd))]
        } else {
            Seq::empty()
        };
        if has_entries {
            proof {
                lemma_node_phase_push(taken + c1, NodeCall::Append(ready_entries_of(rd)));
            }
            let _ = node_append(&mut self.raft_group, ready_entries(&ready));
        }
        assert(node_calls(self.raft_group) == taken + c1 + c2);
        let hs = ready_hardstate(&ready);
        let ghost ghs = hs;
        let ghost c3: Seq<NodeCall> = match ghs {
            Some(h) => seq![NodeCall::SetHardState(h)],
            None => Seq::empty(),
        };
        match hs {
            Some(h) => {
                proof {
                    lemma_node_phase_push(taken + c1 + c2, NodeCall::SetHardState(h));
                }
                node_set_hardstate(&mut self.raft_group, h);
            },
            None => {},
        }
        assert(node_calls(self.raft_group) == taken + c1 + c2 + c3);
        if !is_leader {
            out.messages = ready_take_messages(&mut ready);
        }
        assert(out.messages@ =~= ready_messages_of(rd));
        match ready_take_committed(&mut ready) {
            Some(entries) => {
                let mut j: usize = 0;
                while j < entries.len()
                    invariant
                        j <= entries.len(),
                        out.committed@ == applied_entries(entries@.take(j as int)),
                        out.messages@ == ready_messages_of(rd),
                    decreases entries.len() - j,
                {
                    let e = &entries[j];
                    let data = entry_data(e);
                    assert(entries@.take(j + 1).drop_last() =~= entries@.take(j as int));
                    if should_apply(data.len() == 0, entry_kind(e)) {
                        out.committed.push(entry_clone(e));
                    }
                    j = j + 1;
                }
                assert(entries@.take(j as int) =~= entries@);
            },
            None => {},
        }
        let ghost rd2 = ready;
        proof {
            lemma_node_phase_push(taken + c1 + c2 + c3, NodeCall::Advance(rd2));
            assert(persist_calls(rd) =~= c1 + c2 + c3);
            assert(taken + c1 + c2 + c3 =~= taken + persist_calls(rd));
        }
        node_advance(&mut self.raft_group, ready);
        assert(same_ready(rd, rd2));
        assert(node_calls(self.raft_group) == taken + persist_calls(rd) + seq![NodeCall::Advance(rd2)]);
        assert(out.committed@ == applied_entries(
            match ready_committed_of(rd) {
                Some(s) => s,
                None => Seq::empty(),
            },
        ));
        Ok(out)
    }
}

/// The entry handed to the applier when a proposal is not taken: it carries
/// no data, so the applier answers the waiting client that this replica
/// does not lead.
pub fn empty_entry() -> (r: Entry)
    ensures
        entry_data_of(r) == Seq::<u8>::empty(),
        entry_kind_of(r) == EntryKind::Normal,
{
    entry_new()
}

} // verus!
