use kv::membership::{JoinRetry, JoinStep};
use kv::kvproto::kvrpcpb::RespErr;
use kv::server::peer::{
    empty_entry, reaction, should_apply, EventKind, Peer, PeerEvent, PeerMessage, Reaction,
    TickTimer, TICK_INTERVAL_NANOS,
};
use kv::server::node::{
    entry_data, entry_kind, ready_entries, ready_hardstate, ready_snapshot, ready_take_committed,
    ready_take_messages, snapshot_is_empty, EntryKind,
};
use raft::eraftpb::{Entry, EntryType, HardState, Message};

#[test]
fn timer_ticks_when_the_interval_is_over() {
    let mut t = TickTimer::new();
    assert_eq!(t.timeout(), TICK_INTERVAL_NANOS);
    assert!(!t.elapsed(30_000_000));
    assert_eq!(t.timeout(), 70_000_000);
    assert!(!t.elapsed(69_999_999));
    assert_eq!(t.timeout(), 1);
    assert!(t.elapsed(1));
    assert_eq!(t.timeout(), TICK_INTERVAL_NANOS);
    assert!(t.elapsed(500_000_000));
}

#[test]
fn reactions() {
    assert_eq!(reaction(EventKind::Propose, true), Reaction::Continue);
    assert_eq!(reaction(EventKind::Propose, false), Reaction::ApplyEmpty);
    assert_eq!(reaction(EventKind::Message, false), Reaction::Fault);
    assert_eq!(reaction(EventKind::Timeout, false), Reaction::Continue);
    assert_eq!(reaction(EventKind::Disconnected, true), Reaction::Stop);
}

#[test]
fn the_parts_of_a_ready_state() {
    let mut rd = raft::Ready::default();
    let mut m = Message::new();
    m.set_to(7);
    rd.messages = vec![m.clone()];
    let mut e = Entry::new();
    e.set_index(4);
    e.set_data(b"put".to_vec());
    rd.entries = vec![e.clone()];
    rd.committed_entries = Some(vec![e.clone(), Entry::new()]);
    let mut hs = HardState::new();
    hs.set_commit(4);
    rd.hs = Some(hs.clone());
    assert!(snapshot_is_empty(&ready_snapshot(&rd)));
    assert_eq!(ready_entries(&rd).to_vec(), vec![e.clone()]);
    assert_eq!(ready_hardstate(&rd), Some(hs));
    assert_eq!(ready_take_messages(&mut rd), vec![m]);
    assert!(rd.messages.is_empty());
    assert_eq!(ready_take_committed(&mut rd), Some(vec![e.clone(), Entry::new()]));
    assert_eq!(rd.committed_entries, None);
    assert_eq!(ready_entries(&rd).to_vec(), vec![e]);
}

#[test]
fn the_empty_entry_is_not_applied() {
    let e = empty_entry();
    assert!(entry_data(&e).is_empty());
    assert_eq!(entry_kind(&e), EntryKind::Normal);
    assert!(!should_apply(entry_data(&e).is_empty(), entry_kind(&e)));
    let mut c = Entry::new();
    c.set_entry_type(EntryType::EntryConfChange);
    c.set_data(b"cc".to_vec());
    assert_eq!(entry_data(&c), b"cc".to_vec());
    assert_eq!(entry_kind(&c), EntryKind::ConfChange);
    assert!(!should_apply(entry_data(&c).is_empty(), entry_kind(&c)));
}

#[test]
fn a_fresh_peer_hands_out_nothing() {
    let mut p = Peer::new(3);
    // a fresh node has its first hard state to store, and no leader
    let start = p.on_ready().unwrap();
    assert!(start.messages.is_empty());
    let out = p.finish_ready(start.in_flight).ok().unwrap();
    assert!(out.messages.is_empty());
    assert!(out.committed.is_empty());
    assert!(p.on_ready().is_none());
}

#[test]
fn which_committed_entries_are_applied() {
    assert!(should_apply(false, EntryKind::Normal));
    assert!(!should_apply(true, EntryKind::Normal));
    assert!(!should_apply(false, EntryKind::ConfChange));
}

#[test]
fn a_fresh_peer() {
    let mut p = Peer::new(1);
    assert_eq!(p.handle(PeerEvent::Timeout), Reaction::Continue);
    assert_eq!(p.handle(PeerEvent::Disconnected), Reaction::Stop);
    // with no leader known the proposal is dropped
    assert_eq!(p.handle(PeerEvent::Received(PeerMessage::Propose(b"x".to_vec()))), Reaction::ApplyEmpty);
    for _ in 0..3 {
        p.tick();
    }
    if let Some(start) = p.on_ready() {
        let out = p.finish_ready(start.in_flight).ok().unwrap();
        assert!(out.committed.is_empty());
    }
    assert!(p.on_ready().is_none());
}

#[test]
fn join_asks_the_leader_then_the_others_in_turn() {
    let (mut j, first) = JoinRetry::new(2, 1, vec![1, 2, 3]).unwrap();
    assert_eq!(first, JoinStep::Ask(1));
    assert_eq!(j.on_answer(Some(RespErr::ErrWrongLeader)), JoinStep::Ask(1));
    assert_eq!(j.on_answer(None), JoinStep::Ask(3));
    assert_eq!(j.on_answer(Some(RespErr::ErrWrongLeader)), JoinStep::Ask(1));
    assert_eq!(j.on_answer(Some(RespErr::OK)), JoinStep::Done);
}

#[test]
fn join_ends_on_no_key_and_needs_a_known_leader() {
    let (mut j, _) = JoinRetry::new(2, 3, vec![1, 2, 3]).unwrap();
    assert_eq!(j.on_answer(Some(RespErr::ErrNoKey)), JoinStep::Done);
    assert!(JoinRetry::new(2, 9, vec![1, 2, 3]).is_none());
}

#[test]
fn join_alone_is_stuck() {
    let (mut j, _) = JoinRetry::new(2, 2, vec![2]).unwrap();
    assert_eq!(j.on_answer(Some(RespErr::ErrWrongLeader)), JoinStep::Stuck);
}
