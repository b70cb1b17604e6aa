use std::collections::HashMap;
use kv::kvproto::kvrpcpb::{KvReq, ReqType, RespErr};
use kv::server::apply::{ApplyAction, ApplyMachine, EngineEvent, EngineOp};

#[derive(Debug, PartialEq)]
enum Done {
    Reply(u64, String, RespErr),
    Abort,
}

/// Runs a request against an engine held in a map, connecting every peer asked for.
fn run(store: &mut HashMap<Vec<u8>, Vec<u8>>, term: u64, req: KvReq, peers: &mut Vec<(u64, String)>) -> Done {
    let (mut m, mut act) = ApplyMachine::start(term, req);
    for _ in 0..10 {
        let ev = match act {
            ApplyAction::Engine(EngineOp::Get(k)) => EngineEvent::Read(store.get(&k).cloned()),
            ApplyAction::Engine(EngineOp::Put(k, v)) => {
                store.insert(k, v);
                EngineEvent::Written
            }
            ApplyAction::Engine(EngineOp::Delete(k)) => {
                store.remove(&k);
                EngineEvent::Written
            }
            ApplyAction::AddPeer(id, addr) => {
                peers.push((id, addr));
                EngineEvent::PeerAdded
            }
            ApplyAction::Finish(a) => return Done::Reply(a.0, a.1, a.2),
            ApplyAction::Abort => return Done::Abort,
        };
        act = m.step(ev);
    }
    panic!("the conversation did not end");
}

fn req(t: ReqType, client: u64, seq: u64, key: &str, value: &str) -> KvReq {
    let mut r = KvReq::new();
    r.req_type = t;
    r.client_id = client;
    r.seq = seq;
    r.key = key.to_string();
    r.value = value.to_string();
    r
}

#[test]
fn get_after_put() {
    let mut store = HashMap::new();
    let mut peers = Vec::new();
    assert_eq!(run(&mut store, 1, req(ReqType::Put, 9, 1, "k", "2333333333333"), &mut peers),
        Done::Reply(1, String::new(), RespErr::OK));
    assert_eq!(store.get(&b"d_k".to_vec()), Some(&b"2333333333333".to_vec()));
    assert_eq!(store.get(&b"c_9".to_vec()), Some(&b"1".to_vec()));
    assert_eq!(run(&mut store, 2, req(ReqType::Get, 4, 0, "k", ""), &mut peers),
        Done::Reply(2, "2333333333333".to_string(), RespErr::OK));
}

#[test]
fn get_missing_key() {
    let mut store = HashMap::new();
    let mut peers = Vec::new();
    assert_eq!(run(&mut store, 3, req(ReqType::Get, 1, 0, "nope", ""), &mut peers),
        Done::Reply(3, String::new(), RespErr::ErrNoKey));
    assert!(store.is_empty());
}

#[test]
fn get_after_delete() {
    let mut store = HashMap::new();
    let mut peers = Vec::new();
    run(&mut store, 1, req(ReqType::Put, 1, 1, "k", "v"), &mut peers);
    assert_eq!(run(&mut store, 1, req(ReqType::Delete, 1, 2, "k", ""), &mut peers),
        Done::Reply(1, String::new(), RespErr::OK));
    assert_eq!(run(&mut store, 1, req(ReqType::Get, 1, 3, "k", ""), &mut peers),
        Done::Reply(1, String::new(), RespErr::ErrNoKey));
    assert_eq!(store.get(&b"c_1".to_vec()), Some(&b"2".to_vec()));
}

#[test]
fn retried_write_is_rejected() {
    let mut store = HashMap::new();
    let mut peers = Vec::new();
    run(&mut store, 1, req(ReqType::Put, 5, 10, "k", "first"), &mut peers);
    // a retry of seq 10 and an older seq 3 change nothing
    assert_eq!(run(&mut store, 1, req(ReqType::Put, 5, 10, "k", "second"), &mut peers),
        Done::Reply(1, String::new(), RespErr::ErrNoKey));
    assert_eq!(run(&mut store, 1, req(ReqType::Delete, 5, 3, "k", ""), &mut peers),
        Done::Reply(1, String::new(), RespErr::ErrNoKey));
    assert_eq!(store.get(&b"d_k".to_vec()), Some(&b"first".to_vec()));
    // another client is not affected
    assert_eq!(run(&mut store, 1, req(ReqType::Put, 6, 1, "k", "third"), &mut peers),
        Done::Reply(1, String::new(), RespErr::OK));
    // gets are never rejected
    assert_eq!(run(&mut store, 1, req(ReqType::Get, 5, 1, "k", ""), &mut peers),
        Done::Reply(1, "third".to_string(), RespErr::OK));
}

#[test]
fn corrupt_sequence_number_aborts() {
    let mut store = HashMap::new();
    let mut peers = Vec::new();
    store.insert(b"c_5".to_vec(), b"not a number".to_vec());
    assert_eq!(run(&mut store, 1, req(ReqType::Put, 5, 1, "k", "v"), &mut peers), Done::Abort);
    assert!(!store.contains_key(&b"d_k".to_vec()));
}

#[test]
fn value_not_utf8_aborts() {
    let mut store = HashMap::new();
    let mut peers = Vec::new();
    store.insert(b"d_k".to_vec(), vec![0xFF]);
    assert_eq!(run(&mut store, 1, req(ReqType::Get, 5, 1, "k", ""), &mut peers), Done::Abort);
}

#[test]
fn peer_address_is_connected() {
    let mut store = HashMap::new();
    let mut peers = Vec::new();
    let mut r = req(ReqType::PeerAddr, 4, 0, "", "");
    r.peer_id = 4;
    r.peer_addr = "10.0.0.4:7000".to_string();
    assert_eq!(run(&mut store, 8, r, &mut peers), Done::Reply(8, String::new(), RespErr::OK));
    assert_eq!(peers, vec![(4, "10.0.0.4:7000".to_string())]);
}

#[test]
fn engine_failures() {
    // a failed read of the recorded sequence number goes on with the write
    let (mut m, _) = ApplyMachine::start(1, req(ReqType::Put, 1, 1, "k", "v"));
    match m.step(EngineEvent::ReadFailed) {
        ApplyAction::Engine(EngineOp::Put(k, v)) => {
            assert_eq!(k, b"d_k".to_vec());
            assert_eq!(v, b"v".to_vec());
        }
        _ => panic!("expected the put"),
    }
    // a failed write answers that this replica does not lead
    match m.step(EngineEvent::WriteFailed) {
        ApplyAction::Finish(a) => assert_eq!(a.2, RespErr::ErrWrongLeader),
        _ => panic!("expected an answer"),
    }
    // a failed get does too
    let (mut g, _) = ApplyMachine::start(6, req(ReqType::Get, 1, 1, "k", ""));
    match g.step(EngineEvent::ReadFailed) {
        ApplyAction::Finish(a) => {
            assert_eq!(a.0, 6);
            assert_eq!(a.2, RespErr::ErrWrongLeader);
        }
        _ => panic!("expected an answer"),
    }
    // a failed record of the sequence number aborts
    let (mut d, _) = ApplyMachine::start(1, req(ReqType::Delete, 1, 1, "k", ""));
    assert!(matches!(d.step(EngineEvent::Read(None)), ApplyAction::Engine(EngineOp::Delete(_))));
    assert!(matches!(d.step(EngineEvent::Written), ApplyAction::Engine(EngineOp::Put(_, _))));
    assert!(matches!(d.step(EngineEvent::WriteFailed), ApplyAction::Abort));
    // and nothing follows the end
    assert!(matches!(d.step(EngineEvent::Written), ApplyAction::Abort));
}

#[test]
fn first_action() {
    let (m, a) = ApplyMachine::start(3, req(ReqType::Delete, 12, 1, "k", ""));
    assert_eq!(m.term(), 3);
    assert_eq!(m.client_id(), 12);
    match a {
        ApplyAction::Engine(EngineOp::Get(k)) => assert_eq!(k, b"c_12".to_vec()),
        _ => panic!("a write first reads the recorded sequence number"),
    }
    let (_, a) = ApplyMachine::start(3, req(ReqType::Get, 12, 1, "k", ""));
    match a {
        ApplyAction::Engine(EngineOp::Get(k)) => assert_eq!(k, b"d_k".to_vec()),
        _ => panic!("a get reads its key"),
    }
}

#[test]
fn get_returns_last_put_across_other_requests() {
    let mut store = HashMap::new();
    let mut peers = Vec::new();
    run(&mut store, 1, req(ReqType::Put, 1, 1, "k", "v1"), &mut peers);
    run(&mut store, 1, req(ReqType::Put, 2, 1, "j", "w"), &mut peers);
    run(&mut store, 2, req(ReqType::Delete, 2, 2, "j", ""), &mut peers);
    run(&mut store, 2, req(ReqType::Get, 3, 1, "j", ""), &mut peers);
    assert_eq!(run(&mut store, 3, req(ReqType::Get, 4, 1, "k", ""), &mut peers),
        Done::Reply(3, "v1".to_string(), RespErr::OK));
    run(&mut store, 3, req(ReqType::Delete, 1, 2, "k", ""), &mut peers);
    run(&mut store, 3, req(ReqType::Put, 2, 3, "j", "x"), &mut peers);
    assert_eq!(run(&mut store, 4, req(ReqType::Get, 4, 2, "k", ""), &mut peers),
        Done::Reply(4, String::new(), RespErr::ErrNoKey));
}

#[test]
fn recorded_sequence_numbers_never_go_down() {
    let mut store = HashMap::new();
    let mut peers = Vec::new();
    run(&mut store, 1, req(ReqType::Put, 1, 5, "k", "a"), &mut peers);
    run(&mut store, 1, req(ReqType::Put, 1, 3, "k", "b"), &mut peers);
    assert_eq!(store.get(&b"c_1".to_vec()), Some(&b"5".to_vec()));
    run(&mut store, 1, req(ReqType::Delete, 1, 9, "k", ""), &mut peers);
    assert_eq!(store.get(&b"c_1".to_vec()), Some(&b"9".to_vec()));
    assert_eq!(run(&mut store, 1, req(ReqType::Put, 1, 9, "k", "c"), &mut peers),
        Done::Reply(1, String::new(), RespErr::ErrNoKey));
}
