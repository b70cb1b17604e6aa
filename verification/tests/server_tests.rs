use kv::kvproto::eraftpb::{conf_change_parse_from_bytes, conf_change_write_to_bytes, ConfChange, ConfChangeType};
use kv::kvproto::kvrpcpb::{ConfChangeReq, KvReq, ReqType, RespErr};
use kv::server::applier::{plan_entry, EntryPlan, NotifyRegistry};
use kv::server::apply::{ApplyAction, EngineOp, NotifyArgs};
use kv::server::node::EntryKind;
use kv::server::service::{
    conf_change_response, decimal_string, delete_response, format_peer_address, get_response,
    op_outcome, peer_addr_request, proceed_with_conf_change, put_response, raft_response,
};
use kv::server::util::default_raft_config;

#[test]
fn empty_entry_answers_client_zero() {
    match plan_entry(EntryKind::Normal, 5, &[]) {
        EntryPlan::Notify(id, a) => {
            assert_eq!(id, 0);
            assert_eq!(a.0, 0);
            assert_eq!(a.1, "");
            assert_eq!(a.2, RespErr::ErrWrongLeader);
        }
        _ => panic!("expected a notification"),
    }
}

#[test]
fn proposal_is_applied_as_written() {
    let mut r = KvReq::new();
    r.client_id = 3;
    r.seq = 1;
    r.req_type = ReqType::Put;
    r.key = "a".to_string();
    r.value = "b".to_string();
    match plan_entry(EntryKind::Normal, 9, &r.write_to_bytes()) {
        EntryPlan::Apply(m, a) => {
            assert_eq!(m.term(), 9);
            assert_eq!(m.client_id(), 3);
            match a {
                ApplyAction::Engine(EngineOp::Get(k)) => assert_eq!(k, b"c_3".to_vec()),
                _ => panic!("a put first reads the recorded sequence number"),
            }
        }
        _ => panic!("expected the request to be applied"),
    }
}

#[test]
fn corrupt_entries() {
    assert!(matches!(plan_entry(EntryKind::Normal, 1, &[0xFF]), EntryPlan::Corrupt));
    assert!(matches!(plan_entry(EntryKind::ConfChange, 1, &[0xFF]), EntryPlan::Corrupt));
}

#[test]
fn conf_change_entry_answers_the_new_node() {
    let cc = ConfChange { id: 1, node_id: 4, change_type: ConfChangeType::AddNode };
    let data = conf_change_write_to_bytes(&cc);
    assert_eq!(conf_change_parse_from_bytes(&data), Some(cc));
    match plan_entry(EntryKind::ConfChange, 2, &data) {
        EntryPlan::Notify(id, a) => {
            assert_eq!(id, 4);
            assert_eq!(a.2, RespErr::OK);
        }
        _ => panic!("expected a notification"),
    }
}

#[test]
fn notify_registry() {
    let mut reg: NotifyRegistry<&'static str> = NotifyRegistry::new();
    assert!(!reg.is_waiting(1));
    reg.register(1, "first");
    reg.register(2, "other");
    reg.register(1, "second");
    assert!(reg.is_waiting(1));
    assert_eq!(reg.take(1), Some("second"));
    assert_eq!(reg.take(1), None);
    assert!(reg.is_waiting(2));
}

#[test]
fn outcome_of_a_proposal() {
    let (e, v) = op_outcome(Some(NotifyArgs(3, "x".to_string(), RespErr::OK)));
    assert_eq!(e, RespErr::OK);
    assert_eq!(v, "x");
    let (e, v) = op_outcome(None);
    assert_eq!(e, RespErr::ErrWrongLeader);
    assert_eq!(v, "");
}

#[test]
fn responses() {
    let g = get_response(RespErr::ErrNoKey, "v".to_string());
    assert_eq!(g.err, RespErr::ErrNoKey);
    assert_eq!(g.value, "v");
    assert_eq!(put_response(RespErr::ErrWrongLeader).err, RespErr::ErrWrongLeader);
    assert_eq!(delete_response(RespErr::OK).err, RespErr::OK);
    assert_eq!(raft_response().err, RespErr::OK);
    assert_eq!(conf_change_response(true).err, RespErr::OK);
    assert_eq!(conf_change_response(false).err, RespErr::ErrWrongLeader);
    assert!(proceed_with_conf_change(RespErr::OK));
    assert!(!proceed_with_conf_change(RespErr::ErrNoKey));
    assert!(!proceed_with_conf_change(RespErr::ErrWrongLeader));
}

#[test]
fn peer_address_request() {
    assert_eq!(decimal_string(5000), "5000");
    assert_eq!(format_peer_address(&"127.0.0.1".to_string(), 20160), "127.0.0.1:20160");
    let req = ConfChangeReq {
        cc: Some(ConfChange { id: 7, node_id: 7, change_type: ConfChangeType::AddNode }),
        ip: "10.0.0.7".to_string(),
        port: 5007,
    };
    let k = peer_addr_request(&req).unwrap();
    assert_eq!(k.req_type, ReqType::PeerAddr);
    assert_eq!(k.peer_addr, "10.0.0.7:5007");
    assert_eq!(k.peer_id, 7);
    assert_eq!(k.client_id, 7);
    assert_eq!(k.seq, 0);
    let none = ConfChangeReq { cc: None, ip: String::new(), port: 0 };
    assert!(peer_addr_request(&none).is_none());
}

#[test]
fn conf_change_request_bytes() {
    let cc = ConfChange { id: 1, node_id: 2, change_type: ConfChangeType::AddNode };
    let inner = conf_change_write_to_bytes(&cc);
    let req = ConfChangeReq { cc: Some(cc), ip: "h".to_string(), port: 9 };
    let mut expected = vec![0x0A, inner.len() as u8];
    expected.extend_from_slice(&inner);
    expected.extend_from_slice(&[0x12, 0x01, b'h', 0x18, 0x09]);
    assert_eq!(req.write_to_bytes(), expected);
}

#[test]
fn conf_change_request_read_back() {
    let cc = ConfChange { id: 3, node_id: 5, change_type: ConfChangeType::AddNode };
    let req = ConfChangeReq { cc: Some(cc), ip: "10.1.1.5".to_string(), port: 6000 };
    let back = ConfChangeReq::parse_from_bytes(&req.write_to_bytes()).unwrap();
    assert_eq!(back.cc, Some(cc));
    assert_eq!(back.ip, "10.1.1.5");
    assert_eq!(back.port, 6000);
    // a port that does not fit in 32 bits
    assert!(ConfChangeReq::parse_from_bytes(&[0x18, 0x80, 0x80, 0x80, 0x80, 0x10]).is_none());
}

#[test]
fn default_config() {
    let c = default_raft_config(3, vec![1, 2, 3]);
    assert_eq!(c.id, 3);
    assert_eq!(c.peers, vec![1, 2, 3]);
    assert_eq!(c.election_tick, 10);
    assert_eq!(c.heartbeat_tick, 1);
    assert_eq!(c.max_size_per_msg, 1024 * 1024 * 1024);
    assert_eq!(c.max_inflight_msgs, 256);
    assert_eq!(c.applied, 0);
}
