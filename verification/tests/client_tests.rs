use kv::kvproto::kvpb_grpc::{create_kv, CallMode, CallOption, Channel, Kv, KvClient, KvMethod};
use kv::kvproto::kvrpcpb::{DeleteResp, GetResp, KvReq, PutResp, RaftDone, RespErr};
use kv::server::peers::PeerTable;
use raft::eraftpb::Message;

fn client(target: &str) -> KvClient {
    KvClient::new(Channel { target: target.to_string() })
}

#[test]
fn method_names() {
    assert_eq!(KvMethod::Get.name(), "/kvpb.kv/Get");
    assert_eq!(KvMethod::Put.name(), "/kvpb.kv/Put");
    assert_eq!(KvMethod::Delete.name(), "/kvpb.kv/Delete");
    assert_eq!(KvMethod::Raft.name(), "/kvpb.kv/Raft");
}

#[test]
fn calls_of_a_client() {
    let c = client("127.0.0.1:5000");
    assert_eq!(c.channel_target(), "127.0.0.1:5000");
    let mut r = KvReq::new();
    r.client_id = 1;
    let g = c.get(&r);
    assert_eq!(g.method, KvMethod::Get);
    assert_eq!(g.payload, vec![0x08, 0x01]);
    assert_eq!(g.option, CallOption::default());
    assert_eq!(g.mode, CallMode::Blocking);
    let p = c.put_async_opt(&r, CallOption::default().timeout(50));
    assert_eq!(p.method, KvMethod::Put);
    assert_eq!(p.mode, CallMode::Async);
    assert_eq!(p.option.timeout_millis, Some(50));
    let d = c.delete_async(&r);
    assert_eq!(d.method, KvMethod::Delete);
    assert_eq!(d.mode, CallMode::Async);
    let m = c.raft(&Message::new());
    assert_eq!(m.method, KvMethod::Raft);
    assert!(m.payload.is_empty());
    assert_eq!(g.target, "127.0.0.1:5000");
    assert_eq!(p.target, "127.0.0.1:5000");
    assert_eq!(m.target, "127.0.0.1:5000");
}

#[test]
fn a_raft_call_carries_the_message() {
    let c = client("10.0.0.9:5000");
    let mut msg = Message::new();
    msg.set_to(2);
    msg.set_term(5);
    let bytes = protobuf::Message::write_to_bytes(&msg).unwrap();
    assert!(!bytes.is_empty());
    let a = c.raft(&msg);
    let b = c.raft_opt(&msg, CallOption::default());
    assert_eq!(a.payload, bytes);
    assert_eq!(b.payload, bytes);
    assert_eq!((a.target, a.method, a.option, a.mode), (b.target, b.method, b.option, b.mode));
    let x = c.raft_async(&msg);
    let y = c.raft_async_opt(&msg, CallOption::default().timeout(10));
    assert_eq!(x.payload, bytes);
    assert_eq!(y.payload, bytes);
    assert_eq!(x.mode, CallMode::Async);
    assert_eq!(y.option.timeout_millis, Some(10));
    assert_eq!(x.target, "10.0.0.9:5000");
}

#[derive(Clone)]
struct Echo;

impl Kv for Echo {
    fn get(&mut self, req: KvReq) -> GetResp {
        let mut g = GetResp::new();
        g.set_value(req.key);
        g
    }
    fn put(&mut self, _req: KvReq) -> PutResp {
        let mut p = PutResp::new();
        p.set_err(RespErr::ErrWrongLeader);
        p
    }
    fn delete(&mut self, _req: KvReq) -> DeleteResp {
        let mut d = DeleteResp::new();
        d.set_err(RespErr::ErrNoKey);
        d
    }
    fn raft(&mut self, _req: Message) -> RaftDone {
        RaftDone::new()
    }
}

#[test]
fn service_routes_calls() {
    let mut s = create_kv(Echo);
    let mut r = KvReq::new();
    r.key = "k".to_string();
    let out = s.handle(KvMethod::Get, &r.write_to_bytes()).unwrap();
    assert_eq!(GetResp::parse_from_bytes(&out).unwrap().value, "k");
    let out = s.handle(KvMethod::Put, &r.write_to_bytes()).unwrap();
    assert_eq!(PutResp::parse_from_bytes(&out).unwrap().err, RespErr::ErrWrongLeader);
    let out = s.handle(KvMethod::Delete, &[]).unwrap();
    assert_eq!(DeleteResp::parse_from_bytes(&out).unwrap().err, RespErr::ErrNoKey);
    let out = s.handle(KvMethod::Raft, &[]).unwrap();
    assert_eq!(RaftDone::parse_from_bytes(&out).unwrap().err, RespErr::OK);
    assert!(s.handle(KvMethod::Get, &[0xFF]).is_none());
    assert!(s.handle(KvMethod::Raft, &[0xFF]).is_none());
    assert!(s.handle(KvMethod::RaftConfChange, &[]).is_none());
}

#[test]
fn peer_table_routes_messages() {
    let mut t = PeerTable::new();
    t.insert(2, client("10.0.0.2:5000"));
    assert!(t.contains(2));
    assert!(!t.contains(3));
    let mut m = Message::new();
    m.set_to(2);
    let (to, call) = t.call_for(&m);
    assert_eq!(to, 2);
    let call = call.unwrap();
    assert_eq!(call.method, KvMethod::Raft);
    assert_eq!(call.target, "10.0.0.2:5000");
    assert_eq!(call.payload, protobuf::Message::write_to_bytes(&m).unwrap());
    m.set_to(3);
    let (to, call) = t.call_for(&m);
    assert_eq!(to, 3);
    assert!(call.is_none());
}
