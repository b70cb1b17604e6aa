use kv::kvproto::eraftpb::{
    conf_change_parse_from_bytes, conf_change_write_to_bytes, ConfChange, ConfChangeType,
};
use kv::kvproto::kvrpcpb::{DeleteResp, GetResp, KvReq, PutResp, RaftDone, ReqType, RespErr};

fn sample() -> KvReq {
    let mut r = KvReq::new();
    r.client_id = 7;
    r.seq = 300;
    r.req_type = ReqType::Put;
    r.key = "k".to_string();
    r.value = "2333333333333".to_string();
    r
}

#[test]
fn default_request_is_no_bytes() {
    assert_eq!(KvReq::new().write_to_bytes(), Vec::<u8>::new());
    let back = KvReq::parse_from_bytes(&[]).unwrap();
    assert_eq!(back.client_id, 0);
    assert_eq!(back.seq, 0);
    assert_eq!(back.req_type, ReqType::Get);
    assert_eq!(back.key, "");
}

#[test]
fn request_bytes() {
    let b = sample().write_to_bytes();
    let mut expected = vec![0x08, 0x07, 0x10, 0xAC, 0x02, 0x18, 0x01, 0x22, 0x01, b'k', 0x2A, 13];
    expected.extend_from_slice(b"2333333333333");
    assert_eq!(b, expected);
}

#[test]
fn request_roundtrip() {
    let mut r = sample();
    r.peer_addr = "127.0.0.1:5000".to_string();
    r.peer_id = u64::MAX;
    r.key = "ключ".to_string();
    let back = KvReq::parse_from_bytes(&r.write_to_bytes()).unwrap();
    assert_eq!(back.client_id, r.client_id);
    assert_eq!(back.seq, r.seq);
    assert_eq!(back.req_type, r.req_type);
    assert_eq!(back.key, r.key);
    assert_eq!(back.value, r.value);
    assert_eq!(back.peer_addr, r.peer_addr);
    assert_eq!(back.peer_id, r.peer_id);
}

#[test]
fn request_later_field_wins_and_unknown_skipped() {
    // seq = 1, then an unknown varint field 9, then a fixed64 field 10, then seq = 2
    let bytes = vec![0x10, 0x01, 0x48, 0x05, 0x51, 1, 2, 3, 4, 5, 6, 7, 8, 0x10, 0x02];
    let r = KvReq::parse_from_bytes(&bytes).unwrap();
    assert_eq!(r.seq, 2);
}

#[test]
fn request_malformed() {
    // truncated varint
    assert!(KvReq::parse_from_bytes(&[0x08]).is_none());
    // field number zero
    assert!(KvReq::parse_from_bytes(&[0x00, 0x01]).is_none());
    // unknown request type
    assert!(KvReq::parse_from_bytes(&[0x18, 0x09]).is_none());
    // key given as a varint
    assert!(KvReq::parse_from_bytes(&[0x20, 0x01]).is_none());
    // key longer than the bytes
    assert!(KvReq::parse_from_bytes(&[0x22, 0x05, b'a']).is_none());
    // key not UTF-8
    assert!(KvReq::parse_from_bytes(&[0x22, 0x01, 0xFF]).is_none());
    // wire type 3 (groups) is not taken
    assert!(KvReq::parse_from_bytes(&[0x0B]).is_none());
}

#[test]
fn get_response_roundtrip() {
    let mut g = GetResp::new();
    g.set_err(RespErr::ErrNoKey);
    g.set_value("v".to_string());
    let b = g.write_to_bytes();
    assert_eq!(b, vec![0x08, 0x02, 0x12, 0x01, b'v']);
    let back = GetResp::parse_from_bytes(&b).unwrap();
    assert_eq!(back.err, RespErr::ErrNoKey);
    assert_eq!(back.value, "v");
    assert!(GetResp::parse_from_bytes(&[0x08, 0x03]).is_none());
}

#[test]
fn error_responses_roundtrip() {
    for e in [RespErr::OK, RespErr::ErrWrongLeader, RespErr::ErrNoKey] {
        let mut p = PutResp::new();
        p.set_err(e);
        assert_eq!(PutResp::parse_from_bytes(&p.write_to_bytes()).unwrap().err, e);
        let mut d = DeleteResp::new();
        d.set_err(e);
        assert_eq!(DeleteResp::parse_from_bytes(&d.write_to_bytes()).unwrap().err, e);
        let mut r = RaftDone::new();
        r.set_err(e);
        assert_eq!(RaftDone::parse_from_bytes(&r.write_to_bytes()).unwrap().err, e);
    }
    assert_eq!(RaftDone::new().write_to_bytes(), Vec::<u8>::new());
    let mut w = RaftDone::new();
    w.set_err(RespErr::ErrWrongLeader);
    assert_eq!(w.write_to_bytes(), vec![0x08, 0x01]);
}

#[test]
fn enum_numbers() {
    assert_eq!(ReqType::PeerAddr.number(), 3);
    assert_eq!(ReqType::from_number(2), Some(ReqType::Delete));
    assert_eq!(ReqType::from_number(4), None);
    assert_eq!(RespErr::ErrNoKey.number(), 2);
    assert_eq!(RespErr::from_number(3), None);
}

#[test]
fn membership_change_bytes() {
    let add = ConfChange { id: 0, node_id: 2, change_type: ConfChangeType::AddNode };
    assert_eq!(conf_change_write_to_bytes(&add), vec![0x18, 0x02]);
    let remove = ConfChange { id: 1, node_id: 3, change_type: ConfChangeType::RemoveNode };
    let bytes = conf_change_write_to_bytes(&remove);
    assert_eq!(bytes, vec![0x08, 0x01, 0x10, 0x01, 0x18, 0x03]);
    assert_eq!(conf_change_parse_from_bytes(&bytes), Some(remove));
    let empty = ConfChange { id: 0, node_id: 0, change_type: ConfChangeType::AddNode };
    assert_eq!(conf_change_parse_from_bytes(&[]), Some(empty));
    assert_eq!(conf_change_parse_from_bytes(&[0x18]), None);
}
