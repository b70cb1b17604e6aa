//! How a replica answers the calls of its RPC service. Each client call is
//! proposed to the consensus node and waited for; the waiting is I/O and is
//! the caller's, the answers are decided here.
use vstd::prelude::*;
use vstd::utf8::encode_utf8;
use crate::codec::{decimal, decimal_bytes};
use crate::kvproto::kvrpcpb::{
    ConfChangeReq, DeleteResp, GetResp, KvReq, KvReqView, PutResp, RaftDone, ReqType, RespErr,
    string_from_utf8,
};
use crate::server::apply::NotifyArgs;

verus! {

broadcast use {vstd::utf8::encode_utf8_valid_utf8, vstd::utf8::encode_utf8_decode_utf8};

/// The answer to a proposed request: the applier's answer, or, where none
/// came before the timeout, that this replica does not lead.
pub open spec fn op_outcome_spec(reply: Option<(u64, Seq<char>, RespErr)>) -> (RespErr, Seq<char>) {
    match reply {
        Some((_, v, e)) => (e, v),
        None => (RespErr::ErrWrongLeader, Seq::empty()),
    }
}

/// The answer to a proposed request, from what came back from the applier
/// before the timeout, if anything.
pub fn op_outcome(reply: Option<NotifyArgs>) -> (r: (RespErr, String))
    ensures
        reply matches Some(a) ==> r.0 == a.2 && r.1@ == a.1@,
        reply is None ==> r.0 == RespErr::ErrWrongLeader && r.1@ == Seq::<char>::empty(),
        (r.0, r.1@) == op_outcome_spec(
            match reply {
                Some(a) => Some(a@),
                None => None,
            },
        ),
{
    match reply {
        Some(args) => (args.2, args.1),
        None => (RespErr::ErrWrongLeader, String::new()),
    }
}

/// The client is told exactly what the applier answered, error and value
/// unchanged, whatever they are (a missing key stays `ErrNoKey`, a retried
/// write stays refused); only where no answer came is it told that this
/// replica does not lead, with no value.
pub proof fn lemma_op_outcome_passes_reply(t: u64, v: Seq<char>, e: RespErr)
    ensures
        op_outcome_spec(Some((t, v, e))).0 == e,
        op_outcome_spec(Some((t, v, e))).1 == v,
        op_outcome_spec(None) == (RespErr::ErrWrongLeader, Seq::<char>::empty()),
{
}

/// The response to a get: the answer and the value.
pub fn get_response(err: RespErr, value: String) -> (r: GetResp)
    ensures
        r.err == err,
        r.value == value,
{
    let mut resp = GetResp::new();
    resp.set_err(err);
    resp.set_value(value);
    resp
}

/// The response to a put.
pub fn put_response(err: RespErr) -> (r: PutResp)
    ensures
        r.err == err,
{
    let mut resp = PutResp::new();
    resp.set_err(err);
    resp
}

/// The response to a delete.
pub fn delete_response(err: RespErr) -> (r: DeleteResp)
    ensures
        r.err == err,
{
    let mut resp = DeleteResp::new();
    resp.set_err(err);
    resp
}

/// The response to a consensus message: it is taken in, whatever becomes
/// of it.
pub fn raft_response() -> (r: RaftDone)
    ensures
        r.err == RespErr::OK,
{
    RaftDone::new()
}

/// The characters of the decimal numeral of `n`.
pub open spec fn decimal_chars(n: nat) -> Seq<char> {
    decimal(n).map_values(|b: u8| b as char)
}

proof fn lemma_decimal_chars_utf8(n: nat)
    ensures
        encode_utf8(decimal_chars(n)) == decimal(n),
{
    let c = decimal_chars(n);
    crate::codec::lemma_decimal_all_digits(n);
    assert(vstd::utf8::is_ascii_chars(c)) by {
        assert forall|i: int| 0 <= i < c.len() implies '\0' <= #[trigger] c[i] <= '\u{7f}' by {
            assert(crate::codec::is_digit(decimal(n)[i]));
        }
    }
    vstd::utf8::is_ascii_chars_encode_utf8(c);
    assert(encode_utf8(c) =~= decimal(n));
}

/// The decimal numeral of `n` as a string.
pub fn decimal_string(n: u64) -> (r: String)
    ensures
        r@ == decimal_chars(n as nat),
{
    let b = decimal_bytes(n);
    proof {
        lemma_decimal_chars_utf8(n as nat);
    }
    match string_from_utf8(b) {
        Some(s) => s,
        None => String::new(),
    }
}

/// The address `ip:port` at which a node serves.
pub open spec fn peer_address(ip: Seq<char>, port: u32) -> Seq<char> {
    ip + seq![':'] + decimal_chars(port as nat)
}

/// The address `ip:port`.
pub fn format_peer_address(ip: &String, port: u32) -> (r: String)
    ensures
        r@ == peer_address(ip@, port),
{
    let colon = ":";
    proof {
        reveal_strlit(":");
    }
    let p = decimal_string(port as u64);
    let r = ip.clone().concat(colon).concat(p.as_str());
    assert(r@ =~= peer_address(ip@, port));
    r
}

/// The request that tells the replicas a new node's address: of kind
/// `PeerAddr`, for the node's id (which also stands as the client id, and
/// with sequence number zero), at `ip:port`.
pub open spec fn peer_addr_request_spec(node_id: u64, ip: Seq<char>, port: u32) -> KvReqView {
    KvReqView {
        client_id: node_id,
        seq: 0,
        req_type: ReqType::PeerAddr,
        key: Seq::empty(),
        value: Seq::empty(),
        peer_addr: peer_address(ip, port),
        peer_id: node_id,
    }
}

/// The request that tells the replicas the address of the node that a
/// membership request adds, or `None` where the request carries no change.
pub fn peer_addr_request(req: &ConfChangeReq) -> (r: Option<KvReq>)
    ensures
        match req.cc {
            Some(cc) => r matches Some(k) && k@ == peer_addr_request_spec(cc.node_id, req.ip@, req.port),
            None => r is None,
        },
{
    match req.cc {
        Some(cc) => {
            let mut k = KvReq::new();
            k.req_type = ReqType::PeerAddr;
            k.peer_addr = format_peer_address(&req.ip, req.port);
            k.peer_id = cc.node_id;
            k.client_id = cc.node_id;
            Some(k)
        },
        None => None,
    }
}

/// Whether a membership change goes on to be proposed: only once every
/// replica has been told the new node's address.
pub fn proceed_with_conf_change(addr_answer: RespErr) -> (r: bool)
    ensures
        r == (addr_answer == RespErr::OK),
{
    match addr_answer {
        RespErr::OK => true,
        _ => false,
    }
}

/// The answer to a membership request: `OK` where the change was applied
/// before the timeout, else that this replica does not lead.
pub fn conf_change_response(applied: bool) -> (r: RaftDone)
    ensures
        r.err == (if applied {
            RespErr::OK
        } else {
            RespErr::ErrWrongLeader
        }),
{
    let mut resp = RaftDone::new();
    if applied {
        resp.set_err(RespErr::OK);
    } else {
        resp.set_err(RespErr::ErrWrongLeader);
    }
    resp
}

} // verus!
