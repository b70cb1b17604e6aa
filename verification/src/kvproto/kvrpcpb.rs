//! The messages that clients and replicas exchange, and their wire format.
//!
//! Field numbers follow the order of declaration: `KvReq` is
//! `client_id = 1, seq = 2, req_type = 3, key = 4, value = 5, peer_addr = 6,
//! peer_id = 7`; the responses carry `err = 1` and, for `GetResp`,
//! `value = 2`. As in proto3, a field that holds its default value is left
//! out, so a default message is written as no bytes at all.
use vstd::prelude::*;
use vstd::utf8::*;
use crate::codec::push_varint;
use crate::wire::{varint_field, bytes_field, encodes_field, lemma_varint_field, lemma_bytes_field, WireValue, WireField, read_field, read_fields, opt_varint_field, opt_bytes_field, FieldValue, field_value_view, next_field, push_opt_varint_field, push_opt_bytes_field};

verus! {

broadcast use {vstd::utf8::encode_utf8_valid_utf8, vstd::utf8::encode_utf8_decode_utf8};

/// What a client asks of the store.
#[derive(Clone, Copy, Debug, PartialEq, Eq, Structural)]
pub enum ReqType {
    Get,
    Put,
    Delete,
    PeerAddr,
}

/// How a replica answers a request.
#[derive(Clone, Copy, Debug, PartialEq, Eq, Structural)]
pub enum RespErr {
    OK,
    ErrWrongLeader,
    ErrNoKey,
}

/// The number that stands for a request type on the wire.
pub open spec fn req_type_number(t: ReqType) -> nat {
    match t {
        ReqType::Get => 0,
        ReqType::Put => 1,
        ReqType::Delete => 2,
        ReqType::PeerAddr => 3,
    }
}

/// The request type that a number on the wire stands for.
pub open spec fn req_type_of(n: nat) -> Option<ReqType> {
    if n == 0 {
        Some(ReqType::Get)
    } else if n == 1 {
        Some(ReqType::Put)
    } else if n == 2 {
        Some(ReqType::Delete)
    } else if n == 3 {
        Some(ReqType::PeerAddr)
    } else {
        None
    }
}

/// The number that stands for an answer on the wire.
pub open spec fn resp_err_number(e: RespErr) -> nat {
    match e {
        RespErr::OK => 0,
        RespErr::ErrWrongLeader => 1,
        RespErr::ErrNoKey => 2,
    }
}

/// The answer that a number on the wire stands for.
pub open spec fn resp_err_of(n: nat) -> Option<RespErr> {
    if n == 0 {
        Some(RespErr::OK)
    } else if n == 1 {
        Some(RespErr::ErrWrongLeader)
    } else if n == 2 {
        Some(RespErr::ErrNoKey)
    } else {
        None
    }
}

impl ReqType {
    /// The number that stands for this request type on the wire.
    pub fn number(&self) -> (r: u64)
        ensures
            r as nat == req_type_number(*self),
    {
        match self {
            ReqType::Get => 0,
            ReqType::Put => 1,
            ReqType::Delete => 2,
            ReqType::PeerAddr => 3,
        }
    }

    /// The request type that a number on the wire stands for.
    pub fn from_number(n: u64) -> (r: Option<ReqType>)
        ensures
            r == req_type_of(n as nat),
    {
        if n == 0 {
            Some(ReqType::Get)
        } else if n == 1 {
            Some(ReqType::Put)
        } else if n == 2 {
            Some(ReqType::Delete)
        } else if n == 3 {
            Some(ReqType::PeerAddr)
        } else {
            None
        }
    }
}

impl RespErr {
    /// The number that stands for this answer on the wire.
    pub fn number(&self) -> (r: u64)
        ensures
            r as nat == resp_err_number(*self),
    {
        match self {
            RespErr::OK => 0,
            RespErr::ErrWrongLeader => 1,
            RespErr::ErrNoKey => 2,
        }
    }

    /// The answer that a number on the wire stands for.
    pub fn from_number(n: u64) -> (r: Option<RespErr>)
        ensures
            r == resp_err_of(n as nat),
    {
        if n == 0 {
            Some(RespErr::OK)
        } else if n == 1 {
            Some(RespErr::ErrWrongLeader)
        } else if n == 2 {
            Some(RespErr::ErrNoKey)
        } else {
            None
        }
    }
}

/// A client request. `client_id` and `seq` identify it: a client numbers its
/// writes, and a replica serves each of them at most once.
pub struct KvReq {
    pub client_id: u64,
    pub seq: u64,
    pub req_type: ReqType,
    pub key: String,
    pub value: String,
    pub peer_addr: String,
    pub peer_id: u64,
}

/// A client request with its strings taken as characters.
pub struct KvReqView {
    pub client_id: u64,
    pub seq: u64,
    pub req_type: ReqType,
    pub key: Seq<char>,
    pub value: Seq<char>,
    pub peer_addr: Seq<char>,
    pub peer_id: u64,
}

impl View for KvReq {
    type V = KvReqView;

    open spec fn view(&self) -> KvReqView {
        KvReqView {
            client_id: self.client_id,
            seq: self.seq,
            req_type: self.req_type,
            key: self.key@,
            value: self.value@,
            peer_addr: self.peer_addr@,
            peer_id: self.peer_id,
        }
    }
}

/// The request whose every field holds its default.
pub open spec fn default_kv_req() -> KvReqView {
    KvReqView {
        client_id: 0,
        seq: 0,
        req_type: ReqType::Get,
        key: Seq::empty(),
        value: Seq::empty(),
        peer_addr: Seq::empty(),
        peer_id: 0,
    }
}

/// A string field: its UTF-8 bytes, left out where it is empty.
pub open spec fn string_field(number: nat, s: Seq<char>) -> Seq<u8> {
    opt_bytes_field(number, encode_utf8(s))
}

/// The bytes that a request is written as.
pub open spec fn kv_req_encoding(r: KvReqView) -> Seq<u8> {
    opt_varint_field(1, r.client_id as nat) + opt_varint_field(2, r.seq as nat) + opt_varint_field(
        3,
        req_type_number(r.req_type),
    ) + string_field(4, r.key) + string_field(5, r.value) + string_field(6, r.peer_addr)
        + opt_varint_field(7, r.peer_id as nat)
}

/// The characters of a string field, where its bytes are UTF-8.
pub open spec fn string_value(v: WireValue) -> Option<Seq<char>> {
    match v {
        WireValue::Bytes(b) => if valid_utf8(b) {
            Some(decode_utf8(b))
        } else {
            None
        },
        _ => None,
    }
}

/// The 64-bit value of a varint field.
pub open spec fn varint_value(v: WireValue) -> Option<u64> {
    match v {
        WireValue::Varint(x) => Some(x),
        _ => None,
    }
}

/// A request after one more field is read: fields of other numbers are
/// skipped, a known field with a value of the wrong kind is an error.
pub open spec fn kv_req_set(acc: KvReqView, f: WireField) -> Option<KvReqView> {
    if f.number == 1 {
        match varint_value(f.value) {
            Some(x) => Some(KvReqView { client_id: x, ..acc }),
            None => None,
        }
    } else if f.number == 2 {
        match varint_value(f.value) {
            Some(x) => Some(KvReqView { seq: x, ..acc }),
            None => None,
        }
    } else if f.number == 3 {
        match varint_value(f.value) {
            Some(x) => match req_type_of(x as nat) {
                Some(t) => Some(KvReqView { req_type: t, ..acc }),
                None => None,
            },
            None => None,
        }
    } else if f.number == 4 {
        match string_value(f.value) {
            Some(s) => Some(KvReqView { key: s, ..acc }),
            None => None,
        }
    } else if f.number == 5 {
        match string_value(f.value) {
            Some(s) => Some(KvReqView { value: s, ..acc }),
            None => None,
        }
    } else if f.number == 6 {
        match string_value(f.value) {
            Some(s) => Some(KvReqView { peer_addr: s, ..acc }),
            None => None,
        }
    } else if f.number == 7 {
        match varint_value(f.value) {
            Some(x) => Some(KvReqView { peer_id: x, ..acc }),
            None => None,
        }
    } else {
        Some(acc)
    }
}

/// A request after a list of fields is read, in order.
pub open spec fn kv_req_fold(acc: KvReqView, fs: Seq<WireField>) -> Option<KvReqView>
    decreases fs.len(),
{
    if fs.len() == 0 {
        Some(acc)
    } else {
        match kv_req_set(acc, fs[0]) {
            Some(a) => kv_req_fold(a, fs.drop_first()),
            None => None,
        }
    }
}

/// The request that bytes stand for, if they are a well-formed request.
pub open spec fn kv_req_decoding(s: Seq<u8>) -> Option<KvReqView> {
    match read_fields(s) {
        Some(fs) => kv_req_fold(default_kv_req(), fs),
        None => None,
    }
}

/// Bytes that a string's UTF-8 encoding is copied into.
pub fn utf8_bytes(s: &String) -> (r: Vec<u8>)
    ensures
        r@ == encode_utf8(s@),
{
    let b = s.as_str().as_bytes();
    let mut r: Vec<u8> = Vec::new();
    let mut i: usize = 0;
    while i < b.len()
        invariant
            0 <= i <= b@.len(),
            b@ == encode_utf8(s@),
            r@ == b@.subrange(0, i as int),
        decreases b@.len() - i,
    {
        r.push(b[i]);
        i = i + 1;
        assert(r@ =~= b@.subrange(0, i as int));
    }
    assert(r@ =~= b@);
    r
}

/// `String::from_utf8`: the string whose UTF-8 encoding the bytes are, or
/// `None` where they are not UTF-8, as the standard library documents it.
#[verifier::external_body]
pub(crate) fn string_from_utf8(bytes: Vec<u8>) -> (r: Option<String>)
    ensures
        r is Some <==> valid_utf8(bytes@),
        r matches Some(s) ==> s@ == decode_utf8(bytes@),
{
    String::from_utf8(bytes).ok()
}

/// The characters of a string field read by `next_field`.
fn take_string(v: FieldValue) -> (r: Option<String>)
    ensures
        match string_value(field_value_view(v)) {
            Some(s) => r matches Some(x) && x@ == s,
            None => r is None,
        },
{
    match v {
        FieldValue::Bytes(b) => string_from_utf8(b),
        _ => None,
    }
}

fn take_varint(v: &FieldValue) -> (r: Option<u64>)
    ensures
        r == varint_value(field_value_view(*v)),
{
    match v {
        FieldValue::Varint(x) => Some(*x),
        _ => None,
    }
}

/// One more step of reading a list of fields: how the rest of a message is
/// read when its first field takes `k` bytes.
proof fn lemma_read_fields_step(s: Seq<u8>)
    requires
        s.len() > 0,
    ensures
        match read_field(s) {
            Some((f, k)) => if 0 < k <= s.len() {
                read_fields(s) == match read_fields(s.subrange(k as int, s.len() as int)) {
                    Some(fs) => Some(seq![f] + fs),
                    None => None,
                }
            } else {
                read_fields(s) is None
            },
            None => read_fields(s) is None,
        },
{
}

proof fn lemma_kv_req_fold_cons(acc: KvReqView, f: WireField, fs: Seq<WireField>)
    ensures
        kv_req_fold(acc, seq![f] + fs) == match kv_req_set(acc, f) {
            Some(a) => kv_req_fold(a, fs),
            None => None,
        },
{
    assert((seq![f] + fs).drop_first() =~= fs);
}

/// The fields, read back, of a varint field as proto3 writes it.
pub open spec fn opt_varint_wire(number: nat, v: u64) -> Seq<WireField> {
    if v == 0 {
        Seq::empty()
    } else {
        seq![WireField { number, value: WireValue::Varint(v) }]
    }
}

/// The fields, read back, of a length-delimited field as proto3 writes it.
pub open spec fn opt_bytes_wire(number: nat, b: Seq<u8>) -> Seq<WireField> {
    if b.len() == 0 {
        Seq::empty()
    } else {
        seq![WireField { number, value: WireValue::Bytes(b) }]
    }
}

/// Reading a message whose first field encodes `f`.
proof fn lemma_read_fields_cons(piece: Seq<u8>, f: WireField, rest: Seq<u8>)
    requires
        encodes_field(piece, f),
    ensures
        read_fields(piece + rest) == match read_fields(rest) {
            Some(fs) => Some(seq![f] + fs),
            None => None,
        },
{
    let s = piece + rest;
    assert(read_field(s) == Some((f, piece.len())));
    lemma_read_fields_step(s);
    assert(s.subrange(piece.len() as int, s.len() as int) =~= rest);
}

/// Reading a message whose first bytes are a varint field as proto3 writes it.
proof fn lemma_read_opt_varint(number: u64, v: u64, rest: Seq<u8>)
    requires
        1 <= number <= 15,
    ensures
        read_fields(opt_varint_field(number as nat, v as nat) + rest) == match read_fields(rest) {
            Some(fs) => Some(opt_varint_wire(number as nat, v) + fs),
            None => None,
        },
{
    if v == 0 {
        assert(opt_varint_field(number as nat, v as nat) + rest =~= rest);
        match read_fields(rest) {
            Some(fs) => assert(opt_varint_wire(number as nat, v) + fs =~= fs),
            None => {},
        }
    } else {
        lemma_varint_field(number, v);
        lemma_read_fields_cons(
            varint_field(number as nat, v as nat),
            WireField { number: number as nat, value: WireValue::Varint(v) },
            rest,
        );
    }
}

/// Reading a message whose first bytes are a length-delimited field as proto3
/// writes it.
proof fn lemma_read_opt_bytes(number: u64, b: Seq<u8>, rest: Seq<u8>)
    requires
        1 <= number <= 15,
        b.len() <= u64::MAX,
    ensures
        read_fields(opt_bytes_field(number as nat, b) + rest) == match read_fields(rest) {
            Some(fs) => Some(opt_bytes_wire(number as nat, b) + fs),
            None => None,
        },
{
    if b.len() == 0 {
        assert(opt_bytes_field(number as nat, b) + rest =~= rest);
        match read_fields(rest) {
            Some(fs) => assert(opt_bytes_wire(number as nat, b) + fs =~= fs),
            None => {},
        }
    } else {
        lemma_bytes_field(number, b);
        lemma_read_fields_cons(
            bytes_field(number as nat, b),
            WireField { number: number as nat, value: WireValue::Bytes(b) },
            rest,
        );
    }
}

proof fn lemma_kv_req_fold_opt(acc: KvReqView, pre: Seq<WireField>, fs: Seq<WireField>)
    requires
        pre.len() <= 1,
    ensures
        kv_req_fold(acc, pre + fs) == if pre.len() == 0 {
            kv_req_fold(acc, fs)
        } else {
            match kv_req_set(acc, pre[0]) {
                Some(a) => kv_req_fold(a, fs),
                None => None,
            }
        },
{
    if pre.len() == 0 {
        assert(pre + fs =~= fs);
    } else {
        assert(pre + fs =~= seq![pre[0]] + fs);
        lemma_kv_req_fold_cons(acc, pre[0], fs);
    }
}

/// The fields that a request is read back as.
pub open spec fn kv_req_wire(r: KvReqView) -> Seq<WireField> {
    opt_varint_wire(1, r.client_id) + (opt_varint_wire(2, r.seq) + (opt_varint_wire(
        3,
        req_type_number(r.req_type) as u64,
    ) + (opt_bytes_wire(4, encode_utf8(r.key)) + (opt_bytes_wire(5, encode_utf8(r.value)) + (
    opt_bytes_wire(6, encode_utf8(r.peer_addr)) + opt_varint_wire(7, r.peer_id))))))
}

#[verifier::spinoff_prover]
#[verifier::rlimit(50)]
proof fn lemma_kv_req_read(r: KvReqView)
    requires
        encode_utf8(r.key).len() <= u64::MAX,
        encode_utf8(r.value).len() <= u64::MAX,
        encode_utf8(r.peer_addr).len() <= u64::MAX,
    ensures
        read_fields(kv_req_encoding(r)) == Some(kv_req_wire(r)),
{
    let kb = encode_utf8(r.key);
    let vb = encode_utf8(r.value);
    let ab = encode_utf8(r.peer_addr);
    let rt = req_type_number(r.req_type) as u64;
    let p7 = opt_varint_field(7, r.peer_id as nat);
    let p6 = opt_bytes_field(6, ab) + p7;
    let p5 = opt_bytes_field(5, vb) + p6;
    let p4 = opt_bytes_field(4, kb) + p5;
    let p3 = opt_varint_field(3, rt as nat) + p4;
    let p2 = opt_varint_field(2, r.seq as nat) + p3;
    let p1 = opt_varint_field(1, r.client_id as nat) + p2;
    assert(kv_req_encoding(r) =~= p1);
    assert(read_fields(Seq::<u8>::empty()) == Some(Seq::<WireField>::empty()));
    lemma_read_opt_varint(7, r.peer_id, Seq::empty());
    assert(p7 + Seq::<u8>::empty() =~= p7);
    assert(opt_varint_wire(7, r.peer_id) + Seq::<WireField>::empty() =~= opt_varint_wire(7, r.peer_id));
    let w7 = opt_varint_wire(7, r.peer_id);
    let w6 = opt_bytes_wire(6, ab) + w7;
    let w5 = opt_bytes_wire(5, vb) + w6;
    let w4 = opt_bytes_wire(4, kb) + w5;
    let w3 = opt_varint_wire(3, rt) + w4;
    let w2 = opt_varint_wire(2, r.seq) + w3;
    let w1 = opt_varint_wire(1, r.client_id) + w2;
    assert(read_fields(p7) == Some(w7));
    lemma_read_opt_bytes(6, ab, p7);
    assert(read_fields(p6) == Some(w6));
    lemma_read_opt_bytes(5, vb, p6);
    assert(read_fields(p5) == Some(w5));
    lemma_read_opt_bytes(4, kb, p5);
    assert(read_fields(p4) == Some(w4));
    lemma_read_opt_varint(3, rt, p4);
    assert(read_fields(p3) == Some(w3));
    lemma_read_opt_varint(2, r.seq, p3);
    assert(read_fields(p2) == Some(w2));
    lemma_read_opt_varint(1, r.client_id, p2);
    assert(read_fields(p1) == Some(w1));
    assert(w1 == kv_req_wire(r));
}

#[verifier::spinoff_prover]
proof fn lemma_kv_req_fold_wire(r: KvReqView)
    ensures
        kv_req_fold(default_kv_req(), kv_req_wire(r)) == Some(r),
{
    let kb = encode_utf8(r.key);
    let vb = encode_utf8(r.value);
    let ab = encode_utf8(r.peer_addr);
    let rt = req_type_number(r.req_type) as u64;
    let w7 = opt_varint_wire(7, r.peer_id);
    let w6 = opt_bytes_wire(6, ab) + w7;
    let w5 = opt_bytes_wire(5, vb) + w6;
    let w4 = opt_bytes_wire(4, kb) + w5;
    let w3 = opt_varint_wire(3, rt) + w4;
    let w2 = opt_varint_wire(2, r.seq) + w3;
    let d = default_kv_req();
    let a1 = KvReqView { client_id: r.client_id, ..d };
    let a2 = KvReqView { seq: r.seq, ..a1 };
    let a3 = KvReqView { req_type: r.req_type, ..a2 };
    let a4 = KvReqView { key: r.key, ..a3 };
    let a5 = KvReqView { value: r.value, ..a4 };
    let a6 = KvReqView { peer_addr: r.peer_addr, ..a5 };
    assert(kb.len() == 0 ==> r.key =~= Seq::<char>::empty());
    assert(vb.len() == 0 ==> r.value =~= Seq::<char>::empty());
    assert(ab.len() == 0 ==> r.peer_addr =~= Seq::<char>::empty());
    assert(req_type_of(rt as nat) == Some(r.req_type));
    assert(kv_req_fold(r, Seq::empty()) == Some(r));
    lemma_kv_req_fold_opt(a6, w7, Seq::empty());
    assert(w7 + Seq::<WireField>::empty() =~= w7);
    assert(kv_req_fold(a6, w7) == Some(r));
    lemma_kv_req_fold_opt(a5, opt_bytes_wire(6, ab), w7);
    assert(kv_req_fold(a5, w6) == Some(r));
    lemma_kv_req_fold_opt(a4, opt_bytes_wire(5, vb), w6);
    assert(kv_req_fold(a4, w5) == Some(r));
    lemma_kv_req_fold_opt(a3, opt_bytes_wire(4, kb), w5);
    assert(kv_req_fold(a3, w4) == Some(r));
    lemma_kv_req_fold_opt(a2, opt_varint_wire(3, rt), w4);
    assert(kv_req_fold(a2, w3) == Some(r));
    lemma_kv_req_fold_opt(a1, opt_varint_wire(2, r.seq), w3);
    assert(kv_req_fold(a1, w2) == Some(r));
    lemma_kv_req_fold_opt(d, opt_varint_wire(1, r.client_id), w2);
}

/// Reading back the bytes that a request is written as gives the request.
pub proof fn lemma_kv_req_roundtrip(r: KvReqView)
    requires
        encode_utf8(r.key).len() <= u64::MAX,
        encode_utf8(r.value).len() <= u64::MAX,
        encode_utf8(r.peer_addr).len() <= u64::MAX,
    ensures
        kv_req_decoding(kv_req_encoding(r)) == Some(r),
{
    lemma_kv_req_read(r);
    lemma_kv_req_fold_wire(r);
}

impl KvReq {
    /// The request whose every field holds its default.
    pub fn new() -> (r: KvReq)
        ensures
            r@ == default_kv_req(),
    {
        KvReq {
            client_id: 0,
            seq: 0,
            req_type: ReqType::Get,
            key: String::new(),
            value: String::new(),
            peer_addr: String::new(),
            peer_id: 0,
        }
    }

    /// The bytes that this request is written as.
    pub fn write_to_bytes(&self) -> (r: Vec<u8>)
        ensures
            r@ == kv_req_encoding(self@),
    {
        let mut out: Vec<u8> = Vec::new();
        push_opt_varint_field(1, self.client_id, &mut out);
        push_opt_varint_field(2, self.seq, &mut out);
        push_opt_varint_field(3, self.req_type.number(), &mut out);
        let k = utf8_bytes(&self.key);
        push_opt_bytes_field(4, k.as_slice(), &mut out);
        let v = utf8_bytes(&self.value);
        push_opt_bytes_field(5, v.as_slice(), &mut out);
        let a = utf8_bytes(&self.peer_addr);
        push_opt_bytes_field(6, a.as_slice(), &mut out);
        push_opt_varint_field(7, self.peer_id, &mut out);
        assert(out@ =~= kv_req_encoding(self@));
        out
    }

    /// The request that bytes stand for, or `None` where they are not a
    /// well-formed request.
    pub fn parse_from_bytes(s: &[u8]) -> (r: Option<KvReq>)
        ensures
            match kv_req_decoding(s@) {
                Some(v) => r matches Some(x) && x@ == v,
                None => r is None,
            },
    {
        let mut acc = KvReq::new();
        let mut pos: usize = 0;
        assert(s@.subrange(0, s@.len() as int) =~= s@);
        while pos < s.len()
            invariant
                pos <= s@.len(),
                kv_req_decoding(s@) == match read_fields(s@.subrange(pos as int, s@.len() as int)) {
                    Some(fs) => kv_req_fold(acc@, fs),
                    None => None,
                },
            decreases s@.len() - pos,
        {
            let ghost t = s@.subrange(pos as int, s@.len() as int);
            proof {
                lemma_read_fields_step(t);
            }
            let next = next_field(s, pos);
            if next.is_none() {
                return None;
            }
            let (number, value, k) = next.unwrap();
            if k == 0 {
                return None;
            }
            let ghost f = WireField { number: number as nat, value: field_value_view(value) };
            let ghost old_acc = acc@;
            assert(t.subrange(k as int, t.len() as int) =~= s@.subrange(
                pos + k,
                s@.len() as int,
            ));
            proof {
                match read_fields(t.subrange(k as int, t.len() as int)) {
                    Some(fs) => lemma_kv_req_fold_cons(old_acc, f, fs),
                    None => {},
                }
            }
            if number == 1 {
                match take_varint(&value) {
                    Some(x) => acc.client_id = x,
                    None => return None,
                }
            } else if number == 2 {
                match take_varint(&value) {
                    Some(x) => acc.seq = x,
                    None => return None,
                }
            } else if number == 3 {
                match take_varint(&value) {
                    Some(x) => match ReqType::from_number(x) {
                        Some(t) => acc.req_type = t,
                        None => return None,
                    },
                    None => return None,
                }
            } else if number == 4 {
                match take_string(value) {
                    Some(x) => acc.key = x,
                    None => return None,
                }
            } else if number == 5 {
                match take_string(value) {
                    Some(x) => acc.value = x,
                    None => return None,
                }
            } else if number == 6 {
                match take_string(value) {
                    Some(x) => acc.peer_addr = x,
                    None => return None,
                }
            } else if number == 7 {
                match take_varint(&value) {
                    Some(x) => acc.peer_id = x,
                    None => return None,
                }
            }
            assert(kv_req_set(old_acc, f) == Some(acc@));
            pos = pos + k;
        }
        assert(s@.subrange(pos as int, s@.len() as int) =~= Seq::<u8>::empty());
        Some(acc)
    }
}

} // verus!

verus! {

/// The bytes that a response carrying only an answer is written as.
pub open spec fn err_resp_encoding(e: RespErr) -> Seq<u8> {
    opt_varint_field(1, resp_err_number(e))
}

/// An answer after one more field of a response is read.
pub open spec fn err_resp_set(acc: RespErr, f: WireField) -> Option<RespErr> {
    if f.number == 1 {
        match varint_value(f.value) {
            Some(x) => resp_err_of(x as nat),
            None => None,
        }
    } else {
        Some(acc)
    }
}

/// An answer after a list of fields is read, in order.
pub open spec fn err_resp_fold(acc: RespErr, fs: Seq<WireField>) -> Option<RespErr>
    decreases fs.len(),
{
    if fs.len() == 0 {
        Some(acc)
    } else {
        match err_resp_set(acc, fs[0]) {
            Some(a) => err_resp_fold(a, fs.drop_first()),
            None => None,
        }
    }
}

/// The answer that the bytes of a response carrying only an answer stand for.
pub open spec fn err_resp_decoding(s: Seq<u8>) -> Option<RespErr> {
    match read_fields(s) {
        Some(fs) => err_resp_fold(RespErr::OK, fs),
        None => None,
    }
}

/// The bytes that a get response, an answer and a value, is written as.
pub open spec fn get_resp_encoding(e: RespErr, v: Seq<char>) -> Seq<u8> {
    opt_varint_field(1, resp_err_number(e)) + string_field(2, v)
}

/// A get response after one more field is read.
pub open spec fn get_resp_set(acc: (RespErr, Seq<char>), f: WireField) -> Option<(RespErr, Seq<char>)> {
    if f.number == 1 {
        match varint_value(f.value) {
            Some(x) => match resp_err_of(x as nat) {
                Some(e) => Some((e, acc.1)),
                None => None,
            },
            None => None,
        }
    } else if f.number == 2 {
        match string_value(f.value) {
            Some(s) => Some((acc.0, s)),
            None => None,
        }
    } else {
        Some(acc)
    }
}

/// A get response after a list of fields is read, in order.
pub open spec fn get_resp_fold(acc: (RespErr, Seq<char>), fs: Seq<WireField>) -> Option<(RespErr, Seq<char>)>
    decreases fs.len(),
{
    if fs.len() == 0 {
        Some(acc)
    } else {
        match get_resp_set(acc, fs[0]) {
            Some(a) => get_resp_fold(a, fs.drop_first()),
            None => None,
        }
    }
}

/// The answer and value that the bytes of a get response stand for.
pub open spec fn get_resp_decoding(s: Seq<u8>) -> Option<(RespErr, Seq<char>)> {
    match read_fields(s) {
        Some(fs) => get_resp_fold((RespErr::OK, Seq::empty()), fs),
        None => None,
    }
}

/// Reads the answer of a response carrying only an answer.
fn parse_err_resp(s: &[u8]) -> (r: Option<RespErr>)
    ensures
        r == err_resp_decoding(s@),
{
    let mut acc = RespErr::OK;
    let mut pos: usize = 0;
    assert(s@.subrange(0, s@.len() as int) =~= s@);
    while pos < s.len()
        invariant
            pos <= s@.len(),
            err_resp_decoding(s@) == match read_fields(s@.subrange(pos as int, s@.len() as int)) {
                Some(fs) => err_resp_fold(acc, fs),
                None => None,
            },
        decreases s@.len() - pos,
    {
        let ghost t = s@.subrange(pos as int, s@.len() as int);
        proof {
            lemma_read_fields_step(t);
        }
        let next = next_field(s, pos);
        if next.is_none() {
            return None;
        }
        let (number, value, k) = next.unwrap();
        if k == 0 {
            return None;
        }
        let ghost f = WireField { number: number as nat, value: field_value_view(value) };
        let ghost old_acc = acc;
        assert(t.subrange(k as int, t.len() as int) =~= s@.subrange(pos + k, s@.len() as int));
        proof {
            match read_fields(t.subrange(k as int, t.len() as int)) {
                Some(fs) => assert((seq![f] + fs).drop_first() =~= fs),
                None => {},
            }
        }
        if number == 1 {
            match take_varint(&value) {
                Some(x) => match RespErr::from_number(x) {
                    Some(e) => acc = e,
                    None => return None,
                },
                None => return None,
            }
        }
        assert(err_resp_set(old_acc, f) == Some(acc));
        pos = pos + k;
    }
    assert(s@.subrange(pos as int, s@.len() as int) =~= Seq::<u8>::empty());
    Some(acc)
}

/// Reading back the bytes of a response carrying only an answer gives the answer.
pub proof fn lemma_err_resp_roundtrip(e: RespErr)
    ensures
        err_resp_decoding(err_resp_encoding(e)) == Some(e),
{
    let n = resp_err_number(e) as u64;
    assert(read_fields(Seq::<u8>::empty()) == Some(Seq::<WireField>::empty()));
    lemma_read_opt_varint(1, n, Seq::empty());
    assert(opt_varint_field(1, n as nat) + Seq::<u8>::empty() =~= err_resp_encoding(e));
    let w = opt_varint_wire(1, n);
    assert(w + Seq::<WireField>::empty() =~= w);
    assert(read_fields(err_resp_encoding(e)) == Some(w));
    assert(resp_err_of(n as nat) == Some(e));
    assert(err_resp_fold(e, Seq::empty()) == Some(e));
    if n != 0 {
        assert(w.drop_first() =~= Seq::<WireField>::empty());
        assert(err_resp_set(RespErr::OK, w[0]) == Some(e));
    } else {
        assert(e == RespErr::OK);
    }
}

/// Reading back the bytes of a get response gives its answer and value.
pub proof fn lemma_get_resp_roundtrip(e: RespErr, v: Seq<char>)
    requires
        encode_utf8(v).len() <= u64::MAX,
    ensures
        get_resp_decoding(get_resp_encoding(e, v)) == Some((e, v)),
{
    let n = resp_err_number(e) as u64;
    let vb = encode_utf8(v);
    let p2 = opt_bytes_field(2, vb);
    assert(read_fields(Seq::<u8>::empty()) == Some(Seq::<WireField>::empty()));
    lemma_read_opt_bytes(2, vb, Seq::empty());
    assert(p2 + Seq::<u8>::empty() =~= p2);
    lemma_read_opt_varint(1, n, p2);
    let w2 = opt_bytes_wire(2, vb);
    let w1 = opt_varint_wire(1, n);
    assert(w2 + Seq::<WireField>::empty() =~= w2);
    assert(read_fields(get_resp_encoding(e, v)) == Some(w1 + w2));
    assert(vb.len() == 0 ==> v =~= Seq::<char>::empty());
    let a1 = (e, Seq::<char>::empty());
    assert(get_resp_fold((e, v), Seq::empty()) == Some((e, v)));
    if vb.len() != 0 {
        assert(w2.drop_first() =~= Seq::<WireField>::empty());
    }
    assert(get_resp_fold(a1, w2) == Some((e, v)));
    if n != 0 {
        assert((w1 + w2).drop_first() =~= w2);
    } else {
        assert(w1 + w2 =~= w2);
    }
}

/// The answer to a get: the error and the value found.
pub struct GetResp {
    pub err: RespErr,
    pub value: String,
}

/// The answer to a put.
pub struct PutResp {
    pub err: RespErr,
}

/// The answer to a delete.
pub struct DeleteResp {
    pub err: RespErr,
}

/// The answer to a consensus message or a membership change.
pub struct RaftDone {
    pub err: RespErr,
}

fn write_err_resp(e: RespErr) -> (r: Vec<u8>)
    ensures
        r@ == err_resp_encoding(e),
{
    let mut out: Vec<u8> = Vec::new();
    push_opt_varint_field(1, e.number(), &mut out);
    assert(out@ =~= err_resp_encoding(e));
    out
}

impl GetResp {
    /// The response that answers `OK` with no value.
    pub fn new() -> (r: GetResp)
        ensures
            r.err == RespErr::OK,
            r.value@ == Seq::<char>::empty(),
    {
        GetResp { err: RespErr::OK, value: String::new() }
    }

    /// Sets the answer.
    pub fn set_err(&mut self, e: RespErr)
        ensures
            final(self).err == e,
            final(self).value == old(self).value,
    {
        self.err = e;
    }

    /// Sets the value.
    pub fn set_value(&mut self, v: String)
        ensures
            final(self).err == old(self).err,
            final(self).value == v,
    {
        self.value = v;
    }

    /// The bytes that this response is written as.
    pub fn write_to_bytes(&self) -> (r: Vec<u8>)
        ensures
            r@ == get_resp_encoding(self.err, self.value@),
    {
        let mut out: Vec<u8> = Vec::new();
        push_opt_varint_field(1, self.err.number(), &mut out);
        let b = utf8_bytes(&self.value);
        push_opt_bytes_field(2, b.as_slice(), &mut out);
        assert(out@ =~= get_resp_encoding(self.err, self.value@));
        out
    }

    /// The response that bytes stand for, or `None` where they are not a
    /// well-formed get response.
    pub fn parse_from_bytes(s: &[u8]) -> (r: Option<GetResp>)
        ensures
            match get_resp_decoding(s@) {
                Some((e, v)) => r matches Some(x) && x.err == e && x.value@ == v,
                None => r is None,
            },
    {
        let mut err = RespErr::OK;
        let mut value = String::new();
        let mut pos: usize = 0;
        assert(s@.subrange(0, s@.len() as int) =~= s@);
        while pos < s.len()
            invariant
                pos <= s@.len(),
                get_resp_decoding(s@) == match read_fields(s@.subrange(pos as int, s@.len() as int)) {
                    Some(fs) => get_resp_fold((err, value@), fs),
                    None => None,
                },
            decreases s@.len() - pos,
        {
            let ghost t = s@.subrange(pos as int, s@.len() as int);
            proof {
                lemma_read_fields_step(t);
            }
            let next = next_field(s, pos);
            if next.is_none() {
                return None;
            }
            let (number, fv, k) = next.unwrap();
            if k == 0 {
                return None;
            }
            let ghost f = WireField { number: number as nat, value: field_value_view(fv) };
            let ghost old_acc = (err, value@);
            assert(t.subrange(k as int, t.len() as int) =~= s@.subrange(pos + k, s@.len() as int));
            proof {
                match read_fields(t.subrange(k as int, t.len() as int)) {
                    Some(fs) => assert((seq![f] + fs).drop_first() =~= fs),
                    None => {},
                }
            }
            if number == 1 {
                match take_varint(&fv) {
                    Some(x) => match RespErr::from_number(x) {
                        Some(e) => err = e,
                        None => return None,
                    },
                    None => return None,
                }
            } else if number == 2 {
                match take_string(fv) {
                    Some(x) => value = x,
                    None => return None,
                }
            }
            assert(get_resp_set(old_acc, f) == Some((err, value@)));
            pos = pos + k;
        }
        assert(s@.subrange(pos as int, s@.len() as int) =~= Seq::<u8>::empty());
        Some(GetResp { err, value })
    }
}

impl PutResp {
    /// The response that answers `OK`.
    pub fn new() -> (r: PutResp)
        ensures
            r.err == RespErr::OK,
    {
        PutResp { err: RespErr::OK }
    }

    /// Sets the answer.
    pub fn set_err(&mut self, e: RespErr)
        ensures
            final(self).err == e,
    {
        self.err = e;
    }

    /// The bytes that this response is written as.
    pub fn write_to_bytes(&self) -> (r: Vec<u8>)
        ensures
            r@ == err_resp_encoding(self.err),
    {
        write_err_resp(self.err)
    }

    /// The response that bytes stand for, or `None` where they are not a
    /// well-formed response.
    pub fn parse_from_bytes(s: &[u8]) -> (r: Option<PutResp>)
        ensures
            match err_resp_decoding(s@) {
                Some(e) => r == Some(PutResp { err: e }),
                None => r is None,
            },
    {
        match parse_err_resp(s) {
            Some(e) => Some(PutResp { err: e }),
            None => None,
        }
    }
}

impl DeleteResp {
    /// The response that answers `OK`.
    pub fn new() -> (r: DeleteResp)
        ensures
            r.err == RespErr::OK,
    {
        DeleteResp { err: RespErr::OK }
    }

    /// Sets the answer.
    pub fn set_err(&mut self, e: RespErr)
        ensures
            final(self).err == e,
    {
        self.err = e;
    }

    /// The bytes that this response is written as.
    pub fn write_to_bytes(&self) -> (r: Vec<u8>)
        ensures
            r@ == err_resp_encoding(self.err),
    {
        write_err_resp(self.err)
    }

    /// The response that bytes stand for, or `None` where they are not a
    /// well-formed response.
    pub fn parse_from_bytes(s: &[u8]) -> (r: Option<DeleteResp>)
        ensures
            match err_resp_decoding(s@) {
                Some(e) => r == Some(DeleteResp { err: e }),
                None => r is None,
            },
    {
        match parse_err_resp(s) {
            Some(e) => Some(DeleteResp { err: e }),
            None => None,
        }
    }
}

impl RaftDone {
    /// The response that answers `OK`.
    pub fn new() -> (r: RaftDone)
        ensures
            r.err == RespErr::OK,
    {
        RaftDone { err: RespErr::OK }
    }

    /// Sets the answer.
    pub fn set_err(&mut self, e: RespErr)
        ensures
            final(self).err == e,
    {
        self.err = e;
    }

    /// The bytes that this response is written as.
    pub fn write_to_bytes(&self) -> (r: Vec<u8>)
        ensures
            r@ == err_resp_encoding(self.err),
    {
        write_err_resp(self.err)
    }

    /// The response that bytes stand for, or `None` where they are not a
    /// well-formed response.
    pub fn parse_from_bytes(s: &[u8]) -> (r: Option<RaftDone>)
        ensures
            match err_resp_decoding(s@) {
                Some(e) => r == Some(RaftDone { err: e }),
                None => r is None,
            },
    {
        match parse_err_resp(s) {
            Some(e) => Some(RaftDone { err: e }),
            None => None,
        }
    }
}

} // verus!

verus! {

/// A request to add a node to the cluster: the membership change, and the
/// address, IP and port, at which the new node serves.
pub struct ConfChangeReq {
    pub cc: Option<crate::kvproto::eraftpb::ConfChange>,
    pub ip: String,
    pub port: u32,
}

/// The bytes that a membership request is written as: the change (as the
/// consensus crate writes it) as field 1, the IP as field 2, the port as
/// field 3.
pub open spec fn conf_change_req_encoding(
    cc: Option<crate::kvproto::eraftpb::ConfChange>,
    ip: Seq<char>,
    port: u32,
) -> Seq<u8> {
    (match cc {
        Some(c) => crate::wire::bytes_field(1, crate::kvproto::eraftpb::conf_change_encoding(c)),
        None => Seq::empty(),
    }) + string_field(2, ip) + opt_varint_field(3, port as nat)
}

impl ConfChangeReq {
    /// The bytes that this request is written as.
    pub fn write_to_bytes(&self) -> (r: Vec<u8>)
        ensures
            r@ == conf_change_req_encoding(self.cc, self.ip@, self.port),
    {
        let mut out: Vec<u8> = Vec::new();
        match &self.cc {
            Some(c) => {
                let b = crate::kvproto::eraftpb::conf_change_write_to_bytes(c);
                if b.len() == 0 {
                    push_varint(10, &mut out);
                    push_varint(0, &mut out);
                    assert(out@ =~= crate::wire::bytes_field(1, b@));
                } else {
                    push_opt_bytes_field(1, b.as_slice(), &mut out);
                }
            },
            None => {},
        }
        let ghost first = out@;
        let ipb = utf8_bytes(&self.ip);
        push_opt_bytes_field(2, ipb.as_slice(), &mut out);
        push_opt_varint_field(3, self.port as u64, &mut out);
        assert(out@ =~= conf_change_req_encoding(self.cc, self.ip@, self.port));
        out
    }
}

} // verus!

verus! {

/// A membership request, on plain values.
pub struct ConfChangeReqView {
    pub cc: Option<crate::kvproto::eraftpb::ConfChange>,
    pub ip: Seq<char>,
    pub port: u32,
}

/// A membership request after one more field is read. The change is read
/// as the consensus crate reads it; a port must fit in 32 bits.
pub open spec fn conf_change_req_set(acc: ConfChangeReqView, f: WireField) -> Option<ConfChangeReqView> {
    if f.number == 1 {
        match f.value {
            WireValue::Bytes(b) => match crate::kvproto::eraftpb::conf_change_decoding(b) {
                Some(c) => Some(ConfChangeReqView { cc: Some(c), ..acc }),
                None => None,
            },
            _ => None,
        }
    } else if f.number == 2 {
        match string_value(f.value) {
            Some(s) => Some(ConfChangeReqView { ip: s, ..acc }),
            None => None,
        }
    } else if f.number == 3 {
        match varint_value(f.value) {
            Some(x) => if x <= u32::MAX {
                Some(ConfChangeReqView { port: x as u32, ..acc })
            } else {
                None
            },
            None => None,
        }
    } else {
        Some(acc)
    }
}

/// A membership request after a list of fields is read, in order.
pub open spec fn conf_change_req_fold(acc: ConfChangeReqView, fs: Seq<WireField>) -> Option<ConfChangeReqView>
    decreases fs.len(),
{
    if fs.len() == 0 {
        Some(acc)
    } else {
        match conf_change_req_set(acc, fs[0]) {
            Some(a) => conf_change_req_fold(a, fs.drop_first()),
            None => None,
        }
    }
}

/// The membership request that bytes stand for.
pub open spec fn conf_change_req_decoding(s: Seq<u8>) -> Option<ConfChangeReqView> {
    match read_fields(s) {
        Some(fs) => conf_change_req_fold(ConfChangeReqView { cc: None, ip: Seq::empty(), port: 0 }, fs),
        None => None,
    }
}

impl ConfChangeReq {
    /// The request on plain values.
    pub open spec fn view_req(&self) -> ConfChangeReqView {
        ConfChangeReqView { cc: self.cc, ip: self.ip@, port: self.port }
    }

    /// The membership request that bytes stand for, or `None` where they
    /// are not a well-formed one.
    pub fn parse_from_bytes(s: &[u8]) -> (r: Option<ConfChangeReq>)
        ensures
            match conf_change_req_decoding(s@) {
                Some(v) => r matches Some(x) && x.view_req() == v,
                None => r is None,
            },
    {
        let mut acc = ConfChangeReq { cc: None, ip: String::new(), port: 0 };
        let mut pos: usize = 0;
        assert(s@.subrange(0, s@.len() as int) =~= s@);
        while pos < s.len()
            invariant
                pos <= s@.len(),
                conf_change_req_decoding(s@) == match read_fields(s@.subrange(pos as int, s@.len() as int)) {
                    Some(fs) => conf_change_req_fold(acc.view_req(), fs),
                    None => None,
                },
            decreases s@.len() - pos,
        {
            let ghost t = s@.subrange(pos as int, s@.len() as int);
            proof {
                lemma_read_fields_step(t);
            }
            let next = next_field(s, pos);
            if next.is_none() {
                return None;
            }
            let (number, value, k) = next.unwrap();
            if k == 0 {
                return None;
            }
            let ghost f = WireField { number: number as nat, value: field_value_view(value) };
            let ghost old_acc = acc.view_req();
            assert(t.subrange(k as int, t.len() as int) =~= s@.subrange(pos + k, s@.len() as int));
            proof {
                match read_fields(t.subrange(k as int, t.len() as int)) {
                    Some(fs) => assert((seq![f] + fs).drop_first() =~= fs),
                    None => {},
                }
            }
            if number == 1 {
                match value {
                    FieldValue::Bytes(b) => match crate::kvproto::eraftpb::conf_change_parse_from_bytes(
                        b.as_slice(),
                    ) {
                        Some(c) => acc.cc = Some(c),
                        None => return None,
                    },
                    _ => return None,
                }
            } else if number == 2 {
                match take_string(value) {
                    Some(x) => acc.ip = x,
                    None => return None,
                }
            } else if number == 3 {
                match take_varint(&value) {
                    Some(x) => {
                        if x <= 0xFFFF_FFFF {
                            acc.port = x as u32;
                        } else {
                            return None;
                        }
                    },
                    None => return None,
                }
            }
            assert(conf_change_req_set(old_acc, f) == Some(acc.view_req()));
            pos = pos + k;
        }
        assert(s@.subrange(pos as int, s@.len() as int) =~= Seq::<u8>::empty());
        Some(acc)
    }
}

} // verus!
