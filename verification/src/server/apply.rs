//! Applying a committed request to a replica's store.
//!
//! A replica keeps two kinds of entries in its storage engine: the value of
//! each key `k` under `d_k`, and, for each client `c`, the sequence number of
//! the last write it served for that client under `c_<c in decimal>`. A write
//! (put, delete, or peer address) whose sequence number is not above the one
//! recorded for its client is a retry of a write already served: it is
//! answered `ErrNoKey` and changes nothing.
//!
//! The engine is reached through I/O, so applying a request is a conversation:
//! `ApplyMachine::start` names the first engine operation, the caller performs
//! it and hands the outcome to `ApplyMachine::step`, which names the next one,
//! until the machine finishes with the answer for the client or aborts.
use vstd::prelude::*;
use vstd::utf8::{encode_utf8, decode_utf8, valid_utf8};
use crate::codec::{decimal, parse_decimal, decimal_bytes, parse_u64, lemma_parse_decimal_roundtrip};
use crate::kvproto::kvrpcpb::{KvReq, KvReqView, ReqType, RespErr, utf8_bytes, string_from_utf8};

verus! {

broadcast use {vstd::utf8::encode_utf8_valid_utf8, vstd::utf8::encode_utf8_decode_utf8};

/// The contents of a storage engine: keys and values are byte strings.
pub type Store = Map<Seq<u8>, Seq<u8>>;

/// The engine key under which the value of `key` is kept: `d_` then the
/// key's UTF-8 bytes.
pub open spec fn data_key(key: Seq<char>) -> Seq<u8> {
    seq![100u8, 95u8] + encode_utf8(key)
}

/// The engine key under which a client's last served sequence number is
/// kept: `c_` then the client id in decimal.
pub open spec fn seq_key(client_id: u64) -> Seq<u8> {
    seq![99u8, 95u8] + decimal(client_id as nat)
}

/// The sequence number recorded for a client, where one is recorded:
/// `Some(None)` where the recorded bytes are no number.
pub open spec fn recorded_seq(store: Store, client_id: u64) -> Option<Option<u64>> {
    if store.contains_key(seq_key(client_id)) {
        Some(parse_decimal(store[seq_key(client_id)]))
    } else {
        None
    }
}

/// Whether a request is a write that its client has already been served:
/// a write whose sequence number is not above the recorded one.
pub open spec fn is_retry(store: Store, req: KvReqView) -> bool {
    &&& req.req_type != ReqType::Get
    &&& recorded_seq(store, req.client_id) matches Some(Some(m))
    &&& req.seq <= m
}

/// What applying a request ends with.
pub enum Outcome {
    /// The answer for the client: the entry's term, a value, and the error.
    Reply(u64, Seq<char>, RespErr),
    /// Stored data could not be read as it must be: the replica cannot go on.
    Abort,
}

/// The effect of applying a request to a store: the new store and the outcome.
pub open spec fn kv_apply(store: Store, term: u64, req: KvReqView) -> (Store, Outcome) {
    let dk = data_key(req.key);
    let sk = seq_key(req.client_id);
    let none = Seq::<char>::empty();
    if req.req_type != ReqType::Get && recorded_seq(store, req.client_id) == Some(
        None::<u64>,
    ) {
        (store, Outcome::Abort)
    } else if is_retry(store, req) {
        (store, Outcome::Reply(term, none, RespErr::ErrNoKey))
    } else {
        match req.req_type {
            ReqType::Get => if store.contains_key(dk) {
                if valid_utf8(store[dk]) {
                    (store, Outcome::Reply(term, decode_utf8(store[dk]), RespErr::OK))
                } else {
                    (store, Outcome::Abort)
                }
            } else {
                (store, Outcome::Reply(term, none, RespErr::ErrNoKey))
            },
            ReqType::Put => (
                store.insert(dk, encode_utf8(req.value)).insert(sk, decimal(req.seq as nat)),
                Outcome::Reply(term, none, RespErr::OK),
            ),
            ReqType::Delete => (
                store.remove(dk).insert(sk, decimal(req.seq as nat)),
                Outcome::Reply(term, none, RespErr::OK),
            ),
            ReqType::PeerAddr => (store, Outcome::Reply(term, none, RespErr::OK)),
        }
    }
}

/// The answer sent back to the client that proposed an entry: the entry's
/// term, the value read (empty unless a get found one), and the error.
pub struct NotifyArgs(pub u64, pub String, pub RespErr);

impl View for NotifyArgs {
    type V = (u64, Seq<char>, RespErr);

    open spec fn view(&self) -> (u64, Seq<char>, RespErr) {
        (self.0, self.1@, self.2)
    }
}

/// An operation on the storage engine.
pub enum EngineOp {
    Get(Vec<u8>),
    Put(Vec<u8>, Vec<u8>),
    Delete(Vec<u8>),
}

/// An operation on the storage engine, on byte strings.
pub enum EngineOpView {
    Get(Seq<u8>),
    Put(Seq<u8>, Seq<u8>),
    Delete(Seq<u8>),
}

impl View for EngineOp {
    type V = EngineOpView;

    open spec fn view(&self) -> EngineOpView {
        match self {
            EngineOp::Get(k) => EngineOpView::Get(k@),
            EngineOp::Put(k, v) => EngineOpView::Put(k@, v@),
            EngineOp::Delete(k) => EngineOpView::Delete(k@),
        }
    }
}

/// What the caller is to do next.
pub enum ApplyAction {
    /// Perform an engine operation and report its outcome.
    Engine(EngineOp),
    /// Connect to a new peer with this id at this address, then report
    /// `PeerAdded`.
    AddPeer(u64, String),
    /// Send this answer to the client; the request is done.
    Finish(NotifyArgs),
    /// Stop: stored data is not what it must be, or the conversation went
    /// out of order.
    Abort,
}

/// What the caller is to do next, on plain values.
pub enum ActionView {
    Engine(EngineOpView),
    AddPeer(u64, Seq<char>),
    Finish(u64, Seq<char>, RespErr),
    Abort,
}

impl View for ApplyAction {
    type V = ActionView;

    open spec fn view(&self) -> ActionView {
        match self {
            ApplyAction::Engine(op) => ActionView::Engine(op@),
            ApplyAction::AddPeer(id, addr) => ActionView::AddPeer(*id, addr@),
            ApplyAction::Finish(a) => ActionView::Finish(a.0, a.1@, a.2),
            ApplyAction::Abort => ActionView::Abort,
        }
    }
}

/// The outcome of the last thing the caller did.
pub enum EngineEvent {
    /// A read found this value, or no value.
    Read(Option<Vec<u8>>),
    /// A read failed.
    ReadFailed,
    /// A write or delete succeeded.
    Written,
    /// A write or delete failed.
    WriteFailed,
    /// The new peer was connected.
    PeerAdded,
}

/// The outcome of the last thing the caller did, on plain values.
pub enum EventView {
    Read(Option<Seq<u8>>),
    ReadFailed,
    Written,
    WriteFailed,
    PeerAdded,
}

impl View for EngineEvent {
    type V = EventView;

    open spec fn view(&self) -> EventView {
        match self {
            EngineEvent::Read(Some(v)) => EventView::Read(Some(v@)),
            EngineEvent::Read(None) => EventView::Read(None),
            EngineEvent::ReadFailed => EventView::ReadFailed,
            EngineEvent::Written => EventView::Written,
            EngineEvent::WriteFailed => EventView::WriteFailed,
            EngineEvent::PeerAdded => EventView::PeerAdded,
        }
    }
}

/// Where a request is in its conversation with the engine.
#[derive(Clone, Copy, PartialEq, Eq, Structural)]
pub enum Phase {
    /// Waiting for the client's recorded sequence number.
    CheckSeq,
    /// Waiting for the outcome of the request's own operation.
    Op,
    /// Waiting for the new sequence number to be recorded.
    RecordSeq,
    /// Waiting for the new peer to be connected.
    AddingPeer,
    /// Finished or aborted.
    Done,
}

/// The answer that carries no value.
pub open spec fn finish(term: u64, err: RespErr) -> ActionView {
    ActionView::Finish(term, Seq::empty(), err)
}

/// The request's own operation: what follows the sequence check.
pub open spec fn begin_op(req: KvReqView) -> (Phase, ActionView) {
    match req.req_type {
        ReqType::Get => (Phase::Op, ActionView::Engine(EngineOpView::Get(data_key(req.key)))),
        ReqType::Put => (
            Phase::Op,
            ActionView::Engine(EngineOpView::Put(data_key(req.key), encode_utf8(req.value))),
        ),
        ReqType::Delete => (Phase::Op, ActionView::Engine(EngineOpView::Delete(data_key(req.key)))),
        ReqType::PeerAddr => (Phase::AddingPeer, ActionView::AddPeer(req.peer_id, req.peer_addr)),
    }
}

/// How a request's conversation opens: a write first reads its client's
/// recorded sequence number, a get goes straight to its read.
pub open spec fn apply_start(req: KvReqView) -> (Phase, ActionView) {
    if req.req_type == ReqType::Get {
        begin_op(req)
    } else {
        (Phase::CheckSeq, ActionView::Engine(EngineOpView::Get(seq_key(req.client_id))))
    }
}

/// One turn of a request's conversation: the phase it was in and the
/// outcome reported give the next phase and what to do next.
pub open spec fn apply_step(term: u64, req: KvReqView, phase: Phase, ev: EventView) -> (
    Phase,
    ActionView,
) {
    match phase {
        Phase::CheckSeq => match ev {
            EventView::Read(Some(b)) => match parse_decimal(b) {
                Some(m) => if m >= req.seq {
                    (Phase::Done, finish(term, RespErr::ErrNoKey))
                } else {
                    begin_op(req)
                },
                None => (Phase::Done, ActionView::Abort),
            },
            EventView::Read(None) => begin_op(req),
            EventView::ReadFailed => begin_op(req),
            _ => (Phase::Done, ActionView::Abort),
        },
        Phase::Op => if req.req_type == ReqType::Get {
            match ev {
                EventView::Read(Some(b)) => if valid_utf8(b) {
                    (Phase::Done, ActionView::Finish(term, decode_utf8(b), RespErr::OK))
                } else {
                    (Phase::Done, ActionView::Abort)
                },
                EventView::Read(None) => (Phase::Done, finish(term, RespErr::ErrNoKey)),
                EventView::ReadFailed => (Phase::Done, finish(term, RespErr::ErrWrongLeader)),
                _ => (Phase::Done, ActionView::Abort),
            }
        } else {
            match ev {
                EventView::Written => (
                    Phase::RecordSeq,
                    ActionView::Engine(
                        EngineOpView::Put(seq_key(req.client_id), decimal(req.seq as nat)),
                    ),
                ),
                EventView::WriteFailed => (Phase::Done, finish(term, RespErr::ErrWrongLeader)),
                _ => (Phase::Done, ActionView::Abort),
            }
        },
        Phase::RecordSeq => match ev {
            EventView::Written => (Phase::Done, finish(term, RespErr::OK)),
            _ => (Phase::Done, ActionView::Abort),
        },
        Phase::AddingPeer => match ev {
            EventView::PeerAdded => (Phase::Done, finish(term, RespErr::OK)),
            _ => (Phase::Done, ActionView::Abort),
        },
        Phase::Done => (Phase::Done, ActionView::Abort),
    }
}

/// A request being applied: the entry's term, the request, and where its
/// conversation with the engine stands.
pub struct ApplyMachine {
    term: u64,
    req: KvReq,
    data_key: Vec<u8>,
    seq_key: Vec<u8>,
    phase: Phase,
}

/// A request being applied, on plain values.
pub struct ApplyMachineView {
    pub term: u64,
    pub req: KvReqView,
    pub phase: Phase,
}

impl View for ApplyMachine {
    type V = ApplyMachineView;

    closed spec fn view(&self) -> ApplyMachineView {
        ApplyMachineView { term: self.term, req: self.req@, phase: self.phase }
    }
}

fn make_data_key(key: &String) -> (r: Vec<u8>)
    ensures
        r@ == data_key(key@),
{
    let mut r: Vec<u8> = Vec::new();
    r.push(100u8);
    r.push(95u8);
    let b = utf8_bytes(key);
    let mut i: usize = 0;
    while i < b.len()
        invariant
            0 <= i <= b@.len(),
            r@ == seq![100u8, 95u8] + b@.subrange(0, i as int),
        decreases b@.len() - i,
    {
        r.push(b[i]);
        i = i + 1;
        assert(r@ =~= seq![100u8, 95u8] + b@.subrange(0, i as int));
    }
    assert(b@.subrange(0, b@.len() as int) =~= b@);
    r
}

fn make_seq_key(client_id: u64) -> (r: Vec<u8>)
    ensures
        r@ == seq_key(client_id),
{
    let mut r: Vec<u8> = Vec::new();
    r.push(99u8);
    r.push(95u8);
    crate::codec::push_decimal(client_id, &mut r);
    assert(r@ =~= seq_key(client_id));
    r
}

impl ApplyMachine {
    /// Whether the invariant of the machine holds: its keys are those of its
    /// request.
    pub closed spec fn wf(&self) -> bool {
        &&& self.data_key@ == data_key(self.req.key@)
        &&& self.seq_key@ == seq_key(self.req.client_id)
    }

    fn begin(&mut self) -> (r: ApplyAction)
        requires
            old(self).wf(),
        ensures
            final(self).wf(),
            final(self)@.term == old(self)@.term,
            final(self)@.req == old(self)@.req,
            (final(self)@.phase, r@) == begin_op(old(self)@.req),
    {
        match self.req.req_type {
            ReqType::Get => {
                self.phase = Phase::Op;
                ApplyAction::Engine(EngineOp::Get(self.data_key.clone()))
            },
            ReqType::Put => {
                self.phase = Phase::Op;
                ApplyAction::Engine(EngineOp::Put(self.data_key.clone(), utf8_bytes(&self.req.value)))
            },
            ReqType::Delete => {
                self.phase = Phase::Op;
                ApplyAction::Engine(EngineOp::Delete(self.data_key.clone()))
            },
            ReqType::PeerAddr => {
                self.phase = Phase::AddingPeer;
                ApplyAction::AddPeer(self.req.peer_id, self.req.peer_addr.clone())
            },
        }
    }

    /// Opens the conversation for a committed request of the given term: the
    /// machine and the first thing to do.
    pub fn start(term: u64, req: KvReq) -> (r: (ApplyMachine, ApplyAction))
        ensures
            r.0.wf(),
            r.0@.term == term,
            r.0@.req == req@,
            (r.0@.phase, r.1@) == apply_start(req@),
    {
        let dk = make_data_key(&req.key);
        let sk = make_seq_key(req.client_id);
        let is_get = match req.req_type {
            ReqType::Get => true,
            _ => false,
        };
        let mut m = ApplyMachine { term, req, data_key: dk, seq_key: sk, phase: Phase::CheckSeq };
        if is_get {
            let a = m.begin();
            (m, a)
        } else {
            let a = ApplyAction::Engine(EngineOp::Get(m.seq_key.clone()));
            (m, a)
        }
    }

    /// Takes the outcome of the last thing done and says what to do next.
    pub fn step(&mut self, ev: EngineEvent) -> (r: ApplyAction)
        requires
            old(self).wf(),
        ensures
            final(self).wf(),
            final(self)@.term == old(self)@.term,
            final(self)@.req == old(self)@.req,
            (final(self)@.phase, r@) == apply_step(
                old(self)@.term,
                old(self)@.req,
                old(self)@.phase,
                ev@,
            ),
    {
        let term = self.term;
        match self.phase {
            Phase::CheckSeq => match ev {
                EngineEvent::Read(Some(b)) => match parse_u64(b.as_slice()) {
                    Some(m) => if m >= self.req.seq {
                        self.phase = Phase::Done;
                        ApplyAction::Finish(NotifyArgs(term, String::new(), RespErr::ErrNoKey))
                    } else {
                        self.begin()
                    },
                    None => {
                        self.phase = Phase::Done;
                        ApplyAction::Abort
                    },
                },
                EngineEvent::Read(None) => self.begin(),
                EngineEvent::ReadFailed => self.begin(),
                _ => {
                    self.phase = Phase::Done;
                    ApplyAction::Abort
                },
            },
            Phase::Op => {
                let is_get = match self.req.req_type {
                    ReqType::Get => true,
                    _ => false,
                };
                if is_get {
                    match ev {
                        EngineEvent::Read(Some(b)) => {
                            self.phase = Phase::Done;
                            match string_from_utf8(b) {
                                Some(s) => ApplyAction::Finish(NotifyArgs(term, s, RespErr::OK)),
                                None => ApplyAction::Abort,
                            }
                        },
                        EngineEvent::Read(None) => {
                            self.phase = Phase::Done;
                            ApplyAction::Finish(NotifyArgs(term, String::new(), RespErr::ErrNoKey))
                        },
                        EngineEvent::ReadFailed => {
                            self.phase = Phase::Done;
                            ApplyAction::Finish(
                                NotifyArgs(term, String::new(), RespErr::ErrWrongLeader),
                            )
                        },
                        _ => {
                            self.phase = Phase::Done;
                            ApplyAction::Abort
                        },
                    }
                } else {
                    match ev {
                        EngineEvent::Written => {
                            self.phase = Phase::RecordSeq;
                            ApplyAction::Engine(
                                EngineOp::Put(self.seq_key.clone(), decimal_bytes(self.req.seq)),
                            )
                        },
                        EngineEvent::WriteFailed => {
                            self.phase = Phase::Done;
                            ApplyAction::Finish(
                                NotifyArgs(term, String::new(), RespErr::ErrWrongLeader),
                            )
                        },
                        _ => {
                            self.phase = Phase::Done;
                            ApplyAction::Abort
                        },
                    }
                }
            },
            Phase::RecordSeq => {
                self.phase = Phase::Done;
                match ev {
                    EngineEvent::Written => ApplyAction::Finish(
                        NotifyArgs(term, String::new(), RespErr::OK),
                    ),
                    _ => ApplyAction::Abort,
                }
            },
            Phase::AddingPeer => {
                self.phase = Phase::Done;
                match ev {
                    EngineEvent::PeerAdded => ApplyAction::Finish(
                        NotifyArgs(term, String::new(), RespErr::OK),
                    ),
                    _ => ApplyAction::Abort,
                }
            },
            Phase::Done => ApplyAction::Abort,
        }
    }

    /// The term of the entry being applied.
    pub fn term(&self) -> (r: u64)
        ensures
            r == self@.term,
    {
        self.term
    }

    /// The client that proposed the request.
    pub fn client_id(&self) -> (r: u64)
        ensures
            r == self@.req.client_id,
    {
        self.req.client_id
    }
}

} // verus!

verus! {

/// What an engine that does what it is told reports for an operation, and
/// the store after it.
pub open spec fn engine_answer(store: Store, op: EngineOpView) -> (Store, EventView) {
    match op {
        EngineOpView::Get(k) => (
            store,
            EventView::Read(
                if store.contains_key(k) {
                    Some(store[k])
                } else {
                    None
                },
            ),
        ),
        EngineOpView::Put(k, v) => (store.insert(k, v), EventView::Written),
        EngineOpView::Delete(k) => (store.remove(k), EventView::Written),
    }
}

/// Runs a request's conversation for at most `fuel` turns against an engine
/// that does what it is told, connecting every peer that is asked for.
pub open spec fn drive(
    store: Store,
    term: u64,
    req: KvReqView,
    phase: Phase,
    act: ActionView,
    fuel: nat,
) -> (Store, ActionView)
    decreases fuel,
{
    if fuel == 0 {
        (store, act)
    } else {
        match act {
            ActionView::Engine(op) => {
                let (s2, ev) = engine_answer(store, op);
                let (p2, a2) = apply_step(term, req, phase, ev);
                drive(s2, term, req, p2, a2, (fuel - 1) as nat)
            },
            ActionView::AddPeer(_, _) => {
                let (p2, a2) = apply_step(term, req, phase, EventView::PeerAdded);
                drive(store, term, req, p2, a2, (fuel - 1) as nat)
            },
            _ => (store, act),
        }
    }
}

/// The outcome that a last action stands for.
pub open spec fn outcome_of(a: ActionView) -> Outcome {
    match a {
        ActionView::Finish(t, v, e) => Outcome::Reply(t, v, e),
        _ => Outcome::Abort,
    }
}

/// A whole conversation, run against an engine that does what it is told.
pub open spec fn run_apply(store: Store, term: u64, req: KvReqView) -> (Store, ActionView) {
    let (p, a) = apply_start(req);
    drive(store, term, req, p, a, 3)
}

proof fn lemma_keys_differ(key: Seq<char>, client_id: u64)
    ensures
        data_key(key) != seq_key(client_id),
{
    assert(data_key(key)[0] != seq_key(client_id)[0]);
}

proof fn lemma_seq_key_injective(a: u64, b: u64)
    requires
        seq_key(a) == seq_key(b),
    ensures
        a == b,
{
    assert(decimal(a as nat) =~= seq_key(a).subrange(2, seq_key(a).len() as int));
    assert(decimal(b as nat) =~= seq_key(b).subrange(2, seq_key(b).len() as int));
    crate::codec::lemma_decimal_injective(a as nat, b as nat);
}

/// Applying a request by the conversation of `ApplyMachine`, against an
/// engine that does what it is told, ends within three engine operations
/// in an answer or an abort, and leaves the store and gives the outcome
/// that `kv_apply` states.
pub proof fn lemma_machine_realizes_kv_apply(store: Store, term: u64, req: KvReqView)
    ensures
        ({
            let (s2, last) = run_apply(store, term, req);
            &&& (last is Finish || last is Abort)
            &&& s2 == kv_apply(store, term, req).0
            &&& outcome_of(last) == kv_apply(store, term, req).1
        }),
{
    reveal_with_fuel(drive, 4);
    let dk = data_key(req.key);
    let sk = seq_key(req.client_id);
    lemma_keys_differ(req.key, req.client_id);
}

/// A get that follows a put of the same key is answered with the value put,
/// whichever client asks, and leaves the store as it is.
pub proof fn lemma_get_after_put(
    store: Store,
    t1: u64,
    put: KvReqView,
    t2: u64,
    get: KvReqView,
)
    requires
        put.req_type == ReqType::Put,
        get.req_type == ReqType::Get,
        get.key == put.key,
        kv_apply(store, t1, put).1 == Outcome::Reply(t1, Seq::empty(), RespErr::OK),
    ensures
        ({
            let s2 = kv_apply(store, t1, put).0;
            kv_apply(s2, t2, get) == (s2, Outcome::Reply(t2, put.value, RespErr::OK))
        }),
{
    lemma_keys_differ(put.key, put.client_id);
    let s2 = kv_apply(store, t1, put).0;
    let dk = data_key(put.key);
    assert(s2.contains_key(dk) && s2[dk] == encode_utf8(put.value));
}

/// A get that follows a delete of the same key finds no value, and leaves
/// the store as it is.
pub proof fn lemma_get_after_delete(
    store: Store,
    t1: u64,
    del: KvReqView,
    t2: u64,
    get: KvReqView,
)
    requires
        del.req_type == ReqType::Delete,
        get.req_type == ReqType::Get,
        get.key == del.key,
        kv_apply(store, t1, del).1 == Outcome::Reply(t1, Seq::empty(), RespErr::OK),
    ensures
        ({
            let s2 = kv_apply(store, t1, del).0;
            kv_apply(s2, t2, get) == (s2, Outcome::Reply(t2, Seq::empty(), RespErr::ErrNoKey))
        }),
{
    lemma_keys_differ(del.key, del.client_id);
}

/// A get never changes the store.
pub proof fn lemma_get_keeps_store(store: Store, term: u64, get: KvReqView)
    requires
        get.req_type == ReqType::Get,
    ensures
        kv_apply(store, term, get).0 == store,
{
}

/// A write retried after it was served is answered `ErrNoKey` and changes
/// nothing.
pub proof fn lemma_retry_rejected(store: Store, term: u64, req: KvReqView)
    requires
        is_retry(store, req),
    ensures
        kv_apply(store, term, req) == (store, Outcome::Reply(term, Seq::empty(), RespErr::ErrNoKey)),
{
}

/// A put or delete that is served records its sequence number for its client.
pub proof fn lemma_write_records_seq(store: Store, term: u64, req: KvReqView)
    requires
        req.req_type == ReqType::Put || req.req_type == ReqType::Delete,
        kv_apply(store, term, req).1 == Outcome::Reply(term, Seq::empty(), RespErr::OK),
    ensures
        recorded_seq(kv_apply(store, term, req).0, req.client_id) == Some(Some(req.seq)),
{
    lemma_parse_decimal_roundtrip(req.seq);
}

/// The sequence number recorded for a client never goes down, whatever
/// request is applied, and stays a number.
pub proof fn lemma_recorded_seq_monotone(store: Store, term: u64, req: KvReqView, client_id: u64, m: u64)
    requires
        recorded_seq(store, client_id) == Some(Some(m)),
    ensures
        recorded_seq(kv_apply(store, term, req).0, client_id) matches Some(Some(m2)) && m <= m2,
{
    let sk = seq_key(client_id);
    let rk = seq_key(req.client_id);
    lemma_keys_differ(req.key, client_id);
    lemma_parse_decimal_roundtrip(req.seq);
    if rk == sk {
        lemma_seq_key_injective(req.client_id, client_id);
    }
}

} // verus!

verus! {

/// The store after the first `k` of a sequence of committed requests, each
/// with its term, are applied in order.
pub open spec fn store_after(store: Store, log: Seq<(u64, KvReqView)>, k: nat) -> Store
    decreases k,
{
    if k == 0 {
        store
    } else {
        let prev = store_after(store, log, (k - 1) as nat);
        kv_apply(prev, log[k - 1].0, log[k - 1].1).0
    }
}

/// The outcome of the `k`-th request of a sequence applied in order.
pub open spec fn outcome_at(store: Store, log: Seq<(u64, KvReqView)>, k: nat) -> Outcome {
    kv_apply(store_after(store, log, k), log[k as int].0, log[k as int].1).1
}

proof fn lemma_recorded_stays(store: Store, log: Seq<(u64, KvReqView)>, i: nat, k: nat, c: u64, n: u64)
    requires
        i <= k <= log.len(),
        recorded_seq(store_after(store, log, i), c) == Some(Some(n)),
    ensures
        recorded_seq(store_after(store, log, k), c) matches Some(Some(m)) && n <= m,
    decreases k - i,
{
    if k > i {
        lemma_recorded_stays(store, log, i, (k - 1) as nat, c, n);
        let prev = store_after(store, log, (k - 1) as nat);
        let m = recorded_seq(prev, c)->0->0;
        lemma_recorded_seq_monotone(prev, log[k - 1].0, log[k - 1].1, c, m);
    }
}

/// At most once: in any sequence of committed requests, once a put or
/// delete of a client is served, every later put, delete or peer address of
/// that client whose sequence number is not above it is answered `ErrNoKey`
/// and leaves the store as it was, whatever was applied in between.
pub proof fn lemma_at_most_once(store: Store, log: Seq<(u64, KvReqView)>, i: nat, j: nat)
    requires
        i < j < log.len(),
        log[i as int].1.req_type == ReqType::Put || log[i as int].1.req_type == ReqType::Delete,
        outcome_at(store, log, i) == Outcome::Reply(log[i as int].0, Seq::empty(), RespErr::OK),
        log[j as int].1.client_id == log[i as int].1.client_id,
        log[j as int].1.req_type != ReqType::Get,
        log[j as int].1.seq <= log[i as int].1.seq,
    ensures
        outcome_at(store, log, j) == Outcome::Reply(log[j as int].0, Seq::empty(), RespErr::ErrNoKey),
        store_after(store, log, j + 1) == store_after(store, log, j),
{
    let c = log[i as int].1.client_id;
    let si = store_after(store, log, i);
    lemma_write_records_seq(si, log[i as int].0, log[i as int].1);
    assert(store_after(store, log, i + 1) == kv_apply(si, log[i as int].0, log[i as int].1).0);
    lemma_recorded_stays(store, log, i + 1, j, c, log[i as int].1.seq);
    let sj = store_after(store, log, j);
    assert(is_retry(sj, log[j as int].1));
    lemma_retry_rejected(sj, log[j as int].0, log[j as int].1);
    assert(store_after(store, log, j + 1) == kv_apply(sj, log[j as int].0, log[j as int].1).0);
}

} // verus!

verus! {

proof fn lemma_data_key_injective(a: Seq<char>, b: Seq<char>)
    requires
        data_key(a) == data_key(b),
    ensures
        a == b,
{
    assert(encode_utf8(a) =~= data_key(a).subrange(2, data_key(a).len() as int));
    assert(encode_utf8(b) =~= data_key(b).subrange(2, data_key(b).len() as int));
    vstd::utf8::encode_utf8_decode_utf8(a);
    vstd::utf8::encode_utf8_decode_utf8(b);
}

/// Whether a request may change the value of `key`: a put or delete of it.
pub open spec fn writes_key(req: KvReqView, key: Seq<char>) -> bool {
    (req.req_type == ReqType::Put || req.req_type == ReqType::Delete) && req.key == key
}

proof fn lemma_value_stays(store: Store, log: Seq<(u64, KvReqView)>, i: nat, k: nat, key: Seq<char>)
    requires
        i <= k <= log.len(),
        forall|m: int| i <= m < k ==> !writes_key(#[trigger] log[m].1, key),
    ensures
        store_after(store, log, k).contains_key(data_key(key)) == store_after(store, log, i).contains_key(
            data_key(key),
        ),
        store_after(store, log, i).contains_key(data_key(key)) ==> store_after(store, log, k)[data_key(
            key,
        )] == store_after(store, log, i)[data_key(key)],
    decreases k - i,
{
    if k > i {
        lemma_value_stays(store, log, i, (k - 1) as nat, key);
        let r = log[k - 1].1;
        assert(!writes_key(r, key));
        lemma_keys_differ(key, r.client_id);
        if r.key != key {
            if data_key(r.key) == data_key(key) {
                lemma_data_key_injective(r.key, key);
            }
        }
    }
}

/// What a read gives back of a write: in any sequence of committed
/// requests, a get of a key is answered with the value of the last put of
/// that key that was served, as long as no put or delete of the key came
/// after it, whatever else was applied in between.
pub proof fn lemma_get_returns_last_put(store: Store, log: Seq<(u64, KvReqView)>, i: nat, j: nat)
    requires
        i < j < log.len(),
        log[i as int].1.req_type == ReqType::Put,
        outcome_at(store, log, i) == Outcome::Reply(log[i as int].0, Seq::empty(), RespErr::OK),
        log[j as int].1.req_type == ReqType::Get,
        log[j as int].1.key == log[i as int].1.key,
        forall|m: int| i < m < j ==> !writes_key(#[trigger] log[m].1, log[i as int].1.key),
    ensures
        outcome_at(store, log, j) == Outcome::Reply(log[j as int].0, log[i as int].1.value, RespErr::OK),
{
    let put = log[i as int].1;
    let si = store_after(store, log, i);
    lemma_get_after_put(si, log[i as int].0, put, log[j as int].0, log[j as int].1);
    assert(store_after(store, log, i + 1) == kv_apply(si, log[i as int].0, put).0);
    lemma_keys_differ(put.key, put.client_id);
    lemma_value_stays(store, log, i + 1, j, put.key);
}

/// In any sequence of committed requests, a get of a key that was last
/// deleted, with no put or delete of it since, finds no value.
pub proof fn lemma_get_after_last_delete(store: Store, log: Seq<(u64, KvReqView)>, i: nat, j: nat)
    requires
        i < j < log.len(),
        log[i as int].1.req_type == ReqType::Delete,
        outcome_at(store, log, i) == Outcome::Reply(log[i as int].0, Seq::empty(), RespErr::OK),
        log[j as int].1.req_type == ReqType::Get,
        log[j as int].1.key == log[i as int].1.key,
        forall|m: int| i < m < j ==> !writes_key(#[trigger] log[m].1, log[i as int].1.key),
    ensures
        outcome_at(store, log, j) == Outcome::Reply(log[j as int].0, Seq::empty(), RespErr::ErrNoKey),
{
    let del = log[i as int].1;
    let si = store_after(store, log, i);
    lemma_get_after_delete(si, log[i as int].0, del, log[j as int].0, log[j as int].1);
    assert(store_after(store, log, i + 1) == kv_apply(si, log[i as int].0, del).0);
    lemma_keys_differ(del.key, del.client_id);
    lemma_value_stays(store, log, i + 1, j, del.key);
}

} // verus!
