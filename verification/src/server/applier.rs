//! What a replica does with each entry its node commits, and how it finds
//! the client waiting for the answer.
use vstd::prelude::*;
use std::collections::HashMap;
use crate::kvproto::eraftpb::{
    ConfChange, conf_change_decoding, conf_change_encoding, conf_change_parse_from_bytes,
};
use crate::kvproto::kvrpcpb::{KvReqView, RespErr, kv_req_decoding, kv_req_encoding};
use crate::server::apply::{ApplyMachine, ApplyAction, NotifyArgs, Store, apply_start, kv_apply, store_after};
use crate::server::node::EntryKind;

verus! {

broadcast use vstd::std_specs::hash::group_hash_axioms;

/// What to do with a committed entry.
pub enum EntryPlan {
    /// Apply the request through this machine, beginning with this action,
    /// then answer its client.
    Apply(ApplyMachine, ApplyAction),
    /// Answer the client with this id at once.
    Notify(u64, NotifyArgs),
    /// The entry's data is not what its kind says: the replica cannot go on.
    Corrupt,
}

/// What to do with a committed entry, on plain values: a request to apply,
/// with its term, or a client to answer at once, or corruption.
pub enum EntryPlanView {
    Apply(u64, KvReqView),
    Notify(u64, (u64, Seq<char>, RespErr)),
    Corrupt,
}

/// What a replica does with a committed entry. A client request is read
/// from the entry's data; if there is data, the request is applied, and if
/// there is none (the entry a new leader appends), the client the empty
/// request names, client zero, is told this replica does not lead. A
/// membership change is read from the data and the node it adds is told it
/// is done. Data that cannot be read is corruption.
pub open spec fn entry_plan_spec(kind: EntryKind, term: u64, data: Seq<u8>) -> EntryPlanView {
    match kind {
        EntryKind::Normal => match kv_req_decoding(data) {
            Some(req) => if data.len() > 0 {
                EntryPlanView::Apply(term, req)
            } else {
                EntryPlanView::Notify(req.client_id, (0, Seq::empty(), RespErr::ErrWrongLeader))
            },
            None => EntryPlanView::Corrupt,
        },
        EntryKind::ConfChange => match conf_change_decoding(data) {
            Some(cc) => EntryPlanView::Notify(cc.node_id, (0, Seq::empty(), RespErr::OK)),
            None => EntryPlanView::Corrupt,
        },
    }
}

impl EntryPlan {
    /// The plan on plain values.
    pub open spec fn view_plan(&self) -> EntryPlanView {
        match self {
            EntryPlan::Apply(m, _) => EntryPlanView::Apply(m@.term, m@.req),
            EntryPlan::Notify(id, a) => EntryPlanView::Notify(*id, a@),
            EntryPlan::Corrupt => EntryPlanView::Corrupt,
        }
    }
}

/// Decides what to do with a committed entry of this kind, term and data.
/// A request to apply comes with its machine, opened as `apply_start` says.
/// A membership change committed as the bytes `write_to_bytes` gives for it
/// answers the node it concerns.
pub fn plan_entry(kind: EntryKind, term: u64, data: &[u8]) -> (r: EntryPlan)
    ensures
        r.view_plan() == entry_plan_spec(kind, term, data@),
        forall|cc: ConfChange|
            kind == EntryKind::ConfChange && #[trigger] conf_change_encoding(cc) == data@ ==> r.view_plan()
                == EntryPlanView::Notify(cc.node_id, (0, Seq::empty(), RespErr::OK)),
        r matches EntryPlan::Apply(m, a) ==> m.wf() && (m@.phase, a@) == apply_start(m@.req),
{
    match kind {
        EntryKind::Normal => match crate::server::util::parse_data(data) {
            Some(req) => {
                if data.len() > 0 {
                    let (m, a) = ApplyMachine::start(term, req);
                    EntryPlan::Apply(m, a)
                } else {
                    EntryPlan::Notify(
                        req.client_id,
                        NotifyArgs(0, String::new(), RespErr::ErrWrongLeader),
                    )
                }
            },
            None => EntryPlan::Corrupt,
        },
        EntryKind::ConfChange => match conf_change_parse_from_bytes(data) {
            Some(cc) => EntryPlan::Notify(cc.node_id, NotifyArgs(0, String::new(), RespErr::OK)),
            None => EntryPlan::Corrupt,
        },
    }
}

/// A request proposed as the bytes `KvReq::write_to_bytes` gives is, once
/// committed, applied as it was proposed, with the term it was committed in;
/// only the request whose every field holds its default, which is written as
/// no bytes, is taken for the empty entry of a new leader.
pub proof fn lemma_proposal_applied_as_written(term: u64, req: KvReqView)
    requires
        vstd::utf8::encode_utf8(req.key).len() <= u64::MAX,
        vstd::utf8::encode_utf8(req.value).len() <= u64::MAX,
        vstd::utf8::encode_utf8(req.peer_addr).len() <= u64::MAX,
    ensures
        kv_req_encoding(req).len() > 0 ==> entry_plan_spec(EntryKind::Normal, term, kv_req_encoding(req))
            == EntryPlanView::Apply(term, req),
        kv_req_encoding(req).len() == 0 ==> entry_plan_spec(
            EntryKind::Normal,
            term,
            kv_req_encoding(req),
        ) == EntryPlanView::Notify(0, (0, Seq::empty(), RespErr::ErrWrongLeader)),
{
    crate::kvproto::kvrpcpb::lemma_kv_req_roundtrip(req);
    if kv_req_encoding(req).len() == 0 {
        assert(kv_req_decoding(Seq::empty()) == Some(crate::kvproto::kvrpcpb::default_kv_req()));
    }
}

/// The requests that a run of committed entries (each its kind, term and
/// data) applies, in order, each with its entry's term: a client request
/// with data is applied; a membership change and the empty entry of a new
/// leader apply nothing.
pub open spec fn applied_log(es: Seq<(EntryKind, u64, Seq<u8>)>) -> Seq<(u64, KvReqView)>
    decreases es.len(),
{
    if es.len() == 0 {
        Seq::empty()
    } else {
        let rest = applied_log(es.drop_last());
        match entry_plan_spec(es.last().0, es.last().1, es.last().2) {
            EntryPlanView::Apply(t, req) => rest.push((t, req)),
            _ => rest,
        }
    }
}

/// The store after a run of committed entries is applied, in order.
pub open spec fn store_after_entries(store: Store, es: Seq<(EntryKind, u64, Seq<u8>)>) -> Store {
    store_after(store, applied_log(es), applied_log(es).len())
}

proof fn lemma_store_after_prefix(store: Store, a: Seq<(u64, KvReqView)>, b: Seq<(u64, KvReqView)>, k: nat)
    requires
        k <= a.len(),
        k <= b.len(),
        forall|i: int| 0 <= i < k ==> a[i] == b[i],
    ensures
        store_after(store, a, k) == store_after(store, b, k),
    decreases k,
{
    if k > 0 {
        lemma_store_after_prefix(store, a, b, (k - 1) as nat);
    }
}

/// Committed entries are applied one after another, in the order they are
/// committed: one more entry applies its request to the store the earlier
/// ones left, if it is a client request with data; a membership change or
/// an empty entry leaves the store as it was.
pub proof fn lemma_store_after_entries(store: Store, es: Seq<(EntryKind, u64, Seq<u8>)>, e: (EntryKind, u64, Seq<u8>))
    ensures
        store_after_entries(store, es.push(e)) == (match entry_plan_spec(e.0, e.1, e.2) {
            EntryPlanView::Apply(t, req) => kv_apply(store_after_entries(store, es), t, req).0,
            _ => store_after_entries(store, es),
        }),
        e.0 == EntryKind::ConfChange ==> store_after_entries(store, es.push(e)) == store_after_entries(
            store,
            es,
        ),
        (e.0 == EntryKind::Normal && e.2.len() == 0) ==> store_after_entries(store, es.push(e))
            == store_after_entries(store, es),
{
    assert(es.push(e).drop_last() =~= es);
    let log = applied_log(es);
    match entry_plan_spec(e.0, e.1, e.2) {
        EntryPlanView::Apply(t, req) => {
            let log2 = log.push((t, req));
            lemma_store_after_prefix(store, log2, log, log.len());
        },
        _ => {},
    }
}

/// The clients waiting for the answer to a proposal, each with the means
/// to answer it, by client id (a node id, for a membership change).
pub struct NotifyRegistry<S> {
    waiting: HashMap<u64, S>,
}

impl<S> NotifyRegistry<S> {
    /// Who is waiting, and the means to answer each.
    pub closed spec fn view_map(&self) -> Map<u64, S> {
        self.waiting@
    }

    /// No one waiting.
    pub fn new() -> (r: NotifyRegistry<S>)
        ensures
            r.view_map() == Map::<u64, S>::empty(),
    {
        NotifyRegistry { waiting: HashMap::new() }
    }

    /// A client now waits, with this means to answer it; it replaces any
    /// earlier wait of the same client.
    pub fn register(&mut self, client_id: u64, sink: S)
        ensures
            final(self).view_map() == old(self).view_map().insert(client_id, sink),
    {
        self.waiting.insert(client_id, sink);
    }

    /// The client is no longer waiting: the means to answer it, if it was.
    pub fn take(&mut self, client_id: u64) -> (r: Option<S>)
        ensures
            final(self).view_map() == old(self).view_map().remove(client_id),
            match r {
                Some(s) => old(self).view_map().contains_key(client_id) && s == old(
                    self,
                ).view_map()[client_id],
                None => !old(self).view_map().contains_key(client_id),
            },
    {
        self.waiting.remove(&client_id)
    }

    /// Whether a client is waiting.
    pub fn is_waiting(&self, client_id: u64) -> (r: bool)
        ensures
            r == self.view_map().contains_key(client_id),
    {
        self.waiting.contains_key(&client_id)
    }
}

} // verus!
