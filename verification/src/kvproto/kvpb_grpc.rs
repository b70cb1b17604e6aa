//! The RPC service of the store: its methods, the calls a client makes, and
//! the routing of incoming calls to a handler.
//!
//! Moving bytes over the network is I/O and is the caller's: a client here
//! says which unary call to make (method, request bytes, options, blocking
//! or not); the caller makes it and reads the answer with the response's
//! `parse_from_bytes`. A service takes the bytes of a call, hands the
//! request to its handler and gives back the bytes of the answer.
use vstd::prelude::*;
use raft::eraftpb::Message;
use crate::kvproto::eraftpb::{
    message_decoding, message_encoding, message_parse_from_bytes, message_write_to_bytes,
};
use crate::kvproto::kvrpcpb::{
    ConfChangeReq, DeleteResp, GetResp, KvReq, KvReqView, PutResp, RaftDone, RespErr, conf_change_req_encoding,
    err_resp_encoding, get_resp_encoding, kv_req_decoding, kv_req_encoding,
};

verus! {

/// The methods of the service.
#[derive(Clone, Copy, Debug, PartialEq, Eq, Structural)]
pub enum KvMethod {
    Get,
    Put,
    Delete,
    Raft,
    RaftConfChange,
}

/// The full name of a method on the wire.
pub open spec fn method_name(m: KvMethod) -> Seq<char> {
    match m {
        KvMethod::Get => "/kvpb.kv/Get"@,
        KvMethod::Put => "/kvpb.kv/Put"@,
        KvMethod::Delete => "/kvpb.kv/Delete"@,
        KvMethod::Raft => "/kvpb.kv/Raft"@,
        KvMethod::RaftConfChange => "/kvpb.kv/RaftConfChange"@,
    }
}

impl KvMethod {
    /// The full name of the method on the wire.
    pub fn name(&self) -> (r: String)
        ensures
            r@ == method_name(*self),
    {
        match self {
            KvMethod::Get => "/kvpb.kv/Get".to_string(),
            KvMethod::Put => "/kvpb.kv/Put".to_string(),
            KvMethod::Delete => "/kvpb.kv/Delete".to_string(),
            KvMethod::Raft => "/kvpb.kv/Raft".to_string(),
            KvMethod::RaftConfChange => "/kvpb.kv/RaftConfChange".to_string(),
        }
    }
}

/// Options of a call: a deadline, in milliseconds, if any.
#[derive(Clone, Copy, Debug, PartialEq, Eq, Structural)]
pub struct CallOption {
    pub timeout_millis: Option<u64>,
}

impl CallOption {
    /// The options of a call that waits as long as it takes.
    pub fn default() -> (r: CallOption)
        ensures
            r.timeout_millis is None,
    {
        CallOption { timeout_millis: None }
    }

    /// These options with a deadline.
    pub fn timeout(self, millis: u64) -> (r: CallOption)
        ensures
            r.timeout_millis == Some(millis),
    {
        CallOption { timeout_millis: Some(millis) }
    }
}

/// Whether the caller waits for the answer, or is handed a receiver for it.
#[derive(Clone, Copy, Debug, PartialEq, Eq, Structural)]
pub enum CallMode {
    Blocking,
    Async,
}

/// A unary call to make: where to, the method, the bytes of the request,
/// the options and whether to wait.
pub struct UnaryCall {
    pub target: String,
    pub method: KvMethod,
    pub payload: Vec<u8>,
    pub option: CallOption,
    pub mode: CallMode,
}

/// Where the service is reached.
pub struct Channel {
    pub target: String,
}

/// A client of the service on one channel.
pub struct KvClient {
    channel: Channel,
}

impl KvClient {
    /// A client on this channel.
    pub fn new(channel: Channel) -> (r: KvClient)
        ensures
            r.target() == channel.target@,
    {
        KvClient { channel }
    }

    /// Where the client's calls go.
    pub closed spec fn target(&self) -> Seq<char> {
        self.channel.target@
    }

    /// Where the client's calls go.
    pub fn channel_target(&self) -> (r: String)
        ensures
            r@ == self.target(),
    {
        self.channel.target.clone()
    }

    /// A get, with options, waited for.
    pub fn get_opt(&self, req: &KvReq, opt: CallOption) -> (r: UnaryCall)
        ensures
            r.method == KvMethod::Get,
            r.target@ == self.target(),
            r.payload@ == kv_req_encoding(req@),
            r.option == opt,
            r.mode == CallMode::Blocking,
    {
        UnaryCall { target: self.channel.target.clone(), method: KvMethod::Get, payload: req.write_to_bytes(), option: opt, mode: CallMode::Blocking }
    }

    /// A get, with default options, waited for.
    pub fn get(&self, req: &KvReq) -> (r: UnaryCall)
        ensures
            r.method == KvMethod::Get,
            r.target@ == self.target(),
            r.payload@ == kv_req_encoding(req@),
            r.option.timeout_millis is None,
            r.mode == CallMode::Blocking,
    {
        self.get_opt(req, CallOption::default())
    }

    /// A get, with options, answered through a receiver.
    pub fn get_async_opt(&self, req: &KvReq, opt: CallOption) -> (r: UnaryCall)
        ensures
            r.method == KvMethod::Get,
            r.target@ == self.target(),
            r.payload@ == kv_req_encoding(req@),
            r.option == opt,
            r.mode == CallMode::Async,
    {
        UnaryCall { target: self.channel.target.clone(), method: KvMethod::Get, payload: req.write_to_bytes(), option: opt, mode: CallMode::Async }
    }

    /// A get, with default options, answered through a receiver.
    pub fn get_async(&self, req: &KvReq) -> (r: UnaryCall)
        ensures
            r.method == KvMethod::Get,
            r.target@ == self.target(),
            r.payload@ == kv_req_encoding(req@),
            r.option.timeout_millis is None,
            r.mode == CallMode::Async,
    {
        self.get_async_opt(req, CallOption::default())
    }

    /// A put, with options, waited for.
    pub fn put_opt(&self, req: &KvReq, opt: CallOption) -> (r: UnaryCall)
        ensures
            r.method == KvMethod::Put,
            r.target@ == self.target(),
            r.payload@ == kv_req_encoding(req@),
            r.option == opt,
            r.mode == CallMode::Blocking,
    {
        UnaryCall { target: self.channel.target.clone(), method: KvMethod::Put, payload: req.write_to_bytes(), option: opt, mode: CallMode::Blocking }
    }

    /// A put, with default options, waited for.
    pub fn put(&self, req: &KvReq) -> (r: UnaryCall)
        ensures
            r.method == KvMethod::Put,
            r.target@ == self.target(),
            r.payload@ == kv_req_encoding(req@),
            r.option.timeout_millis is None,
            r.mode == CallMode::Blocking,
    {
        self.put_opt(req, CallOption::default())
    }

    /// A put, with options, answered through a receiver.
    pub fn put_async_opt(&self, req: &KvReq, opt: CallOption) -> (r: UnaryCall)
        ensures
            r.method == KvMethod::Put,
            r.target@ == self.target(),
            r.payload@ == kv_req_encoding(req@),
            r.option == opt,
            r.mode == CallMode::Async,
    {
        UnaryCall { target: self.channel.target.clone(), method: KvMethod::Put, payload: req.write_to_bytes(), option: opt, mode: CallMode::Async }
    }

    /// A put, with default options, answered through a receiver.
    pub fn put_async(&self, req: &KvReq) -> (r: UnaryCall)
        ensures
            r.method == KvMethod::Put,
            r.target@ == self.target(),
            r.payload@ == kv_req_encoding(req@),
            r.option.timeout_millis is None,
            r.mode == CallMode::Async,
    {
        self.put_async_opt(req, CallOption::default())
    }

    /// A delete, with options, waited for.
    pub fn delete_opt(&self, req: &KvReq, opt: CallOption) -> (r: UnaryCall)
        ensures
            r.method == KvMethod::Delete,
            r.target@ == self.target(),
            r.payload@ == kv_req_encoding(req@),
            r.option == opt,
            r.mode == CallMode::Blocking,
    {
        UnaryCall { target: self.channel.target.clone(), method: KvMethod::Delete, payload: req.write_to_bytes(), option: opt, mode: CallMode::Blocking }
    }

    /// A delete, with default options, waited for.
    pub fn delete(&self, req: &KvReq) -> (r: UnaryCall)
        ensures
            r.method == KvMethod::Delete,
            r.target@ == self.target(),
            r.payload@ == kv_req_encoding(req@),
            r.option.timeout_millis is None,
            r.mode == CallMode::Blocking,
    {
        self.delete_opt(req, CallOption::default())
    }

    /// A delete, with options, answered through a receiver.
    pub fn delete_async_opt(&self, req: &KvReq, opt: CallOption) -> (r: UnaryCall)
        ensures
            r.method == KvMethod::Delete,
            r.target@ == self.target(),
            r.payload@ == kv_req_encoding(req@),
            r.option == opt,
            r.mode == CallMode::Async,
    {
        UnaryCall { target: self.channel.target.clone(), method: KvMethod::Delete, payload: req.write_to_bytes(), option: opt, mode: CallMode::Async }
    }

    /// A delete, with default options, answered through a receiver.
    pub fn delete_async(&self, req: &KvReq) -> (r: UnaryCall)
        ensures
            r.method == KvMethod::Delete,
            r.target@ == self.target(),
            r.payload@ == kv_req_encoding(req@),
            r.option.timeout_millis is None,
            r.mode == CallMode::Async,
    {
        self.delete_async_opt(req, CallOption::default())
    }

    /// A consensus message for the peer behind this channel, with options,
    /// waited for.
    pub fn raft_opt(&self, req: &Message, opt: CallOption) -> (r: UnaryCall)
        ensures
            r.method == KvMethod::Raft,
            r.target@ == self.target(),
            r.payload@ == message_encoding(*req),
            r.option == opt,
            r.mode == CallMode::Blocking,
    {
        UnaryCall { target: self.channel.target.clone(), method: KvMethod::Raft, payload: message_write_to_bytes(req), option: opt, mode: CallMode::Blocking }
    }

    /// A consensus message, with default options, waited for.
    pub fn raft(&self, req: &Message) -> (r: UnaryCall)
        ensures
            r.method == KvMethod::Raft,
            r.target@ == self.target(),
            r.payload@ == message_encoding(*req),
            r.option.timeout_millis is None,
            r.mode == CallMode::Blocking,
    {
        self.raft_opt(req, CallOption::default())
    }

    /// A consensus message, with options, answered through a receiver.
    pub fn raft_async_opt(&self, req: &Message, opt: CallOption) -> (r: UnaryCall)
        ensures
            r.method == KvMethod::Raft,
            r.target@ == self.target(),
            r.payload@ == message_encoding(*req),
            r.option == opt,
            r.mode == CallMode::Async,
    {
        UnaryCall { target: self.channel.target.clone(), method: KvMethod::Raft, payload: message_write_to_bytes(req), option: opt, mode: CallMode::Async }
    }

    /// A consensus message, with default options, answered through a receiver.
    pub fn raft_async(&self, req: &Message) -> (r: UnaryCall)
        ensures
            r.method == KvMethod::Raft,
            r.target@ == self.target(),
            r.payload@ == message_encoding(*req),
            r.option.timeout_millis is None,
            r.mode == CallMode::Async,
    {
        self.raft_async_opt(req, CallOption::default())
    }

    /// A membership request, with options, waited for.
    pub fn raft_conf_change_opt(&self, req: &ConfChangeReq, opt: CallOption) -> (r: UnaryCall)
        ensures
            r.method == KvMethod::RaftConfChange,
            r.target@ == self.target(),
            r.payload@ == conf_change_req_encoding(req.cc, req.ip@, req.port),
            r.option == opt,
            r.mode == CallMode::Blocking,
    {
        UnaryCall {
            target: self.channel.target.clone(),
            method: KvMethod::RaftConfChange,
            payload: req.write_to_bytes(),
            option: opt,
            mode: CallMode::Blocking,
        }
    }

    /// A membership request, with default options, waited for.
    pub fn raft_conf_change(&self, req: &ConfChangeReq) -> (r: UnaryCall)
        ensures
            r.method == KvMethod::RaftConfChange,
            r.target@ == self.target(),
            r.payload@ == conf_change_req_encoding(req.cc, req.ip@, req.port),
            r.option.timeout_millis is None,
            r.mode == CallMode::Blocking,
    {
        self.raft_conf_change_opt(req, CallOption::default())
    }
}

/// What a store serves: a handler for each method. The RPC context and the
/// reply sink are the caller's; the handler returns its answer. Each method
/// answers as the handler says of itself, through the matching spec
/// function; a handler that says nothing may give any answer.
pub trait Kv: Sized {
    /// Whether a get of `req` may be answered with this error and value,
    /// leaving the handler as `after`.
    open spec fn get_answers(&self, req: KvReqView, err: RespErr, value: Seq<char>, after: Self) -> bool {
        true
    }

    /// Whether a put of `req` may be answered with this error, leaving the
    /// handler as `after`.
    open spec fn put_answers(&self, req: KvReqView, err: RespErr, after: Self) -> bool {
        true
    }

    /// Whether a delete of `req` may be answered with this error, leaving
    /// the handler as `after`.
    open spec fn delete_answers(&self, req: KvReqView, err: RespErr, after: Self) -> bool {
        true
    }

    /// Whether a consensus message may be answered with this error, leaving
    /// the handler as `after`.
    open spec fn raft_answers(&self, m: Message, err: RespErr, after: Self) -> bool {
        true
    }

    fn get(&mut self, req: KvReq) -> (r: GetResp)
        ensures
            old(self).get_answers(req@, r.err, r.value@, *final(self)),
    ;

    fn put(&mut self, req: KvReq) -> (r: PutResp)
        ensures
            old(self).put_answers(req@, r.err, *final(self)),
    ;

    fn delete(&mut self, req: KvReq) -> (r: DeleteResp)
        ensures
            old(self).delete_answers(req@, r.err, *final(self)),
    ;

    fn raft(&mut self, req: Message) -> (r: RaftDone)
        ensures
            old(self).raft_answers(req, r.err, *final(self)),
    ;
}

/// A service that routes each method to its own copy of a handler.
#[derive(Clone)]
pub struct KvService<S> {
    get_handler: S,
    put_handler: S,
    delete_handler: S,
    raft_handler: S,
}

impl<S> KvService<S> {
    /// The handlers of `Get`, `Put`, `Delete` and `Raft`, in this order.
    pub closed spec fn handlers(&self) -> (S, S, S, S) {
        (self.get_handler, self.put_handler, self.delete_handler, self.raft_handler)
    }
}

/// The service for a handler: a clone of it for each of `Get`, `Put`,
/// `Delete` and `Raft`. No handler method is called.
pub fn create_kv<S: Kv + Clone>(s: S) -> (r: KvService<S>)
    ensures
        cloned::<S>(s, r.handlers().0),
        cloned::<S>(s, r.handlers().1),
        cloned::<S>(s, r.handlers().2),
        cloned::<S>(s, r.handlers().3),
{
    KvService {
        get_handler: s.clone(),
        put_handler: s.clone(),
        delete_handler: s.clone(),
        raft_handler: s.clone(),
    }
}

/// Whether a method of the service has a handler.
pub open spec fn served(m: KvMethod) -> bool {
    m != KvMethod::RaftConfChange
}

impl<S: Kv> KvService<S> {
    /// Answers a call: the bytes of the request are read as the method's
    /// request and handed to the method's handler, and its answer is
    /// written out. `None` where the method has no handler or the bytes are
    /// not a request of the method; a client request is answered with the
    /// bytes of a response of its method.
    pub fn handle(&mut self, method: KvMethod, payload: &[u8]) -> (r: Option<Vec<u8>>)
        ensures
            ({
                let (g0, p0, d0, r0) = old(self).handlers();
                let (g1, p1, d1, r1) = final(self).handlers();
                match method {
                    KvMethod::Get => match kv_req_decoding(payload@) {
                        Some(req) => (r matches Some(b) && exists|e: RespErr, v: Seq<char>|
                            g0.get_answers(req, e, v, g1) && b@ == get_resp_encoding(e, v)) && p1
                            == p0 && d1 == d0 && r1 == r0,
                        None => r is None && final(self).handlers() == old(self).handlers(),
                    },
                    KvMethod::Put => match kv_req_decoding(payload@) {
                        Some(req) => (r matches Some(b) && exists|e: RespErr|
                            p0.put_answers(req, e, p1) && b@ == err_resp_encoding(e)) && g1 == g0
                            && d1 == d0 && r1 == r0,
                        None => r is None && final(self).handlers() == old(self).handlers(),
                    },
                    KvMethod::Delete => match kv_req_decoding(payload@) {
                        Some(req) => (r matches Some(b) && exists|e: RespErr|
                            d0.delete_answers(req, e, d1) && b@ == err_resp_encoding(e)) && g1
                            == g0 && p1 == p0 && r1 == r0,
                        None => r is None && final(self).handlers() == old(self).handlers(),
                    },
                    KvMethod::Raft => match message_decoding(payload@) {
                        Some(m) => (r matches Some(b) && exists|e: RespErr|
                            r0.raft_answers(m, e, r1) && b@ == err_resp_encoding(e)) && g1 == g0
                            && p1 == p0 && d1 == d0,
                        None => r is None && final(self).handlers() == old(self).handlers(),
                    },
                    KvMethod::RaftConfChange => r is None && final(self).handlers()
                        == old(self).handlers(),
                }
            }),
    {
        match method {
            KvMethod::Get => match KvReq::parse_from_bytes(payload) {
                Some(req) => {
                    let resp = self.get_handler.get(req);
                    Some(resp.write_to_bytes())
                },
                None => None,
            },
            KvMethod::Put => match KvReq::parse_from_bytes(payload) {
                Some(req) => {
                    let resp = self.put_handler.put(req);
                    Some(resp.write_to_bytes())
                },
                None => None,
            },
            KvMethod::Delete => match KvReq::parse_from_bytes(payload) {
                Some(req) => {
                    let resp = self.delete_handler.delete(req);
                    Some(resp.write_to_bytes())
                },
                None => None,
            },
            KvMethod::Raft => match message_parse_from_bytes(payload) {
                Some(m) => {
                    let resp = self.raft_handler.raft(m);
                    Some(resp.write_to_bytes())
                },
                None => None,
            },
            KvMethod::RaftConfChange => None,
        }
    }
}

} // verus!
