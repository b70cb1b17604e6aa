//! The messages of the consensus protocol, from the `raft` crate, and the
//! membership change that a replica proposes.
use vstd::prelude::*;
use raft::eraftpb::{Entry, HardState, Message, Snapshot};
use crate::server::node::{EntryKind, entry_data_of, entry_kind_of};
use crate::wire::opt_varint_field;

verus! {

#[verifier::external_type_specification]
#[verifier::external_body]
pub struct ExMessage(Message);

#[verifier::external_type_specification]
#[verifier::external_body]
pub struct ExEntry(Entry);

#[verifier::external_type_specification]
#[verifier::external_body]
pub struct ExSnapshot(Snapshot);

#[verifier::external_type_specification]
#[verifier::external_body]
pub struct ExHardState(HardState);

#[verifier::external_type_specification]
#[verifier::external_body]
pub struct ExRaftError(raft::Error);

/// What a membership change does.
#[derive(Clone, Copy, Debug, PartialEq, Eq, Structural)]
pub enum ConfChangeType {
    AddNode,
    RemoveNode,
    AddLearnerNode,
}

/// A membership change: its id, the node it concerns and what it does.
#[derive(Clone, Copy, Debug, PartialEq, Eq, Structural)]
pub struct ConfChange {
    pub id: u64,
    pub node_id: u64,
    pub change_type: ConfChangeType,
}

/// The number of a kind of change on the wire.
pub open spec fn conf_change_type_number(t: ConfChangeType) -> nat {
    match t {
        ConfChangeType::AddNode => 0,
        ConfChangeType::RemoveNode => 1,
        ConfChangeType::AddLearnerNode => 2,
    }
}

/// The bytes that `protobuf::Message::write_to_bytes` writes for the
/// crate's `ConfChange` holding this change and an empty context: the id,
/// the kind and the node as varint fields 1, 2 and 3, each left out where
/// it is zero.
pub open spec fn conf_change_encoding(cc: ConfChange) -> Seq<u8> {
    opt_varint_field(1, cc.id as nat) + opt_varint_field(2, conf_change_type_number(cc.change_type))
        + opt_varint_field(3, cc.node_id as nat)
}

/// The change that `protobuf::parse_from_bytes::<ConfChange>` reads from
/// bytes, where it reads one, without its context.
pub uninterp spec fn conf_change_decoding(data: Seq<u8>) -> Option<ConfChange>;

/// `protobuf::Message::write_to_bytes` on the crate's `ConfChange`: the
/// bytes of the change, a function of the change alone. Writing a proto3
/// message does not fail, so the bytes are always there.
#[verifier::external_body]
pub fn conf_change_write_to_bytes(cc: &ConfChange) -> (r: Vec<u8>)
    ensures
        r@ == conf_change_encoding(*cc),
{
    let mut c = raft::eraftpb::ConfChange::new();
    c.set_id(cc.id);
    c.set_node_id(cc.node_id);
    c.set_change_type(match cc.change_type {
        ConfChangeType::AddNode => raft::eraftpb::ConfChangeType::AddNode,
        ConfChangeType::RemoveNode => raft::eraftpb::ConfChangeType::RemoveNode,
        ConfChangeType::AddLearnerNode => raft::eraftpb::ConfChangeType::AddLearnerNode,
    });
    protobuf::Message::write_to_bytes(&c).unwrap()
}

/// `protobuf::parse_from_bytes::<ConfChange>`: the change that the bytes
/// hold, or `None` where they are no `ConfChange`; a function of the bytes
/// alone. Bytes that `write_to_bytes` wrote for a change are read back as
/// that change.
#[verifier::external_body]
pub fn conf_change_parse_from_bytes(data: &[u8]) -> (r: Option<ConfChange>)
    ensures
        r == conf_change_decoding(data@),
        forall|c: ConfChange| #[trigger] conf_change_encoding(c) == data@ ==> r == Some(c),
{
    match protobuf::parse_from_bytes::<raft::eraftpb::ConfChange>(data) {
        Ok(c) => Some(ConfChange {
            id: c.get_id(),
            node_id: c.get_node_id(),
            change_type: match c.get_change_type() {
                raft::eraftpb::ConfChangeType::AddNode => ConfChangeType::AddNode,
                raft::eraftpb::ConfChangeType::RemoveNode => ConfChangeType::RemoveNode,
                raft::eraftpb::ConfChangeType::AddLearnerNode => ConfChangeType::AddLearnerNode,
            },
        }),
        Err(_) => None,
    }
}

/// The peer a consensus message is addressed to: its `to` field.
pub uninterp spec fn message_addressee(m: Message) -> u64;

/// The bytes that `protobuf::Message::write_to_bytes` writes for a
/// consensus message.
pub uninterp spec fn message_encoding(m: Message) -> Seq<u8>;

/// The consensus message that `protobuf::parse_from_bytes::<Message>` reads
/// from bytes, where it reads one.
pub uninterp spec fn message_decoding(data: Seq<u8>) -> Option<Message>;

/// `Message::get_to`: the peer a message is addressed to.
#[verifier::external_body]
pub fn message_to(m: &Message) -> (r: u64)
    ensures
        r == message_addressee(*m),
{
    m.get_to()
}

/// `protobuf::Message::write_to_bytes` on a consensus message: the bytes of
/// the message, a function of the message alone. Writing a proto3 message
/// does not fail, so the bytes are always there.
#[verifier::external_body]
pub fn message_write_to_bytes(m: &Message) -> (r: Vec<u8>)
    ensures
        r@ == message_encoding(*m),
{
    protobuf::Message::write_to_bytes(m).unwrap()
}

/// `protobuf::parse_from_bytes::<Message>`: the consensus message that the
/// bytes hold, or `None` where they are no message; a function of the bytes
/// alone.
#[verifier::external_body]
pub fn message_parse_from_bytes(data: &[u8]) -> (r: Option<Message>)
    ensures
        r == message_decoding(data@),
{
    protobuf::parse_from_bytes::<Message>(data).ok()
}

/// `Entry::clone`: a copy of an entry, equal to it field by field.
#[verifier::external_body]
pub fn entry_clone(e: &Entry) -> (r: Entry)
    ensures
        r == *e,
{
    e.clone()
}

/// `Entry::new`: the entry whose every field holds its default: no data,
/// and the kind `EntryNormal`.
#[verifier::external_body]
pub fn entry_new() -> (r: Entry)
    ensures
        entry_data_of(r) == Seq::<u8>::empty(),
        entry_kind_of(r) == EntryKind::Normal,
{
    Entry::new()
}

} // verus!
