//! The field layer of the wire format: each field is a tag (field number and
//! wire type) followed by its value, as protocol buffers lay them out.
use vstd::prelude::*;
use crate::codec::{varint, read_varint64, read_varint, push_varint, lemma_read_varint64_roundtrip};

verus! {

/// The value of one field as it stands on the wire.
pub enum WireValue {
    /// Wire type 0.
    Varint(u64),
    /// Wire type 2: a length, then that many bytes.
    Bytes(Seq<u8>),
    /// Wire types 1 and 5: eight or four bytes that no field of this
    /// format uses.
    Fixed,
}

/// A field read from the wire: its number and its value.
pub struct WireField {
    pub number: nat,
    pub value: WireValue,
}

/// The tag that introduces a field.
pub open spec fn tag(number: nat, wire_type: nat) -> nat {
    number * 8 + wire_type
}

/// A varint field.
pub open spec fn varint_field(number: nat, v: nat) -> Seq<u8> {
    varint(tag(number, 0)) + varint(v)
}

/// A length-delimited field.
pub open spec fn bytes_field(number: nat, b: Seq<u8>) -> Seq<u8> {
    varint(tag(number, 2)) + varint(b.len()) + b
}

/// A varint field as proto3 writes it: left out where it holds zero.
pub open spec fn opt_varint_field(number: nat, v: nat) -> Seq<u8> {
    if v == 0 {
        Seq::empty()
    } else {
        varint_field(number, v)
    }
}

/// A length-delimited field as proto3 writes it: left out where it is empty.
pub open spec fn opt_bytes_field(number: nat, b: Seq<u8>) -> Seq<u8> {
    if b.len() == 0 {
        Seq::empty()
    } else {
        bytes_field(number, b)
    }
}

/// Reads one field from the front of `s`: the field and the bytes it takes.
#[verifier::opaque]
pub open spec fn read_field(s: Seq<u8>) -> Option<(WireField, nat)> {
    match read_varint64(s) {
        None => None,
        Some((t, k)) => {
            let number = (t / 8) as nat;
            let wt = t % 8;
            let rest = s.subrange(k as int, s.len() as int);
            if number == 0 {
                None
            } else if wt == 0 {
                match read_varint64(rest) {
                    Some((v, k2)) => Some((WireField { number, value: WireValue::Varint(v) }, k + k2)),
                    None => None,
                }
            } else if wt == 2 {
                match read_varint64(rest) {
                    Some((len, k2)) => if k2 + len <= rest.len() {
                        Some(
                            (
                                WireField {
                                    number,
                                    value: WireValue::Bytes(rest.subrange(k2 as int, k2 + len)),
                                },
                                k + k2 + len as nat,
                            ),
                        )
                    } else {
                        None
                    },
                    None => None,
                }
            } else if wt == 1 {
                if 8 <= rest.len() {
                    Some((WireField { number, value: WireValue::Fixed }, k + 8))
                } else {
                    None
                }
            } else if wt == 5 {
                if 4 <= rest.len() {
                    Some((WireField { number, value: WireValue::Fixed }, k + 4))
                } else {
                    None
                }
            } else {
                None
            }
        },
    }
}

/// Reads the fields of a whole message.
pub open spec fn read_fields(s: Seq<u8>) -> Option<Seq<WireField>>
    decreases s.len(),
{
    if s.len() == 0 {
        Some(Seq::empty())
    } else {
        match read_field(s) {
            Some((f, k)) => if 0 < k <= s.len() {
                match read_fields(s.subrange(k as int, s.len() as int)) {
                    Some(fs) => Some(seq![f] + fs),
                    None => None,
                }
            } else {
                None
            },
            None => None,
        }
    }
}

/// A field, and bytes that encode it however they are followed.
pub open spec fn encodes_field(piece: Seq<u8>, f: WireField) -> bool {
    &&& piece.len() > 0
    &&& forall|rest: Seq<u8>| #[trigger]
        read_field(piece + rest) == Some((f, piece.len()))
}

/// The bytes of a list of pieces, one after the other.
pub open spec fn concat_pieces(pieces: Seq<Seq<u8>>) -> Seq<u8>
    decreases pieces.len(),
{
    if pieces.len() == 0 {
        Seq::empty()
    } else {
        pieces[0] + concat_pieces(pieces.drop_first())
    }
}

/// Fields that are written one after the other are read back in order.
pub proof fn lemma_read_concat_pieces(pieces: Seq<Seq<u8>>, fields: Seq<WireField>)
    requires
        pieces.len() == fields.len(),
        forall|i: int| 0 <= i < pieces.len() ==> encodes_field(#[trigger] pieces[i], fields[i]),
    ensures
        read_fields(concat_pieces(pieces)) == Some(fields),
    decreases pieces.len(),
{
    if pieces.len() == 0 {
        assert(fields =~= Seq::<WireField>::empty());
    } else {
        let rest = concat_pieces(pieces.drop_first());
        let s = concat_pieces(pieces);
        assert(encodes_field(pieces[0], fields[0]));
        assert(read_field(pieces[0] + rest) == Some((fields[0], pieces[0].len())));
        assert(s == pieces[0] + rest);
        assert(s.subrange(pieces[0].len() as int, s.len() as int) =~= rest);
        assert forall|i: int| 0 <= i < pieces.drop_first().len() implies encodes_field(
            #[trigger] pieces.drop_first()[i],
            fields.drop_first()[i],
        ) by {
            assert(pieces.drop_first()[i] == pieces[i + 1]);
            assert(encodes_field(pieces[i + 1], fields[i + 1]));
        }
        lemma_read_concat_pieces(pieces.drop_first(), fields.drop_first());
        assert(seq![fields[0]] + fields.drop_first() =~= fields);
    }
}

/// A varint field encodes its number and value.
pub proof fn lemma_varint_field(number: u64, v: u64)
    requires
        1 <= number,
        number * 8 <= u64::MAX,
    ensures
        encodes_field(
            varint_field(number as nat, v as nat),
            WireField { number: number as nat, value: WireValue::Varint(v) },
        ),
{
    let t = (number * 8) as u64;
    let piece = varint_field(number as nat, v as nat);
    assert forall|rest: Seq<u8>| #[trigger]
        read_field(piece + rest) == Some(
            (WireField { number: number as nat, value: WireValue::Varint(v) }, piece.len()),
        ) by {
        reveal(read_field);
        let s = piece + rest;
        assert(s == varint(t as nat) + (varint(v as nat) + rest));
        lemma_read_varint64_roundtrip(t, varint(v as nat) + rest);
        let k = varint(t as nat).len();
        assert(s.subrange(k as int, s.len() as int) =~= varint(v as nat) + rest);
        lemma_read_varint64_roundtrip(v, rest);
        assert(t / 8 == number);
        assert(t % 8 == 0);
    }
    crate::codec::lemma_varint64_len(t);
}

/// A length-delimited field encodes its number and bytes.
pub proof fn lemma_bytes_field(number: u64, b: Seq<u8>)
    requires
        1 <= number,
        number * 8 + 2 <= u64::MAX,
        b.len() <= u64::MAX,
    ensures
        encodes_field(
            bytes_field(number as nat, b),
            WireField { number: number as nat, value: WireValue::Bytes(b) },
        ),
{
    let t = (number * 8 + 2) as u64;
    let n = b.len() as u64;
    let piece = bytes_field(number as nat, b);
    assert forall|rest: Seq<u8>| #[trigger]
        read_field(piece + rest) == Some(
            (WireField { number: number as nat, value: WireValue::Bytes(b) }, piece.len()),
        ) by {
        reveal(read_field);
        let s = piece + rest;
        let after_tag = varint(n as nat) + b + rest;
        assert(s =~= varint(t as nat) + after_tag);
        lemma_read_varint64_roundtrip(t, after_tag);
        let k = varint(t as nat).len();
        assert(s.subrange(k as int, s.len() as int) =~= after_tag);
        assert(after_tag =~= varint(n as nat) + (b + rest));
        lemma_read_varint64_roundtrip(n, b + rest);
        let k2 = varint(n as nat).len();
        assert(after_tag.subrange(k2 as int, k2 + n) =~= b);
        assert(t / 8 == number);
        assert(t % 8 == 2);
    }
    crate::codec::lemma_varint64_len(t);
}

/// A field read by `next_field`: its number and its value, with the bytes
/// of a length-delimited value copied out.
pub enum FieldValue {
    Varint(u64),
    Bytes(Vec<u8>),
    Fixed,
}

/// The wire value that a field read by `next_field` stands for.
pub open spec fn field_value_view(v: FieldValue) -> WireValue {
    match v {
        FieldValue::Varint(x) => WireValue::Varint(x),
        FieldValue::Bytes(b) => WireValue::Bytes(b@),
        FieldValue::Fixed => WireValue::Fixed,
    }
}

fn copy_range(s: &[u8], from: usize, to: usize) -> (r: Vec<u8>)
    requires
        from <= to <= s@.len(),
    ensures
        r@ == s@.subrange(from as int, to as int),
{
    let mut r: Vec<u8> = Vec::new();
    let mut i = from;
    while i < to
        invariant
            from <= i <= to <= s@.len(),
            r@ == s@.subrange(from as int, i as int),
        decreases to - i,
    {
        r.push(s[i]);
        i = i + 1;
        assert(r@ =~= s@.subrange(from as int, i as int));
    }
    r
}

/// Reads the field at `pos`: its number, its value and the bytes it takes,
/// or `None` where the bytes there are no field.
pub fn next_field(s: &[u8], pos: usize) -> (r: Option<(u64, FieldValue, usize)>)
    requires
        pos <= s@.len(),
    ensures
        match read_field(s@.subrange(pos as int, s@.len() as int)) {
            Some((f, k)) => match r {
                Some((n, v, k2)) => n as nat == f.number && field_value_view(v) == f.value
                    && k2 as nat == k && pos + k <= s@.len(),
                None => false,
            },
            None => r is None,
        },
{
    let ghost t0 = s@.subrange(pos as int, s@.len() as int);
    proof {
        reveal(read_field);
    }
    let first = read_varint(s, pos);
    if first.is_none() {
        return None;
    }
    let (t, k) = first.unwrap();
    let slen = s.len();
    assert(pos + k <= slen);
    let number = t / 8;
    let wt = t % 8;
    let p2 = pos + k;
    assert(t0.subrange(k as int, t0.len() as int) =~= s@.subrange(p2 as int, s@.len() as int));
    if number == 0 {
        return None;
    }
    if wt == 0 {
        match read_varint(s, p2) {
            Some((v, k2)) => Some((number, FieldValue::Varint(v), k + k2)),
            None => None,
        }
    } else if wt == 2 {
        match read_varint(s, p2) {
            Some((len, k2)) => {
                if len as u128 + k2 as u128 <= (s.len() - p2) as u128 {
                    let from = p2 + k2;
                    let to = from + len as usize;
                    let b = copy_range(s, from, to);
                    assert(b@ =~= s@.subrange(p2 as int, s@.len() as int).subrange(
                        k2 as int,
                        k2 + len,
                    ));
                    Some((number, FieldValue::Bytes(b), k + k2 + len as usize))
                } else {
                    None
                }
            },
            None => None,
        }
    } else if wt == 1 {
        if 8 <= s.len() - p2 {
            Some((number, FieldValue::Fixed, k + 8))
        } else {
            None
        }
    } else if wt == 5 {
        if 4 <= s.len() - p2 {
            Some((number, FieldValue::Fixed, k + 4))
        } else {
            None
        }
    } else {
        None
    }
}

/// Appends a varint field, left out where the value is zero.
pub fn push_opt_varint_field(number: u64, v: u64, out: &mut Vec<u8>)
    requires
        1 <= number <= 15,
    ensures
        final(out)@ == old(out)@ + opt_varint_field(number as nat, v as nat),
{
    if v != 0 {
        push_varint(number * 8, out);
        push_varint(v, out);
        assert(final(out)@ =~= old(out)@ + opt_varint_field(number as nat, v as nat));
    } else {
        assert(final(out)@ =~= old(out)@ + opt_varint_field(number as nat, v as nat));
    }
}

/// Appends a length-delimited field, left out where the bytes are empty.
pub fn push_opt_bytes_field(number: u64, b: &[u8], out: &mut Vec<u8>)
    requires
        1 <= number <= 15,
    ensures
        final(out)@ == old(out)@ + opt_bytes_field(number as nat, b@),
{
    if b.len() != 0 {
        push_varint(number * 8 + 2, out);
        push_varint(b.len() as u64, out);
        let ghost mid = out@;
        let mut i: usize = 0;
        while i < b.len()
            invariant
                0 <= i <= b@.len(),
                out@ == mid + b@.subrange(0, i as int),
            decreases b@.len() - i,
        {
            out.push(b[i]);
            i = i + 1;
            assert(out@ =~= mid + b@.subrange(0, i as int));
        }
        assert(b@.subrange(0, b@.len() as int) =~= b@);
        assert(final(out)@ =~= old(out)@ + opt_bytes_field(number as nat, b@));
    } else {
        assert(final(out)@ =~= old(out)@ + opt_bytes_field(number as nat, b@));
    }
}

} // verus!
