//! The values a replica is started with: its address `IP:PORT`, its peers
//! `ID=IP:PORT`, and ids. A value is cut at a separator as `str::split`
//! does, and only its first pieces are read.
use vstd::prelude::*;
use vstd::utf8::{encode_utf8, decode_utf8, valid_utf8, is_continuation_byte};
use crate::codec::{parse_decimal, parse_u64};
use crate::kvproto::kvrpcpb::{string_from_utf8, utf8_bytes};

verus! {

broadcast use vstd::utf8::encode_utf8_valid_utf8;

/// The first position at or after `start` that holds `sep`, or the length.
pub open spec fn sep_index(b: Seq<u8>, sep: u8, start: int) -> int
    decreases b.len() - start,
{
    if start >= b.len() {
        b.len() as int
    } else if b[start] == sep {
        start
    } else {
        sep_index(b, sep, start + 1)
    }
}

/// The first piece of `b` cut at `sep`.
pub open spec fn first_piece(b: Seq<u8>, sep: u8) -> Seq<u8> {
    b.subrange(0, sep_index(b, sep, 0))
}

/// The second piece of `b` cut at `sep`, where there is one.
pub open spec fn second_piece(b: Seq<u8>, sep: u8) -> Option<Seq<u8>> {
    let i = sep_index(b, sep, 0);
    if i >= b.len() {
        None
    } else {
        Some(b.subrange(i + 1, sep_index(b, sep, i + 1)))
    }
}

/// The host and port of an address `IP:PORT`: the first piece, and the
/// second read as a 16-bit port; `None` where there is no second piece or
/// it is no port.
pub open spec fn address_parts(addr: Seq<char>) -> Option<(Seq<char>, u16)> {
    let b = encode_utf8(addr);
    match second_piece(b, 58u8) {
        Some(p) => match parse_decimal(p) {
            Some(v) => if v <= u16::MAX {
                Some((decode_utf8(first_piece(b, 58u8)), v as u16))
            } else {
                None
            },
            None => None,
        },
        None => None,
    }
}

/// The id and address of a peer `ID=IP:PORT`: the first piece read as an
/// id, and the second piece; `None` where either is missing or the id is no
/// number.
pub open spec fn peer_parts(s: Seq<char>) -> Option<(u64, Seq<char>)> {
    let b = encode_utf8(s);
    match parse_decimal(first_piece(b, 61u8)) {
        Some(id) => match second_piece(b, 61u8) {
            Some(p) => Some((id, decode_utf8(p))),
            None => None,
        },
        None => None,
    }
}

proof fn lemma_sep_index(b: Seq<u8>, sep: u8, start: int)
    requires
        0 <= start <= b.len(),
    ensures
        start <= sep_index(b, sep, start) <= b.len(),
        sep_index(b, sep, start) < b.len() ==> b[sep_index(b, sep, start)] == sep,
    decreases b.len() - start,
{
    if start < b.len() && b[start] != sep {
        lemma_sep_index(b, sep, start + 1);
    }
}

/// Cutting valid UTF-8 just before an ASCII byte, or at its end, leaves
/// valid UTF-8 before the cut; the bytes after an ASCII byte are valid
/// UTF-8 too.
proof fn lemma_cut_at_ascii(b: Seq<u8>, i: int)
    requires
        valid_utf8(b),
        0 <= i <= b.len(),
        i < b.len() ==> b[i] < 128,
    ensures
        valid_utf8(b.subrange(0, i)),
        i < b.len() ==> valid_utf8(b.subrange(i + 1, b.len() as int)),
{
    if i == b.len() {
        assert(b.subrange(0, i) =~= b);
    } else {
        vstd::utf8::is_char_boundary_iff_not_is_continuation_byte(b, i);
        assert(!is_continuation_byte(b[i]));
        vstd::utf8::valid_utf8_split(b, i);
        let rest = b.subrange(i, b.len() as int);
        assert(rest[0] == b[i]);
        assert(vstd::utf8::pop_first_scalar(rest) =~= b.subrange(i + 1, b.len() as int));
    }
}

fn find_sep(b: &[u8], sep: u8, start: usize) -> (r: usize)
    requires
        start <= b@.len(),
    ensures
        r as int == sep_index(b@, sep, start as int),
{
    let mut i = start;
    while i < b.len()
        invariant
            start <= i <= b@.len(),
            sep_index(b@, sep, start as int) == sep_index(b@, sep, i as int),
        decreases b@.len() - i,
    {
        if b[i] == sep {
            return i;
        }
        i = i + 1;
    }
    i
}

fn copy_bytes(b: &[u8], from: usize, to: usize) -> (r: Vec<u8>)
    requires
        from <= to <= b@.len(),
    ensures
        r@ == b@.subrange(from as int, to as int),
{
    let mut r: Vec<u8> = Vec::new();
    let mut i = from;
    while i < to
        invariant
            from <= i <= to <= b@.len(),
            r@ == b@.subrange(from as int, i as int),
        decreases to - i,
    {
        r.push(b[i]);
        i = i + 1;
        assert(r@ =~= b@.subrange(from as int, i as int));
    }
    r
}

/// The text of `b[from..to]`, which the caller knows to be UTF-8.
fn text_of(b: &[u8], from: usize, to: usize) -> (r: String)
    requires
        from <= to <= b@.len(),
        valid_utf8(b@.subrange(from as int, to as int)),
    ensures
        r@ == decode_utf8(b@.subrange(from as int, to as int)),
{
    match string_from_utf8(copy_bytes(b, from, to)) {
        Some(s) => s,
        None => String::new(),
    }
}

/// The host and port of an address `IP:PORT`, or `None` where it has no
/// port.
pub fn parse_address(addr: &String) -> (r: Option<(String, u16)>)
    ensures
        match address_parts(addr@) {
            Some((host, port)) => r matches Some((h, p)) && h@ == host && p == port,
            None => r is None,
        },
{
    let bv = utf8_bytes(addr);
    let b = bv.as_slice();
    let i = find_sep(b, 58u8, 0);
    proof {
        lemma_sep_index(b@, 58u8, 0);
    }
    if i >= b.len() {
        return None;
    }
    let j = find_sep(b, 58u8, i + 1);
    proof {
        lemma_sep_index(b@, 58u8, i + 1);
    }
    let port_bytes = copy_bytes(b, i + 1, j);
    match parse_u64(port_bytes.as_slice()) {
        Some(v) => {
            if v <= 65535 {
                proof {
                    lemma_cut_at_ascii(b@, i as int);
                }
                Some((text_of(b, 0, i), v as u16))
            } else {
                None
            }
        },
        None => None,
    }
}

/// The id and address of a peer `ID=IP:PORT`, or `None` where the id is no
/// number or there is no address.
pub fn parse_peer(s: &String) -> (r: Option<(u64, String)>)
    ensures
        match peer_parts(s@) {
            Some((id, addr)) => r matches Some((i, a)) && i == id && a@ == addr,
            None => r is None,
        },
{
    let bv = utf8_bytes(s);
    let b = bv.as_slice();
    let i = find_sep(b, 61u8, 0);
    proof {
        lemma_sep_index(b@, 61u8, 0);
    }
    let id_bytes = copy_bytes(b, 0, i);
    let id = parse_u64(id_bytes.as_slice());
    match id {
        None => None,
        Some(id) => {
            if i >= b.len() {
                return None;
            }
            let j = find_sep(b, 61u8, i + 1);
            proof {
                lemma_sep_index(b@, 61u8, i + 1);
                lemma_cut_at_ascii(b@, i as int);
                let rest = b@.subrange(i + 1, b@.len() as int);
                lemma_sep_index(rest, 61u8, 0);
                lemma_sep_index_shift(b@, 61u8, i + 1);
                lemma_cut_at_ascii(rest, (j - (i + 1)) as int);
                assert(rest.subrange(0, j - (i + 1)) =~= b@.subrange(i + 1, j as int));
            }
            Some((id, text_of(b, i + 1, j)))
        },
    }
}

proof fn lemma_sep_index_shift(b: Seq<u8>, sep: u8, k: int)
    requires
        0 <= k <= b.len(),
    ensures
        sep_index(b.subrange(k, b.len() as int), sep, 0) == sep_index(b, sep, k) - k,
{
    lemma_sep_index_shift_from(b, sep, k, k);
}

proof fn lemma_sep_index_shift_from(b: Seq<u8>, sep: u8, k: int, m: int)
    requires
        0 <= k <= m <= b.len(),
    ensures
        sep_index(b.subrange(k, b.len() as int), sep, m - k) == sep_index(b, sep, m) - k,
    decreases b.len() - m,
{
    let rest = b.subrange(k, b.len() as int);
    if m < b.len() {
        assert(rest[m - k] == b[m]);
        if b[m] != sep {
            lemma_sep_index_shift_from(b, sep, k, m + 1);
        }
    }
}

/// An id given as text, as `str::parse::<u64>` reads it.
pub fn parse_id(s: &String) -> (r: Option<u64>)
    ensures
        r == parse_decimal(encode_utf8(s@)),
{
    let b = utf8_bytes(s);
    parse_u64(b.as_slice())
}

} // verus!
