//! Byte-level encodings shared by the store and the wire format: ASCII
//! decimal numerals (how sequence numbers and ids are written into keys and
//! values) and base-128 varints (how integers are written on the wire).
use vstd::prelude::*;

verus! {

/// The ASCII byte of a decimal digit.
pub open spec fn digit_byte(d: nat) -> u8 {
    (48 + d) as u8
}

/// Whether a byte is an ASCII decimal digit.
pub open spec fn is_digit(b: u8) -> bool {
    48 <= b <= 57
}

/// The canonical decimal numeral of `n`: no sign, no leading zeros.
pub open spec fn decimal(n: nat) -> Seq<u8>
    decreases n,
{
    if n < 10 {
        seq![digit_byte(n)]
    } else {
        decimal(n / 10).push(digit_byte(n % 10))
    }
}

/// Whether every byte of `s` is a decimal digit.
pub open spec fn all_digits(s: Seq<u8>) -> bool {
    forall|i: int| 0 <= i < s.len() ==> is_digit(#[trigger] s[i])
}

/// The number that a string of decimal digits denotes.
pub open spec fn digits_value(s: Seq<u8>) -> nat
    decreases s.len(),
{
    if s.len() == 0 {
        0
    } else {
        digits_value(s.drop_last()) * 10 + (s.last() - 48) as nat
    }
}

/// The digits of a numeral after an optional leading `+`.
pub open spec fn unsigned_body(s: Seq<u8>) -> Seq<u8> {
    if s.len() > 0 && s[0] == 43u8 {
        s.drop_first()
    } else {
        s
    }
}

/// How an unsigned 64-bit integer is read from text: an optional `+`, then
/// at least one decimal digit, denoting a value that fits in 64 bits.
pub open spec fn parse_decimal(s: Seq<u8>) -> Option<u64> {
    let body = unsigned_body(s);
    if body.len() > 0 && all_digits(body) && digits_value(body) <= u64::MAX {
        Some(digits_value(body) as u64)
    } else {
        None
    }
}

proof fn lemma_decimal_digits(n: nat)
    ensures
        all_digits(decimal(n)),
        decimal(n).len() > 0,
        digits_value(decimal(n)) == n,
    decreases n,
{
    if n >= 10 {
        lemma_decimal_digits(n / 10);
        let d = decimal(n);
        assert(d.drop_last() =~= decimal(n / 10));
        assert(d.last() == digit_byte(n % 10));
        assert((digit_byte(n % 10) - 48) as nat == n % 10);
        assert(digits_value(d) == digits_value(decimal(n / 10)) * 10 + n % 10);
        assert(n == (n / 10) * 10 + n % 10) by (nonlinear_arith);
        assert forall|i: int| 0 <= i < d.len() implies is_digit(#[trigger] d[i]) by {
            if i < d.len() - 1 {
                assert(d[i] == decimal(n / 10)[i]);
            }
        }
    } else {
        let d = decimal(n);
        assert(d.drop_last() =~= Seq::<u8>::empty());
        assert(d.last() == digit_byte(n));
        assert(digits_value(d.drop_last()) == 0);
        assert(digits_value(d) == n);
    }
    assert(digits_value(decimal(n)) == n);
}

/// Reading back the decimal numeral of a number gives the number.
pub proof fn lemma_parse_decimal_roundtrip(n: u64)
    ensures
        parse_decimal(decimal(n as nat)) == Some(n),
{
    lemma_decimal_digits(n as nat);
    let d = decimal(n as nat);
    assert(is_digit(d[0]));
    assert(unsigned_body(d) == d);
}

/// A decimal numeral is made of digits.
pub proof fn lemma_decimal_all_digits(n: nat)
    ensures
        all_digits(decimal(n)),
{
    lemma_decimal_digits(n);
}

/// Different numbers have different decimal numerals.
pub proof fn lemma_decimal_injective(a: nat, b: nat)
    requires
        decimal(a) == decimal(b),
    ensures
        a == b,
{
    lemma_decimal_digits(a);
    lemma_decimal_digits(b);
}

/// Appends the decimal numeral of `n` to `out`.
pub fn push_decimal(n: u64, out: &mut Vec<u8>)
    ensures
        final(out)@ == old(out)@ + decimal(n as nat),
    decreases n,
{
    if n < 10 {
        out.push(48u8 + (n as u8));
        assert(final(out)@ =~= old(out)@ + decimal(n as nat));
    } else {
        push_decimal(n / 10, out);
        out.push(48u8 + ((n % 10) as u8));
        assert(decimal(n as nat) == decimal((n / 10) as nat).push(digit_byte((n % 10) as nat)));
        assert(final(out)@ =~= old(out)@ + decimal(n as nat));
    }
}

/// The decimal numeral of `n`, as `to_string` writes it.
pub fn decimal_bytes(n: u64) -> (r: Vec<u8>)
    ensures
        r@ == decimal(n as nat),
{
    let mut r: Vec<u8> = Vec::new();
    push_decimal(n, &mut r);
    assert(r@ =~= decimal(n as nat));
    r
}

proof fn lemma_digits_value_prefix_monotone(s: Seq<u8>, k: int)
    requires
        all_digits(s),
        0 <= k <= s.len(),
    ensures
        digits_value(s.subrange(0, k)) <= digits_value(s),
    decreases s.len() - k,
{
    if k < s.len() {
        lemma_digits_value_prefix_monotone(s, k + 1);
        let p = s.subrange(0, k + 1);
        assert(p.drop_last() =~= s.subrange(0, k));
        assert(is_digit(s[k]));
    } else {
        assert(s.subrange(0, k) =~= s);
    }
}

/// Reads an unsigned 64-bit integer from text, as `str::parse::<u64>` does:
/// `None` unless the bytes are an optional `+` followed by at least one digit
/// and the value fits in 64 bits.
pub fn parse_u64(s: &[u8]) -> (r: Option<u64>)
    ensures
        r == parse_decimal(s@),
{
    let len = s.len();
    let mut start: usize = 0;
    if len > 0 && s[0] == 43u8 {
        start = 1;
    }
    let ghost body = unsigned_body(s@);
    assert(body =~= s@.subrange(start as int, len as int));
    if start >= len {
        return None;
    }
    let mut acc: u64 = 0;
    let mut i: usize = start;
    while i < len
        invariant
            start <= i <= len,
            len == s@.len(),
            body == s@.subrange(start as int, len as int),
            body == unsigned_body(s@),
            forall|j: int| 0 <= j < i - start ==> is_digit(#[trigger] body[j]),
            acc as nat == digits_value(body.subrange(0, i - start)),
        decreases len - i,
    {
        let b = s[i];
        if b < 48u8 || b > 57u8 {
            assert(!is_digit(body[i - start]));
            return None;
        }
        let ghost pre = body.subrange(0, i - start);
        let ghost next = body.subrange(0, i - start + 1);
        assert(next.drop_last() =~= pre);
        assert(next.last() == b);
        let m = acc.checked_mul(10);
        match m {
            None => {
                proof {
                    assert forall|j: int| 0 <= j < next.len() implies is_digit(#[trigger] next[j]) by {
                        assert(next[j] == body[j]);
                    }
                    if all_digits(body) {
                        lemma_digits_value_prefix_monotone(body, i - start + 1);
                        assert(body.subrange(0, i - start + 1) == next);
                    }
                }
                return None;
            },
            Some(m) => {
                let a = m.checked_add((b - 48u8) as u64);
                match a {
                    None => {
                        proof {
                            if all_digits(body) {
                                lemma_digits_value_prefix_monotone(body, i - start + 1);
                                assert(body.subrange(0, i - start + 1) == next);
                            }
                        }
                        return None;
                    },
                    Some(a) => {
                        acc = a;
                    },
                }
            },
        }
        i = i + 1;
    }
    assert(body.subrange(0, len - start) =~= body);
    Some(acc)
}

/// The base-128 varint of `n`: seven bits per byte, least significant group
/// first, the high bit set on every byte but the last.
pub open spec fn varint(n: nat) -> Seq<u8>
    decreases n,
{
    if n < 128 {
        seq![n as u8]
    } else {
        seq![(n % 128 + 128) as u8] + varint(n / 128)
    }
}

/// Reads a varint of at most `budget` bytes from the front of `s`: the value
/// and the number of bytes it takes.
pub open spec fn varint_read(s: Seq<u8>, budget: nat) -> Option<(nat, nat)>
    decreases budget,
{
    if budget == 0 || s.len() == 0 {
        None
    } else if s[0] < 128 {
        Some((s[0] as nat, 1))
    } else {
        match varint_read(s.drop_first(), (budget - 1) as nat) {
            Some((v, k)) => Some(((s[0] - 128) as nat + 128 * v, k + 1)),
            None => None,
        }
    }
}

/// The longest varint that the wire format accepts.
pub open spec fn max_varint_len() -> nat {
    10
}

/// Reads a varint that denotes a 64-bit value from the front of `s`.
pub open spec fn read_varint64(s: Seq<u8>) -> Option<(u64, nat)> {
    match varint_read(s, max_varint_len()) {
        Some((v, k)) => if v <= u64::MAX {
            Some((v as u64, k))
        } else {
            None
        },
        None => None,
    }
}

proof fn lemma_varint_len(n: nat, k: nat)
    requires
        k >= 1,
        n < pow128(k),
    ensures
        varint(n).len() <= k,
    decreases k,
{
    reveal_with_fuel(pow128, 2);
    if n >= 128 {
        assert(k >= 2);
        assert(n / 128 < pow128((k - 1) as nat));
        lemma_varint_len(n / 128, (k - 1) as nat);
    }
}

/// Powers of 128.
pub open spec fn pow128(k: nat) -> nat
    decreases k,
{
    if k == 0 {
        1
    } else {
        128 * pow128((k - 1) as nat)
    }
}

/// A varint read from the front of a byte string gives back the value it
/// was written from, however the string continues, within the given budget.
pub proof fn lemma_varint_read_prefix(n: nat, rest: Seq<u8>, budget: nat)
    requires
        varint(n).len() <= budget,
    ensures
        varint_read(varint(n) + rest, budget) == Some((n, varint(n).len())),
    decreases n,
{
    let s = varint(n) + rest;
    if n < 128 {
        assert(s[0] == n as u8);
    } else {
        let tail = varint(n / 128);
        assert(s.drop_first() =~= tail + rest);
        assert(s[0] == (n % 128 + 128) as u8);
        lemma_varint_read_prefix(n / 128, rest, (budget - 1) as nat);
    }
}

/// Every 64-bit value has a varint of at most ten bytes.
pub proof fn lemma_varint64_len(n: u64)
    ensures
        1 <= varint(n as nat).len() <= max_varint_len(),
{
    assert(pow128(10) == 1180591620717411303424nat) by {
        reveal_with_fuel(pow128, 11);
    }
    lemma_varint_len(n as nat, 10);
    reveal_with_fuel(varint, 2);
}

/// A 64-bit value written as a varint reads back the same, whatever follows.
pub proof fn lemma_read_varint64_roundtrip(n: u64, rest: Seq<u8>)
    ensures
        read_varint64(varint(n as nat) + rest) == Some((n, varint(n as nat).len())),
{
    lemma_varint64_len(n);
    lemma_varint_read_prefix(n as nat, rest, max_varint_len());
}

/// Appends the varint of `n` to `out`.
pub fn push_varint(n: u64, out: &mut Vec<u8>)
    ensures
        final(out)@ == old(out)@ + varint(n as nat),
    decreases n,
{
    if n < 128 {
        out.push(n as u8);
        assert(final(out)@ =~= old(out)@ + varint(n as nat));
    } else {
        out.push(((n % 128) + 128) as u8);
        push_varint(n / 128, out);
        assert(final(out)@ =~= old(out)@ + varint(n as nat));
    }
}

fn read_varint_from(s: &[u8], pos: usize, budget: usize) -> (r: Option<(u64, usize)>)
    requires
        pos <= s@.len(),
        budget <= max_varint_len(),
    ensures
        match varint_read(s@.subrange(pos as int, s@.len() as int), budget as nat) {
            Some((v, k)) => if v <= u64::MAX {
                r == Some((v as u64, k as usize))
            } else {
                r is None
            },
            None => r is None,
        },
    decreases budget,
{
    let ghost t = s@.subrange(pos as int, s@.len() as int);
    if budget == 0 || pos >= s.len() {
        return None;
    }
    let b = s[pos];
    assert(t[0] == b);
    if b < 128 {
        return Some((b as u64, 1));
    }
    assert(t.drop_first() =~= s@.subrange(pos + 1, s@.len() as int));
    let inner = read_varint_from(s, pos + 1, budget - 1);
    proof {
        match varint_read(t.drop_first(), (budget - 1) as nat) {
            Some((v, k)) => {
                assert(k <= budget - 1) by {
                    lemma_varint_read_len(t.drop_first(), (budget - 1) as nat);
                }
            },
            None => {},
        }
    }
    match inner {
        None => {
            None
        },
        Some((v, k)) => {
            let low = (b - 128) as u64;
            if v > (u64::MAX - low) / 128 {
                None
            } else {
                Some((low + 128 * v, k + 1))
            }
        },
    }
}

proof fn lemma_varint_read_len(s: Seq<u8>, budget: nat)
    ensures
        match varint_read(s, budget) {
            Some((v, k)) => 1 <= k <= budget && k <= s.len(),
            None => true,
        },
    decreases budget,
{
    if budget > 0 && s.len() > 0 && s[0] >= 128 {
        lemma_varint_read_len(s.drop_first(), (budget - 1) as nat);
    }
}

/// Reads a varint that denotes a 64-bit value at `pos`: the value and the
/// number of bytes it takes, or `None` where the bytes there are no such varint.
pub fn read_varint(s: &[u8], pos: usize) -> (r: Option<(u64, usize)>)
    requires
        pos <= s@.len(),
    ensures
        match read_varint64(s@.subrange(pos as int, s@.len() as int)) {
            Some((v, k)) => r == Some((v, k as usize)) && pos + k <= s@.len(),
            None => r is None,
        },
        r matches Some((v, k)) ==> 1 <= k <= 10 && pos + k <= s@.len(),
{
    proof {
        lemma_varint_read_len(s@.subrange(pos as int, s@.len() as int), max_varint_len());
    }
    read_varint_from(s, pos, 10)
}

} // verus!
