use kv::codec::{decimal_bytes, parse_u64, push_varint, read_varint, push_decimal};

#[test]
fn decimal_of_zero_and_max() {
    assert_eq!(decimal_bytes(0), b"0".to_vec());
    assert_eq!(decimal_bytes(7), b"7".to_vec());
    assert_eq!(decimal_bytes(1234567890), b"1234567890".to_vec());
    assert_eq!(decimal_bytes(u64::MAX), b"18446744073709551615".to_vec());
}

#[test]
fn decimal_matches_to_string() {
    for n in [0u64, 9, 10, 99, 100, 65535, 4294967296, u64::MAX - 1] {
        assert_eq!(decimal_bytes(n), n.to_string().into_bytes());
    }
}

#[test]
fn push_decimal_appends() {
    let mut out = b"c_".to_vec();
    push_decimal(42, &mut out);
    assert_eq!(out, b"c_42".to_vec());
}

#[test]
fn parse_accepts_plus_and_rejects_overflow() {
    assert_eq!(parse_u64(b"42"), Some(42));
    assert_eq!(parse_u64(b"+42"), Some(42));
    assert_eq!(parse_u64(b"007"), Some(7));
    assert_eq!(parse_u64(b"18446744073709551615"), Some(u64::MAX));
    assert_eq!(parse_u64(b"18446744073709551616"), None);
    assert_eq!(parse_u64(b"99999999999999999999"), None);
    assert_eq!(parse_u64(b""), None);
    assert_eq!(parse_u64(b"+"), None);
    assert_eq!(parse_u64(b"-1"), None);
    assert_eq!(parse_u64(b"1 "), None);
    assert_eq!(parse_u64(b"++1"), None);
}

#[test]
fn parse_agrees_with_std() {
    for s in ["0", "+0", "12", "+18446744073709551615", "18446744073709551616", "", "+", "a1", " 1", "-0"] {
        assert_eq!(parse_u64(s.as_bytes()), s.parse::<u64>().ok(), "on {:?}", s);
    }
}

#[test]
fn decimal_roundtrip_values() {
    for n in [0u64, 1, 10, 12345, u64::MAX] {
        assert_eq!(parse_u64(&decimal_bytes(n)), Some(n));
    }
}

#[test]
fn varint_bytes() {
    let mut out = Vec::new();
    push_varint(0, &mut out);
    assert_eq!(out, vec![0x00]);
    let mut out = Vec::new();
    push_varint(1, &mut out);
    assert_eq!(out, vec![0x01]);
    let mut out = Vec::new();
    push_varint(300, &mut out);
    assert_eq!(out, vec![0xAC, 0x02]);
    let mut out = Vec::new();
    push_varint(u64::MAX, &mut out);
    assert_eq!(out, vec![0xFF, 0xFF, 0xFF, 0xFF, 0xFF, 0xFF, 0xFF, 0xFF, 0xFF, 0x01]);
}

#[test]
fn varint_read_back() {
    for n in [0u64, 1, 127, 128, 300, 16384, u32::MAX as u64, u64::MAX] {
        let mut out = vec![0xAAu8];
        push_varint(n, &mut out);
        let len = out.len() - 1;
        out.push(0x05);
        assert_eq!(read_varint(&out, 1), Some((n, len)));
    }
}

#[test]
fn varint_read_rejects() {
    assert_eq!(read_varint(&[], 0), None);
    assert_eq!(read_varint(&[0x80], 0), None);
    assert_eq!(read_varint(&[0x80, 0x80], 0), None);
    // eleven bytes
    assert_eq!(read_varint(&[0x80, 0x80, 0x80, 0x80, 0x80, 0x80, 0x80, 0x80, 0x80, 0x80, 0x00], 0), None);
    // ten bytes whose value exceeds 64 bits
    assert_eq!(read_varint(&[0xFF, 0xFF, 0xFF, 0xFF, 0xFF, 0xFF, 0xFF, 0xFF, 0xFF, 0x02], 0), None);
    // a non-canonical varint of zero
    assert_eq!(read_varint(&[0x80, 0x00], 0), Some((0, 2)));
    assert_eq!(read_varint(&[0x01, 0x02], 2), None);
}
