//! Tests of the checksum module: incremental extension, masking, and
//! known CRC-32 values.
use kvlog::crc32::{extend, hash, hash_parts, mask, unmask};

#[test]
fn known_crc32_value() {
    // the standard CRC-32 check value
    assert_eq!(hash(b"123456789"), 0xCBF43926);
    assert_eq!(hash(b""), 0);
}

#[test]
fn extend_equals_hash_of_concatenation() {
    assert_eq!(extend(hash(b"1234"), b"56789"), 0xCBF43926);
    assert_eq!(extend(hash(b"hello"), b" world"), hash(b"hello world"));
    assert_eq!(extend(hash(b""), b"abc"), hash(b"abc"));
    assert_eq!(extend(hash(b"abc"), b""), hash(b"abc"));
}

#[test]
fn chained_extends_equal_one_hash() {
    let cases: [(&[u8], &[u8], &[u8]); 4] = [
        (b"", b"", b""),
        (b"a", b"b", b"c"),
        (b"123", b"45", b"6789"),
        (b"\x00\xff", b"", b"\x7f"),
    ];
    for (a, b, c) in cases {
        let mut joined = Vec::new();
        joined.extend_from_slice(a);
        joined.extend_from_slice(b);
        joined.extend_from_slice(c);
        assert_eq!(extend(extend(hash(a), b), c), hash(&joined));
        assert_eq!(hash_parts(a, b, c), hash(&joined));
    }
}

#[test]
fn unmask_inverts_mask() {
    for x in [
        0u32,
        1,
        0x7fff,
        0x8000,
        0xCBF43926,
        0xa282ead8,
        0xdeadbeef,
        u32::MAX,
    ] {
        assert_eq!(unmask(mask(x)), x);
    }
}

#[test]
fn mask_moves_the_value() {
    // rotating zero leaves zero, so masking zero shows the bare constant
    assert_eq!(mask(0), 0xa282ead8);
    assert_eq!(unmask(0xa282ead8), 0);
    // a masked checksum is not the checksum itself
    let crc = hash(b"123456789");
    assert_ne!(mask(crc), crc);
}
