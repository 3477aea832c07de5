//! Round-trip and corruption tests for the record codec.
use kvlog::datafile::Entry;
use kvlog::error::Error;

fn round_trip(key: &[u8], value: &[u8], timestamp: u128) {
    let entry = Entry::new(key, value, timestamp);
    let bytes = entry.to_bytes();
    assert_eq!(bytes.len(), 36 + key.len() + value.len());
    let back = Entry::from_bytes(&bytes).unwrap();
    assert_eq!(back.crc, entry.crc);
    assert_eq!(back.timestamp, timestamp);
    assert_eq!(back.key, key);
    assert_eq!(back.value, value);
}

#[test]
fn round_trip_simple() {
    round_trip(b"a", b"1", 1000);
    round_trip(b"key", b"value", 123456789);
    round_trip(b"k", b"", 1);
    round_trip(b"", b"v", 2);
}

#[test]
fn round_trip_empty_fields() {
    round_trip(b"", b"", 0);
}

#[test]
fn round_trip_large_fields() {
    let key = vec![0xabu8; 10000];
    let value = vec![0x5cu8; 10000];
    round_trip(&key, &value, u128::MAX);
}

#[test]
fn layout_is_big_endian_and_checksummed() {
    let entry = Entry::new(b"a", b"1", 1000);
    let bytes = entry.to_bytes();
    assert_eq!(bytes.len(), 38);
    assert_eq!(&bytes[4..20], &1000u128.to_be_bytes());
    assert_eq!(&bytes[20..28], &1u64.to_be_bytes());
    assert_eq!(&bytes[28..36], &1u64.to_be_bytes());
    assert_eq!(bytes[36], b'a');
    assert_eq!(bytes[37], b'1');
    // the stored checksum is the CRC-32 of everything after it
    let mut h = crc32fast::Hasher::new();
    h.update(&bytes[4..]);
    assert_eq!(&bytes[0..4], &h.finalize().to_be_bytes());
    assert_eq!(u32::from_be_bytes(bytes[0..4].try_into().unwrap()), entry.crc);
}

#[test]
fn every_single_bit_flip_is_caught() {
    let entry = Entry::new(b"a", b"1", 1000);
    let bytes = entry.to_bytes();
    for i in 0..bytes.len() {
        for bit in 0..8 {
            let mut corrupt = bytes.clone();
            corrupt[i] ^= 1u8 << bit;
            match Entry::from_bytes(&corrupt) {
                Err(Error::ChecksumMismatch { .. }) => {}
                other => panic!("flip at byte {} bit {} gave {:?}", i, bit, other),
            }
        }
    }
}

#[test]
fn short_input_is_truncated() {
    assert!(matches!(
        Entry::from_bytes(&[1, 2, 3]),
        Err(Error::Truncated { needed: 4, available: 3 })
    ));
    assert!(matches!(Entry::from_bytes(&[]), Err(Error::Truncated { .. })));
}

#[test]
fn valid_checksum_but_missing_header_is_truncated() {
    // four bytes holding the checksum of the empty tail: the checksum
    // validates, the fixed header does not fit
    let crc = kvlog::crc32::hash(b"");
    let bytes = crc.to_be_bytes();
    assert!(matches!(
        Entry::from_bytes(&bytes),
        Err(Error::Truncated { needed: 36, available: 4 })
    ));
}

#[test]
fn declared_length_past_input_is_truncated() {
    // a record that declares five key bytes but supplies two; its checksum
    // is made valid so that only the truncation can be blamed
    let mut tail = Vec::new();
    tail.extend_from_slice(&7u128.to_be_bytes());
    tail.extend_from_slice(&5u64.to_be_bytes());
    tail.extend_from_slice(&0u64.to_be_bytes());
    tail.extend_from_slice(b"ab");
    let crc = kvlog::crc32::hash(&tail);
    let mut bytes = Vec::new();
    bytes.extend_from_slice(&crc.to_be_bytes());
    bytes.extend_from_slice(&tail);
    assert!(matches!(
        Entry::from_bytes(&bytes),
        Err(Error::Truncated { needed: 41, available: 38 })
    ));
}

#[test]
fn corrupted_record_reports_both_checksums() {
    let entry = Entry::new(b"k", b"v", 42);
    let mut bytes = entry.to_bytes();
    bytes[36] ^= 0xff;
    match Entry::from_bytes(&bytes) {
        Err(Error::ChecksumMismatch { expected, found }) => {
            assert_eq!(found, entry.crc);
            assert_ne!(expected, found);
        }
        other => panic!("expected a checksum mismatch, got {:?}", other),
    }
}
