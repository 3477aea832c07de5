//! The record codec and the data file.
//!
//! A record ("Entry") is laid out as
//! `checksum(4) | timestamp(16) | key_length(8) | value_length(8) | key | value`,
//! all integers big-endian. The checksum covers everything after the
//! checksum field itself, on the encode path and on the decode path alike.
//! A data file binds the positioned handle to a read-only flag and exposes
//! append-a-record and read-a-record-at-offset.
use crate::bytes::{
    lemma_u128_be_round_trip, lemma_u32_be_round_trip, lemma_u64_be_round_trip, push_bytes,
    push_u128_be, push_u32_be, push_u64_be, u128_be_at, u128_be_bytes, u128_from_be, u32_be_at,
    u32_be_bytes, u32_from_be, u64_be_at, u64_be_bytes, u64_from_be,
};
use crate::crc32::{crc32_of, extend, hash};
use crate::error::Error;
use crate::filehandle::{read_bytes, FileHandle};
use vstd::prelude::*;
use vstd::slice::slice_subrange;

verus! {

/// The checksummed region of a record: timestamp, key length, value
/// length, key and value, in that order.
pub open spec fn entry_tail(timestamp: u128, key: Seq<u8>, value: Seq<u8>) -> Seq<u8>
    recommends
        key.len() <= u64::MAX,
        value.len() <= u64::MAX,
{
    u128_be_bytes(timestamp) + u64_be_bytes(key.len() as u64) + u64_be_bytes(value.len() as u64)
        + key + value
}

/// The checksum stored with a record for the given fields.
pub open spec fn entry_crc(timestamp: u128, key: Seq<u8>, value: Seq<u8>) -> u32 {
    crc32_of(entry_tail(timestamp, key, value))
}

/// The serialized bytes of a record for the given fields.
pub open spec fn spec_serialize(timestamp: u128, key: Seq<u8>, value: Seq<u8>) -> Seq<u8> {
    u32_be_bytes(entry_crc(timestamp, key, value)) + entry_tail(timestamp, key, value)
}

/// The mathematical content of a record.
#[verifier::ext_equal]
pub struct EntryView {
    pub crc: u32,
    pub timestamp: u128,
    pub key: Seq<u8>,
    pub value: Seq<u8>,
}

impl EntryView {
    /// The stored checksum matches the one recomputed from the fields.
    pub open spec fn wf(self) -> bool {
        &&& self.key.len() <= u64::MAX
        &&& self.value.len() <= u64::MAX
        &&& self.crc == entry_crc(self.timestamp, self.key, self.value)
    }
}

/// The durable unit of storage: a checksummed, timestamped key/value pair.
#[derive(Debug)]
pub struct Entry {
    pub crc: u32,
    pub timestamp: u128,
    pub key: Vec<u8>,
    pub value: Vec<u8>,
}

impl View for Entry {
    type V = EntryView;

    open spec fn view(&self) -> EntryView {
        EntryView {
            crc: self.crc,
            timestamp: self.timestamp,
            key: self.key@,
            value: self.value@,
        }
    }
}

/// What decoding a byte sequence yields: the validated record, or the
/// exact error. The stored checksum is compared against the checksum of
/// everything after the checksum field; only then are the declared key and
/// value lengths honoured, and bytes past the declared lengths are
/// ignored.
pub open spec fn spec_deserialize(bytes: Seq<u8>) -> Result<EntryView, Error> {
    if bytes.len() < 4 {
        Err(Error::Truncated { needed: 4, available: bytes.len() as u64 })
    } else if u32_from_be(bytes.subrange(0, 4)) != crc32_of(bytes.skip(4)) {
        Err(
            Error::ChecksumMismatch {
                expected: crc32_of(bytes.skip(4)),
                found: u32_from_be(bytes.subrange(0, 4)),
            },
        )
    } else if bytes.len() < 36 {
        Err(Error::Truncated { needed: 36, available: bytes.len() as u64 })
    } else {
        let key_len = u64_from_be(bytes.subrange(20, 28));
        let value_len = u64_from_be(bytes.subrange(28, 36));
        if 36 + key_len + value_len > bytes.len() {
            Err(
                Error::Truncated {
                    needed: (36 + key_len + value_len) as u128,
                    available: bytes.len() as u64,
                },
            )
        } else {
            Ok(
                EntryView {
                    crc: u32_from_be(bytes.subrange(0, 4)),
                    timestamp: u128_from_be(bytes.subrange(4, 20)),
                    key: bytes.subrange(36, 36 + key_len as int),
                    value: bytes.subrange(36 + key_len as int, 36 + key_len + value_len),
                },
            )
        }
    }
}

impl Entry {
    /// Builds a record for `key`/`value` at `timestamp`, computing the
    /// checksum incrementally: first over the timestamp bytes, then
    /// extended with the length fields, the key and the value — the same
    /// checksum one pass over the concatenation would give.
    pub fn new(key: &[u8], value: &[u8], timestamp: u128) -> (r: Entry)
        ensures
            r@.crc == entry_crc(timestamp, key@, value@),
            r@.timestamp == timestamp,
            r@.key == key@,
            r@.value == value@,
            r@.wf(),
    {
        let mut ts_bytes: Vec<u8> = Vec::new();
        push_u128_be(&mut ts_bytes, timestamp);
        let mut kl_bytes: Vec<u8> = Vec::new();
        push_u64_be(&mut kl_bytes, key.len() as u64);
        let mut vl_bytes: Vec<u8> = Vec::new();
        push_u64_be(&mut vl_bytes, value.len() as u64);
        let c0 = hash(ts_bytes.as_slice());
        let c1 = extend(c0, kl_bytes.as_slice());
        let c2 = extend(c1, vl_bytes.as_slice());
        let c3 = extend(c2, key);
        let c4 = extend(c3, value);
        proof {
            assert(ts_bytes@ =~= u128_be_bytes(timestamp));
            assert(kl_bytes@ =~= u64_be_bytes(key@.len() as u64));
            assert(vl_bytes@ =~= u64_be_bytes(value@.len() as u64));
            assert(c1 == crc32_of(ts_bytes@ + kl_bytes@));
            assert(c2 == crc32_of(ts_bytes@ + kl_bytes@ + vl_bytes@));
            assert(c3 == crc32_of(ts_bytes@ + kl_bytes@ + vl_bytes@ + key@));
            assert(c4 == crc32_of(ts_bytes@ + kl_bytes@ + vl_bytes@ + key@ + value@));
            assert(ts_bytes@ + kl_bytes@ + vl_bytes@ + key@ + value@ =~= entry_tail(
                timestamp,
                key@,
                value@,
            ));
        }
        Entry {
            crc: c4,
            timestamp,
            key: vstd::slice::slice_to_vec(key),
            value: vstd::slice::slice_to_vec(value),
        }
    }

    /// Serializes the record: checksum, timestamp, key length, value
    /// length, key, value, all integers big-endian.
    pub fn to_bytes(&self) -> (r: Vec<u8>)
        ensures
            r@ == u32_be_bytes(self@.crc) + entry_tail(self@.timestamp, self@.key, self@.value),
            r@.len() == 36 + self@.key.len() + self@.value.len(),
            self@.wf() ==> r@ == spec_serialize(self@.timestamp, self@.key, self@.value),
    {
        let mut out: Vec<u8> = Vec::new();
        push_u32_be(&mut out, self.crc);
        push_u128_be(&mut out, self.timestamp);
        push_u64_be(&mut out, self.key.len() as u64);
        push_u64_be(&mut out, self.value.len() as u64);
        push_bytes(&mut out, self.key.as_slice());
        push_bytes(&mut out, self.value.as_slice());
        proof {
            assert(out@ =~= u32_be_bytes(self@.crc) + entry_tail(
                self@.timestamp,
                self@.key,
                self@.value,
            ));
        }
        out
    }

    /// Decodes and validates a record: recomputes the checksum over
    /// everything after the checksum field and compares it to the stored
    /// one, then reads exactly the declared key and value lengths. Corrupt
    /// or truncated bytes are rejected with an explicit error, never
    /// partially trusted.
    pub fn from_bytes(bytes: &[u8]) -> (r: Result<Entry, Error>)
        ensures
            match spec_deserialize(bytes@) {
                Ok(ev) => r matches Ok(e) && e@ == ev,
                Err(er) => r matches Err(e) && e == er,
            },
    {
        if bytes.len() < 4 {
            return Err(Error::Truncated { needed: 4, available: bytes.len() as u64 });
        }
        let stored = u32_be_at(bytes, 0);
        let computed = hash(slice_subrange(bytes, 4, bytes.len()));
        proof {
            assert(bytes@.subrange(4, bytes@.len() as int) =~= bytes@.skip(4));
        }
        if stored != computed {
            return Err(Error::ChecksumMismatch { expected: computed, found: stored });
        }
        if bytes.len() < 36 {
            return Err(Error::Truncated { needed: 36, available: bytes.len() as u64 });
        }
        let timestamp = u128_be_at(bytes, 4);
        let key_len = u64_be_at(bytes, 20);
        let value_len = u64_be_at(bytes, 28);
        if (key_len as u128) + (value_len as u128) > (bytes.len() as u128) - 36 {
            return Err(
                Error::Truncated {
                    needed: 36 + (key_len as u128) + (value_len as u128),
                    available: bytes.len() as u64,
                },
            );
        }
        let kl: usize = key_len as usize;
        let vl: usize = value_len as usize;
        let mut key: Vec<u8> = Vec::new();
        push_bytes(&mut key, slice_subrange(bytes, 36, 36 + kl));
        let mut value: Vec<u8> = Vec::new();
        push_bytes(&mut value, slice_subrange(bytes, 36 + kl, 36 + kl + vl));
        let e = Entry { crc: stored, timestamp, key, value };
        proof {
            assert(e@ =~= spec_deserialize(bytes@)->Ok_0);
        }
        Ok(e)
    }
}

/// Round trip: decoding the serialization of any fields yields exactly
/// those fields, and the decoded record's checksum validates.
pub proof fn lemma_serialize_round_trip(timestamp: u128, key: Seq<u8>, value: Seq<u8>)
    requires
        key.len() <= u64::MAX,
        value.len() <= u64::MAX,
    ensures
        ({
            let ev = EntryView { crc: entry_crc(timestamp, key, value), timestamp, key, value };
            &&& spec_deserialize(spec_serialize(timestamp, key, value)) == Ok::<
                EntryView,
                Error,
            >(ev)
            &&& ev.wf()
        }),
{
    let bytes = spec_serialize(timestamp, key, value);
    let crc = entry_crc(timestamp, key, value);
    let tail = entry_tail(timestamp, key, value);
    assert(bytes.len() == 36 + key.len() + value.len());
    assert(bytes.subrange(0, 4) =~= u32_be_bytes(crc));
    lemma_u32_be_round_trip(crc);
    assert(bytes.skip(4) =~= tail);
    assert(bytes.subrange(4, 20) =~= u128_be_bytes(timestamp));
    lemma_u128_be_round_trip(timestamp);
    assert(bytes.subrange(20, 28) =~= u64_be_bytes(key.len() as u64));
    lemma_u64_be_round_trip(key.len() as u64);
    assert(bytes.subrange(28, 36) =~= u64_be_bytes(value.len() as u64));
    lemma_u64_be_round_trip(value.len() as u64);
    assert(bytes.subrange(36, 36 + key.len() as int) =~= key);
    assert(bytes.subrange(36 + key.len() as int, 36 + key.len() + value.len() as int) =~= value);
}

/// What reading `len` bytes at `offset` from a store holding `data` and
/// decoding them yields: a length-mismatch error where fewer bytes than
/// requested are available, else the decode of exactly those bytes.
pub open spec fn read_outcome(data: Seq<u8>, offset: int, len: int) -> Result<EntryView, Error> {
    let got = read_bytes(data, offset, len);
    if got.len() < len {
        Err(Error::LengthMismatch { requested: len as u64, available: got.len() as u64 })
    } else {
        spec_deserialize(got)
    }
}

/// Cursor independence: a read of a fully written prior region is
/// unaffected by bytes appended after it, so appends and reads at
/// unrelated prior offsets see the same outcomes in either order.
pub proof fn lemma_read_unaffected_by_append(
    data: Seq<u8>,
    appended: Seq<u8>,
    offset: int,
    len: int,
)
    requires
        0 <= offset,
        0 <= len,
        offset + len <= data.len(),
    ensures
        read_outcome(data + appended, offset, len) == read_outcome(data, offset, len),
{
    assert(read_bytes(data + appended, offset, len) =~= read_bytes(data, offset, len));
}

/// An append-only, optionally read-only record store over one positioned
/// file handle.
pub struct DataFile {
    pub fd: FileHandle,
    pub readonly: bool,
}

impl DataFile {
    /// The underlying handle appends at the end of the store.
    pub open spec fn wf(self) -> bool {
        self.fd.wf()
    }

    /// An empty data file; `readonly` freezes it against writes.
    pub fn new(readonly: bool) -> (r: DataFile)
        ensures
            r.wf(),
            r.fd.data@ == Seq::<u8>::empty(),
            r.fd.rhandle.pos == 0,
            r.fd.whandle.pos == 0,
            r.readonly == readonly,
    {
        DataFile { fd: FileHandle::new(), readonly }
    }

    /// Toggles write permission without reopening the store.
    pub fn set_read_only(&mut self, readonly: bool)
        ensures
            final(self).readonly == readonly,
            final(self).fd == old(self).fd,
    {
        self.readonly = readonly;
    }

    /// Appends one record for `key`/`value` at `timestamp` and returns the
    /// exact number of bytes appended; a read-only data file rejects the
    /// call before any byte is touched. The read cursor is untouched.
    pub fn write(&mut self, key: &[u8], value: &[u8], timestamp: u128) -> (r: Result<usize, Error>)
        requires
            old(self).wf(),
            old(self).fd.data@.len() + 36 + key@.len() + value@.len() <= usize::MAX,
        ensures
            final(self).wf(),
            final(self).readonly == old(self).readonly,
            old(self).readonly ==> r == Err::<usize, Error>(Error::ReadOnly) && *final(self)
                == *old(self),
            !old(self).readonly ==> {
                &&& r == Ok::<usize, Error>((36 + key@.len() + value@.len()) as usize)
                &&& final(self).fd.data@ == old(self).fd.data@ + spec_serialize(
                    timestamp,
                    key@,
                    value@,
                )
                &&& final(self).fd.rhandle == old(self).fd.rhandle
                &&& final(self).fd.whandle.pos == old(self).fd.whandle.pos + 36 + key@.len()
                    + value@.len()
            },
    {
        if self.readonly {
            return Err(Error::ReadOnly);
        }
        let entry = Entry::new(key, value, timestamp);
        let bytes = entry.to_bytes();
        let n: usize = self.fd.write(bytes.as_slice());
        Ok(n)
    }

    /// Reads exactly `len` bytes at `offset` through the read cursor and
    /// decodes a validated record from them; fails with a length mismatch
    /// where fewer bytes are available. The write cursor and the stored
    /// bytes are untouched.
    pub fn read(&mut self, offset: u64, len: usize) -> (r: Result<Entry, Error>)
        ensures
            final(self).fd.data == old(self).fd.data,
            final(self).fd.whandle == old(self).fd.whandle,
            final(self).readonly == old(self).readonly,
            final(self).fd.rhandle.pos == offset + read_bytes(
                old(self).fd.data@,
                offset as int,
                len as int,
            ).len(),
            match read_outcome(old(self).fd.data@, offset as int, len as int) {
                Ok(ev) => r matches Ok(e) && e@ == ev,
                Err(er) => r matches Err(e) && e == er,
            },
    {
        let buf = self.fd.read(offset, len);
        if buf.len() != len {
            return Err(
                Error::LengthMismatch { requested: len as u64, available: buf.len() as u64 },
            );
        }
        Entry::from_bytes(buf.as_slice())
    }
}

} // verus!
