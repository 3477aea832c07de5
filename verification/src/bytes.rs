//! Big-endian encoding and decoding of the fixed-width integers that make
//! up a record header: the 32-bit checksum, the 64-bit field lengths and
//! the 128-bit timestamp.
use vstd::prelude::*;

verus! {

/// The four big-endian bytes of a 32-bit value.
pub open spec fn u32_be_bytes(x: u32) -> Seq<u8> {
    seq![
        ((x >> 24) & 0xff) as u8,
        ((x >> 16) & 0xff) as u8,
        ((x >> 8) & 0xff) as u8,
        (x & 0xff) as u8,
    ]
}

/// The eight big-endian bytes of a 64-bit value.
pub open spec fn u64_be_bytes(x: u64) -> Seq<u8> {
    seq![
        ((x >> 56) & 0xff) as u8,
        ((x >> 48) & 0xff) as u8,
        ((x >> 40) & 0xff) as u8,
        ((x >> 32) & 0xff) as u8,
        ((x >> 24) & 0xff) as u8,
        ((x >> 16) & 0xff) as u8,
        ((x >> 8) & 0xff) as u8,
        (x & 0xff) as u8,
    ]
}

/// The sixteen big-endian bytes of a 128-bit value.
pub open spec fn u128_be_bytes(x: u128) -> Seq<u8> {
    seq![
        ((x >> 120) & 0xff) as u8,
        ((x >> 112) & 0xff) as u8,
        ((x >> 104) & 0xff) as u8,
        ((x >> 96) & 0xff) as u8,
        ((x >> 88) & 0xff) as u8,
        ((x >> 80) & 0xff) as u8,
        ((x >> 72) & 0xff) as u8,
        ((x >> 64) & 0xff) as u8,
        ((x >> 56) & 0xff) as u8,
        ((x >> 48) & 0xff) as u8,
        ((x >> 40) & 0xff) as u8,
        ((x >> 32) & 0xff) as u8,
        ((x >> 24) & 0xff) as u8,
        ((x >> 16) & 0xff) as u8,
        ((x >> 8) & 0xff) as u8,
        (x & 0xff) as u8,
    ]
}

/// The 32-bit value read from four big-endian bytes.
pub open spec fn u32_from_be(s: Seq<u8>) -> u32
    recommends
        s.len() == 4,
{
    ((s[0] as u32) << 24) | ((s[1] as u32) << 16) | ((s[2] as u32) << 8) | (s[3] as u32)
}

/// The 64-bit value read from eight big-endian bytes.
pub open spec fn u64_from_be(s: Seq<u8>) -> u64
    recommends
        s.len() == 8,
{
    ((s[0] as u64) << 56) | ((s[1] as u64) << 48) | ((s[2] as u64) << 40) | ((s[3] as u64) << 32)
        | ((s[4] as u64) << 24) | ((s[5] as u64) << 16) | ((s[6] as u64) << 8) | (s[7] as u64)
}

/// The 128-bit value read from sixteen big-endian bytes.
pub open spec fn u128_from_be(s: Seq<u8>) -> u128
    recommends
        s.len() == 16,
{
    ((s[0] as u128) << 120) | ((s[1] as u128) << 112) | ((s[2] as u128) << 104)
        | ((s[3] as u128) << 96) | ((s[4] as u128) << 88) | ((s[5] as u128) << 80)
        | ((s[6] as u128) << 72) | ((s[7] as u128) << 64) | ((s[8] as u128) << 56)
        | ((s[9] as u128) << 48) | ((s[10] as u128) << 40) | ((s[11] as u128) << 32)
        | ((s[12] as u128) << 24) | ((s[13] as u128) << 16) | ((s[14] as u128) << 8)
        | (s[15] as u128)
}

/// Decoding the four bytes that encode a 32-bit value gives the value back.
pub proof fn lemma_u32_be_round_trip(x: u32)
    ensures
        u32_from_be(u32_be_bytes(x)) == x,
{
    assert(((((x >> 24) & 0xff) as u8 as u32) << 24) | ((((x >> 16) & 0xff) as u8 as u32) << 16)
        | ((((x >> 8) & 0xff) as u8 as u32) << 8) | ((x & 0xff) as u8 as u32) == x)
        by (bit_vector);
}

/// Decoding the eight bytes that encode a 64-bit value gives the value back.
pub proof fn lemma_u64_be_round_trip(x: u64)
    ensures
        u64_from_be(u64_be_bytes(x)) == x,
{
    assert(((((x >> 56) & 0xff) as u8 as u64) << 56) | ((((x >> 48) & 0xff) as u8 as u64) << 48)
        | ((((x >> 40) & 0xff) as u8 as u64) << 40) | ((((x >> 32) & 0xff) as u8 as u64) << 32)
        | ((((x >> 24) & 0xff) as u8 as u64) << 24) | ((((x >> 16) & 0xff) as u8 as u64) << 16)
        | ((((x >> 8) & 0xff) as u8 as u64) << 8) | ((x & 0xff) as u8 as u64) == x)
        by (bit_vector);
}

/// Decoding the sixteen bytes that encode a 128-bit value gives the value back.
pub proof fn lemma_u128_be_round_trip(x: u128)
    ensures
        u128_from_be(u128_be_bytes(x)) == x,
{
    assert(((((x >> 120) & 0xff) as u8 as u128) << 120)
        | ((((x >> 112) & 0xff) as u8 as u128) << 112)
        | ((((x >> 104) & 0xff) as u8 as u128) << 104) | ((((x >> 96) & 0xff) as u8 as u128) << 96)
        | ((((x >> 88) & 0xff) as u8 as u128) << 88) | ((((x >> 80) & 0xff) as u8 as u128) << 80)
        | ((((x >> 72) & 0xff) as u8 as u128) << 72) | ((((x >> 64) & 0xff) as u8 as u128) << 64)
        | ((((x >> 56) & 0xff) as u8 as u128) << 56) | ((((x >> 48) & 0xff) as u8 as u128) << 48)
        | ((((x >> 40) & 0xff) as u8 as u128) << 40) | ((((x >> 32) & 0xff) as u8 as u128) << 32)
        | ((((x >> 24) & 0xff) as u8 as u128) << 24) | ((((x >> 16) & 0xff) as u8 as u128) << 16)
        | ((((x >> 8) & 0xff) as u8 as u128) << 8) | ((x & 0xff) as u8 as u128) == x)
        by (bit_vector);
}

/// Appends the four big-endian bytes of `x`.
pub fn push_u32_be(v: &mut Vec<u8>, x: u32)
    ensures
        final(v)@ == old(v)@ + u32_be_bytes(x),
{
    proof {
        assert(((x >> 24) & 0xff) < 256 && ((x >> 16) & 0xff) < 256 && ((x >> 8) & 0xff) < 256
            && (x & 0xff) < 256) by (bit_vector);
    }
    v.push(((x >> 24) & 0xff) as u8);
    v.push(((x >> 16) & 0xff) as u8);
    v.push(((x >> 8) & 0xff) as u8);
    v.push((x & 0xff) as u8);
    proof {
        assert(v@ =~= old(v)@ + u32_be_bytes(x));
    }
}

/// Appends the eight big-endian bytes of `x`.
pub fn push_u64_be(v: &mut Vec<u8>, x: u64)
    ensures
        final(v)@ == old(v)@ + u64_be_bytes(x),
{
    proof {
        assert(((x >> 56) & 0xff) < 256 && ((x >> 48) & 0xff) < 256 && ((x >> 40) & 0xff) < 256
            && ((x >> 32) & 0xff) < 256 && ((x >> 24) & 0xff) < 256 && ((x >> 16) & 0xff) < 256
            && ((x >> 8) & 0xff) < 256 && (x & 0xff) < 256) by (bit_vector);
    }
    v.push(((x >> 56) & 0xff) as u8);
    v.push(((x >> 48) & 0xff) as u8);
    v.push(((x >> 40) & 0xff) as u8);
    v.push(((x >> 32) & 0xff) as u8);
    v.push(((x >> 24) & 0xff) as u8);
    v.push(((x >> 16) & 0xff) as u8);
    v.push(((x >> 8) & 0xff) as u8);
    v.push((x & 0xff) as u8);
    proof {
        assert(v@ =~= old(v)@ + u64_be_bytes(x));
    }
}

/// Appends the sixteen big-endian bytes of `x`.
pub fn push_u128_be(v: &mut Vec<u8>, x: u128)
    ensures
        final(v)@ == old(v)@ + u128_be_bytes(x),
{
    proof {
        assert(((x >> 120) & 0xff) < 256 && ((x >> 112) & 0xff) < 256 && ((x >> 104) & 0xff) < 256
            && ((x >> 96) & 0xff) < 256 && ((x >> 88) & 0xff) < 256 && ((x >> 80) & 0xff) < 256
            && ((x >> 72) & 0xff) < 256 && ((x >> 64) & 0xff) < 256 && ((x >> 56) & 0xff) < 256
            && ((x >> 48) & 0xff) < 256 && ((x >> 40) & 0xff) < 256 && ((x >> 32) & 0xff) < 256
            && ((x >> 24) & 0xff) < 256 && ((x >> 16) & 0xff) < 256 && ((x >> 8) & 0xff) < 256
            && (x & 0xff) < 256) by (bit_vector);
    }
    v.push(((x >> 120) & 0xff) as u8);
    v.push(((x >> 112) & 0xff) as u8);
    v.push(((x >> 104) & 0xff) as u8);
    v.push(((x >> 96) & 0xff) as u8);
    v.push(((x >> 88) & 0xff) as u8);
    v.push(((x >> 80) & 0xff) as u8);
    v.push(((x >> 72) & 0xff) as u8);
    v.push(((x >> 64) & 0xff) as u8);
    v.push(((x >> 56) & 0xff) as u8);
    v.push(((x >> 48) & 0xff) as u8);
    v.push(((x >> 40) & 0xff) as u8);
    v.push(((x >> 32) & 0xff) as u8);
    v.push(((x >> 24) & 0xff) as u8);
    v.push(((x >> 16) & 0xff) as u8);
    v.push(((x >> 8) & 0xff) as u8);
    v.push((x & 0xff) as u8);
    proof {
        assert(v@ =~= old(v)@ + u128_be_bytes(x));
    }
}

/// Appends a copy of the bytes of `b`.
pub fn push_bytes(v: &mut Vec<u8>, b: &[u8])
    ensures
        final(v)@ == old(v)@ + b@,
{
    let mut i: usize = 0;
    while i < b.len()
        invariant
            i <= b@.len(),
            v@ == old(v)@ + b@.subrange(0, i as int),
        decreases b@.len() - i,
    {
        v.push(b[i]);
        i = i + 1;
        proof {
            assert(v@ =~= old(v)@ + b@.subrange(0, i as int));
        }
    }
    proof {
        assert(v@ =~= old(v)@ + b@);
    }
}

/// Reads a big-endian 32-bit value at byte offset `i`.
pub fn u32_be_at(b: &[u8], i: usize) -> (r: u32)
    requires
        i + 4 <= b@.len(),
    ensures
        r == u32_from_be(b@.subrange(i as int, i as int + 4)),
{
    let r = ((b[i] as u32) << 24) | ((b[i + 1] as u32) << 16) | ((b[i + 2] as u32) << 8) | (b[i
        + 3] as u32);
    proof {
        let s = b@.subrange(i as int, i as int + 4);
        assert(s[0] == b@[i as int] && s[1] == b@[i as int + 1] && s[2] == b@[i as int + 2] && s[3]
            == b@[i as int + 3]);
    }
    r
}

/// Reads a big-endian 64-bit value at byte offset `i`.
pub fn u64_be_at(b: &[u8], i: usize) -> (r: u64)
    requires
        i + 8 <= b@.len(),
    ensures
        r == u64_from_be(b@.subrange(i as int, i as int + 8)),
{
    let r = ((b[i] as u64) << 56) | ((b[i + 1] as u64) << 48) | ((b[i + 2] as u64) << 40) | ((b[i
        + 3] as u64) << 32) | ((b[i + 4] as u64) << 24) | ((b[i + 5] as u64) << 16) | ((b[i
        + 6] as u64) << 8) | (b[i + 7] as u64);
    proof {
        let s = b@.subrange(i as int, i as int + 8);
        assert(s[0] == b@[i as int] && s[1] == b@[i as int + 1] && s[2] == b@[i as int + 2] && s[3]
            == b@[i as int + 3] && s[4] == b@[i as int + 4] && s[5] == b@[i as int + 5] && s[6]
            == b@[i as int + 6] && s[7] == b@[i as int + 7]);
    }
    r
}

/// Reads a big-endian 128-bit value at byte offset `i`.
pub fn u128_be_at(b: &[u8], i: usize) -> (r: u128)
    requires
        i + 16 <= b@.len(),
    ensures
        r == u128_from_be(b@.subrange(i as int, i as int + 16)),
{
    let r = ((b[i] as u128) << 120) | ((b[i + 1] as u128) << 112) | ((b[i + 2] as u128) << 104)
        | ((b[i + 3] as u128) << 96) | ((b[i + 4] as u128) << 88) | ((b[i + 5] as u128) << 80)
        | ((b[i + 6] as u128) << 72) | ((b[i + 7] as u128) << 64) | ((b[i + 8] as u128) << 56)
        | ((b[i + 9] as u128) << 48) | ((b[i + 10] as u128) << 40) | ((b[i + 11] as u128) << 32)
        | ((b[i + 12] as u128) << 24) | ((b[i + 13] as u128) << 16) | ((b[i + 14] as u128) << 8)
        | (b[i + 15] as u128);
    proof {
        let s = b@.subrange(i as int, i as int + 16);
        assert(s[0] == b@[i as int] && s[1] == b@[i as int + 1] && s[2] == b@[i as int + 2] && s[3]
            == b@[i as int + 3] && s[4] == b@[i as int + 4] && s[5] == b@[i as int + 5] && s[6]
            == b@[i as int + 6] && s[7] == b@[i as int + 7] && s[8] == b@[i as int + 8] && s[9]
            == b@[i as int + 9] && s[10] == b@[i as int + 10] && s[11] == b@[i as int + 11] && s[12]
            == b@[i as int + 12] && s[13] == b@[i as int + 13] && s[14] == b@[i as int + 14]
            && s[15] == b@[i as int + 15]);
    }
    r
}

} // verus!
