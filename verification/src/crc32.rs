//! The 32-bit checksum used on every record: a CRC-32 over the record's
//! bytes, with incremental extension (the checksum of `A ‖ B` computed
//! from the checksum of `A` and the bytes of `B` alone) and a reversible
//! masking transform that hardens a stored checksum against spoofing.
use vstd::prelude::*;

verus! {

/// The CRC-32 of a byte sequence, as crc32fast computes it from its fixed
/// initial state.
pub uninterp spec fn crc32_of(data: Seq<u8>) -> u32;

/// Relies on crc32fast::Hasher::{new, update, finalize}: one pass over
/// `data` from the fixed initial state yields its CRC-32.
#[verifier::external_body]
pub fn hash(data: &[u8]) -> (r: u32)
    ensures
        r == crc32_of(data@),
{
    let mut h = crc32fast::Hasher::new();
    h.update(data);
    h.finalize()
}

/// Relies on crc32fast::Hasher::{new_with_initial, update, finalize}:
/// resuming from a finalized CRC-32 and hashing `data` yields the CRC-32 of
/// the bytes that produced `crc` followed by `data`; the result depends on
/// those bytes only through `crc`.
#[verifier::external_body]
pub fn extend(crc: u32, data: &[u8]) -> (r: u32)
    ensures
        forall|prefix: Seq<u8>| crc == crc32_of(prefix) ==> r == crc32_of(prefix + data@),
{
    let mut h = crc32fast::Hasher::new_with_initial(crc);
    h.update(data);
    h.finalize()
}

/// Incremental extension agrees with hashing a concatenation: chaining
/// `hash` and `extend` over three buffers computes the checksum of the
/// three joined, for all byte sequences.
pub fn hash_parts(a: &[u8], b: &[u8], c: &[u8]) -> (r: u32)
    ensures
        r == crc32_of(a@ + b@ + c@),
{
    let h0 = hash(a);
    let h1 = extend(h0, b);
    let h2 = extend(h1, c);
    proof {
        assert(h1 == crc32_of(a@ + b@));
        assert(h2 == crc32_of(a@ + b@ + c@));
    }
    h2
}

/// The constant added when masking a checksum.
pub const MASK_DELTA: u32 = 0xa282ead8;

/// The masked form of a checksum: rotate right by 15 bits, then add the
/// masking constant with wraparound.
pub open spec fn spec_mask(crc: u32) -> u32 {
    vstd::wrapping::u32_specs::wrapping_add((crc >> 15) | (crc << 17), MASK_DELTA)
}

/// The inverse transform: subtract the masking constant with wraparound,
/// then rotate left by 15 bits.
pub open spec fn spec_unmask(masked: u32) -> u32 {
    ((vstd::wrapping::u32_specs::wrapping_sub(masked, MASK_DELTA)) >> 17) | ((
    vstd::wrapping::u32_specs::wrapping_sub(masked, MASK_DELTA)) << 15)
}

/// Masks a checksum so that stored data that happens to contain a valid
/// checksum of different bytes is not misread as valid.
pub fn mask(crc: u32) -> (r: u32)
    ensures
        r == spec_mask(crc),
{
    ((crc >> 15) | (crc << 17)).wrapping_add(MASK_DELTA)
}

/// Recovers a checksum from its masked form.
pub fn unmask(masked: u32) -> (r: u32)
    ensures
        r == spec_unmask(masked),
{
    let rot = masked.wrapping_sub(MASK_DELTA);
    (rot >> 17) | (rot << 15)
}

/// Unmasking a masked checksum gives the checksum back, for every 32-bit
/// value, under the wraparound arithmetic of rotation and addition.
pub proof fn lemma_unmask_mask(crc: u32)
    ensures
        spec_unmask(spec_mask(crc)) == crc,
{
    assert(spec_unmask(spec_mask(crc)) == crc) by (bit_vector);
}

} // verus!
