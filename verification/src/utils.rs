//! Clock access and segment-file naming. A segment file carries a numeric
//! identifier as its file extension (`data.<id>`); the identifier is
//! recovered by parsing the digits after the last dot of the name.
use crate::error::Error;
use vstd::prelude::*;
use vstd::string::StringSliceAdditionalSpecFns;

verus! {

/// The ASCII codes the parser reads: the dot and the decimal digits.
pub const DOT: u8 = 46;

pub const DIGIT_ZERO: u8 = 48;

pub const DIGIT_NINE: u8 = 57;

/// The 128-bit maximum divided by ten: a parsed prefix above it, or at it
/// followed by a digit above five, overflows 128 bits.
pub const ID_LIMIT: u128 = 34028236692093846346337460743176821145;

/// Relies on std::time::SystemTime::{now, duration_since} and
/// std::time::Duration::as_nanos: nanoseconds since the Unix epoch at the
/// moment of the call, or zero on a clock that sits before the epoch.
/// Nothing is assumed of the value: the clock is ambient state.
#[verifier::external_body]
pub fn time() -> u128 {
    match std::time::SystemTime::now().duration_since(std::time::UNIX_EPOCH) {
        Ok(d) => d.as_nanos(),
        Err(_) => 0,
    }
}

/// The index of the last dot in `name`, or -1 where none occurs.
pub open spec fn last_dot(name: Seq<u8>) -> int
    decreases name.len(),
{
    if name.len() == 0 {
        -1
    } else if name[name.len() - 1] == DOT {
        name.len() - 1
    } else {
        last_dot(name.drop_last())
    }
}

/// Every byte is an ASCII decimal digit.
pub open spec fn is_digit_seq(s: Seq<u8>) -> bool {
    forall|i: int| 0 <= i < s.len() ==> DIGIT_ZERO <= #[trigger] s[i] <= DIGIT_NINE
}

/// The value of one ASCII digit.
pub open spec fn digit_val(b: u8) -> nat {
    if DIGIT_ZERO <= b <= DIGIT_NINE {
        (b - DIGIT_ZERO) as nat
    } else {
        0
    }
}

/// The number that a sequence of ASCII digits spells in base ten.
pub open spec fn digit_seq_val(s: Seq<u8>) -> nat
    decreases s.len(),
{
    if s.len() == 0 {
        0
    } else {
        digit_seq_val(s.drop_last()) * 10 + digit_val(s.last())
    }
}

/// What parsing a file name yields: the identifier spelled by its
/// extension, or the exact error. A name splits as `stem.extension` at its
/// last dot; a name with no dot, or nothing but a leading dot, has no
/// extension, and an extension that is empty, holds a non-digit, or spells
/// a number past the 128-bit range is not a valid identifier.
pub open spec fn spec_extract_id(name: Seq<u8>) -> Result<u128, Error> {
    let p = last_dot(name);
    if p <= 0 {
        Err(Error::MissingExtension)
    } else {
        let ext = name.subrange(p + 1, name.len() as int);
        if ext.len() == 0 || !is_digit_seq(ext) {
            Err(Error::InvalidId)
        } else if digit_seq_val(ext) > u128::MAX {
            Err(Error::InvalidId)
        } else {
            Ok(digit_seq_val(ext) as u128)
        }
    }
}

/// Appending digits never shrinks the spelled value: the value of a
/// prefix bounds the value of the whole from below.
proof fn lemma_digit_seq_val_prefix(s: Seq<u8>, i: int)
    requires
        0 <= i <= s.len(),
    ensures
        digit_seq_val(s.subrange(0, i)) <= digit_seq_val(s),
    decreases s.len() - i,
{
    if i == s.len() {
        assert(s.subrange(0, i) =~= s);
    } else {
        lemma_digit_seq_val_prefix(s, i + 1);
        let t = s.subrange(0, i + 1);
        assert(t.drop_last() =~= s.subrange(0, i));
        assert(digit_seq_val(t) == digit_seq_val(s.subrange(0, i)) * 10 + digit_val(t.last()));
    }
}

/// Extracts the numeric identifier from a segment file name of the form
/// `data.<id>`: the digits after the last dot, read as a 128-bit value.
/// A missing or unparsable extension is a configuration error surfaced to
/// the caller, never retried here.
pub fn extract_id_from_filename(name: &str) -> (r: Result<u128, Error>)
    ensures
        r == spec_extract_id(name.spec_bytes()),
{
    let bytes = name.as_bytes();
    extract_id_from_bytes(bytes)
}

/// The parser behind `extract_id_from_filename`, on the raw bytes of the
/// name.
pub fn extract_id_from_bytes(name: &[u8]) -> (r: Result<u128, Error>)
    ensures
        r == spec_extract_id(name@),
{
    let n: usize = name.len();
    let mut j: usize = n;
    proof {
        assert(name@.take(n as int) =~= name@);
    }
    while j > 0 && name[j - 1] != DOT
        invariant
            j <= n == name@.len(),
            last_dot(name@) == last_dot(name@.take(j as int)),
        decreases j,
    {
        j = j - 1;
        proof {
            let t = name@.take(j as int + 1);
            assert(t.drop_last() =~= name@.take(j as int));
            assert(t.last() == name@[j as int] && t.last() != DOT);
            assert(last_dot(t) == last_dot(name@.take(j as int)));
        }
    }
    if j == 0 {
        return Err(Error::MissingExtension);
    }
    proof {
        let t = name@.take(j as int);
        assert(t.last() == name@[j as int - 1] && t.last() == DOT);
        assert(last_dot(name@) == j - 1);
    }
    if j == 1 {
        // only a leading dot: the name has no stem, hence no extension
        return Err(Error::MissingExtension);
    }
    let ghost ext = name@.subrange(j as int, name@.len() as int);
    if j == n {
        // the name ends in the dot: the extension is empty
        proof {
            assert(ext.len() == 0);
        }
        return Err(Error::InvalidId);
    }
    let mut val: u128 = 0;
    let mut i: usize = j;
    proof {
        assert(u128::MAX == ID_LIMIT * 10 + 5);
        assert(ext.subrange(0, 0) =~= Seq::<u8>::empty());
    }
    while i < n
        invariant
            2 <= j <= i <= n == name@.len(),
            last_dot(name@) == j - 1,
            ext == name@.subrange(j as int, name@.len() as int),
            is_digit_seq(ext.subrange(0, i - j as int)),
            val == digit_seq_val(ext.subrange(0, i - j as int)),
        decreases n - i,
    {
        let b = name[i];
        proof {
            assert(ext[i - j as int] == b);
        }
        if b < DIGIT_ZERO || b > DIGIT_NINE {
            proof {
                assert(!is_digit_seq(ext));
            }
            return Err(Error::InvalidId);
        }
        let d: u128 = (b - DIGIT_ZERO) as u128;
        proof {
            let t = ext.subrange(0, i + 1 - j as int);
            assert(t.drop_last() =~= ext.subrange(0, i - j as int));
            assert(t.last() == b && digit_val(b) == d);
            assert(digit_seq_val(t) == val * 10 + d);
            assert(u128::MAX == ID_LIMIT * 10 + 5);
        }
        if val > ID_LIMIT || (val == ID_LIMIT && d > 5) {
            proof {
                lemma_digit_seq_val_prefix(ext, i + 1 - j as int);
                assert(digit_seq_val(ext) > u128::MAX);
            }
            return Err(Error::InvalidId);
        }
        val = val * 10 + d;
        i = i + 1;
        proof {
            assert(is_digit_seq(ext.subrange(0, i - j as int)));
        }
    }
    proof {
        assert(ext.subrange(0, i - j as int) =~= ext);
    }
    Ok(val)
}

} // verus!
