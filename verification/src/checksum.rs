//! Deterministic digest over policy blobs.
//!
//! The digest identifies a loaded policy for cache invalidation and
//! cross-commit comparison. It is a pure function of the blob bytes, so two
//! policies loaded from byte-identical sources carry the same digest no
//! matter which load path produced them.

use vstd::prelude::*;

verus! {

/// Modulus of the rolling digest: the Mersenne prime `2^61 - 1`.
pub const DIGEST_MODULUS: u64 = 0x1FFF_FFFF_FFFF_FFFF;

/// One digest step: fold the next byte into the running value.
pub open spec fn digest_step(h: int, b: u8) -> int {
    (h * 131 + b) % (DIGEST_MODULUS as int)
}

/// The digest of a byte sequence: a left fold of [`digest_step`] from zero.
pub open spec fn digest_spec(s: Seq<u8>) -> int
    decreases s.len(),
{
    if s.len() == 0 {
        0
    } else {
        digest_step(digest_spec(s.drop_last()), s.last())
    }
}

/// Computes [`digest_spec`] over a byte vector.
pub fn digest(data: &Vec<u8>) -> (r: u64)
    ensures
        r as int == digest_spec(data@),
        r < DIGEST_MODULUS,
{
    let mut h: u64 = 0;
    let mut i: usize = 0;
    while i < data.len()
        invariant
            i <= data.len(),
            h < DIGEST_MODULUS,
            h as int == digest_spec(data@.take(i as int)),
        decreases data.len() - i,
    {
        let t: u128 = (h as u128) * 131 + (data[i] as u128);
        h = (t % (DIGEST_MODULUS as u128)) as u64;
        proof {
            assert(data@.take(i + 1).drop_last() =~= data@.take(i as int));
            assert(data@.take(i + 1).last() == data@[i as int]);
        }
        i += 1;
    }
    proof {
        assert(data@.take(data@.len() as int) =~= data@);
    }
    h
}

} // verus!
