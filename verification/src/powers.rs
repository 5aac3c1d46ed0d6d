//! Powers of two below `2^32`, and the shifts that compute them.

use vstd::arithmetic::power2::{lemma2_to64, lemma_pow2_pos, lemma_pow2_strictly_increases, pow2};
use vstd::bits::{lemma_u32_shl_is_mul, lemma_usize_shl_is_mul};
use vstd::prelude::*;

verus! {

/// A power of two with an exponent under 32 is a 32-bit number, and so a
/// machine number of either width.
pub proof fn lemma_pow2_fits(e: nat)
    requires
        e < 32,
    ensures
        0 < pow2(e) <= 0x8000_0000,
        pow2(e) <= u32::MAX,
        pow2(e) <= usize::MAX,
{
    lemma2_to64();
    lemma_pow2_pos(e);
    if e < 31 {
        lemma_pow2_strictly_increases(e, 31);
    }
}

/// Shifting one to the left by less than 32 places gives the power of two,
/// in 32 bits.
pub proof fn lemma_one_shifted_u32(e: u32)
    requires
        e < 32,
    ensures
        (1u32 << e) == pow2(e as nat),
{
    lemma_pow2_fits(e as nat);
    let p = pow2(e as nat);
    assert(1 * p == p);
    lemma_u32_shl_is_mul(1, e);
}

/// Shifting one to the left by less than 32 places gives the power of two,
/// in a machine word.
pub proof fn lemma_one_shifted_usize(e: usize)
    requires
        e < 32,
    ensures
        (1usize << e) == pow2(e as nat),
{
    lemma_pow2_fits(e as nat);
    let p = pow2(e as nat);
    assert(1 * p == p);
    lemma_usize_shl_is_mul(1, e);
}

} // verus!
