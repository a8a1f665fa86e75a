//! Padding of uniform-buffer sizes to the device's alignment.

use vstd::prelude::*;
use vstd::bits::{low_bits_mask, lemma_u64_low_bits_mask_is_mod, lemma_u64_pow2_no_overflow};
use vstd::arithmetic::power2::{pow2, lemma_pow2_pos};

verus! {

/// `orig_size` rounded up with the mask of `min_alignment`; unchanged when
/// there is no alignment.
pub open spec fn aligned_size_spec(min_alignment: u64, orig_size: u64) -> u64 {
    if min_alignment == 0 {
        orig_size
    } else {
        ((orig_size + min_alignment - 1) as u64) & !((min_alignment - 1) as u64)
    }
}

pub fn calculate_aligned_size(min_alignment: u64, orig_size: u64) -> (r: u64)
    requires
        min_alignment == 0 || orig_size + min_alignment <= u64::MAX,
    ensures
        r == aligned_size_spec(min_alignment, orig_size),
{
    if min_alignment == 0 {
        return orig_size;
    }
    (orig_size + min_alignment - 1) & !(min_alignment - 1)
}

/// With a power-of-two alignment, the padded size is the smallest multiple of
/// the alignment that is not below the size.
pub proof fn lemma_aligned_size_pow2(orig_size: u64, n: nat)
    requires
        n < 64,
        orig_size + pow2(n) - 1 <= u64::MAX,
    ensures
        aligned_size_spec(pow2(n) as u64, orig_size) % (pow2(n) as u64) == 0,
        orig_size <= aligned_size_spec(pow2(n) as u64, orig_size) < orig_size + pow2(n),
{
    lemma_pow2_pos(n);
    lemma_u64_pow2_no_overflow(n);
    let a = pow2(n) as u64;
    let y = (orig_size + (a - 1)) as u64;
    let m = (a - 1) as u64;
    assert(low_bits_mask(n) == pow2(n) - 1);
    lemma_u64_low_bits_mask_is_mod(y, n);
    assert(y & m == y % a);
    assert(y & !m == y - (y & m)) by (bit_vector);
    assert(((y - y % a) as int) % (a as int) == 0) by {
        let q = y as int / a as int;
        vstd::arithmetic::div_mod::lemma_mod_multiples_basic(q, a as int);
        vstd::arithmetic::div_mod::lemma_fundamental_div_mod(y as int, a as int);
        vstd::arithmetic::mul::lemma_mul_is_commutative(q, a as int);
        assert((y - y % a) as int == q * a);
    }
}

} // verus!
