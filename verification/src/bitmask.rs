//! The presence bitmask: bit `i` says whether a record's optional field
//! number `i`, counted from zero in declaration order, is present.

use vstd::prelude::*;

verus! {

/// Whether bit `i` of `mask` is set; bit 0 is the least significant, and a
/// 32-bit mask has no bit 32 or higher.
pub open spec fn has_bit(mask: u32, i: u32) -> bool {
    i < 32 && mask & (1u32 << i) != 0
}

/// Tells whether bit `i` of `mask` is set.
pub fn is_set(mask: u32, i: u32) -> (set: bool)
    ensures
        set == has_bit(mask, i),
{
    i < 32 && mask & (1u32 << i) != 0
}

/// The bits of a mask below 4: bit 0 is its parity, bit 1 says whether it
/// is at least 2, and no other bit is set.
pub proof fn lemma_two_bit_mask(mask: u32)
    requires
        mask < 4,
    ensures
        has_bit(mask, 0) <==> mask % 2 == 1,
        has_bit(mask, 1) <==> mask >= 2,
        forall|i: u32| 2 <= i ==> !has_bit(mask, i),
{
    assert(mask < 4 ==> ((mask & (1u32 << 0) != 0) <==> mask % 2 == 1)) by (bit_vector);
    assert(mask < 4 ==> ((mask & (1u32 << 1) != 0) <==> mask >= 2)) by (bit_vector);
    assert(forall|i: u32| mask < 4 && 2 <= i < 32 ==> mask & (1u32 << i) == 0) by (bit_vector);
}

/// Setting bit 0 of an empty mask gives 1; setting bit 1 adds 2 to a mask
/// below 2.
pub proof fn lemma_set_low_bits(mask: u32)
    requires
        mask < 2,
    ensures
        0u32 | (1u32 << 0) == 1,
        mask | (1u32 << 1) == mask + 2,
{
    assert(0u32 | (1u32 << 0) == 1) by (bit_vector);
    assert(mask < 2 ==> mask | (1u32 << 1) == mask + 2) by (bit_vector);
}

} // verus!
