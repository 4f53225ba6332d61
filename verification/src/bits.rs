//! Capability masks: each registered component kind owns one bit of a
//! `u128`, and an entity's mask records which kinds it currently carries.

use vstd::prelude::*;

verus! {

/// True when bit `k` is set in `mask`.
pub open spec fn bit_set(mask: u128, k: u8) -> bool {
    mask & (1u128 << k) != 0
}

/// A mask consisting of exactly one of the 128 kind bits.
pub open spec fn is_single_bit(code: u128) -> bool {
    exists|k: u8| k < 128 && code == (1u128 << k)
}

/// Setting bit `k` in a mask makes bit `k` set.
pub proof fn lemma_or_sets_bit(mask: u128, k: u8)
    requires
        k < 128,
    ensures
        bit_set(mask | (1u128 << k), k),
{
    assert((mask | (1u128 << k)) & (1u128 << k) != 0) by (bit_vector)
        requires
            k < 128,
    ;
}

/// Setting bit `k` leaves every other bit as it was.
pub proof fn lemma_or_preserves_other_bits(mask: u128, k: u8, j: u8)
    requires
        k < 128,
        j < 128,
        j != k,
    ensures
        bit_set(mask | (1u128 << k), j) == bit_set(mask, j),
{
    assert(((mask | (1u128 << k)) & (1u128 << j) != 0) == (mask & (1u128 << j) != 0))
        by (bit_vector)
        requires
            k < 128,
            j < 128,
            j != k,
    ;
}

/// Clearing bit `k` in a mask makes bit `k` unset.
pub proof fn lemma_and_not_clears_bit(mask: u128, k: u8)
    requires
        k < 128,
    ensures
        !bit_set(mask & !(1u128 << k), k),
{
    assert((mask & !(1u128 << k)) & (1u128 << k) == 0) by (bit_vector)
        requires
            k < 128,
    ;
}

/// Clearing bit `k` leaves every other bit as it was.
pub proof fn lemma_and_not_preserves_other_bits(mask: u128, k: u8, j: u8)
    requires
        k < 128,
        j < 128,
        j != k,
    ensures
        bit_set(mask & !(1u128 << k), j) == bit_set(mask, j),
{
    assert(((mask & !(1u128 << k)) & (1u128 << j) != 0) == (mask & (1u128 << j) != 0))
        by (bit_vector)
        requires
            k < 128,
            j < 128,
            j != k,
    ;
}

/// Mask round trip: after a kind's bit is set by binding, the mask tests
/// positive for that kind; after it is cleared again by removal, negative.
/// Every other kind's bit is untouched by both steps.
pub proof fn lemma_mask_round_trip(mask: u128, k: u8)
    requires
        k < 128,
    ensures
        bit_set(mask | (1u128 << k), k),
        !bit_set((mask | (1u128 << k)) & !(1u128 << k), k),
        forall|j: u8|
            j < 128 && j != k ==> bit_set(mask | (1u128 << k), j) == bit_set(mask, j),
        forall|j: u8|
            j < 128 && j != k ==> bit_set((mask | (1u128 << k)) & !(1u128 << k), j) == bit_set(
                mask | (1u128 << k),
                j,
            ),
{
    lemma_or_sets_bit(mask, k);
    lemma_and_not_clears_bit(mask | (1u128 << k), k);
    assert forall|j: u8| j < 128 && j != k implies bit_set(mask | (1u128 << k), j) == bit_set(
        mask,
        j,
    ) by {
        lemma_or_preserves_other_bits(mask, k, j);
    }
    assert forall|j: u8| j < 128 && j != k implies bit_set(
        (mask | (1u128 << k)) & !(1u128 << k),
        j,
    ) == bit_set(mask | (1u128 << k), j) by {
        lemma_and_not_preserves_other_bits(mask | (1u128 << k), k, j);
    }
}

/// For a single-kind query, testing the bit and matching the query mask
/// agree: the mask is one bit, so holding any of it is holding all of it.
pub proof fn lemma_single_kind_query(mask: u128, k: u8)
    requires
        k < 128,
    ensures
        bit_set(mask, k) == (mask & (1u128 << k) == (1u128 << k)),
{
    assert((mask & (1u128 << k) != 0) == (mask & (1u128 << k) == (1u128 << k))) by (bit_vector)
        requires
            k < 128,
    ;
}

/// Query masks compose: an entity matches the OR of two query masks exactly
/// when it matches each of them. Presence and absence over OR-ed kind codes
/// is the whole query language.
pub proof fn lemma_query_mask_or(mask: u128, q1: u128, q2: u128)
    ensures
        (mask & (q1 | q2) == (q1 | q2)) == (mask & q1 == q1 && mask & q2 == q2),
{
    assert((mask & (q1 | q2) == (q1 | q2)) == (mask & q1 == q1 && mask & q2 == q2))
        by (bit_vector);
}

/// Different bit positions give different single-bit masks.
pub proof fn lemma_distinct_bits(i: u8, j: u8)
    requires
        i < 128,
        j < 128,
        i != j,
    ensures
        (1u128 << i) != (1u128 << j),
{
    assert((1u128 << i) != (1u128 << j)) by (bit_vector)
        requires
            i < 128,
            j < 128,
            i != j,
    ;
}

/// Finds the position of the one bit set in `code`.
pub fn code_index(code: u128) -> (k: u8)
    requires
        is_single_bit(code),
    ensures
        k < 128,
        code == (1u128 << k),
{
    let mut k: u8 = 0;
    while k < 127
        invariant
            k <= 127,
            forall|j: u8| j < k ==> code != (1u128 << j),
            is_single_bit(code),
        decreases 127 - k,
    {
        if code == (1u128 << k) {
            return k;
        }
        k += 1;
    }
    assert(code == (1u128 << 127u8)) by {
        let w = choose|w: u8| w < 128 && code == (1u128 << w);
        assert(w == 127);
    }
    127
}

} // verus!
