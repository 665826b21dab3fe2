//! Bit masks over the eight worker slots of a scheduler.

use vstd::prelude::*;

verus! {

/// Bit `i` of `mask` is set (bit 0 is the least significant one).
pub open spec fn bit_set(mask: u8, i: u8) -> bool {
    (mask >> i) & 1u8 == 1u8
}

/// `i` is the lowest clear bit of `mask`.
pub open spec fn is_first_zero(mask: u8, i: u8) -> bool {
    &&& i < 8
    &&& !bit_set(mask, i)
    &&& forall|j: u8| j < i ==> bit_set(mask, j)
}

/// Every one of the eight bits of `mask` is set.
pub open spec fn all_set(mask: u8) -> bool {
    forall|j: u8| j < 8 ==> bit_set(mask, j)
}

/// The index of the first `0` bit of `mask`, read least significant bit first.
///
/// Calls `bitvec::slice::BitSlice::<u8, Lsb0>::first_zero` on the eight-bit
/// view of the byte that `BitSlice::from_element` makes.  Claimed of it:
/// with `Lsb0` ordering index `i` of the view is bit `i` of the byte, and
/// `first_zero` returns the smallest index whose bit is clear, or `None`
/// when all eight are set.
#[verifier::external_body]
pub(crate) fn first_zero_bit(mask: u8) -> (r: Option<usize>)
    ensures
        match r {
            Some(i) => i < 8 && is_first_zero(mask, i as u8),
            None => all_set(mask),
        },
{
    bitvec::slice::BitSlice::<u8, bitvec::order::Lsb0>::from_element(&mask).first_zero()
}

/// Setting bit `slot` adds exactly that bit.
pub proof fn lemma_bit_or(mask: u8, slot: u8, b: u8)
    requires
        slot < 8,
        b < 8,
    ensures
        bit_set(mask | (1u8 << slot), b) == (bit_set(mask, b) || b == slot),
{
    assert(bit_set(mask | (1u8 << slot), b) == (bit_set(mask, b) || b == slot)) by (bit_vector)
        requires
            slot < 8,
            b < 8,
    ;
}

/// Clearing bit `slot` removes exactly that bit.
pub proof fn lemma_bit_clear(mask: u8, slot: u8, b: u8)
    requires
        slot < 8,
        b < 8,
    ensures
        bit_set(mask & !(1u8 << slot), b) == (bit_set(mask, b) && b != slot),
{
    assert(bit_set(mask & !(1u8 << slot), b) == (bit_set(mask, b) && b != slot)) by (bit_vector)
        requires
            slot < 8,
            b < 8,
    ;
}

/// Freeing a worker that was just marked busy gives the mask back as it was.
pub proof fn lemma_free_undoes_busy(mask: u8, slot: u8)
    requires
        slot < 8,
        !bit_set(mask, slot),
    ensures
        (mask | (1u8 << slot)) & !(1u8 << slot) == mask,
{
    assert((mask | (1u8 << slot)) & !(1u8 << slot) == mask) by (bit_vector)
        requires
            slot < 8,
            !bit_set(mask, slot),
    ;
}

/// A byte is determined by its eight bits.
pub proof fn lemma_bits_determine(x: u8, y: u8)
    requires
        forall|b: u8| b < 8 ==> bit_set(x, b) == bit_set(y, b),
    ensures
        x == y,
{
    assert(bit_set(x, 0) == bit_set(y, 0));
    assert(bit_set(x, 1) == bit_set(y, 1));
    assert(bit_set(x, 2) == bit_set(y, 2));
    assert(bit_set(x, 3) == bit_set(y, 3));
    assert(bit_set(x, 4) == bit_set(y, 4));
    assert(bit_set(x, 5) == bit_set(y, 5));
    assert(bit_set(x, 6) == bit_set(y, 6));
    assert(bit_set(x, 7) == bit_set(y, 7));
    assert(x == y) by (bit_vector)
        requires
            bit_set(x, 0) == bit_set(y, 0),
            bit_set(x, 1) == bit_set(y, 1),
            bit_set(x, 2) == bit_set(y, 2),
            bit_set(x, 3) == bit_set(y, 3),
            bit_set(x, 4) == bit_set(y, 4),
            bit_set(x, 5) == bit_set(y, 5),
            bit_set(x, 6) == bit_set(y, 6),
            bit_set(x, 7) == bit_set(y, 7),
    ;
}

/// `mask` with bit `slot` set (in a busy mask: worker `slot` is now busy).
pub fn set_bit(mask: u8, slot: u8) -> (r: u8)
    requires
        slot < 8,
    ensures
        r == mask | (1u8 << slot),
        forall|b: u8| b < 8 ==> bit_set(r, b) == (bit_set(mask, b) || b == slot),
{
    proof {
        assert forall|b: u8| b < 8 implies bit_set(mask | (1u8 << slot), b) == (bit_set(mask, b)
            || b == slot) by {
            lemma_bit_or(mask, slot, b);
        }
    }
    mask | (1u8 << slot)
}

/// `mask` with bit `slot` cleared (in a busy mask: worker `slot` is free
/// again).
pub fn clear_bit(mask: u8, slot: u8) -> (r: u8)
    requires
        slot < 8,
    ensures
        r == mask & !(1u8 << slot),
        forall|b: u8| b < 8 ==> bit_set(r, b) == (bit_set(mask, b) && b != slot),
{
    proof {
        assert forall|b: u8| b < 8 implies bit_set(mask & !(1u8 << slot), b) == (bit_set(mask, b)
            && b != slot) by {
            lemma_bit_clear(mask, slot, b);
        }
    }
    mask & !(1u8 << slot)
}

/// The mask `!((1 << n) - 1)` has exactly the bits from `n` upwards set.
pub proof fn lemma_high_mask_bits(n: u8, b: u8)
    requires
        n < 8,
        b < 8,
    ensures
        bit_set(!(((1u8 << n) - 1u8) as u8), b) == (b >= n),
{
    assert(bit_set(!(((1u8 << n) - 1u8) as u8), b) == (b >= n)) by (bit_vector)
        requires
            n < 8,
            b < 8,
    ;
}

/// The busy mask that marks every worker slot from `free_slots` upwards as
/// taken and leaves the slots below it free (so `0` marks all eight taken).
pub fn unavailable_mask(free_slots: usize) -> (r: u8)
    requires
        free_slots < 8,
    ensures
        r == !(((1u8 << (free_slots as u8)) - 1u8) as u8),
        forall|b: u8| b < 8 ==> bit_set(r, b) == (b as usize >= free_slots),
{
    let n: u8 = free_slots as u8;
    assert((1u8 << n) >= 1u8) by (bit_vector)
        requires
            n < 8,
    ;
    let r: u8 = !((1u8 << n) - 1u8);
    proof {
        assert forall|b: u8| b < 8 implies bit_set(r, b) == (b >= n) by {
            assert(bit_set(!(((1u8 << n) - 1u8) as u8), b) == (b >= n)) by (bit_vector)
                requires
                    n < 8,
                    b < 8,
            ;
        }
    }
    r
}

} // verus!
