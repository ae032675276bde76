//! Laws that relate the word operations to one another.
//!
//! Each is stated over the model functions that the operations' contracts
//! use, so it holds of the values those operations return.
use crate::bridge::{is_lowest_one_of, is_lowest_zero_of, lemma_lowest_one_bits, lemma_lowest_zero_bits};
use crate::model::{
    clear_lowest_times, lowest_one, lowest_zero, popcount, trailing_zeros,
};
use vstd::arithmetic::power2::{lemma_pow2_unfold, pow2};
use vstd::prelude::*;

verus! {

proof fn lemma_popcount_without_lowest(n: nat)
    requires
        n > 0,
    ensures
        pow2(trailing_zeros(n)) <= n,
        popcount((n - pow2(trailing_zeros(n))) as nat) + 1 == popcount(n),
    decreases n,
{
    if n % 2 == 1 {
        vstd::arithmetic::power2::lemma2_to64();
        let m = (n - 1) as nat;
        assert(m % 2 == 0 && m / 2 == n / 2);
        assert(popcount(m) == popcount(n / 2));
    } else {
        let h = n / 2;
        lemma_popcount_without_lowest(h);
        lemma_pow2_unfold(trailing_zeros(n));
        let p = pow2(trailing_zeros(h));
        let y = (h - p) as nat;
        assert(pow2(trailing_zeros(n)) == 2 * p);
        let m = (n - 2 * p) as nat;
        assert(m == 2 * y);
        assert(m % 2 == 0 && m / 2 == y);
        assert(popcount(m) == popcount(y));
    }
}

/// Clearing the lowest set bit removes exactly one set bit from a non-zero
/// word and leaves 0 unchanged, so a second application removes at most one
/// more.
pub proof fn lemma_clear_lowest_removes_one_bit(x: usize)
    ensures
        x == 0 ==> x - lowest_one(x) == 0,
        x != 0 ==> popcount((x - lowest_one(x)) as nat) + 1 == popcount(x as nat),
{
    if x != 0 {
        lemma_popcount_without_lowest(x as nat);
    }
}

/// Clearing the lowest set bit as many times as the word has set bits
/// yields 0.
pub proof fn lemma_clear_lowest_popcount_times(x: usize)
    ensures
        clear_lowest_times(x, popcount(x as nat)) == 0,
    decreases popcount(x as nat),
{
    if x != 0 {
        lemma_clear_lowest_removes_one_bit(x);
        lemma_lowest_one_bits(x);
        let y = (x - lowest_one(x)) as usize;
        lemma_clear_lowest_popcount_times(y);
    }
}

/// The lowest set bit and the lowest clear bit of a word never coincide:
/// their single-bit masks share no bit.
pub proof fn lemma_lowest_masks_disjoint(x: usize)
    ensures
        (lowest_one(x) as usize) & (lowest_zero(x) as usize) == 0,
{
    let l = lowest_one(x) as usize;
    let z = lowest_zero(x) as usize;
    if x == 0 {
        assert(0usize & z == 0) by (bit_vector);
    } else if x == usize::MAX {
        assert(l & 0usize == 0) by (bit_vector);
    } else {
        lemma_lowest_one_bits(x);
        lemma_lowest_zero_bits(x);
        assert(l & z == 0) by (bit_vector)
            requires
                is_lowest_one_of(l, x),
                is_lowest_zero_of(z, x),
        ;
    }
}

/// Putting the lowest set bit back into the word from which it was cleared
/// gives the original word.
pub proof fn lemma_clear_lowest_then_restore(x: usize)
    ensures
        ((x - lowest_one(x)) as usize) | (lowest_one(x) as usize) == x,
{
    if x == 0 {
        assert(0usize | 0usize == 0) by (bit_vector);
    } else {
        lemma_lowest_one_bits(x);
        let l = lowest_one(x) as usize;
        assert(((x - l) as usize) | l == x) by (bit_vector)
            requires
                is_lowest_one_of(l, x),
        ;
    }
}

} // verus!
