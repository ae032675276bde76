//! Lemmas that tie the bit-scanning model to bitwise operations on words.
use crate::model::{
    lowest_one, lowest_zero, trailing_ones, trailing_ones_mask, trailing_zeros, trailing_zeros_mask,
};
use vstd::wrapping::usize_specs::{wrapping_add, wrapping_sub};
use vstd::arithmetic::power2::{lemma_pow2_unfold, pow2};
use vstd::prelude::*;

verus! {

/// `2^usize::BITS`, written so that the bit-vector solver can read it.
pub open spec fn word_modulus() -> u128 {
    if usize::BITS == 32 {
        0x1_0000_0000
    } else {
        0x1_0000_0000_0000_0000
    }
}

/// Relates the bound of `usize` to the modulus of word arithmetic.
pub proof fn lemma_word_modulus()
    ensures
        usize::MAX as int + 1 == word_modulus() as int,
{
    vstd::layout::unsigned_int_max_values();
    vstd::arithmetic::power2::lemma2_to64();
    vstd::arithmetic::power2::lemma2_to64_rest();
}


/// A word with a single set bit `l` that is also the lowest set bit of `x`.
pub open spec fn is_lowest_one_of(l: usize, x: usize) -> bool {
    &&& l != 0
    &&& l & ((l - 1) as usize) == 0
    &&& x & ((l - 1) as usize) == 0
    &&& x & l == l
}

proof fn lemma_lowest_one_step(x: usize, h: usize, l: usize, l2: usize)
    by (bit_vector)
    requires
        x & 1 == 0,
        h == x >> 1,
        l2 == l * 2,
        l <= h,
        l != 0,
        l & ((l - 1) as usize) == 0,
        h & ((l - 1) as usize) == 0,
        h & l == l,
    ensures
        l2 != 0,
        l2 & ((l2 - 1) as usize) == 0,
        x & ((l2 - 1) as usize) == 0,
        x & l2 == l2,
{
}

/// The model's lowest set bit of a non-zero word is a single bit of that word
/// with only clear bits below it.
pub proof fn lemma_lowest_one_bits(x: usize)
    requires
        x != 0,
    ensures
        lowest_one(x) <= x,
        is_lowest_one_of(lowest_one(x) as usize, x),
    decreases x,
{
    if x % 2 == 1 {
        assert(pow2(0) == 1) by {
            vstd::arithmetic::power2::lemma2_to64();
        }
        assert(1usize & 0usize == 0 && x & 0 == 0 && x & 1 == 1) by (bit_vector)
            requires
                x % 2 == 1,
        ;
    } else {
        let h: usize = x / 2;
        lemma_lowest_one_bits(h);
        let l = lowest_one(h) as usize;
        lemma_pow2_unfold(trailing_zeros(x as nat));
        assert(lowest_one(x) == 2 * lowest_one(h));
        assert(x & 1 == 0 && h == x >> 1) by (bit_vector)
            requires
                x % 2 == 0,
                h == x / 2,
        ;
        lemma_lowest_one_step(x, h, l, (l * 2) as usize);
    }
}

/// A word with a single set bit `z` that is the lowest clear bit of `x`.
pub open spec fn is_lowest_zero_of(z: usize, x: usize) -> bool {
    &&& z != 0
    &&& z & ((z - 1) as usize) == 0
    &&& x & ((z - 1) as usize) == (z - 1) as usize
    &&& x & z == 0
}

proof fn lemma_lowest_zero_step(x: usize, h: usize, z: usize, z2: usize)
    by (bit_vector)
    requires
        x & 1 == 1,
        h == x >> 1,
        z2 == z * 2,
        z != 0,
        z & ((z - 1) as usize) == 0,
        h & ((z - 1) as usize) == (z - 1) as usize,
        h & z == 0,
    ensures
        z2 != 0,
        z2 & ((z2 - 1) as usize) == 0,
        x & ((z2 - 1) as usize) == (z2 - 1) as usize,
        x & z2 == 0,
{
}

proof fn lemma_lowest_zero_double_fits(x: usize, h: usize, z: usize)
    by (bit_vector)
    requires
        x & 1 == 1,
        h == x >> 1,
        z != 0,
        z & ((z - 1) as usize) == 0,
        h & ((z - 1) as usize) == (z - 1) as usize,
        h & z == 0,
    ensures
        z * 2 <= x + 1,
{
}

/// The model's lowest clear bit of a word that is not all ones is a single
/// bit, clear in that word, with only set bits below it.
pub proof fn lemma_lowest_zero_bits(x: usize)
    requires
        x != usize::MAX,
    ensures
        lowest_zero(x) <= usize::MAX,
        is_lowest_zero_of(lowest_zero(x) as usize, x),
    decreases x,
{
    if x % 2 == 0 {
        assert(pow2(0) == 1) by {
            vstd::arithmetic::power2::lemma2_to64();
        }
        assert(1usize & 0usize == 0 && x & 0 == 0 && x & 1 == 0) by (bit_vector)
            requires
                x % 2 == 0,
        ;
    } else {
        let h: usize = x / 2;
        assert(x & 1 == 1 && h == x >> 1) by (bit_vector)
            requires
                x % 2 == 1,
                h == x / 2,
        ;
        lemma_lowest_zero_bits(h);
        let z = lowest_zero(h) as usize;
        lemma_pow2_unfold(trailing_ones(x as nat));
        assert(lowest_zero(x) == 2 * lowest_zero(h));
        lemma_lowest_zero_double_fits(x, h, z);
        lemma_lowest_zero_step(x, h, z, (z * 2) as usize);
    }
}

/// A wrapping sum is the plain sum, or the plain sum less one modulus.
pub proof fn lemma_wrapping_add(a: usize, b: usize)
    ensures
        ({
            let s = wrapping_add(a, b);
            s == a + b || s + word_modulus() == a + b
        }),
{
    lemma_word_modulus();
}

/// `x | (x - 1)` with wrapping subtraction sets the trailing clear bits of `x`.
pub proof fn lemma_fill_trailing_zeros_bits(x: usize)
    ensures
        x | wrapping_sub(x, 1) == x + trailing_zeros_mask(x),
{
    if x != 0 {
        lemma_lowest_one_bits(x);
        let l = lowest_one(x) as usize;
        assert(x | ((x - 1) as usize) == x + (l - 1)) by (bit_vector)
            requires
                is_lowest_one_of(l, x),
        ;
    } else {
        let m = usize::MAX;
        assert(0usize | m == m) by (bit_vector);
    }
}

/// `x & (x + 1)` with wrapping addition clears the trailing set bits of `x`.
pub proof fn lemma_clear_trailing_ones_bits(x: usize)
    ensures
        x & wrapping_add(x, 1) == x - trailing_ones_mask(x),
{
    if x != usize::MAX {
        lemma_lowest_zero_bits(x);
        let z = lowest_zero(x) as usize;
        assert(x & ((x + 1) as usize) == x - (z - 1)) by (bit_vector)
            requires
                is_lowest_zero_of(z, x),
        ;
    } else {
        assert(x & 0 == 0) by (bit_vector);
    }
}

} // verus!
