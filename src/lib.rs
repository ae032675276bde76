//! Branch-free bit manipulation on machine words.
//!
//! Each operation inspects or rewrites one feature of the low-order end of a
//! word: its lowest set or clear bit, its trailing run of equal bits, or a mask
//! isolating one of these. All additions and subtractions wrap modulo
//! `2^usize::BITS`, which is what makes the formulas hold at the all-zero and
//! all-one words.
use vstd::prelude::*;

mod bridge;
pub mod laws;
pub mod model;

use crate::bridge::{
    is_lowest_one_of, is_lowest_zero_of, lemma_clear_trailing_ones_bits,
    lemma_fill_trailing_zeros_bits, lemma_lowest_one_bits, lemma_lowest_zero_bits,
    lemma_word_modulus, lemma_wrapping_add, word_modulus,
};
use crate::model::{
    above_lowest_run, fill_trailing_zeros, lowest_one, lowest_zero, trailing_ones_mask,
    trailing_zeros_mask,
};

verus! {

/// Clears the lowest set bit of `x`; returns 0 when `x == 0`.
pub fn binary_turn_off_rightmost_one(x: usize) -> (r: usize)
    ensures
        r == x - lowest_one(x),
{
    let r = x & x.wrapping_sub(1);
    proof {
        if x != 0 {
            lemma_lowest_one_bits(x);
            let l = lowest_one(x) as usize;
            assert(x & ((x - 1) as usize) == x - l) by (bit_vector)
                requires
                    is_lowest_one_of(l, x),
            ;
        } else {
            let m = usize::MAX;
            assert(0usize & m == 0) by (bit_vector);
        }
    }
    r
}

/// Sets the lowest clear bit of `x`; returns `usize::MAX` when every bit is set.
pub fn binary_turn_on_rightmost_zero(x: usize) -> (r: usize)
    ensures
        r == x + lowest_zero(x),
{
    let r = x | x.wrapping_add(1);
    proof {
        if x != usize::MAX {
            lemma_lowest_zero_bits(x);
            let z = lowest_zero(x) as usize;
            assert(x | ((x + 1) as usize) == x + z) by (bit_vector)
                requires
                    is_lowest_zero_of(z, x),
            ;
        } else {
            assert(x | 0 == x) by (bit_vector);
        }
    }
    r
}

/// Clears the trailing run of set bits of `x`; `x` is unchanged when bit 0 is clear.
pub fn binary_turn_off_trailing_ones(x: usize) -> (r: usize)
    ensures
        r == x - trailing_ones_mask(x),
{
    let r = x & x.wrapping_add(1);
    proof {
        lemma_clear_trailing_ones_bits(x);
    }
    r
}

/// Sets the trailing run of clear bits of `x`; `x` is unchanged when bit 0 is set,
/// and `0` becomes `usize::MAX`.
pub fn binary_turn_on_trailing_zeros(x: usize) -> (r: usize)
    ensures
        r == x + trailing_zeros_mask(x),
        r == fill_trailing_zeros(x),
{
    let r = x | x.wrapping_sub(1);
    proof {
        lemma_fill_trailing_zeros_bits(x);
    }
    r
}

/// The single-bit mask of the lowest clear bit of `x`; 0 when every bit is set.
pub fn binary_rightmost_zero_bitmask(x: usize) -> (r: usize)
    ensures
        r == lowest_zero(x),
{
    let r = !x & x.wrapping_add(1);
    proof {
        if x != usize::MAX {
            lemma_lowest_zero_bits(x);
            let z = lowest_zero(x) as usize;
            assert(!x & ((x + 1) as usize) == z) by (bit_vector)
                requires
                    is_lowest_zero_of(z, x),
            ;
        } else {
            assert(!x & 0 == 0) by (bit_vector);
        }
    }
    r
}

/// The single-bit mask of the lowest set bit of `x`; 0 when `x == 0`.
pub fn binary_rightmost_one_bitmask(x: usize) -> (r: usize)
    ensures
        r == lowest_one(x),
{
    let r = x & 0usize.wrapping_sub(x);
    proof {
        if x != 0 {
            lemma_lowest_one_bits(x);
            lemma_word_modulus();
            let l = lowest_one(x) as usize;
            let n = 0usize.wrapping_sub(x);
            assert(x & n == l) by (bit_vector)
                requires
                    is_lowest_one_of(l, x),
                    n + x == word_modulus(),
            ;
        } else {
            assert(0usize & 0usize == 0) by (bit_vector);
        }
    }
    r
}

/// The mask of the trailing run of clear bits of `x`; 0 when bit 0 is set,
/// `usize::MAX` when `x == 0`.
pub fn binary_trailing_zeros_bitmask(x: usize) -> (r: usize)
    ensures
        r == trailing_zeros_mask(x),
{
    let r = !x & x.wrapping_sub(1);
    proof {
        if x != 0 {
            lemma_lowest_one_bits(x);
            let l = lowest_one(x) as usize;
            assert(!x & ((x - 1) as usize) == l - 1) by (bit_vector)
                requires
                    is_lowest_one_of(l, x),
            ;
        } else {
            lemma_word_modulus();
            let m = usize::MAX;
            assert(!0usize & m == m) by (bit_vector)
                requires
                    m + 1 == word_modulus(),
            ;
        }
    }
    r
}

/// The mask of the trailing run of set bits of `x`; 0 when bit 0 is clear,
/// `usize::MAX` when every bit is set.
pub fn binary_trailing_ones_bitmask(x: usize) -> (r: usize)
    ensures
        r == trailing_ones_mask(x),
{
    let r = x & !x.wrapping_add(1);
    proof {
        if x != usize::MAX {
            lemma_lowest_zero_bits(x);
            let z = lowest_zero(x) as usize;
            assert(x & !((x + 1) as usize) == z - 1) by (bit_vector)
                requires
                    is_lowest_zero_of(z, x),
            ;
        } else {
            assert(x & !0usize == x) by (bit_vector);
        }
    }
    r
}

/// Clears the lowest run of set bits of `x`, leaving only the bits above it;
/// returns 0 when `x == 0`.
pub fn binary_leading_ones_bitmask(x: usize) -> (r: usize)
    ensures
        r == above_lowest_run(x),
{
    let rightmost = binary_rightmost_one_bitmask(x);
    let r = rightmost.wrapping_add(x) & x;
    proof {
        let y = fill_trailing_zeros(x) as usize;
        lemma_fill_trailing_zeros_bits(x);
        lemma_clear_trailing_ones_bits(y);
        if x != 0 {
            lemma_lowest_one_bits(x);
            lemma_wrapping_add(rightmost, x);
            lemma_wrapping_add(y, 1);
            let s = rightmost.wrapping_add(x);
            let t = y.wrapping_add(1);
            assert(s & x == y & t) by (bit_vector)
                requires
                    is_lowest_one_of(rightmost, x),
                    s == rightmost + x || s + word_modulus() == rightmost + x,
                    y == x | ((x - 1) as usize),
                    t == y + 1 || t + word_modulus() == y + 1,
            ;
        } else {
            assert(0usize & 0usize == 0) by (bit_vector);
        }
    }
    r
}

} // verus!
