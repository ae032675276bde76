//! Mathematical model of a word's low-order bit structure.
//!
//! Every count here is found by scanning the binary representation one bit at
//! a time from bit 0 upward, so the contracts of the word operations are
//! stated against a plain bit-by-bit reading of the input.
use vstd::arithmetic::power2::pow2;
use vstd::prelude::*;

verus! {

/// Number of clear bits below the lowest set bit of `n` (zero when `n == 0`).
pub open spec fn trailing_zeros(n: nat) -> nat
    decreases n,
{
    if n == 0 || n % 2 == 1 {
        0
    } else {
        1 + trailing_zeros(n / 2)
    }
}

/// Number of set bits below the lowest clear bit of `n`.
pub open spec fn trailing_ones(n: nat) -> nat
    decreases n,
{
    if n % 2 == 0 {
        0
    } else {
        1 + trailing_ones(n / 2)
    }
}

/// Number of set bits of `n`.
pub open spec fn popcount(n: nat) -> nat
    decreases n,
{
    if n == 0 {
        0
    } else {
        n % 2 + popcount(n / 2)
    }
}

/// The single-bit mask of the lowest set bit of `x`, or 0 when no bit is set.
pub open spec fn lowest_one(x: usize) -> nat {
    if x == 0 {
        0
    } else {
        pow2(trailing_zeros(x as nat))
    }
}

/// The single-bit mask of the lowest clear bit of `x`, or 0 when every bit is set.
pub open spec fn lowest_zero(x: usize) -> nat {
    if x == usize::MAX {
        0
    } else {
        pow2(trailing_ones(x as nat))
    }
}

/// The mask of the trailing run of clear bits of `x`: every bit below its
/// lowest set bit, or every bit when `x == 0`.
pub open spec fn trailing_zeros_mask(x: usize) -> nat {
    if x == 0 {
        usize::MAX as nat
    } else {
        (lowest_one(x) - 1) as nat
    }
}

/// The mask of the trailing run of set bits of `x`: every bit below its
/// lowest clear bit, or every bit when `x` is all ones.
pub open spec fn trailing_ones_mask(x: usize) -> nat {
    if x == usize::MAX {
        usize::MAX as nat
    } else {
        (lowest_zero(x) - 1) as nat
    }
}

/// `x` with its trailing clear bits set: `x` together with its trailing-zeros mask.
pub open spec fn fill_trailing_zeros(x: usize) -> nat {
    (x + trailing_zeros_mask(x)) as nat
}

/// The bits of `x` strictly above its lowest run of set bits.
///
/// Filling the trailing clear bits joins them to the lowest run of ones; the
/// trailing run of ones of that word is then exactly the filled bits plus the
/// lowest run, and removing it leaves what lies above. For `x == 0` this is 0.
pub open spec fn above_lowest_run(x: usize) -> nat {
    let y = fill_trailing_zeros(x) as usize;
    (y - trailing_ones_mask(y)) as nat
}

/// `x` after clearing its lowest set bit `n` times in a row.
pub open spec fn clear_lowest_times(x: usize, n: nat) -> usize
    decreases n,
{
    if n == 0 {
        x
    } else {
        clear_lowest_times((x - lowest_one(x)) as usize, (n - 1) as nat)
    }
}

} // verus!
