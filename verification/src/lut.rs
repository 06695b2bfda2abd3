//! Builder and in-place updater of the value-to-display lookup table.
//!
//! The table has one display byte for every storable raw sample value:
//! entry `i` is the transfer function applied to `i * slope + intercept`,
//! truncated to a whole display unit. The table is rebuilt in place whenever
//! the windowing or rescale parameters change; entries are a function of the
//! parameters alone, so a rebuild never leaves stale contents.

use vstd::arithmetic::div_mod::{
    lemma_div_by_multiple, lemma_div_is_ordered, lemma_div_pos_is_pos,
};
use vstd::arithmetic::power2::{lemma2_to64, lemma_pow2_strictly_increases, pow2};
use vstd::prelude::*;

use crate::fixed::{Fixed, WindowLevel};
use crate::window::{
    apply_from_raw, apply_raw, lemma_apply_range, window_level_valid, VoiLutFunction,
};

verus! {

/// The display byte stored at index `i` of a table refreshed with the given
/// rescale and windowing parameters: the transfer function applied to
/// `i * slope + intercept`, truncated to a whole display unit.
pub open spec fn lut_entry(
    i: int,
    slope: int,
    intercept: int,
    f: VoiLutFunction,
    wl: WindowLevel,
) -> int {
    apply_raw(i * slope + intercept, f, wl.width.raw as int, wl.center.raw as int) / 65536
}

/// Every entry of a lookup table lies in the display range `[0, 255]`.
pub proof fn lemma_lut_entry_range(
    i: int,
    slope: int,
    intercept: int,
    f: VoiLutFunction,
    wl: WindowLevel,
)
    requires
        window_level_valid(f, wl),
    ensures
        0 <= lut_entry(i, slope, intercept, f, wl) <= 255,
{
    let y = apply_raw(i * slope + intercept, f, wl.width.raw as int, wl.center.raw as int);
    lemma_apply_range(i * slope + intercept, f, wl);
    lemma_div_pos_is_pos(y, 65536);
    lemma_div_is_ordered(y, 255int * 65536, 65536);
    lemma_div_by_multiple(255, 65536);
}

/// Refreshes every entry of a pre-existing lookup table in place, with no
/// reallocation, from the rescale parameters and the window level: the hot
/// path of interactive window/level dragging.
///
/// The table keeps its length; afterwards entry `i` holds exactly
/// [`lut_entry`]`(i, ...)`, for every index.
pub fn update_lut(
    lut: &mut Vec<u8>,
    rescale_slope: Fixed,
    rescale_intercept: Fixed,
    f: VoiLutFunction,
    wl: WindowLevel,
)
    requires
        window_level_valid(f, wl),
        old(lut)@.len() <= 65536,
    ensures
        final(lut)@.len() == old(lut)@.len(),
        forall|i: int|
            0 <= i < final(lut)@.len() ==> final(lut)@[i] as int == lut_entry(
                i,
                rescale_slope.raw as int,
                rescale_intercept.raw as int,
                f,
                wl,
            ),
{
    let n = lut.len();
    let mut i: usize = 0;
    while i < n
        invariant
            i <= n,
            n == lut@.len(),
            n <= 65536,
            window_level_valid(f, wl),
            forall|j: int|
                0 <= j < i ==> lut@[j] as int == lut_entry(
                    j,
                    rescale_slope.raw as int,
                    rescale_intercept.raw as int,
                    f,
                    wl,
                ),
        decreases n - i,
    {
        proof {
            assert(-604462909807314587353088i128 <= (i as int) * (rescale_slope.raw as int)
                <= 604462909807314587353088i128) by (nonlinear_arith)
                requires
                    0 <= i < 65536,
                    i64::MIN <= rescale_slope.raw <= i64::MAX;
        }
        let x: i128 = (i as i128) * (rescale_slope.raw as i128) + (rescale_intercept.raw as i128);
        let y: i64 = apply_from_raw(x, f, wl);
        proof {
            lemma_div_pos_is_pos(y as int, 65536);
            lemma_div_is_ordered(y as int, 255int * 65536, 65536);
            lemma_div_by_multiple(255, 65536);
        }
        let b: u8 = ((y as u64) / 65536) as u8;
        lut.set(i, b);
        i = i + 1;
    }
}

/// The number of entries of a lookup table for samples of `bits_stored`
/// meaningful bits: one entry for every storable value.
pub fn lut_size(bits_stored: u32) -> (n: usize)
    requires
        1 <= bits_stored <= 16,
    ensures
        n == pow2(bits_stored as nat),
        2 <= n <= 65536,
{
    proof {
        lemma2_to64();
    }
    let mut len: usize = 1;
    let mut k: u32 = 0;
    while k < bits_stored
        invariant
            k <= bits_stored <= 16,
            len == pow2(k as nat),
            len <= 65536,
        decreases bits_stored - k,
    {
        proof {
            lemma2_to64();
            if (k as nat) < 16 {
                lemma_pow2_strictly_increases(k as nat, 16);
            }
            assert(pow2((k + 1) as nat) == 2 * pow2(k as nat)) by {
                vstd::arithmetic::power2::lemma_pow2_unfold((k + 1) as nat);
            }
            if ((k + 1) as nat) < 16 {
                lemma_pow2_strictly_increases((k + 1) as nat, 16);
            }
        }
        len = 2 * len;
        k = k + 1;
    }
    proof {
        lemma2_to64();
        if 1 < bits_stored {
            lemma_pow2_strictly_increases(1, bits_stored as nat);
        }
    }
    len
}

/// The whole contents of a lookup table refreshed with the given parameters:
/// a valid window level for the selected transfer function, and every entry
/// equal to [`lut_entry`].
pub open spec fn lut_matches(
    t: Seq<u8>,
    slope: Fixed,
    intercept: Fixed,
    f: VoiLutFunction,
    wl: WindowLevel,
) -> bool {
    window_level_valid(f, wl) && forall|i: int|
        0 <= i < t.len() ==> t[i] as int == lut_entry(
            i,
            slope.raw as int,
            intercept.raw as int,
            f,
            wl,
        )
}

/// Builds a fresh lookup table of exactly `2 ^ bits_stored` display bytes
/// and populates it with [`update_lut`].
pub fn build_lut(
    bits_stored: u32,
    rescale_slope: Fixed,
    rescale_intercept: Fixed,
    f: VoiLutFunction,
    wl: WindowLevel,
) -> (r: Vec<u8>)
    requires
        1 <= bits_stored <= 16,
        window_level_valid(f, wl),
    ensures
        r@.len() == pow2(bits_stored as nat),
        forall|i: int|
            0 <= i < r@.len() ==> r@[i] as int == lut_entry(
                i,
                rescale_slope.raw as int,
                rescale_intercept.raw as int,
                f,
                wl,
            ),
{
    let len = lut_size(bits_stored);
    let mut lut: Vec<u8> = vec![0u8; len];
    update_lut(&mut lut, rescale_slope, rescale_intercept, f, wl);
    lut
}

/// Refreshing a table twice with identical parameters yields byte-identical
/// contents: every entry is a function of the parameters and the length
/// alone.
pub proof fn lemma_update_deterministic(
    a: Seq<u8>,
    b: Seq<u8>,
    slope: int,
    intercept: int,
    f: VoiLutFunction,
    wl: WindowLevel,
)
    requires
        a.len() == b.len(),
        forall|i: int| 0 <= i < a.len() ==> a[i] as int == lut_entry(i, slope, intercept, f, wl),
        forall|i: int| 0 <= i < b.len() ==> b[i] as int == lut_entry(i, slope, intercept, f, wl),
    ensures
        a == b,
{
    assert(a =~= b);
}

} // verus!
