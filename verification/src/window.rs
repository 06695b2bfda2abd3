//! The VOI LUT transfer functions: pure maps from a rescaled raw value to a
//! display intensity in `[0, 255]`.
//!
//! All values are fixed-point raws (see [`crate::fixed`]); a display
//! intensity `y` is returned as `y * 65536`, so the half units of the DICOM
//! formulas are exact. The linear and linear-exact functions compute the
//! standard formulas exactly over the rationals and truncate once at the
//! fixed-point grid; the sigmoid uses a deterministic fixed-point
//! approximation of the exponential that is exact at the window center.

use vstd::arithmetic::div_mod::{
    lemma_div_by_multiple, lemma_div_is_ordered, lemma_div_is_ordered_by_denominator,
    lemma_div_of0, lemma_div_pos_is_pos, lemma_multiply_divide_le, lemma_multiply_divide_lt,
};
use vstd::prelude::*;

use crate::fixed::{Fixed, WindowLevel};

verus! {

/// Largest magnitude of a rescaled raw value accepted by the raw-level
/// transfer functions; generous enough for any 16-bit index under any
/// 64-bit rescale, while keeping every intermediate product inside `i128`.
pub const RAW_BOUND: i128 = 0x1000000000000000000000000;

/// The transfer function selecting how rescaled raw values map to display
/// values. Any other function name in a data set is a hard decode error.
#[derive(Debug, Clone, Copy, PartialEq, Eq, Structural)]
pub enum VoiLutFunction {
    Linear,
    LinearExact,
    Sigmoid,
}

/// The transfer function named by `s`, for the supported names.
pub open spec fn voi_of(s: Seq<char>) -> VoiLutFunction {
    if s == "LINEAR"@ {
        VoiLutFunction::Linear
    } else if s == "LINEAR_EXACT"@ {
        VoiLutFunction::LinearExact
    } else {
        VoiLutFunction::Sigmoid
    }
}

impl VoiLutFunction {
    /// Reads a VOI LUT function attribute value; exactly the names LINEAR,
    /// LINEAR_EXACT and SIGMOID are supported, and any other name is a hard
    /// decode error.
    pub fn parse(value: &String) -> (r: Result<VoiLutFunction, crate::error::Error>)
        ensures
            r is Ok <==> (value@ == "LINEAR"@ || value@ == "LINEAR_EXACT"@ || value@
                == "SIGMOID"@),
            r is Ok ==> r == Ok::<VoiLutFunction, crate::error::Error>(voi_of(value@)),
            r is Err ==> r == Err::<VoiLutFunction, crate::error::Error>(
                crate::error::Error::UnsupportedTransferFunction,
            ),
    {
        let lin: String = "LINEAR".to_owned();
        let line: String = "LINEAR_EXACT".to_owned();
        let sig: String = "SIGMOID".to_owned();
        if *value == lin {
            Ok(VoiLutFunction::Linear)
        } else if *value == line {
            Ok(VoiLutFunction::LinearExact)
        } else if *value == sig {
            Ok(VoiLutFunction::Sigmoid)
        } else {
            Err(crate::error::Error::UnsupportedTransferFunction)
        }
    }
}

/// Whether `wl` satisfies the width requirement of transfer function `f`.
pub open spec fn window_level_valid(f: VoiLutFunction, wl: WindowLevel) -> bool {
    match f {
        VoiLutFunction::Linear => wl.width.raw >= 65536,
        VoiLutFunction::LinearExact => wl.width.raw >= 0,
        VoiLutFunction::Sigmoid => wl.width.raw >= 65536,
    }
}

/// The linear transfer function on fixed-point raws: 0 at or below
/// `c - (w-1)/2`, 255 above `c - 1/2 + (w-1)/2`, and the exact linear ramp
/// `((x - (c - 1/2)) / (w - 1) + 1/2) * 255` in between, truncated at the
/// fixed-point grid.
pub open spec fn linear_raw(x: int, w: int, c: int) -> int {
    if 2 * x <= 2 * c - w + 65536 {
        0
    } else if 2 * x > 2 * c + w - 2 * 65536 {
        255int * 65536
    } else {
        (255 * 65536 * (2 * (x - c) + w)) / (2 * (w - 65536))
    }
}

/// The linear-exact transfer function on fixed-point raws: 0 at or below
/// `c - w/2`, 255 above `c + w/2`, and the exact ramp
/// `((x - c) / w + 1/2) * 255` in between, truncated at the fixed-point grid.
pub open spec fn linear_exact_raw(x: int, w: int, c: int) -> int {
    if 2 * x <= 2 * c - w {
        0
    } else if 2 * x > 2 * c + w {
        255int * 65536
    } else {
        (255 * 65536 * (2 * (x - c) + w)) / (2 * w)
    }
}

/// One step of repeated fixed-point squaring.
pub open spec fn sq_step(e: int) -> int {
    (e * e) / 65536
}

/// `n`-fold fixed-point squaring of `e`.
pub open spec fn sq_chain(e: int, n: nat) -> int
    decreases n,
{
    if n == 0 {
        e
    } else {
        sq_step(sq_chain(e, (n - 1) as nat))
    }
}

/// Third-order series for `exp(-r/65536)` at small nonnegative `r`,
/// on the fixed-point grid.
pub open spec fn taylor_exp_neg(r: int) -> int {
    65536 - r + (r * r) / 131072 - (r * r * r) / 25769803776
}

/// Fixed-point `exp(-u/65536)` for `u >= 0`: zero once the true value falls
/// below the grid, otherwise the small-argument series squared seven times.
pub open spec fn exp_neg_raw(u: int) -> int {
    if u >= 1048576 {
        0
    } else {
        sq_chain(taylor_exp_neg(u / 128), 7)
    }
}

/// The sigmoid transfer function on fixed-point raws:
/// `255 / (1 + exp(-4 (x - c) / w))`, with the exponential taken on the
/// fixed-point grid. Exactly `127.5 * 65536` at `x == c`.
pub open spec fn sigmoid_raw(x: int, w: int, c: int) -> int {
    let d = if x >= c {
        x - c
    } else {
        c - x
    };
    let u = (4 * d * 65536) / w;
    let e = exp_neg_raw(u);
    if x >= c {
        (255int * 65536 * 65536) / (65536 + e)
    } else {
        (255int * 65536 * e) / (65536 + e)
    }
}

/// The transfer function `f` applied to the rescaled raw value `x`.
pub open spec fn apply_raw(x: int, f: VoiLutFunction, w: int, c: int) -> int {
    match f {
        VoiLutFunction::Linear => linear_raw(x, w, c),
        VoiLutFunction::LinearExact => linear_exact_raw(x, w, c),
        VoiLutFunction::Sigmoid => sigmoid_raw(x, w, c),
    }
}

/// A positive ramp value `t` within a positive denominator `d` scales into
/// the display range.
proof fn lemma_ramp_div_bounds(t: int, d: int)
    requires
        0 < t,
        t <= d,
    ensures
        0 <= (255 * 65536 * t) / d <= 255 * 65536,
{
    assert(0 < 255 * 65536 * t) by (nonlinear_arith)
        requires 0 < t;
    assert(255 * 65536 * t <= 255 * 65536 * d) by (nonlinear_arith)
        requires t <= d;
    lemma_div_pos_is_pos(255 * 65536 * t, d);
    lemma_div_is_ordered(255 * 65536 * t, 255 * 65536 * d, d);
    lemma_div_by_multiple(255int * 65536, d);
}

/// The linear transfer function stays within the display range.
pub proof fn lemma_linear_range(x: int, w: int, c: int)
    requires
        w >= 65536,
    ensures
        0 <= linear_raw(x, w, c) <= 255 * 65536,
{
    if 2 * x <= 2 * c - w + 65536 {
    } else if 2 * x > 2 * c + w - 2 * 65536 {
    } else {
        lemma_ramp_div_bounds(2 * (x - c) + w, 2 * (w - 65536));
    }
}

/// The linear-exact transfer function stays within the display range.
pub proof fn lemma_linear_exact_range(x: int, w: int, c: int)
    requires
        w >= 0,
    ensures
        0 <= linear_exact_raw(x, w, c) <= 255 * 65536,
{
    if 2 * x <= 2 * c - w {
    } else if 2 * x > 2 * c + w {
    } else {
        lemma_ramp_div_bounds(2 * (x - c) + w, 2 * w);
    }
}

/// The series approximation stays within `[0, 65536]` on its domain.
proof fn lemma_taylor_range(r: int)
    requires
        0 <= r < 8192,
    ensures
        0 <= taylor_exp_neg(r) <= 65536,
{
    let a = (r * r) / 131072;
    let b = (r * r * r) / 25769803776;
    assert(0 <= r * r <= 131072 * r) by (nonlinear_arith)
        requires 0 <= r < 8192;
    lemma_div_pos_is_pos(r * r, 131072);
    lemma_div_is_ordered(r * r, 131072 * r, 131072);
    lemma_div_by_multiple(r, 131072);
    assert(a <= r);
    assert(0 <= r * r * r < 549755813888) by (nonlinear_arith)
        requires 0 <= r < 8192;
    lemma_div_pos_is_pos(r * r * r, 25769803776);
    lemma_multiply_divide_lt(r * r * r, 25769803776, 22);
    assert(b < 22);
}

/// Repeated fixed-point squaring stays within `[0, 65536]`.
proof fn lemma_sq_chain_range(e: int, n: nat)
    requires
        0 <= e <= 65536,
    ensures
        0 <= sq_chain(e, n) <= 65536,
    decreases n,
{
    if n > 0 {
        lemma_sq_chain_range(e, (n - 1) as nat);
        let v = sq_chain(e, (n - 1) as nat);
        assert(0 <= v * v <= 65536 * 65536) by (nonlinear_arith)
            requires 0 <= v <= 65536;
        lemma_div_pos_is_pos(v * v, 65536);
        lemma_div_is_ordered(v * v, 65536int * 65536, 65536);
    }
}

/// The fixed-point exponential stays within `[0, 65536]` for `u >= 0`.
pub proof fn lemma_exp_neg_range(u: int)
    requires
        0 <= u,
    ensures
        0 <= exp_neg_raw(u) <= 65536,
{
    if u < 1048576 {
        lemma_div_pos_is_pos(u, 128);
        lemma_div_is_ordered(u, 1048575, 128);
        assert(0 <= u / 128 < 8192);
        lemma_taylor_range(u / 128);
        lemma_sq_chain_range(taylor_exp_neg(u / 128), 7);
    }
}

/// The sigmoid transfer function stays within the display range.
pub proof fn lemma_sigmoid_range(x: int, w: int, c: int)
    requires
        w >= 65536,
    ensures
        0 <= sigmoid_raw(x, w, c) <= 255 * 65536,
{
    let d = if x >= c {
        x - c
    } else {
        c - x
    };
    let u = (4 * d * 65536) / w;
    assert(0 <= 4 * d * 65536) by (nonlinear_arith)
        requires 0 <= d;
    lemma_div_pos_is_pos(4 * d * 65536, w);
    lemma_exp_neg_range(u);
    let e = exp_neg_raw(u);
    lemma_div_pos_is_pos(255int * 65536 * 65536, 65536 + e);
    lemma_div_is_ordered_by_denominator(255int * 65536 * 65536, 65536, 65536 + e);
    lemma_div_by_multiple(255int * 65536, 65536);
    assert(0 <= 255 * 65536 * e <= 255 * 65536 * 65536) by (nonlinear_arith)
        requires 0 <= e <= 65536;
    lemma_div_pos_is_pos(255 * 65536 * e, 65536 + e);
    lemma_div_is_ordered(255int * 65536 * e, 255int * 65536 * 65536, 65536 + e);
}

/// The transfer functions stay within the display range whenever the window
/// level is valid for the selected function.
pub proof fn lemma_apply_range(x: int, f: VoiLutFunction, wl: WindowLevel)
    requires
        window_level_valid(f, wl),
    ensures
        0 <= apply_raw(x, f, wl.width.raw as int, wl.center.raw as int) <= 255 * 65536,
{
    match f {
        VoiLutFunction::Linear => lemma_linear_range(x, wl.width.raw as int, wl.center.raw as int),
        VoiLutFunction::LinearExact => lemma_linear_exact_range(
            x,
            wl.width.raw as int,
            wl.center.raw as int,
        ),
        VoiLutFunction::Sigmoid => lemma_sigmoid_range(
            x,
            wl.width.raw as int,
            wl.center.raw as int,
        ),
    }
}

/// Saturation of the linear transfer function: a value one unit below the
/// window floor maps to 0, and a value a full width above the center maps
/// to 255. Raws: `2 x0 == 2 c - w - 2` and `x1 == c + w` in real units.
pub proof fn lemma_linear_saturation(x0: int, x1: int, w: int, c: int)
    requires
        w >= 65536,
        2 * x0 == 2 * c - w - 2 * 65536,
        x1 == c + w,
    ensures
        linear_raw(x0, w, c) == 0,
        linear_raw(x1, w, c) == 255 * 65536,
{
}

/// Midpoint symmetry of the sigmoid: at `x == c` the result is exactly
/// 127.5 in display units (8355840 == 127.5 * 65536), for every valid width.
pub proof fn lemma_sigmoid_midpoint(w: int, c: int)
    requires
        w >= 65536,
    ensures
        sigmoid_raw(c, w, c) == 8355840,
{
    lemma_div_of0(w);
    lemma_div_of0(128);
    lemma_div_of0(131072);
    lemma_div_of0(25769803776);
    assert(sq_chain(65536, 7) == 65536) by {
        lemma_sq_chain_fixes_unit(7);
    }
    assert(taylor_exp_neg(0) == 65536);
    assert(exp_neg_raw(0) == 65536);
    assert(255int * 65536 * 65536 == 8355840int * 131072) by (nonlinear_arith);
    lemma_div_by_multiple(8355840, 131072);
    assert((255int * 65536 * 65536) / (65536int + 65536) == 8355840);
}

/// The fixed-point unit is a fixed point of repeated squaring.
proof fn lemma_sq_chain_fixes_unit(n: nat)
    ensures
        sq_chain(65536, n) == 65536,
    decreases n,
{
    if n > 0 {
        lemma_sq_chain_fixes_unit((n - 1) as nat);
    }
}

/// The linear transfer function on a rescaled raw value (DICOM C.11.2.1.2.1).
pub(crate) fn linear_from_raw(x: i128, w: i64, c: i64) -> (y: i64)
    requires
        w >= 65536,
        -RAW_BOUND <= x <= RAW_BOUND,
    ensures
        y == linear_raw(x as int, w as int, c as int),
        0 <= y <= 255 * 65536,
{
    let wx = w as i128;
    let cx = c as i128;
    if 2 * x <= 2 * cx - wx + 65536 {
        0
    } else if 2 * x > 2 * cx + wx - 2 * 65536 {
        255 * 65536
    } else {
        let t: i128 = 2 * (x - cx) + wx;
        let den: i128 = 2 * (wx - 65536);
        proof {
            lemma_ramp_div_bounds(t as int, den as int);
            assert(0 < 255 * 65536 * t <= 255 * 65536 * 0x20000000000000000int) by (nonlinear_arith)
                requires 0 < t <= 0x20000000000000000int;
        }
        let q: u128 = ((255 * 65536 * t) as u128) / (den as u128);
        q as i64
    }
}

/// The linear-exact transfer function on a rescaled raw value
/// (DICOM C.11.2.1.3.2).
pub(crate) fn linear_exact_from_raw(x: i128, w: i64, c: i64) -> (y: i64)
    requires
        w >= 0,
        -RAW_BOUND <= x <= RAW_BOUND,
    ensures
        y == linear_exact_raw(x as int, w as int, c as int),
        0 <= y <= 255 * 65536,
{
    let wx = w as i128;
    let cx = c as i128;
    if 2 * x <= 2 * cx - wx {
        0
    } else if 2 * x > 2 * cx + wx {
        255 * 65536
    } else {
        let t: i128 = 2 * (x - cx) + wx;
        let den: i128 = 2 * wx;
        proof {
            lemma_ramp_div_bounds(t as int, den as int);
            assert(0 < 255 * 65536 * t <= 255 * 65536 * 0x20000000000000000int) by (nonlinear_arith)
                requires 0 < t <= 0x20000000000000000int;
        }
        let q: u128 = ((255 * 65536 * t) as u128) / (den as u128);
        q as i64
    }
}

/// The sigmoid transfer function on a rescaled raw value (DICOM C.11.2.1.3.1).
pub(crate) fn sigmoid_from_raw(x: i128, w: i64, c: i64) -> (y: i64)
    requires
        w >= 65536,
        -RAW_BOUND <= x <= RAW_BOUND,
    ensures
        y == sigmoid_raw(x as int, w as int, c as int),
        0 <= y <= 255 * 65536,
{
    let wx = w as i128;
    let cx = c as i128;
    let d: i128 = if x >= cx {
        x - cx
    } else {
        cx - x
    };
    let u: u128 = ((4 * d * 65536) as u128) / (w as u128);
    proof {
        assert(0 <= 4 * d * 65536) by (nonlinear_arith)
            requires 0 <= d;
        lemma_div_pos_is_pos(4 * (d as int) * 65536, w as int);
        lemma_exp_neg_range(u as int);
    }
    let e: u128 = if u >= 1048576 {
        0
    } else {
        let r: u128 = u / 128;
        proof {
            lemma_div_pos_is_pos(u as int, 128);
            lemma_multiply_divide_lt(u as int, 128, 8192);
            assert(r < 8192);
            lemma_taylor_range(r as int);
            assert(0 <= (r as int) * (r as int) <= 131072 * (r as int)) by (nonlinear_arith)
                requires 0 <= r < 8192;
            lemma_div_pos_is_pos((r as int) * (r as int), 131072);
            lemma_div_is_ordered((r as int) * (r as int), 131072 * (r as int), 131072);
            lemma_div_by_multiple(r as int, 131072);
            assert(0 <= (r as int) * (r as int) * (r as int) < 549755813888) by (nonlinear_arith)
                requires 0 <= r < 8192;
            lemma_div_pos_is_pos((r as int) * (r as int) * (r as int), 25769803776);
            lemma_multiply_divide_lt((r as int) * (r as int) * (r as int), 25769803776, 22);
        }
        let a: u128 = (r * r) / 131072;
        let b: u128 = (r * r * r) / 25769803776;
        let p: u128 = 65536 - r + a - b;
        let ghost p0 = taylor_exp_neg((u as int) / 128);
        assert(p == p0);
        let mut eacc: u128 = p;
        let mut k: usize = 0;
        while k < 7
            invariant
                0 <= k <= 7,
                0 <= p0 <= 65536,
                eacc == sq_chain(p0, k as nat),
                0 <= eacc <= 65536,
            decreases 7 - k,
        {
            proof {
                assert(0 <= (eacc as int) * (eacc as int) <= 65536int * 65536) by (nonlinear_arith)
                    requires 0 <= eacc <= 65536;
                lemma_div_pos_is_pos((eacc as int) * (eacc as int), 65536);
                lemma_div_is_ordered((eacc as int) * (eacc as int), 65536int * 65536, 65536);
                lemma_div_by_multiple(65536, 65536);
                lemma_sq_chain_range(p0, (k + 1) as nat);
            }
            eacc = (eacc * eacc) / 65536;
            k = k + 1;
        }
        eacc
    };
    proof {
        lemma_sigmoid_range(x as int, w as int, c as int);
    }
    let den: u128 = 65536 + e;
    proof {
        assert((den as int) * 16711680 >= 65536int * 16711680) by (nonlinear_arith)
            requires den >= 65536;
        lemma_multiply_divide_le(1095216660480, den as int, 16711680);
        lemma_div_pos_is_pos(1095216660480, den as int);
        assert(0 <= 255 * 65536 * (e as int) <= (den as int) * 16711680) by (nonlinear_arith)
            requires 0 <= e < den;
        lemma_multiply_divide_le(255 * 65536 * (e as int), den as int, 16711680);
        lemma_div_pos_is_pos(255 * 65536 * (e as int), den as int);
    }
    let q: u128 = if x >= cx {
        (255 * 65536 * 65536) / den
    } else {
        (255 * 65536 * e) / den
    };
    q as i64
}

/// The transfer function `f` applied to a rescaled raw value.
pub(crate) fn apply_from_raw(x: i128, f: VoiLutFunction, wl: WindowLevel) -> (y: i64)
    requires
        window_level_valid(f, wl),
        -RAW_BOUND <= x <= RAW_BOUND,
    ensures
        y == apply_raw(x as int, f, wl.width.raw as int, wl.center.raw as int),
        0 <= y <= 255 * 65536,
{
    match f {
        VoiLutFunction::Linear => linear_from_raw(x, wl.width.raw, wl.center.raw),
        VoiLutFunction::LinearExact => linear_exact_from_raw(x, wl.width.raw, wl.center.raw),
        VoiLutFunction::Sigmoid => sigmoid_from_raw(x, wl.width.raw, wl.center.raw),
    }
}

/// The linear transfer function (DICOM C.11.2.1.2.1) on fixed-point values.
pub fn window_level_linear(x: Fixed, ww: Fixed, wc: Fixed) -> (y: Fixed)
    requires
        ww.raw >= 65536,
    ensures
        y.raw == linear_raw(x.raw as int, ww.raw as int, wc.raw as int),
        0 <= y.raw <= 255 * 65536,
{
    Fixed { raw: linear_from_raw(x.raw as i128, ww.raw, wc.raw) }
}

/// The linear-exact transfer function (DICOM C.11.2.1.3.2) on fixed-point
/// values.
pub fn window_level_linear_exact(x: Fixed, ww: Fixed, wc: Fixed) -> (y: Fixed)
    requires
        ww.raw >= 0,
    ensures
        y.raw == linear_exact_raw(x.raw as int, ww.raw as int, wc.raw as int),
        0 <= y.raw <= 255 * 65536,
{
    Fixed { raw: linear_exact_from_raw(x.raw as i128, ww.raw, wc.raw) }
}

/// The sigmoid transfer function (DICOM C.11.2.1.3.1) on fixed-point values.
pub fn window_level_sigmoid(x: Fixed, ww: Fixed, wc: Fixed) -> (y: Fixed)
    requires
        ww.raw >= 65536,
    ensures
        y.raw == sigmoid_raw(x.raw as int, ww.raw as int, wc.raw as int),
        0 <= y.raw <= 255 * 65536,
{
    Fixed { raw: sigmoid_from_raw(x.raw as i128, ww.raw, wc.raw) }
}

/// The selected transfer function applied to a rescaled value.
pub fn apply_window_level(x: Fixed, f: VoiLutFunction, wl: WindowLevel) -> (y: Fixed)
    requires
        window_level_valid(f, wl),
    ensures
        y.raw == apply_raw(x.raw as int, f, wl.width.raw as int, wl.center.raw as int),
        0 <= y.raw <= 255 * 65536,
{
    Fixed { raw: apply_from_raw(x.raw as i128, f, wl) }
}

} // verus!
