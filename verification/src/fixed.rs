//! Binary fixed-point numbers carrying the windowing parameters.

use vstd::prelude::*;

verus! {

/// Number of raw units per 1.0 of a [`Fixed`] value.
pub const SCALE: i64 = 65536;

/// A signed fixed-point number with sixteen fractional bits.
///
/// A value stands for the real number `raw / 65536`. Windowing parameters
/// and transfer-function results are carried in this form, so the whole
/// numeric pipeline is exact integer arithmetic with exact contracts.
#[derive(Debug, Clone, Copy, PartialEq, Eq, Structural)]
pub struct Fixed {
    pub raw: i64,
}

/// A pair of visualization window level parameters.
///
/// `width` spans the range of rescaled raw values mapped onto the display
/// range, and `center` is its midpoint. The linear and sigmoid transfer
/// functions need `width >= 1`; the linear-exact function needs only
/// `width >= 0`. A window level is an immutable value: an adjustment
/// replaces it wholesale.
#[derive(Debug, Clone, Copy, PartialEq, Eq, Structural)]
pub struct WindowLevel {
    pub width: Fixed,
    pub center: Fixed,
}

/// The sum of two fixed-point raws, saturated at the representable range.
pub open spec fn sat_add_raw(a: int, b: int) -> int {
    if a + b > i64::MAX {
        i64::MAX as int
    } else if a + b < i64::MIN {
        i64::MIN as int
    } else {
        a + b
    }
}

impl WindowLevel {
    /// The window level after an interactive adjustment: the deltas are
    /// added (saturating at the representable range) and the width is kept
    /// at 1 or above, so the result stays usable with every transfer
    /// function that the adjusted window drives.
    pub fn adjusted(self, delta_width: Fixed, delta_center: Fixed) -> (r: WindowLevel)
        ensures
            r.width.raw == if sat_add_raw(self.width.raw as int, delta_width.raw as int) < 65536 {
                65536int
            } else {
                sat_add_raw(self.width.raw as int, delta_width.raw as int)
            },
            r.center.raw == sat_add_raw(self.center.raw as int, delta_center.raw as int),
            r.width.raw >= 65536,
    {
        let w: i128 = self.width.raw as i128 + delta_width.raw as i128;
        let c: i128 = self.center.raw as i128 + delta_center.raw as i128;
        let wsat: i64 = if w > i64::MAX as i128 {
            i64::MAX
        } else if w < i64::MIN as i128 {
            i64::MIN
        } else {
            w as i64
        };
        let csat: i64 = if c > i64::MAX as i128 {
            i64::MAX
        } else if c < i64::MIN as i128 {
            i64::MIN
        } else {
            c as i64
        };
        let wclip: i64 = if wsat < 65536 {
            65536
        } else {
            wsat
        };
        WindowLevel { width: Fixed { raw: wclip }, center: Fixed { raw: csat } }
    }
}

} // verus!
