//! Gauge arithmetic: the proportional-bar widget's numbers.
//!
//! A gauge shows an integer percentage as a horizontal bar.  The
//! percentage is clamped into [0, 100] — an out-of-range request
//! renders as the nearest bound, it never fails — and the bar fills
//! the floored proportion of the target width.

use vstd::prelude::*;

verus! {

/// A requested percentage clamped into [0, 100].
pub open spec fn clamp_percent_spec(p: i32) -> int {
    if p < 0 {
        0
    } else if p > 100 {
        100
    } else {
        p as int
    }
}

/// Clamp a requested gauge percentage into [0, 100].
pub fn clamp_percent(p: i32) -> (r: u16)
    ensures
        r == clamp_percent_spec(p),
        r <= 100,
{
    if p < 0 {
        0
    } else if p > 100 {
        100
    } else {
        p as u16
    }
}

/// The number of filled cells of a gauge `width` cells wide at the
/// given percentage: the floored proportion, never wider than the
/// gauge itself.
pub fn gauge_filled(width: u16, percent: u16) -> (r: u16)
    requires
        percent <= 100,
    ensures
        r == (width as int * percent as int) / 100,
        r <= width,
{
    proof {
        vstd::arithmetic::mul::lemma_mul_upper_bound(
            width as int,
            u16::MAX as int,
            percent as int,
            100,
        );
        vstd::arithmetic::mul::lemma_mul_inequality(percent as int, 100, width as int);
        vstd::arithmetic::div_mod::lemma_div_is_ordered(
            width as int * percent as int,
            100 * width as int,
            100,
        );
        vstd::arithmetic::div_mod::lemma_div_multiples_vanish(width as int, 100);
    }
    ((width as u32 * percent as u32) / 100) as u16
}

/// Law: any percentage at or above the top clamps to the top, and any
/// at or below zero clamps to zero, so such values render identically
/// to the bounds themselves.
pub proof fn lemma_gauge_clamps(p: i32)
    ensures
        p >= 100 ==> clamp_percent_spec(p) == clamp_percent_spec(100),
        p <= 0 ==> clamp_percent_spec(p) == clamp_percent_spec(0),
{
}

} // verus!
