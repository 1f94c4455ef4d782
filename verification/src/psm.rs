//! Zero-crossing click counting.
//!
//! A rising edge of the mains zero-crossing signal is one "click": one
//! opportunity for the pump to fire.  The interrupt handler outside this
//! crate observes the edges and feeds them into a [`ZeroCrossingCounter`];
//! [`calculate_cps`] turns a counted window into a clicks-per-second rate.

use vstd::prelude::*;
use crate::pump::CPS_READING_MAX;

verus! {

/// Edge counter shared between the zero-crossing handler and the control
/// tick.  The handler records edges; the control tick takes the count when a
/// measurement window closes.
pub struct ZeroCrossingCounter {
    /// Edges seen since the window was opened.
    pub clicks: u32,
}

impl ZeroCrossingCounter {
    /// Opens a counter with an empty window.
    pub fn new() -> (c: ZeroCrossingCounter)
        ensures
            c.clicks == 0,
    {
        ZeroCrossingCounter { clicks: 0 }
    }

    /// Records one rising edge.  The count saturates instead of wrapping, so
    /// a stuck window can never fold the rate back to a small value.
    pub fn record_click(&mut self)
        ensures
            final (self).clicks == if old(self).clicks < u32::MAX {
                old(self).clicks + 1
            } else {
                u32::MAX as int
            },
    {
        if self.clicks < u32::MAX {
            self.clicks = self.clicks + 1;
        }
    }

    /// Closes the window: hands out the count and starts a fresh window.
    pub fn take(&mut self) -> (clicks: u32)
        ensures
            clicks == old(self).clicks,
            final (self).clicks == 0,
    {
        let c = self.clicks;
        self.clicks = 0;
        c
    }
}

/// Clicks per second for a window of `clicks` edges over `elapsed_ms`
/// milliseconds: the ratio rounded to the nearest whole rate, capped at
/// `CPS_READING_MAX`.  An empty window reports zero.
pub open spec fn spec_cps(clicks: int, elapsed_ms: int) -> int {
    if elapsed_ms <= 0 {
        0
    } else {
        let r = (2000 * clicks + elapsed_ms) / (2 * elapsed_ms);
        if r < CPS_READING_MAX {
            r
        } else {
            CPS_READING_MAX as int
        }
    }
}

/// Click rate over a measurement window.
///
/// The division happens at full precision and is rounded once at the end, so
/// a mains that drifts from its nominal frequency is reported faithfully.
pub fn calculate_cps(clicks: u32, elapsed_ms: u32) -> (cps: i64)
    ensures
        cps == spec_cps(clicks as int, elapsed_ms as int),
        0 <= cps <= CPS_READING_MAX,
{
    if elapsed_ms == 0 {
        return 0;
    }
    let num: u64 = 2000 * (clicks as u64) + (elapsed_ms as u64);
    let den: u64 = 2 * (elapsed_ms as u64);
    let r: u64 = num / den;
    proof {
        vstd::arithmetic::div_mod::lemma_div_pos_is_pos(num as int, den as int);
    }
    if r >= CPS_READING_MAX as u64 {
        CPS_READING_MAX
    } else {
        r as i64
    }
}

} // verus!
