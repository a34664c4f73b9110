//! The process-wide counters fed by damage resolution and dust cleanup and
//! read by the shop.
use vstd::prelude::*;

verus! {

/// Smoothing divisor of the collect-rate average: each sample moves the
/// average a fifth of the way toward itself.
pub const RATE_SMOOTHING_DIV: u64 = 5;

/// Collected dust data (the shop currency) and a smoothed collection rate
/// in milli-dust per second.
#[derive(Clone, Copy, PartialEq, Eq, Structural, Debug)]
pub struct Inventory {
    pub dust_data: u64,
    pub collect_rate_milli: u64,
}

/// The collection rate one tick shows: `credited` dust over `delta_ms`
/// milliseconds, in milli-dust per second.
pub open spec fn spec_rate_sample(credited: int, delta_ms: int) -> int {
    credited * 1_000_000 / delta_ms
}

/// The smoothed rate after one sample: it moves a fifth of the way
/// toward the sample.
pub open spec fn spec_smoothed(rate: int, sample: int) -> int {
    if sample >= rate {
        rate + (sample - rate) / (RATE_SMOOTHING_DIV as int)
    } else {
        rate - (rate - sample) / (RATE_SMOOTHING_DIV as int)
    }
}

impl Inventory {
    /// The counters' invariant: the smoothed rate stays within the band
    /// any admissible sample lies in.
    pub open spec fn wf(&self) -> bool {
        self.collect_rate_milli <= 10_000_000_000_000_000
    }

    /// A session starts with nothing collected.
    pub fn new() -> (inv: Inventory)
        ensures
            inv.wf(),
            inv.dust_data == 0,
            inv.collect_rate_milli == 0,
    {
        Inventory { dust_data: 0, collect_rate_milli: 0 }
    }

    /// Add collected dust data, saturating at the counter's capacity.
    pub fn credit(&mut self, amount: u64)
        ensures
            final(self).dust_data == if old(self).dust_data + amount <= u64::MAX {
                old(self).dust_data + amount
            } else {
                u64::MAX as int
            },
            final(self).collect_rate_milli == old(self).collect_rate_milli,
    {
        if amount <= u64::MAX - self.dust_data {
            self.dust_data = self.dust_data + amount;
        } else {
            self.dust_data = u64::MAX;
        }
    }

    /// Spend `amount` of dust data; the caller has checked affordability.
    pub fn spend(&mut self, amount: u64)
        requires
            amount <= old(self).dust_data,
        ensures
            final(self).dust_data == old(self).dust_data - amount,
            final(self).collect_rate_milli == old(self).collect_rate_milli,
    {
        self.dust_data = self.dust_data - amount;
    }

    /// Fold one tick's collection into the smoothed rate: the average moves
    /// a fifth of the way toward this tick's sample.
    pub fn record_collection(&mut self, credited: u64, delta_ms: u64)
        requires
            1 <= delta_ms,
            credited <= 10_000_000_000,
            old(self).wf(),
        ensures
            final(self).wf(),
            final(self).dust_data == old(self).dust_data,
            final(self).collect_rate_milli == spec_smoothed(
                old(self).collect_rate_milli as int,
                spec_rate_sample(credited as int, delta_ms as int),
            ),
    {
        proof {
            vstd::arithmetic::div_mod::lemma_div_pos_is_pos(credited * 1_000_000, delta_ms as int);
            vstd::arithmetic::div_mod::lemma_div_is_ordered(
                credited * 1_000_000,
                10_000_000_000_000_000,
                delta_ms as int,
            );
        }
        let sample: u64 = credited * 1_000_000 / delta_ms;
        if sample >= self.collect_rate_milli {
            self.collect_rate_milli = self.collect_rate_milli + (sample - self.collect_rate_milli) / RATE_SMOOTHING_DIV;
        } else {
            self.collect_rate_milli = self.collect_rate_milli - (self.collect_rate_milli - sample) / RATE_SMOOTHING_DIV;
        }
    }
}

} // verus!
