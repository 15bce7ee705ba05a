//! Aggregate metrics derived from the latest snapshot list: how many
//! instruments are on screen and their average funding rate.

use vstd::prelude::*;

use crate::snapshot::MarketSnapshot;

verus! {

/// Computes summaries; stateless.
pub struct MetricsEngine;

/// The derived aggregates: instrument count and average funding rate, the
/// latter a fixed-point integer with eight decimal places like the rates
/// it averages.
#[derive(Clone, Copy, Debug)]
pub struct MetricsSummary {
    pub venues_online: usize,
    pub average_funding_rate: i64,
}

impl Default for MetricsSummary {
    /// The summary of an empty snapshot list.
    fn default() -> (r: Self)
        ensures
            r.venues_online == 0,
            r.average_funding_rate == 0,
    {
        MetricsSummary { venues_online: 0, average_funding_rate: 0 }
    }
}

/// The sum of the funding rates of a snapshot list.
pub open spec fn sum_rates(s: Seq<MarketSnapshot>) -> int
    decreases s.len(),
{
    if s.len() == 0 {
        0
    } else {
        sum_rates(s.drop_last()) + s.last().funding_rate
    }
}

/// Integer division truncated toward zero, as the machine divides.
pub open spec fn div_trunc(a: int, b: int) -> int {
    if a >= 0 {
        a / b
    } else {
        -((-a) / b)
    }
}

/// The summary of a snapshot list: its length, and the truncated mean of
/// its funding rates; all zero for an empty list.
pub open spec fn summary_spec(s: Seq<MarketSnapshot>) -> MetricsSummary {
    if s.len() == 0 {
        MetricsSummary { venues_online: 0, average_funding_rate: 0 }
    } else {
        MetricsSummary {
            venues_online: s.len() as usize,
            average_funding_rate: div_trunc(sum_rates(s), s.len() as int) as i64,
        }
    }
}

impl MetricsEngine {
    pub fn new() -> (r: Self) {
        MetricsEngine
    }

    /// Summarizes the snapshot list on display.
    pub fn summarize(&self, snapshots: &Vec<MarketSnapshot>) -> (r: MetricsSummary)
        ensures
            r == summary_spec(snapshots@),
    {
        let n = snapshots.len();
        if n == 0 {
            return MetricsSummary::default();
        }
        let mut sum: i128 = 0;
        let mut i: usize = 0;
        while i < n
            invariant
                i <= n,
                n == snapshots@.len(),
                sum == sum_rates(snapshots@.take(i as int)),
                -(i as int) * 0x8000_0000_0000_0000 <= sum <= (i as int) * 0x7fff_ffff_ffff_ffff,
            decreases n - i,
        {
            let rate = snapshots[i].funding_rate;
            proof {
                assert(snapshots@.take(i as int + 1).drop_last() =~= snapshots@.take(i as int));
                assert((i as int + 1) * 0x8000_0000_0000_0000 == (i as int) * 0x8000_0000_0000_0000
                    + 0x8000_0000_0000_0000) by (nonlinear_arith);
                assert((i as int + 1) * 0x7fff_ffff_ffff_ffff == (i as int) * 0x7fff_ffff_ffff_ffff
                    + 0x7fff_ffff_ffff_ffff) by (nonlinear_arith);
            }
            sum = sum + rate as i128;
            i += 1;
        }
        proof {
            assert(snapshots@.take(n as int) =~= snapshots@);
        }
        let count = n as i128;
        let average: i128 = if sum >= 0 {
            sum / count
        } else {
            -((-sum) / count)
        };
        proof {
            assert(0 <= (if sum >= 0 { sum as int } else { -(sum as int) }) / (count as int) <= (
            if sum >= 0 {
                (count as int) * 0x7fff_ffff_ffff_ffff
            } else {
                (count as int) * 0x8000_0000_0000_0000
            }) / (count as int)) by (nonlinear_arith)
                requires
                    count as int == n as int,
                    n > 0,
                    -(count as int) * 0x8000_0000_0000_0000 <= sum as int <= (count as int)
                        * 0x7fff_ffff_ffff_ffff,
            ;
            assert(((count as int) * 0x7fff_ffff_ffff_ffff) / (count as int)
                == 0x7fff_ffff_ffff_ffff) by (nonlinear_arith)
                requires
                    count as int > 0,
            ;
            assert(((count as int) * 0x8000_0000_0000_0000) / (count as int)
                == 0x8000_0000_0000_0000) by (nonlinear_arith)
                requires
                    count as int > 0,
            ;
        }
        MetricsSummary { venues_online: n, average_funding_rate: average as i64 }
    }
}

} // verus!
