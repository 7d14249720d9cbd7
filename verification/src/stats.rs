//! Summary statistics over a daily series: maximum, minimum, sum and
//! truncated mean of the minute counters.

use vstd::prelude::*;
use crate::store::TimeApp;
use crate::timefmt::{time_chars, Time};

verus! {

/// The sum of the minute counters of a series.
pub open spec fn spec_sum(s: Seq<TimeApp>) -> int
    decreases s.len(),
{
    if s.len() == 0 {
        0
    } else {
        spec_sum(s.drop_last()) + s.last().min_total
    }
}

/// The largest minute counter of a series; zero for an empty one.
pub open spec fn spec_max(s: Seq<TimeApp>) -> int
    decreases s.len(),
{
    if s.len() == 0 {
        0
    } else if s.len() == 1 {
        s[0].min_total as int
    } else {
        let m = spec_max(s.drop_last());
        if s.last().min_total > m {
            s.last().min_total as int
        } else {
            m
        }
    }
}

/// The smallest minute counter of a series; zero for an empty one.
pub open spec fn spec_min(s: Seq<TimeApp>) -> int
    decreases s.len(),
{
    if s.len() == 0 {
        0
    } else if s.len() == 1 {
        s[0].min_total as int
    } else {
        let m = spec_min(s.drop_last());
        if s.last().min_total < m {
            s.last().min_total as int
        } else {
            m
        }
    }
}

/// The mean of a series' minute counters, truncated to whole minutes;
/// zero for an empty series.
pub open spec fn spec_mean(s: Seq<TimeApp>) -> int {
    if s.len() == 0 {
        0
    } else {
        spec_sum(s) / s.len() as int
    }
}

/// Maximum, minimum, sum and truncated mean of a series, as split
/// durations.
pub struct Stat {
    pub max: Time,
    pub min: Time,
    pub sum: Time,
    pub mean: Time,
}

impl Stat {
    /// Computes the statistics of a series; an empty series yields
    /// the all-zero statistics.
    pub fn new(values: &Vec<TimeApp>) -> (r: Stat)
        requires
            values@.len() <= 0x1000_0000,
        ensures
            r.max.wf() && r.max.minutes() == spec_max(values@),
            r.min.wf() && r.min.minutes() == spec_min(values@),
            r.sum.wf() && r.sum.minutes() == spec_sum(values@),
            r.mean.wf() && r.mean.minutes() == spec_mean(values@),
    {
        let n = values.len();
        if n == 0 {
            return Stat {
                max: Time::new(0),
                min: Time::new(0),
                sum: Time::new(0),
                mean: Time::new(0),
            };
        }
        let mut sum: u64 = values[0].min_total as u64;
        let mut min: u16 = values[0].min_total;
        let mut max: u16 = values[0].min_total;
        let mut i: usize = 1;
        proof {
            assert(values@.subrange(0, 1).drop_last() =~= values@.subrange(0, 0));
            assert(spec_sum(values@.subrange(0, 0)) == 0);
            assert(values@.subrange(0, 1).last() == values@[0]);
            assert(values@.subrange(0, 1)[0] == values@[0]);
            assert(spec_sum(values@.subrange(0, 1)) == values@[0].min_total);
            assert(spec_min(values@.subrange(0, 1)) == values@[0].min_total);
            assert(spec_max(values@.subrange(0, 1)) == values@[0].min_total);
        }
        while i < n
            invariant
                n == values@.len() <= 0x1000_0000,
                1 <= i <= n,
                sum == spec_sum(values@.subrange(0, i as int)),
                sum <= i * 0xFFFF,
                min as int == spec_min(values@.subrange(0, i as int)),
                max as int == spec_max(values@.subrange(0, i as int)),
            decreases n - i,
        {
            let v = values[i].min_total;
            proof {
                let p = values@.subrange(0, i as int);
                let q = values@.subrange(0, i + 1);
                assert(q.drop_last() =~= p);
                assert(q.last() == values@[i as int]);
                assert((i + 1) * 0xFFFF == i * 0xFFFF + 0xFFFF) by (nonlinear_arith);
            }
            sum = sum + v as u64;
            if v < min {
                min = v;
            }
            if v > max {
                max = v;
            }
            i = i + 1;
        }
        proof {
            assert(values@.subrange(0, n as int) =~= values@);
        }
        let mean: u64 = sum / (n as u64);
        Stat { max: Time::new(max as u64), min: Time::new(min as u64), sum: Time::new(sum), mean: Time::new(mean) }
    }

    /// The statistics rendered as the four labelled lines.
    pub fn text(&self) -> (r: String)
        requires
            self.max.wf(),
            self.min.wf(),
            self.sum.wf(),
            self.mean.wf(),
        ensures
            r@ == "Max : "@ + time_chars(self.max.minutes()) + "\nMin : "@ + time_chars(
                self.min.minutes(),
            ) + "\nSum : "@ + time_chars(self.sum.minutes()) + "\nMean: "@ + time_chars(
                self.mean.minutes(),
            ),
    {
        let mut r = String::from_str("Max : ");
        let t = self.max.text();
        r.append(t.as_str());
        r.append("\nMin : ");
        let t = self.min.text();
        r.append(t.as_str());
        r.append("\nSum : ");
        let t = self.sum.text();
        r.append(t.as_str());
        r.append("\nMean: ");
        let t = self.mean.text();
        r.append(t.as_str());
        proof {
            assert(r@ =~= "Max : "@ + time_chars(self.max.minutes()) + "\nMin : "@ + time_chars(
                self.min.minutes(),
            ) + "\nSum : "@ + time_chars(self.sum.minutes()) + "\nMean: "@ + time_chars(
                self.mean.minutes(),
            ));
        }
        r
    }
}

} // verus!
