//! Turning pairs of monotonically increasing counter snapshots into rates,
//! defensively against identical, reset, or out-of-order samples.
use vstd::prelude::*;

use crate::cpu::CpuTimes;

verus! {

/// A dimensionless ratio held exactly as numerator over denominator.
/// Well-formed values always lie in [0, 1].
#[derive(Clone, Copy, Debug, PartialEq, Eq, Structural)]
pub struct Ratio {
    pub num: u128,
    pub den: u128,
}

impl Ratio {
    pub open spec fn wf(self) -> bool {
        self.den >= 1 && self.num <= self.den
    }

    pub open spec fn is_zero(self) -> bool {
        self.num == 0
    }
}

/// The busy ratio two cpu snapshots denote: `1 - (delta idle / delta total)`,
/// as a numerator-denominator pair. A non-positive total delta (identical
/// samples, or a counter reset) reports zero by policy rather than failing;
/// an idle delta outside `[0, delta total]` is clamped to keep the ratio
/// within `[0, 1]`.
pub open spec fn busy_ratio_spec(prev: CpuTimes, cur: CpuTimes) -> (int, int) {
    let dt = cur.total() - prev.total();
    let di = cur.idle_total() - prev.idle_total();
    if dt <= 0 {
        (0, 1)
    } else if di <= 0 {
        (dt, dt)
    } else if di >= dt {
        (0, dt)
    } else {
        (dt - di, dt)
    }
}

fn total_ticks(c: &CpuTimes) -> (t: u128)
    ensures
        t == c.total(),
{
    c.user as u128 + c.nice as u128 + c.system as u128 + c.idle as u128 + c.iowait as u128
        + c.irq as u128 + c.softirq as u128 + c.steal as u128 + c.guest as u128
        + c.guest_nice as u128
}

fn idle_ticks(c: &CpuTimes) -> (t: u128)
    ensures
        t == c.idle_total(),
{
    c.idle as u128 + c.iowait as u128
}

/// Fraction of elapsed tick time the cpu spent non-idle between the two
/// snapshots. The result is always a well-formed ratio in [0, 1], and it is
/// zero whenever no tick time elapsed — in particular for identical
/// snapshots.
pub fn busy_ratio(prev: &CpuTimes, cur: &CpuTimes) -> (r: Ratio)
    ensures
        (r.num as int, r.den as int) == busy_ratio_spec(*prev, *cur),
        r.wf(),
        cur.total() <= prev.total() ==> r.is_zero(),
        prev == cur ==> r.is_zero(),
{
    let pt = total_ticks(prev);
    let ct = total_ticks(cur);
    if ct <= pt {
        return Ratio { num: 0, den: 1 };
    }
    let dt = ct - pt;
    let pi = idle_ticks(prev);
    let ci = idle_ticks(cur);
    if ci <= pi {
        Ratio { num: dt, den: dt }
    } else {
        let di = ci - pi;
        if di >= dt {
            Ratio { num: 0, den: dt }
        } else {
            Ratio { num: dt - di, den: dt }
        }
    }
}

/// A throughput sample: how much a cumulative counter advanced over how
/// much elapsed time. Unlike `Ratio`, the delta may exceed the elapsed time.
#[derive(Clone, Copy, Debug, PartialEq, Eq, Structural)]
pub struct Rate {
    pub delta: u64,
    pub elapsed: u64,
}

/// The advance of one cumulative counter per elapsed time unit, the shape
/// shared by disk throughput. No elapsed time — or time running backwards —
/// reports a zero rate by policy; a counter running backwards (a reset)
/// contributes a zero delta.
pub fn counter_rate(prev_count: u64, cur_count: u64, prev_time: u64, cur_time: u64) -> (r: Rate)
    ensures
        cur_time <= prev_time ==> r == (Rate { delta: 0u64, elapsed: 1u64 }),
        cur_time > prev_time ==> {
            &&& r.elapsed == cur_time - prev_time
            &&& cur_count >= prev_count ==> r.delta == cur_count - prev_count
            &&& cur_count < prev_count ==> r.delta == 0
        },
        r.elapsed >= 1,
{
    if cur_time <= prev_time {
        Rate { delta: 0, elapsed: 1 }
    } else {
        let elapsed = cur_time - prev_time;
        let delta = if cur_count >= prev_count {
            cur_count - prev_count
        } else {
            0
        };
        Rate { delta, elapsed }
    }
}

} // verus!
