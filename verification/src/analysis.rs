//! Figures drawn from an event's final donation list: the quartiles of the
//! amounts and the thresholds of the total whose crossing is timed.
use vstd::prelude::*;

verus! {

/// The positions of the upper quartile, the median and the lower quartile in
/// a list of `count` donations ordered by amount: `count*3/4`, `count/2`,
/// `count/4`.
pub open spec fn quartile_positions(count: u32) -> (int, int, int) {
    (count * 3 / 4, (count / 2) as int, (count / 4) as int)
}

/// The upper quartile, the median and the lower quartile of the amounts of
/// `count` donations listed by amount; `None` where the list is too short to
/// hold them.
pub fn quartile_amounts(by_amount: &Vec<i64>, count: u32) -> (res: Option<(i64, i64, i64)>)
    ensures
        ({
            let (u, m, l) = quartile_positions(count);
            match res {
                Some(r) => u < by_amount@.len() && r == (by_amount@[u], by_amount@[m], by_amount@[l]),
                None => u >= by_amount@.len(),
            }
        }),
{
    let c = count as u64;
    let u = (c * 3 / 4) as usize;
    let m = (c / 2) as usize;
    let l = (c / 4) as usize;
    if u >= by_amount.len() {
        return None;
    }
    Some((by_amount[u], by_amount[m], by_amount[l]))
}

/// When the amounts are listed in increasing order, the lower quartile is at
/// most the median, which is at most the upper quartile.
pub proof fn law_quartiles_are_ordered(by_amount: Seq<i64>, count: u32)
    requires
        forall|i: int, j: int| 0 <= i <= j < by_amount.len() ==> by_amount[i] <= by_amount[j],
        quartile_positions(count).0 < by_amount.len(),
    ensures
        ({
            let (u, m, l) = quartile_positions(count);
            by_amount[l] <= by_amount[m] <= by_amount[u]
        }),
{
    let (u, m, l) = quartile_positions(count);
    assert(l <= m <= u);
}

/// The quartile positions are the count's three quarters, half and quarter,
/// rounded down.
pub proof fn law_quartile_positions_round_down(count: u32)
    ensures
        ({
            let (u, m, l) = quartile_positions(count);
            &&& 4 * u <= 3 * count < 4 * u + 4
            &&& 2 * m <= count < 2 * m + 2
            &&& 4 * l <= count < 4 * l + 4
        }),
{
}

/// The gap between thresholds of the total, in cents: $100,000.
pub open spec fn threshold_interval() -> int {
    10000000
}

/// The thresholds whose crossing is timed: for each `i` in `1..13`, the total
/// `i` times the interval, with the totals a tenth of the interval below and
/// above it: `(lower, threshold, upper)`.
pub open spec fn spec_crossing_thresholds() -> Seq<(i64, i64, i64)> {
    Seq::new(12, |k: int| {
        let t = (k + 1) * threshold_interval();
        ((t - threshold_interval() / 10) as i64, t as i64, (t + threshold_interval() / 10) as i64)
    })
}

/// Twelve thresholds are timed, $100,000 apart from $100,000 to $1,200,000,
/// each with the totals $10,000 below and above it.
pub proof fn law_thresholds_every_hundred_thousand_dollars()
    ensures
        spec_crossing_thresholds().len() == 12,
        forall|k: int|
            0 <= k < 12 ==> ({
                let (lower, t, upper) = #[trigger] spec_crossing_thresholds()[k];
                &&& t == 10000000 * (k + 1)
                &&& lower == t - 1000000
                &&& upper == t + 1000000
            }),
{
}

/// The thresholds whose crossing is timed.
pub fn crossing_thresholds() -> (res: Vec<(i64, i64, i64)>)
    ensures
        res@ == spec_crossing_thresholds(),
{
    let interval: i64 = 10000000;
    let mut res: Vec<(i64, i64, i64)> = Vec::new();
    let mut i: i64 = 1;
    while i < 13
        invariant
            1 <= i <= 13,
            interval == threshold_interval(),
            res@ == spec_crossing_thresholds().take(i - 1),
        decreases 13 - i,
    {
        let threshold = i * interval;
        let lower = threshold - interval / 10;
        let upper = threshold + interval / 10;
        res.push((lower, threshold, upper));
        assert(spec_crossing_thresholds().take(i as int) == spec_crossing_thresholds().take(i - 1).push((lower, threshold, upper)));
        i += 1;
    }
    assert(spec_crossing_thresholds().take(12) == spec_crossing_thresholds());
    res
}

} // verus!
