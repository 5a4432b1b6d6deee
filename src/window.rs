//! Step alignment and windowing over sample timestamps, in milliseconds.
use vstd::prelude::*;

verus! {

/// The step grid `start, start + step, ...` up to `end`: `r` holds exactly the
/// grid points that do not pass `end`.
pub open spec fn is_step_grid(start: int, end: int, step: int, r: Seq<i64>) -> bool {
    &&& forall|i: int| 0 <= i < r.len() ==> #[trigger] r[i] == start + i * step
    &&& forall|i: int| 0 <= i < r.len() ==> #[trigger] r[i] <= end
    &&& start + r.len() * step > end
}

/// The step timestamps of a range query over `[start, end]` with step `step`.
pub fn generate_steps(start: i64, end: i64, step: i64) -> (r: Vec<i64>)
    requires
        step > 0,
        end + step <= i64::MAX,
    ensures
        is_step_grid(start as int, end as int, step as int, r@),
{
    let mut r: Vec<i64> = Vec::new();
    let mut t: i64 = start;
    assert(start + r@.len() * step == start) by (nonlinear_arith)
        requires
            r@.len() == 0,
    ;
    while t <= end
        invariant
            step > 0,
            end + step <= i64::MAX,
            t as int == start + r@.len() * step,
            r@.len() > 0 ==> t <= end + step,
            forall|i: int| 0 <= i < r@.len() ==> #[trigger] r@[i] == start + i * step,
            forall|i: int| 0 <= i < r@.len() ==> #[trigger] r@[i] <= end,
        decreases end + step - t,
    {
        let ghost n = r@.len();
        r.push(t);
        proof {
            assert(start + (n + 1) * step == start + n * step + step) by (nonlinear_arith);
        }
        t = t + step;
    }
    r
}

/// The tolerance for matching a sample to a step: half the grid spacing when
/// the grid has two or more steps, `fallback` otherwise.
pub open spec fn tolerance_of(steps: Seq<i64>, fallback: i64) -> int {
    if steps.len() >= 2 {
        (steps[1] - steps[0]) / 2
    } else {
        fallback as int
    }
}

/// Half the spacing of an ascending step grid, or `fallback` for a grid of
/// fewer than two steps.
pub fn alignment_tolerance(steps: &Vec<i64>, fallback: i64) -> (r: i64)
    requires
        steps@.len() >= 2 ==> steps@[0] <= steps@[1],
    ensures
        r == tolerance_of(steps@, fallback),
{
    if steps.len() >= 2 {
        let d: u64 = (steps[1] as i128 - steps[0] as i128) as u64;
        (d / 2) as i64
    } else {
        fallback
    }
}

/// Position `i` is the last one whose timestamp lies in `[lo, hi]`.
pub open spec fn is_last_within(ts: Seq<i64>, lo: int, hi: int, i: int) -> bool {
    &&& 0 <= i < ts.len()
    &&& lo <= ts[i] <= hi
    &&& forall|j: int| i < j < ts.len() ==> !(lo <= #[trigger] ts[j] <= hi)
}

/// The last sample position whose timestamp lies in `[lo, hi]`, if any.
pub fn last_within(ts: &Vec<i64>, lo: i128, hi: i128) -> (r: Option<usize>)
    ensures
        r matches Some(i) ==> is_last_within(ts@, lo as int, hi as int, i as int),
        r is None ==> forall|j: int| 0 <= j < ts@.len() ==> !(lo <= #[trigger] ts@[j] <= hi),
{
    let mut i: usize = ts.len();
    while i > 0
        invariant
            i <= ts@.len(),
            forall|j: int| i <= j < ts@.len() ==> !(lo <= #[trigger] ts@[j] <= hi),
        decreases i,
    {
        i -= 1;
        if lo <= ts[i] as i128 && ts[i] as i128 <= hi {
            return Some(i);
        }
    }
    None
}

/// For each step `t`, the last sample within `tolerance` of `t`: the value a
/// series has at that step after alignment.
pub fn align_to_steps(ts: &Vec<i64>, steps: &Vec<i64>, tolerance: i64) -> (r: Vec<Option<usize>>)
    ensures
        r@.len() == steps@.len(),
        forall|s: int| 0 <= s < r@.len() ==> match #[trigger] r@[s] {
            Some(i) => is_last_within(ts@, steps@[s] - tolerance, steps@[s] + tolerance, i as int),
            None => forall|j: int| 0 <= j < ts@.len() ==> !(steps@[s] - tolerance <= #[trigger] ts@[j]
                <= steps@[s] + tolerance),
        },
{
    let n = steps.len();
    let mut r: Vec<Option<usize>> = Vec::new();
    let mut s: usize = 0;
    while s < n
        invariant
            s <= n,
            n == steps@.len(),
            r@.len() == s,
            forall|k: int| 0 <= k < s ==> match #[trigger] r@[k] {
                Some(i) => is_last_within(ts@, steps@[k] - tolerance, steps@[k] + tolerance, i as int),
                None => forall|j: int| 0 <= j < ts@.len() ==> !(steps@[k] - tolerance <= #[trigger] ts@[j]
                    <= steps@[k] + tolerance),
            },
        decreases n - s,
    {
        let t = steps[s] as i128;
        r.push(last_within(ts, t - tolerance as i128, t + tolerance as i128));
        s += 1;
    }
    r
}

/// The positions whose timestamp lies in `[lo, hi]`, ascending.
pub open spec fn positions_within(ts: Seq<i64>, lo: int, hi: int) -> Seq<usize>
    decreases ts.len(),
{
    if ts.len() == 0 {
        seq![]
    } else {
        let rest = positions_within(ts.drop_last(), lo, hi);
        if lo <= ts.last() <= hi {
            rest.push((ts.len() - 1) as usize)
        } else {
            rest
        }
    }
}

/// The samples of a range-function window `[t - range, t]`, by position.
pub fn window_positions(ts: &Vec<i64>, t: i64, range: i64) -> (r: Vec<usize>)
    ensures
        r@ == positions_within(ts@, t - range, t as int),
{
    let lo = t as i128 - range as i128;
    let n = ts.len();
    let mut r: Vec<usize> = Vec::new();
    let mut i: usize = 0;
    while i < n
        invariant
            i <= n,
            n == ts@.len(),
            lo == t - range,
            r@ == positions_within(ts@.subrange(0, i as int), t - range, t as int),
        decreases n - i,
    {
        assert(ts@.subrange(0, i as int + 1).drop_last() =~= ts@.subrange(0, i as int));
        if lo <= ts[i] as i128 && ts[i] <= t {
            r.push(i);
        }
        i += 1;
    }
    assert(ts@.subrange(0, n as int) =~= ts@);
    r
}

/// The default look-back, in milliseconds, when a query holds no range
/// selector.
pub const DEFAULT_LOOKBACK_MS: u64 = 300000;

/// The largest of the ranges, or the default look-back when there is none.
pub open spec fn lookback_of(ranges: Seq<u64>) -> u64
    decreases ranges.len(),
{
    if ranges.len() == 0 {
        DEFAULT_LOOKBACK_MS
    } else if ranges.len() == 1 {
        ranges[0]
    } else {
        let m = lookback_of(ranges.drop_last());
        if ranges.last() > m { ranges.last() } else { m }
    }
}

/// The look-back of a query, given the ranges (in milliseconds) of its range
/// selectors: the longest range, or five minutes when there is none.
pub fn lookback_ms(ranges: &Vec<u64>) -> (r: u64)
    ensures
        r == lookback_of(ranges@),
        ranges@.len() > 0 ==> forall|i: int| 0 <= i < ranges@.len() ==> r >= #[trigger] ranges@[i],
        ranges@.len() > 0 ==> ranges@.contains(r),
{
    let n = ranges.len();
    if n == 0 {
        return DEFAULT_LOOKBACK_MS;
    }
    let mut m = ranges[0];
    let mut i: usize = 1;
    assert(ranges@[0] == ranges@[0]);
    while i < n
        invariant
            1 <= i <= n,
            n == ranges@.len(),
            m == lookback_of(ranges@.subrange(0, i as int)),
            forall|j: int| 0 <= j < i ==> m >= #[trigger] ranges@[j],
            ranges@.contains(m),
        decreases n - i,
    {
        assert(ranges@.subrange(0, i as int + 1).drop_last() =~= ranges@.subrange(0, i as int));
        if ranges[i] > m {
            m = ranges[i];
        }
        i += 1;
    }
    assert(ranges@.subrange(0, n as int) =~= ranges@);
    m
}

} // verus!
