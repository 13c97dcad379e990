//! The time-series chart: converts an ordered sequence of
//! (timestamp, value, is-forecast) points into an axis-scaled line chart
//! with a solid historical stroke, a dashed forecast stroke joined to it
//! without a gap, a current-time marker, gridlines, and tick labels.
//!
//! Points are placed at equal horizontal spacing by index; the vertical
//! scale maps the value range onto the chart area. Coordinates are held in
//! hundredths of a unit. Empty input, and a flat series whose values have
//! no spread, render as the empty string.

use vstd::prelude::*;

verus! {

use vstd::arithmetic::div_mod::lemma_div_is_ordered;
use vstd::arithmetic::div_mod::lemma_div_multiples_vanish;
use vstd::arithmetic::div_mod::lemma_fundamental_div_mod;
use vstd::arithmetic::div_mod::lemma_fundamental_div_mod_converse;
use vstd::arithmetic::div_mod::lemma_mod_bound;
use vstd::arithmetic::mul::lemma_mul_inequality;
use vstd::string::StringExecFns;
use crate::text::dec_int;
use crate::text::dec_i64;
use crate::text::fixed2;
use crate::text::fmt_fixed2;
use crate::text::fmt_fixed2_u;
use crate::timefmt::hhmm;
use crate::timefmt::fmt_hhmm;
use crate::timefmt::parse_instant;
use crate::timefmt::parse_point_time;

/// One sample of the carbon-intensity series: its minute-precision
/// timestamp, its value, and whether the value is a forecast rather than a
/// measurement.
pub struct IntensityPoint {
    /// The start time of the reading, as a minute-precision timestamp
    /// string.
    pub datetime: String,
    /// The carbon-intensity value of the reading.
    pub intensity: i32,
    /// Whether the value is forecast rather than measured.
    pub is_forecast: bool,
}

/// The largest point count a render call accepts.
pub const MAX_POINTS: usize = 43000;

/// The smallest value among the points.
pub open spec fn min_val(s: Seq<IntensityPoint>) -> int
    decreases s.len(),
{
    if s.len() == 0 {
        0
    } else if s.len() == 1 {
        s[0].intensity as int
    } else {
        let m = min_val(s.drop_last());
        if s.last().intensity < m {
            s.last().intensity as int
        } else {
            m
        }
    }
}

/// The largest value among the points.
pub open spec fn max_val(s: Seq<IntensityPoint>) -> int
    decreases s.len(),
{
    if s.len() == 0 {
        0
    } else if s.len() == 1 {
        s[0].intensity as int
    } else {
        let m = max_val(s.drop_last());
        if s.last().intensity > m {
            s.last().intensity as int
        } else {
            m
        }
    }
}

/// Every point's value lies between the minimum and the maximum.
pub proof fn lemma_min_max(s: Seq<IntensityPoint>, i: int)
    requires
        0 <= i < s.len(),
    ensures
        min_val(s) <= s[i].intensity <= max_val(s),
    decreases s.len(),
{
    if s.len() > 1 && i < s.len() - 1 {
        lemma_min_max(s.drop_last(), i);
    }
}

/// Computes the smallest and largest value among the points.
fn min_max(points: &Vec<IntensityPoint>) -> (r: (i64, i64))
    requires
        points@.len() >= 1,
    ensures
        r.0 == min_val(points@),
        r.1 == max_val(points@),
        -2147483648 <= r.0 <= r.1 <= 2147483647,
{
    let mut mn: i64 = points[0].intensity as i64;
    let mut mx: i64 = mn;
    let mut i: usize = 1;
    while i < points.len()
        invariant
            1 <= i <= points@.len(),
            mn == min_val(points@.take(i as int)),
            mx == max_val(points@.take(i as int)),
            -2147483648 <= mn <= mx <= 2147483647,
        decreases points@.len() - i,
    {
        proof {
            assert(points@.take(i + 1).drop_last() =~= points@.take(i as int));
        }
        let v = points[i].intensity as i64;
        if v < mn {
            mn = v;
        }
        if v > mx {
            mx = v;
        }
        i = i + 1;
    }
    proof {
        assert(points@.take(points@.len() as int) =~= points@);
    }
    (mn, mx)
}

/// The value-axis tick spacing for a value spread: a quarter of the spread
/// rounded up, but never finer than twenty units.
pub open spec fn step_spec(range: int) -> int {
    let c = (range + 3) / 4;
    if c < 20 {
        20
    } else {
        c
    }
}

/// Computes the value-axis tick spacing.
pub fn tick_step(min_v: i64, max_v: i64) -> (st: u64)
    requires
        -2147483648 <= min_v < max_v <= 2147483647,
    ensures
        st == step_spec(max_v - min_v),
        20 <= st <= 1100000000,
{
    let range = (max_v - min_v) as u64;
    let c = (range + 3) / 4;
    if c < 20 {
        20
    } else {
        c
    }
}

/// The largest multiple of the step at or below a value.
pub open spec fn floor_multiple(v: int, step: int) -> int {
    (v / step) * step
}

/// The smallest multiple of the step at or above a value.
pub open spec fn ceil_multiple(v: int, step: int) -> int {
    -((-v) / step) * step
}

/// The euclidean quotient of a non-negative magnitude rounded upward.
fn div_round_up(m: u64, step: u64) -> (q: u64)
    requires
        step >= 1,
        m <= 0x4000000000000000,
    ensures
        q * step >= m,
        q * step < m + step,
        q == -((-(m as int)) / (step as int)),
        q <= m,
{
    let q0 = m / step;
    let r0 = m % step;
    proof {
        lemma_fundamental_div_mod(m as int, step as int);
        lemma_mod_bound(m as int, step as int);
        assert(step as int * q0 as int == q0 as int * step as int) by (nonlinear_arith);
        assert(m as int == q0 as int * step as int + r0 as int);
    }
    if r0 == 0 {
        proof {
            assert(-(m as int) == (-(q0 as int)) * (step as int)) by (nonlinear_arith)
                requires
                    m as int == q0 as int * step as int,
            ;
            lemma_div_multiples_vanish(-(q0 as int), step as int);
            assert((-(m as int)) / (step as int) == -(q0 as int));
            assert(q0 as int <= q0 as int * step as int) by (nonlinear_arith)
                requires
                    step >= 1,
                    q0 >= 0,
            ;
        }
        q0
    } else {
        proof {
            assert((-(q0 as int) - 1) * (step as int) + (step as int - r0 as int) == -(m as int))
                by (nonlinear_arith)
                requires
                    m as int == q0 as int * step as int + r0 as int,
            ;
            lemma_fundamental_div_mod_converse(
                -(m as int),
                step as int,
                -(q0 as int) - 1,
                step as int - r0 as int,
            );
            assert((-(m as int)) / (step as int) == -(q0 as int) - 1);
            assert((q0 as int + 1) * (step as int) == q0 as int * step as int + step as int)
                by (nonlinear_arith);
            assert(q0 as int + 1 <= q0 as int * step as int + r0 as int) by (nonlinear_arith)
                requires
                    step >= 1,
                    q0 >= 0,
                    r0 >= 1,
            ;
        }
        q0 + 1
    }
}

/// Computes the first and last value-axis tick: the largest step multiple
/// at or below the minimum, and the smallest at or above the maximum.
pub fn tick_bounds(min_v: i64, max_v: i64) -> (r: (i64, i64))
    requires
        -2147483648 <= min_v < max_v <= 2147483647,
    ensures
        r.0 == floor_multiple(min_v as int, step_spec(max_v - min_v)),
        r.1 == ceil_multiple(max_v as int, step_spec(max_v - min_v)),
        min_v - step_spec(max_v - min_v) < r.0 <= min_v,
        max_v <= r.1 < max_v + step_spec(max_v - min_v),
{
    let step = tick_step(min_v, max_v);
    let t0: i64 = if min_v >= 0 {
        let q = (min_v as u64) / step;
        proof {
            lemma_fundamental_div_mod(min_v as int, step as int);
            lemma_mod_bound(min_v as int, step as int);
            assert(step as int * q as int == q as int * step as int) by (nonlinear_arith);
            assert(min_v as int == q as int * step as int + (min_v as int) % (step as int));
        }
        (q * step) as i64
    } else {
        let m = (-min_v) as u64;
        let qn = div_round_up(m, step);
        proof {
            assert((-(qn as int)) * (step as int) == -(qn as int * step as int))
                by (nonlinear_arith);
            assert(min_v as int / (step as int) == -(qn as int));
        }
        -((qn * step) as i64)
    };
    let t1: i64 = if max_v >= 0 {
        let qc = div_round_up(max_v as u64, step);
        proof {
            assert((-((-(max_v as int)) / (step as int))) * (step as int) == qc as int * (
            step as int));
        }
        (qc * step) as i64
    } else {
        let m = (-max_v) as u64;
        let q = m / step;
        proof {
            lemma_fundamental_div_mod(m as int, step as int);
            lemma_mod_bound(m as int, step as int);
            assert(step as int * q as int == q as int * step as int) by (nonlinear_arith);
            assert(m as int == q as int * step as int + (m as int) % (step as int));
            assert((-(q as int)) * (step as int) == -(q as int * step as int))
                by (nonlinear_arith);
        }
        -((q * step) as i64)
    };
    (t0, t1)
}

/// The x coordinate, in hundredths, of the point at an index: points are
/// spread evenly across the chart width, the first at the left edge and
/// the last at the right. Positions are quantized to hundredths of a unit;
/// the accepted point count stays within the chart width's resolution
/// (43000 hundredths), so distinct indices keep distinct positions — see
/// `lemma_x_positions_strictly_increase`.
pub open spec fn x_spec(i: int, len: int) -> int {
    5000 + i * 43000 / (len - 1)
}

/// Law: point positions strictly increase with the index: within the
/// accepted point count, each index's position exceeds the previous one by
/// at least one hundredth of a unit, so no two points are drawn at the
/// same x.
pub proof fn lemma_x_positions_strictly_increase(i: int, len: int)
    requires
        2 <= len <= 43000,
        0 <= i < len - 1,
    ensures
        x_spec(i, len) < x_spec(i + 1, len),
{
    let d = len - 1;
    let q = i * 43000 / d;
    let r = (i * 43000) % d;
    lemma_fundamental_div_mod(i * 43000, d);
    lemma_mod_bound(i * 43000, d);
    assert((i + 1) * 43000 == i * 43000 + 43000) by (nonlinear_arith);
    assert(i * 43000 + d == d * (q + 1) + r) by (nonlinear_arith)
        requires
            i * 43000 == d * q + r,
    ;
    lemma_fundamental_div_mod_converse(i * 43000 + d, d, q + 1, r);
    lemma_div_is_ordered(i * 43000 + d, i * 43000 + 43000, d);
}

/// Computes the x coordinate of a point index.
fn x_pos(i: usize, len: usize) -> (r: u64)
    requires
        2 <= len <= MAX_POINTS,
        i < len,
    ensures
        r == x_spec(i as int, len as int),
        5000 <= r <= 48000,
{
    let num = (i as u64) * 43000;
    let den = (len as u64) - 1;
    proof {
        lemma_mul_inequality(i as int, len as int - 1, 43000);
        lemma_div_is_ordered(i as int * 43000, (len as int - 1) * 43000, len as int - 1);
        assert((len as int - 1) * 43000 == 43000 * (len as int - 1)) by (nonlinear_arith);
        lemma_div_multiples_vanish(43000, len as int - 1);
    }
    5000 + num / den
}

/// The y coordinate, in hundredths, of a value on the chart's linear
/// vertical scale: the minimum maps exactly to the chart bottom (14000),
/// the maximum exactly to the chart top (2000), and values in between
/// linearly, rounded down to the chart area's hundredth-unit resolution of
/// 12000 steps. A spread wider than 12000 units therefore maps some
/// neighboring values to one position; the affine endpoints stay exact.
pub open spec fn y_point_spec(v: int, min: int, range: int) -> int {
    14000 - (v - min) * 12000 / range
}

/// Law: while the value spread stays within the chart area's vertical
/// resolution, larger values plot strictly higher: adjacent values never
/// share a y position.
pub proof fn lemma_y_strictly_decreasing(v: int, min: int, range: int)
    requires
        0 < range <= 12000,
        min <= v < min + range,
    ensures
        y_point_spec(v + 1, min, range) < y_point_spec(v, min, range),
{
    let a = (v - min) * 12000;
    let q = a / range;
    let r = a % range;
    lemma_fundamental_div_mod(a, range);
    lemma_mod_bound(a, range);
    assert((v + 1 - min) * 12000 == a + 12000) by (nonlinear_arith)
        requires
            a == (v - min) * 12000,
    ;
    assert(a + range == range * (q + 1) + r) by (nonlinear_arith)
        requires
            a == range * q + r,
    ;
    lemma_fundamental_div_mod_converse(a + range, range, q + 1, r);
    lemma_div_is_ordered(a + range, a + 12000, range);
}

/// Computes the y coordinate of a point's value, which always lies within
/// the chart area.
fn point_y(v: i64, min_v: i64, range: u64) -> (r: u64)
    requires
        0 < range <= 4294967295,
        min_v <= v <= min_v + range,
        -2147483648 <= min_v <= 2147483647,
    ensures
        r == y_point_spec(v as int, min_v as int, range as int),
        2000 <= r <= 14000,
{
    let d = (v - min_v) as u64;
    proof {
        lemma_mul_inequality(d as int, range as int, 12000);
        lemma_div_is_ordered(d as int * 12000, range as int * 12000, range as int);
        assert(range as int * 12000 == 12000 * (range as int)) by (nonlinear_arith);
        lemma_div_multiples_vanish(12000, range as int);
    }
    let off = (d * 12000) / range;
    14000 - off
}

/// Computes the y coordinate of a value-axis tick, which may lie outside
/// the chart area when the tick runs past the value range.
fn tick_y(v: i64, min_v: i64, range: u64) -> (r: i64)
    requires
        0 < range <= 4294967295,
        -1099511627776 <= v - min_v <= 1099511627776,
    ensures
        r == y_point_spec(v as int, min_v as int, range as int),
        -20000000000000000 <= r <= 20000000000000000,
{
    if v >= min_v {
        let d = (v - min_v) as u64;
        proof {
            lemma_mul_inequality(d as int, 1099511627776, 12000);
            lemma_fundamental_div_mod(d as int * 12000, range as int);
            lemma_mod_bound(d as int * 12000, range as int);
            assert((d as int * 12000) / (range as int) <= d as int * 12000) by (nonlinear_arith)
                requires
                    d as int * 12000 == range as int * ((d as int * 12000) / (range as int)) + (
                    d as int * 12000) % (range as int),
                    (d as int * 12000) % (range as int) >= 0,
                    range >= 1,
                    (d as int * 12000) / (range as int) >= 0,
            ;
            lemma_div_is_ordered(0, d as int * 12000, range as int);
        }
        let off = (d * 12000) / range;
        14000 - (off as i64)
    } else {
        let m = (min_v - v) as u64;
        proof {
            lemma_mul_inequality(m as int, 1099511627776, 12000);
        }
        let num = m * 12000;
        let q = div_round_up(num, range);
        proof {
            assert((v - min_v) * 12000 == -(num as int)) by (nonlinear_arith)
                requires
                    m == min_v - v,
                    num == m * 12000,
            ;
        }
        14000 + (q as i64)
    }
}

/// The coordinate pair of a point in path data: its x and y, separated by
/// a space.
pub open spec fn point_pair(s: Seq<IntensityPoint>, min: int, range: int, i: int) -> Seq<char> {
    fixed2(x_spec(i, s.len() as int)) + " "@ + fixed2(
        y_point_spec(s[i].intensity as int, min, range),
    )
}

/// The historical and forecast path data over the first `n` points: the
/// historical path collects the measured points, the forecast path the
/// forecast points, each as one connected polyline in input order. The
/// forecast path is seeded from the immediately preceding point the first
/// time a forecast point follows other points, so the two strokes join
/// without a gap.
pub open spec fn paths_upto(s: Seq<IntensityPoint>, min: int, range: int, n: int) -> (Seq<char>,
    Seq<char>)
    decreases n,
{
    if n <= 0 {
        (Seq::<char>::empty(), Seq::<char>::empty())
    } else {
        let prev = paths_upto(s, min, range, n - 1);
        let i = n - 1;
        if i == 0 {
            if s[0].is_forecast {
                (prev.0, "M "@ + point_pair(s, min, range, 0))
            } else {
                ("M "@ + point_pair(s, min, range, 0), prev.1)
            }
        } else if s[i].is_forecast {
            if prev.1.len() == 0 {
                (
                    prev.0,
                    "M "@ + point_pair(s, min, range, i - 1) + " L "@ + point_pair(
                        s,
                        min,
                        range,
                        i,
                    ),
                )
            } else {
                (prev.0, prev.1 + " L "@ + point_pair(s, min, range, i))
            }
        } else {
            (prev.0 + " L "@ + point_pair(s, min, range, i), prev.1)
        }
    }
}

/// Renders one point's coordinate pair.
fn point_pair_markup(points: &Vec<IntensityPoint>, min_v: i64, range: u64, i: usize) -> (r: String)
    requires
        2 <= points@.len() <= MAX_POINTS,
        i < points@.len(),
        0 < range <= 4294967295,
        -2147483648 <= min_v <= 2147483647,
        min_v == min_val(points@),
        min_v + range == max_val(points@),
    ensures
        r@ == point_pair(points@, min_v as int, range as int, i as int),
{
    proof {
        lemma_min_max(points@, i as int);
    }
    let x = x_pos(i, points.len());
    let y = point_y(points[i].intensity as i64, min_v, range);
    let mut r = fmt_fixed2_u(x);
    r.append(" ");
    let ys = fmt_fixed2_u(y);
    r.append(ys.as_str());
    proof {
        assert(r@ =~= point_pair(points@, min_v as int, range as int, i as int));
    }
    r
}

/// Renders the historical and forecast path data of the series.
pub fn series_paths(points: &Vec<IntensityPoint>) -> (r: (String, String))
    requires
        2 <= points@.len() <= MAX_POINTS,
        min_val(points@) < max_val(points@),
    ensures
        r.0@ == paths_upto(
            points@,
            min_val(points@),
            max_val(points@) - min_val(points@),
            points@.len() as int,
        ).0,
        r.1@ == paths_upto(
            points@,
            min_val(points@),
            max_val(points@) - min_val(points@),
            points@.len() as int,
        ).1,
{
    let (mn, mx) = min_max(points);
    let range = (mx - mn) as u64;
    let mut hist = String::new();
    let mut fore = String::new();
    let mut i: usize = 0;
    while i < points.len()
        invariant
            2 <= points@.len() <= MAX_POINTS,
            i <= points@.len(),
            mn == min_val(points@),
            mx == max_val(points@),
            -2147483648 <= mn < mx <= 2147483647,
            range == mx - mn,
            hist@ == paths_upto(points@, mn as int, range as int, i as int).0,
            fore@ == paths_upto(points@, mn as int, range as int, i as int).1,
        decreases points@.len() - i,
    {
        let pair = point_pair_markup(points, mn, range, i);
        if i == 0 {
            if points[0].is_forecast {
                fore = String::from_str("M ");
                fore.append(pair.as_str());
            } else {
                hist = String::from_str("M ");
                hist.append(pair.as_str());
            }
        } else if points[i].is_forecast {
            if fore.as_str().is_empty() {
                let prev_pair = point_pair_markup(points, mn, range, i - 1);
                fore = String::from_str("M ");
                fore.append(prev_pair.as_str());
                fore.append(" L ");
                fore.append(pair.as_str());
            } else {
                fore.append(" L ");
                fore.append(pair.as_str());
            }
        } else {
            hist.append(" L ");
            hist.append(pair.as_str());
        }
        proof {
            assert(hist@ =~= paths_upto(points@, mn as int, range as int, i + 1).0);
            assert(fore@ =~= paths_upto(points@, mn as int, range as int, i + 1).1);
        }
        i = i + 1;
    }
    (hist, fore)
}

/// The first index at or after `k` whose parsed time lies strictly after
/// `now`, among the given parsed times.
pub open spec fn first_after_from(ts: Seq<Option<i64>>, now: int, k: int) -> Option<int>
    decreases ts.len() - k,
{
    if k < 0 || k >= ts.len() {
        None
    } else if ts[k] matches Some(t) && t > now {
        Some(k)
    } else {
        first_after_from(ts, now, k + 1)
    }
}

/// Where the current-time marker goes among parsed times: at the first
/// point strictly after `now`, or at the midpoint index when every point
/// lies in the past or nothing parses.
pub open spec fn marker_of_times(ts: Seq<Option<i64>>, now: int) -> int {
    match first_after_from(ts, now, 0) {
        Some(i) => i,
        None => ts.len() as int / 2,
    }
}

/// The parsed time of each point, in order.
pub open spec fn parsed_times(s: Seq<IntensityPoint>) -> Seq<Option<i64>> {
    Seq::new(s.len(), |i: int| parse_instant(s[i].datetime@))
}

/// Where the current-time marker goes for the given points.
pub open spec fn marker_idx_spec(s: Seq<IntensityPoint>, now: int) -> int {
    marker_of_times(parsed_times(s), now)
}

/// Picks the marker index from already-parsed point times: the first time
/// strictly after `now`, or the midpoint index as a fallback.
pub fn marker_index_of_times(times: &Vec<Option<i64>>, now: i64) -> (r: usize)
    ensures
        r == marker_of_times(times@, now as int),
        times@.len() > 0 ==> r < times@.len(),
{
    let n = times.len();
    let mut k: usize = 0;
    while k < n
        invariant
            k <= n,
            n == times@.len(),
            first_after_from(times@, now as int, 0) == first_after_from(times@, now as int, k as int),
        decreases n - k,
    {
        let t = times[k];
        match t {
            Some(v) => {
                if v > now {
                    return k;
                }
            },
            None => {},
        }
        k = k + 1;
    }
    n / 2
}

/// Picks the marker index for the given points and the current time.
pub fn marker_index(points: &Vec<IntensityPoint>, now: i64) -> (r: usize)
    ensures
        r == marker_idx_spec(points@, now as int),
        points@.len() > 0 ==> r < points@.len(),
{
    let mut times: Vec<Option<i64>> = Vec::new();
    let mut i: usize = 0;
    while i < points.len()
        invariant
            i <= points@.len(),
            times@.len() == i,
            forall|j: int| 0 <= j < i ==> times@[j] == parse_instant(points@[j].datetime@),
        decreases points@.len() - i,
    {
        let t = parse_point_time(points[i].datetime.as_str());
        times.push(t);
        i = i + 1;
    }
    proof {
        assert(times@ =~= parsed_times(points@));
    }
    marker_index_of_times(&times, now)
}

/// One value-axis tick label: the tick value, right-aligned beside the
/// chart at the tick's height.
pub open spec fn y_label_row(v: int, min: int, range: int) -> Seq<char> {
    "<text x=\"45\" y=\""@ + fixed2(y_point_spec(v, min, range) + 300)
        + "\" font-family=\"Arial, sans-serif\" font-size=\"10\" fill=\"#6c757d\" text-anchor=\"end\">"@
        + dec_int(v) + "</text>"@
}

/// One full-width horizontal gridline at a tick's height.
pub open spec fn y_grid_row(v: int, min: int, range: int) -> Seq<char> {
    "<line x1=\"50\" y1=\""@ + fixed2(y_point_spec(v, min, range)) + "\" x2=\"480\" y2=\""@
        + fixed2(y_point_spec(v, min, range)) + "\" stroke=\"#e9ecef\" stroke-width=\"1\"/>"@
}

/// The value-axis tick labels and gridlines from tick value `v` up to the
/// last tick, one step apart.
pub open spec fn y_rows_from(v: int, yend: int, step: int, min: int, range: int) -> (Seq<char>,
    Seq<char>)
    decreases yend + step - v
        when step >= 1
{
    if v > yend {
        (Seq::<char>::empty(), Seq::<char>::empty())
    } else {
        let rest = y_rows_from(v + step, yend, step, min, range);
        (y_label_row(v, min, range) + rest.0, y_grid_row(v, min, range) + rest.1)
    }
}

/// Renders the value-axis tick labels and gridlines.
fn y_rows(t0: i64, yend: i64, step: u64, min_v: i64, range: u64) -> (r: (String, String))
    requires
        0 < range <= 4294967295,
        20 <= step <= 1100000000,
        -2147483648 <= min_v <= 2147483647,
        min_v - step <= t0 <= min_v,
        min_v + range <= yend <= min_v + range + step,
    ensures
        r.0@ == y_rows_from(t0 as int, yend as int, step as int, min_v as int, range as int).0,
        r.1@ == y_rows_from(t0 as int, yend as int, step as int, min_v as int, range as int).1,
{
    let mut labels = String::new();
    let mut grids = String::new();
    let mut v: i64 = t0;
    while v <= yend
        invariant
            0 < range <= 4294967295,
            20 <= step <= 1100000000,
            -2147483648 <= min_v <= 2147483647,
            min_v - step <= t0 <= min_v,
            min_v + range <= yend <= min_v + range + step,
            t0 <= v <= yend + step,
            y_rows_from(t0 as int, yend as int, step as int, min_v as int, range as int).0
                == labels@ + y_rows_from(
                v as int,
                yend as int,
                step as int,
                min_v as int,
                range as int,
            ).0,
            y_rows_from(t0 as int, yend as int, step as int, min_v as int, range as int).1
                == grids@ + y_rows_from(
                v as int,
                yend as int,
                step as int,
                min_v as int,
                range as int,
            ).1,
        decreases yend + step - v,
    {
        let y = tick_y(v, min_v, range);
        let ys = fmt_fixed2(y);
        let yls = fmt_fixed2(y + 300);
        let vs = dec_i64(v);
        let mut lab = String::from_str("<text x=\"45\" y=\"");
        lab.append(yls.as_str());
        lab.append(
            "\" font-family=\"Arial, sans-serif\" font-size=\"10\" fill=\"#6c757d\" text-anchor=\"end\">",
        );
        lab.append(vs.as_str());
        lab.append("</text>");
        let mut grid = String::from_str("<line x1=\"50\" y1=\"");
        grid.append(ys.as_str());
        grid.append("\" x2=\"480\" y2=\"");
        grid.append(ys.as_str());
        grid.append("\" stroke=\"#e9ecef\" stroke-width=\"1\"/>");
        proof {
            assert(lab@ =~= y_label_row(v as int, min_v as int, range as int));
            assert(grid@ =~= y_grid_row(v as int, min_v as int, range as int));
        }
        labels.append(lab.as_str());
        grids.append(grid.as_str());
        proof {
            assert(y_rows_from(t0 as int, yend as int, step as int, min_v as int, range as int).0
                =~= labels@ + y_rows_from(
                v as int + step as int,
                yend as int,
                step as int,
                min_v as int,
                range as int,
            ).0);
            assert(y_rows_from(t0 as int, yend as int, step as int, min_v as int, range as int).1
                =~= grids@ + y_rows_from(
                v as int + step as int,
                yend as int,
                step as int,
                min_v as int,
                range as int,
            ).1);
        }
        v = v + step as i64;
    }
    (labels, grids)
}

/// One time-axis tick label: the clock time of the window start plus the
/// point's offset at thirty minutes per point, under the point's position.
#[verifier::opaque]
pub open spec fn x_col_label(i: int, len: int, wstart: int) -> Seq<char> {
    "<text x=\""@ + fixed2(x_spec(i, len))
        + "\" y=\"175\" font-family=\"Arial, sans-serif\" font-size=\"9\" fill=\"#6c757d\" text-anchor=\"middle\">"@
        + hhmm(wstart + i * 1800) + "</text>"@
}

/// One vertical gridline at a labelled point's position.
#[verifier::opaque]
pub open spec fn x_col_grid(i: int, len: int) -> Seq<char> {
    "<line x1=\""@ + fixed2(x_spec(i, len)) + "\" y1=\"20\" x2=\""@ + fixed2(x_spec(i, len))
        + "\" y2=\"140\" stroke=\"#e9ecef\" stroke-width=\"1\" opacity=\"0.5\"/>"@
}

/// The time-axis tick labels and gridlines from point index `i` on, at
/// every fourth point.
pub open spec fn x_cols_from(i: int, len: int, wstart: int) -> (Seq<char>, Seq<char>)
    decreases len + 4 - i,
{
    if i >= len {
        (Seq::<char>::empty(), Seq::<char>::empty())
    } else {
        let rest = x_cols_from(i + 4, len, wstart);
        (x_col_label(i, len, wstart) + rest.0, x_col_grid(i, len) + rest.1)
    }
}

/// Renders one time-axis tick label and its gridline.
fn x_col_markup(i: usize, len: usize, wstart: i64) -> (r: (String, String))
    requires
        2 <= len <= MAX_POINTS,
        i < len,
        0 <= wstart <= 253402300799,
    ensures
        r.0@ == x_col_label(i as int, len as int, wstart as int),
        r.1@ == x_col_grid(i as int, len as int),
{
    let t = wstart + (i as i64) * 1800;
    let ts = fmt_hhmm(t);
    let x = x_pos(i, len);
    let xs = fmt_fixed2_u(x);
    let mut lab = String::from_str("<text x=\"");
    lab.append(xs.as_str());
    lab.append(
        "\" y=\"175\" font-family=\"Arial, sans-serif\" font-size=\"9\" fill=\"#6c757d\" text-anchor=\"middle\">",
    );
    lab.append(ts.as_str());
    lab.append("</text>");
    let mut grid = String::from_str("<line x1=\"");
    grid.append(xs.as_str());
    grid.append("\" y1=\"20\" x2=\"");
    grid.append(xs.as_str());
    grid.append("\" y2=\"140\" stroke=\"#e9ecef\" stroke-width=\"1\" opacity=\"0.5\"/>");
    proof {
        reveal(x_col_label);
        reveal(x_col_grid);
        assert(lab@ =~= x_col_label(i as int, len as int, wstart as int));
        assert(grid@ =~= x_col_grid(i as int, len as int));
    }
    (lab, grid)
}

/// Renders the time-axis tick labels and gridlines.
fn x_cols(len: usize, wstart: i64) -> (r: (String, String))
    requires
        2 <= len <= MAX_POINTS,
        0 <= wstart <= 253402300799,
    ensures
        r.0@ == x_cols_from(0, len as int, wstart as int).0,
        r.1@ == x_cols_from(0, len as int, wstart as int).1,
{
    let mut labels = String::new();
    let mut grids = String::new();
    let mut i: usize = 0;
    while i < len
        invariant
            2 <= len <= MAX_POINTS,
            0 <= wstart <= 253402300799,
            i <= len + 3,
            x_cols_from(0, len as int, wstart as int).0 == labels@ + x_cols_from(
                i as int,
                len as int,
                wstart as int,
            ).0,
            x_cols_from(0, len as int, wstart as int).1 == grids@ + x_cols_from(
                i as int,
                len as int,
                wstart as int,
            ).1,
        decreases len + 4 - i,
    {
        let (lab, grid) = x_col_markup(i, len, wstart);
        proof {
            let la = labels@;
            let ga = grids@;
            let rest = x_cols_from(i as int + 4, len as int, wstart as int);
            assert((la + lab@) + rest.0 =~= la + (lab@ + rest.0));
            assert((ga + grid@) + rest.1 =~= ga + (grid@ + rest.1));
        }
        labels.append(lab.as_str());
        grids.append(grid.as_str());
        i = i + 4;
    }
    (labels, grids)
}

/// The whole time-series chart fragment: background, chart area, gridlines,
/// the solid historical path, the dashed forecast path, the current-time
/// marker, tick labels, and the two axis captions — or nothing at all for
/// an empty or flat series, which cannot be scaled.
pub open spec fn series_chart_spec(s: Seq<IntensityPoint>, now: int) -> Seq<char> {
    if s.len() == 0 {
        Seq::<char>::empty()
    } else if max_val(s) - min_val(s) == 0 {
        Seq::<char>::empty()
    } else {
        let min = min_val(s);
        let range = max_val(s) - min_val(s);
        let step = step_spec(range);
        let t0 = floor_multiple(min, step);
        let yend = ceil_multiple(min + range, step);
        let len = s.len() as int;
        let paths = paths_upto(s, min, range, len);
        let yrows = y_rows_from(t0, yend, step, min, range);
        let xcols = x_cols_from(0, len, now - 43200);
        let mkx = x_spec(marker_idx_spec(s, now), len);
        "<svg width=\"500\" height=\"180\" viewBox=\"0 0 500 180\"><rect x=\"0\" y=\"0\" width=\"500\" height=\"180\" fill=\"#f8f9fa\" rx=\"5\"/><rect x=\"50\" y=\"20\" width=\"430\" height=\"120\" fill=\"white\" stroke=\"#dee2e6\" stroke-width=\"1\"/>"@
            + yrows.1 + xcols.1 + "<path d=\""@ + paths.0
            + "\" stroke=\"#2c3e50\" stroke-width=\"2\" fill=\"none\"/><path d=\""@ + paths.1
            + "\" stroke=\"#7f8c8d\" stroke-width=\"2\" fill=\"none\" stroke-dasharray=\"5,5\"/><line x1=\""@
            + fixed2(mkx) + "\" y1=\"20\" x2=\""@ + fixed2(mkx)
            + "\" y2=\"140\" stroke=\"#e74c3c\" stroke-width=\"2\"/>"@ + yrows.0 + xcols.0
            + "<text x=\"250\" y=\"165\" font-family=\"Arial, sans-serif\" font-size=\"11\" fill=\"#495057\" text-anchor=\"middle\">Time</text><text x=\"15\" y=\"90\" font-family=\"Arial, sans-serif\" font-size=\"11\" fill=\"#495057\" text-anchor=\"middle\" transform=\"rotate(-90 15 90)\">gCO\u{2082}/kWh</text></svg>"@
    }
}

/// Renders the time-series chart for the given points around the supplied
/// current time; empty and flat series give the empty string.
pub fn render_intensity_chart(points: &Vec<IntensityPoint>, now: i64) -> (r: String)
    requires
        points@.len() <= MAX_POINTS,
        43200 <= now <= 253402300799,
    ensures
        r@ == series_chart_spec(points@, now as int),
        points@.len() == 0 ==> r@ == Seq::<char>::empty(),
        points@.len() > 0 && max_val(points@) == min_val(points@) ==> r@ == Seq::<char>::empty(),
{
    if points.len() == 0 {
        return String::new();
    }
    let (mn, mx) = min_max(points);
    if mx - mn == 0 {
        return String::new();
    }
    proof {
        if points@.len() == 1 {
            assert(min_val(points@) == points@[0].intensity);
            assert(max_val(points@) == points@[0].intensity);
        }
    }
    let range = (mx - mn) as u64;
    let step = tick_step(mn, mx);
    let (t0, yend) = tick_bounds(mn, mx);
    let (ylab, ygrid) = y_rows(t0, yend, step, mn, range);
    let wstart = now - 43200;
    let (xlab, xgrid) = x_cols(points.len(), wstart);
    let (hist, fore) = series_paths(points);
    let mk = marker_index(points, now);
    let mkx = x_pos(mk, points.len());
    let mkxs = fmt_fixed2_u(mkx);
    let mut out = String::from_str(
        "<svg width=\"500\" height=\"180\" viewBox=\"0 0 500 180\"><rect x=\"0\" y=\"0\" width=\"500\" height=\"180\" fill=\"#f8f9fa\" rx=\"5\"/><rect x=\"50\" y=\"20\" width=\"430\" height=\"120\" fill=\"white\" stroke=\"#dee2e6\" stroke-width=\"1\"/>",
    );
    out.append(ygrid.as_str());
    out.append(xgrid.as_str());
    out.append("<path d=\"");
    out.append(hist.as_str());
    out.append("\" stroke=\"#2c3e50\" stroke-width=\"2\" fill=\"none\"/><path d=\"");
    out.append(fore.as_str());
    out.append(
        "\" stroke=\"#7f8c8d\" stroke-width=\"2\" fill=\"none\" stroke-dasharray=\"5,5\"/><line x1=\"",
    );
    out.append(mkxs.as_str());
    out.append("\" y1=\"20\" x2=\"");
    out.append(mkxs.as_str());
    out.append("\" y2=\"140\" stroke=\"#e74c3c\" stroke-width=\"2\"/>");
    out.append(ylab.as_str());
    out.append(xlab.as_str());
    out.append(
        "<text x=\"250\" y=\"165\" font-family=\"Arial, sans-serif\" font-size=\"11\" fill=\"#495057\" text-anchor=\"middle\">Time</text><text x=\"15\" y=\"90\" font-family=\"Arial, sans-serif\" font-size=\"11\" fill=\"#495057\" text-anchor=\"middle\" transform=\"rotate(-90 15 90)\">gCO\u{2082}/kWh</text></svg>",
    );
    proof {
        assert(out@ =~= series_chart_spec(points@, now as int));
    }
    out
}

/// Law: the time-series renderer is a pure function of the points and the
/// supplied current time: equal inputs give byte-identical markup, with no
/// hidden clock or randomness in the geometry.
pub proof fn lemma_series_render_deterministic(
    a: Seq<IntensityPoint>,
    b: Seq<IntensityPoint>,
    now: int,
)
    requires
        a == b,
    ensures
        series_chart_spec(a, now) == series_chart_spec(b, now),
{
}

} // verus!
