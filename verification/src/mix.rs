//! Decisions over fetched carbon-intensity records: picking the headline
//! intensity, pairing each generation-mix fuel with its carbon factor,
//! turning raw timeline records into chart points, and averaging readings
//! by calendar hour.

use vstd::prelude::*;

verus! {

use vstd::arithmetic::div_mod::lemma_div_is_ordered;
use vstd::arithmetic::div_mod::lemma_div_multiples_vanish;
use crate::series::IntensityPoint;
use crate::text::str_eq;
use crate::timefmt::hour_label_of;
use crate::timefmt::hour_key;

/// One intensity reading: the measured value and the forecast value, each
/// where the source supplied it.
pub struct IntensityReading {
    /// The measured intensity, where available.
    pub actual: Option<i32>,
    /// The forecast intensity, where available.
    pub forecast: Option<i32>,
}

/// The headline intensity of a sequence of readings: the first reading's
/// measured value, else its forecast, else zero; zero when there are no
/// readings at all.
pub open spec fn headline_spec(s: Seq<IntensityReading>) -> int {
    if s.len() == 0 {
        0
    } else {
        match s[0].actual {
            Option::Some(v) => v as int,
            Option::None => match s[0].forecast {
                Option::Some(v) => v as int,
                Option::None => 0,
            },
        }
    }
}

/// Picks the headline intensity from fetched readings.
pub fn headline_intensity(readings: &Vec<IntensityReading>) -> (r: i32)
    ensures
        r as int == headline_spec(readings@),
{
    if readings.len() == 0 {
        return 0;
    }
    reading_value_of(&readings[0])
}

/// The published carbon factors, one per generation category.
pub struct CarbonFactors {
    pub biomass: i32,
    pub coal: i32,
    pub gas_combined_cycle: i32,
    pub gas_open_cycle: i32,
    pub hydro: i32,
    pub nuclear: i32,
    pub other: i32,
    pub solar: i32,
    pub wind: i32,
    pub dutch_imports: i32,
    pub french_imports: i32,
    pub irish_imports: i32,
}

/// Integer division that rounds toward zero, as the averages here always
/// have.
pub open spec fn trunc_div(a: int, b: int) -> int {
    if a >= 0 {
        a / b
    } else {
        -((-a) / b)
    }
}

/// The carbon intensity assigned to a fuel name: its published factor,
/// with gas defaulting to the combined-cycle figure, imports averaged over
/// the three interconnector figures, and unknown names given zero.
pub open spec fn fuel_intensity_spec(fuel: Seq<char>, f: CarbonFactors) -> int {
    if fuel == "biomass"@ {
        f.biomass as int
    } else if fuel == "coal"@ {
        f.coal as int
    } else if fuel == "gas"@ {
        f.gas_combined_cycle as int
    } else if fuel == "hydro"@ {
        f.hydro as int
    } else if fuel == "nuclear"@ {
        f.nuclear as int
    } else if fuel == "other"@ {
        f.other as int
    } else if fuel == "solar"@ {
        f.solar as int
    } else if fuel == "wind"@ {
        f.wind as int
    } else if fuel == "imports"@ {
        trunc_div(f.dutch_imports + f.french_imports + f.irish_imports, 3)
    } else {
        0
    }
}

/// Divides a sum by a positive count, rounding toward zero.
fn trunc_div_i64(a: i64, b: u64) -> (r: i64)
    requires
        1 <= b,
        -4000000000000000000 <= a <= 4000000000000000000,
    ensures
        r == trunc_div(a as int, b as int),
        -4000000000000000000 <= r <= 4000000000000000000,
{
    if a >= 0 {
        let m = a as u64;
        let q = m / b;
        proof {
            lemma_div_is_ordered(0, m as int, b as int);
            lemma_div_is_ordered(m as int, 4000000000000000000, b as int);
            lemma_div_is_ordered(m as int / b as int, m as int, 1);
            vstd::arithmetic::div_mod::lemma_div_is_ordered_by_denominator(
                m as int,
                1,
                b as int,
            );
        }
        q as i64
    } else {
        let m = (-a) as u64;
        let q = m / b;
        proof {
            lemma_div_is_ordered(0, m as int, b as int);
            vstd::arithmetic::div_mod::lemma_div_is_ordered_by_denominator(
                m as int,
                1,
                b as int,
            );
        }
        -(q as i64)
    }
}

/// Pairs a fuel name with its carbon factor.
pub fn intensity_for_fuel(fuel: &str, f: &CarbonFactors) -> (r: i32)
    ensures
        r as int == fuel_intensity_spec(fuel@, *f),
{
    if str_eq(fuel, "biomass") {
        f.biomass
    } else if str_eq(fuel, "coal") {
        f.coal
    } else if str_eq(fuel, "gas") {
        f.gas_combined_cycle
    } else if str_eq(fuel, "hydro") {
        f.hydro
    } else if str_eq(fuel, "nuclear") {
        f.nuclear
    } else if str_eq(fuel, "other") {
        f.other
    } else if str_eq(fuel, "solar") {
        f.solar
    } else if str_eq(fuel, "wind") {
        f.wind
    } else if str_eq(fuel, "imports") {
        let sum = f.dutch_imports as i64 + f.french_imports as i64 + f.irish_imports as i64;
        let avg = trunc_div_i64(sum, 3);
        proof {
            lemma_div_is_ordered(-(sum as int), 3int * 2147483648int, 3);
            lemma_div_is_ordered(sum as int, 3int * 2147483647int, 3);
            assert(3int * 2147483648int == 2147483648int * 3int) by (nonlinear_arith);
            assert(3int * 2147483647int == 2147483647int * 3int) by (nonlinear_arith);
            lemma_div_multiples_vanish(2147483648, 3);
            lemma_div_multiples_vanish(2147483647, 3);
        }
        avg as i32
    } else {
        0
    }
}

/// One raw timeline record as fetched: its start time, where the source
/// supplied one, and its reading.
pub struct TimelineEntry {
    /// The reading's start time, as a minute-precision timestamp string.
    pub from: Option<String>,
    /// The reading itself.
    pub reading: IntensityReading,
}

/// The value a reading contributes to the chart: the measurement, else the
/// forecast, else zero.
pub open spec fn reading_value(r: IntensityReading) -> i32 {
    match r.actual {
        Option::Some(v) => v,
        Option::None => match r.forecast {
            Option::Some(v) => v,
            Option::None => 0,
        },
    }
}

/// Picks the value a reading contributes: the measurement, else the
/// forecast, else zero.
pub fn reading_value_of(r: &IntensityReading) -> (v: i32)
    ensures
        v == reading_value(*r),
{
    match r.actual {
        Option::Some(v) => v,
        Option::None => match r.forecast {
            Option::Some(v) => v,
            Option::None => 0,
        },
    }
}

/// The chart points of a raw timeline: records without a start time are
/// dropped, every other record becomes one point, marked as forecast
/// exactly when it has no measured value.
pub open spec fn timeline_spec(s: Seq<TimelineEntry>) -> Seq<IntensityPoint>
    decreases s.len(),
{
    if s.len() == 0 {
        Seq::<IntensityPoint>::empty()
    } else {
        let rest = timeline_spec(s.drop_last());
        match s.last().from {
            Option::Some(dt) => rest.push(
                IntensityPoint {
                    datetime: dt,
                    intensity: reading_value(s.last().reading),
                    is_forecast: s.last().reading.actual is None,
                },
            ),
            Option::None => rest,
        }
    }
}

/// Turns fetched timeline records into chart points.
pub fn timeline_points(entries: Vec<TimelineEntry>) -> (r: Vec<IntensityPoint>)
    ensures
        r@ == timeline_spec(entries@),
{
    let mut r: Vec<IntensityPoint> = Vec::new();
    let mut i: usize = 0;
    while i < entries.len()
        invariant
            i <= entries@.len(),
            r@ == timeline_spec(entries@.take(i as int)),
        decreases entries@.len() - i,
    {
        proof {
            assert(entries@.take(i + 1).drop_last() =~= entries@.take(i as int));
        }
        let entry = &entries[i];
        match &entry.from {
            Option::Some(dt) => {
                let value = reading_value_of(&entry.reading);
                let is_forecast = match entry.reading.actual {
                    Option::Some(_) => false,
                    Option::None => true,
                };
                r.push(
                    IntensityPoint { datetime: dt.clone(), intensity: value, is_forecast },
                );
            },
            Option::None => {},
        }
        i = i + 1;
    }
    proof {
        assert(entries@.take(entries@.len() as int) =~= entries@);
    }
    r
}

/// One timestamped reading to be averaged by hour.
pub struct HourlySample {
    /// The reading's time, in Unix seconds.
    pub t: i64,
    /// The reading's intensity value.
    pub intensity: i32,
}

/// One row of the hourly report: the hour's key and the average of its
/// readings.
pub struct HourlyRow {
    /// The calendar hour, rendered as its hour key.
    pub label: String,
    /// The hour's average intensity, rounded toward zero.
    pub average: i64,
}

/// The calendar hour a sample falls in.
pub open spec fn hour_of(p: HourlySample) -> int {
    p.t / 3600
}

/// Whether samples stand in ascending (nondecreasing) time order: the
/// order the source delivers readings in, and a precondition of the hourly
/// grouping.
pub open spec fn samples_sorted(s: Seq<HourlySample>) -> bool {
    forall|i: int| 0 <= i && i + 1 < s.len() ==> (#[trigger] s[i]).t <= s[i + 1].t
}

/// The runs of consecutive same-hour samples, each as its hour, the sum of
/// its values, and its sample count. On time-sorted samples each calendar
/// hour forms exactly one run (see `lemma_group_hours_increase`).
pub open spec fn groups_of(s: Seq<HourlySample>) -> Seq<(int, int, int)>
    decreases s.len(),
{
    if s.len() == 0 {
        Seq::<(int, int, int)>::empty()
    } else {
        let g = groups_of(s.drop_last());
        let p = s.last();
        if g.len() > 0 && g.last().0 == hour_of(p) {
            g.update(g.len() - 1, (g.last().0, g.last().1 + p.intensity, g.last().2 + 1))
        } else {
            g.push((hour_of(p), p.intensity as int, 1))
        }
    }
}

/// A nonempty sample sequence's last group carries its last sample's hour.
proof fn lemma_groups_last_hour(s: Seq<HourlySample>)
    requires
        s.len() > 0,
    ensures
        groups_of(s).len() > 0,
        groups_of(s).last().0 == hour_of(s.last()),
{
}

/// Law: on time-sorted samples the group hours strictly increase: each
/// calendar hour forms exactly one group, so the hourly rows come out in
/// ascending hour order with no duplicate hour.
pub proof fn lemma_group_hours_increase(s: Seq<HourlySample>)
    requires
        samples_sorted(s),
    ensures
        forall|g: int|
            0 <= g && g + 1 < groups_of(s).len() ==> (#[trigger] groups_of(s)[g]).0 < groups_of(
                s,
            )[g + 1].0,
    decreases s.len(),
{
    if s.len() > 0 {
        let sp = s.drop_last();
        assert(samples_sorted(sp)) by {
            assert forall|i: int| 0 <= i && i + 1 < sp.len() implies (#[trigger] sp[i]).t <= sp[i
                + 1].t by {
                assert(sp[i] == s[i]);
                assert(sp[i + 1] == s[i + 1]);
            }
        }
        lemma_group_hours_increase(sp);
        let g = groups_of(sp);
        let p = s.last();
        let gs = groups_of(s);
        if g.len() > 0 && g.last().0 == hour_of(p) {
            assert forall|k: int| 0 <= k && k + 1 < gs.len() implies (#[trigger] gs[k]).0 < gs[k
                + 1].0 by {
                assert(gs[k].0 == g[k].0);
                assert(gs[k + 1].0 == g[k + 1].0);
            }
        } else {
            if g.len() > 0 {
                lemma_groups_last_hour(sp);
                assert(sp.last() == s[s.len() - 2]);
                assert(s[s.len() - 2].t <= s[s.len() - 1].t);
                lemma_div_is_ordered(sp.last().t as int, p.t as int, 3600);
                assert(g.last().0 < hour_of(p));
            }
            assert forall|k: int| 0 <= k && k + 1 < gs.len() implies (#[trigger] gs[k]).0 < gs[k
                + 1].0 by {
                if k + 1 < g.len() {
                    assert(gs[k].0 == g[k].0);
                    assert(gs[k + 1].0 == g[k + 1].0);
                } else {
                    assert(gs[k] == g[g.len() - 1]);
                    assert(gs[k + 1].0 == hour_of(p));
                }
            }
        }
    }
}

/// The total sample count across groups.
pub open spec fn groups_count_total(g: Seq<(int, int, int)>) -> int
    decreases g.len(),
{
    if g.len() == 0 {
        0
    } else {
        groups_count_total(g.drop_last()) + g.last().2
    }
}

/// Law: the grouping is complete: every sample lands in exactly one group,
/// so the group counts sum to the sample count.
pub proof fn lemma_groups_complete(s: Seq<HourlySample>)
    ensures
        groups_count_total(groups_of(s)) == s.len(),
    decreases s.len(),
{
    if s.len() > 0 {
        lemma_groups_complete(s.drop_last());
        let g = groups_of(s.drop_last());
        let p = s.last();
        if g.len() > 0 && g.last().0 == hour_of(p) {
            let u = g.update(g.len() - 1, (g.last().0, g.last().1 + p.intensity, g.last().2 + 1));
            assert(u.drop_last() =~= g.drop_last());
        } else {
            let u = g.push((hour_of(p), p.intensity as int, 1));
            assert(u.drop_last() =~= g);
        }
    }
}

/// The group tuples an executable accumulator holds, as mathematical
/// integers.
pub open spec fn lift_groups(q: Seq<(i64, i64, u32)>) -> Seq<(int, int, int)> {
    Seq::new(q.len(), |j: int| (q[j].0 as int, q[j].1 as int, q[j].2 as int))
}

/// Whether every accumulated group is well formed: at least one sample,
/// a sum within the count's worth of values, and an hour a valid timestamp
/// can have.
pub open spec fn groups_wf(q: Seq<(i64, i64, u32)>, n: int) -> bool {
    forall|j: int|
        0 <= j < q.len() ==> {
            &&& 1 <= (#[trigger] q[j]).2 <= n
            &&& -(q[j].2 as int) * 2147483648 <= q[j].1 as int <= (q[j].2 as int) * 2147483648
            &&& 0 <= q[j].0 <= 70389528
        }
}

/// Averages time-sorted readings by calendar hour: one row per hour, in
/// ascending hour order with no duplicate, each carrying the hour's key
/// and the average of all that hour's values rounded toward zero; every
/// sample is counted in exactly one row.
pub fn hourly_averages(samples: &Vec<HourlySample>) -> (r: Vec<HourlyRow>)
    requires
        samples@.len() <= 1000000,
        forall|i: int| 0 <= i < samples@.len() ==> 0 <= (#[trigger] samples@[i]).t <= 253402300799,
        samples_sorted(samples@),
    ensures
        r@.len() == groups_of(samples@).len(),
        forall|g: int|
            0 <= g < r@.len() ==> {
                &&& (#[trigger] r@[g]).label@ == hour_label_of(
                    (groups_of(samples@)[g].0 * 3600) as i64,
                )
                &&& r@[g].average as int == trunc_div(
                    groups_of(samples@)[g].1,
                    groups_of(samples@)[g].2,
                )
            },
        forall|g: int|
            0 <= g && g + 1 < groups_of(samples@).len() ==> (#[trigger] groups_of(samples@)[g]).0
                < groups_of(samples@)[g + 1].0,
        groups_count_total(groups_of(samples@)) == samples@.len(),
{
    proof {
        lemma_group_hours_increase(samples@);
        lemma_groups_complete(samples@);
    }
    let n = samples.len();
    let mut groups: Vec<(i64, i64, u32)> = Vec::new();
    let mut i: usize = 0;
    while i < n
        invariant
            i <= n,
            n == samples@.len() <= 1000000,
            forall|k: int|
                0 <= k < samples@.len() ==> 0 <= (#[trigger] samples@[k]).t <= 253402300799,
            lift_groups(groups@) == groups_of(samples@.take(i as int)),
            groups_wf(groups@, i as int),
        decreases n - i,
    {
        proof {
            assert(samples@.take(i + 1).drop_last() =~= samples@.take(i as int));
        }
        let t = samples[i].t;
        let v = samples[i].intensity;
        let h = ((t as u64) / 3600) as i64;
        let glen = groups.len();
        if glen > 0 && groups[glen - 1].0 == h {
            let (gh, gsum, gcnt) = groups[glen - 1];
            proof {
                assert(lift_groups(groups@)[glen - 1] == groups_of(samples@.take(i as int))[glen
                    - 1]);
            }
            let updated = (gh, gsum + v as i64, gcnt + 1);
            let _ = groups.pop();
            groups.push(updated);
            proof {
                assert(lift_groups(groups@) =~= groups_of(samples@.take(i + 1)));
            }
        } else {
            groups.push((h, v as i64, 1));
            proof {
                assert(lift_groups(groups@) =~= groups_of(samples@.take(i + 1)));
            }
        }
        i = i + 1;
    }
    proof {
        assert(samples@.take(n as int) =~= samples@);
    }
    let mut rows: Vec<HourlyRow> = Vec::new();
    let mut g: usize = 0;
    while g < groups.len()
        invariant
            g <= groups@.len(),
            lift_groups(groups@) == groups_of(samples@),
            groups_wf(groups@, samples@.len() as int),
            samples@.len() <= 1000000,
            rows@.len() == g,
            forall|k: int|
                0 <= k < g ==> {
                    &&& (#[trigger] rows@[k]).label@ == hour_label_of(
                        (groups_of(samples@)[k].0 * 3600) as i64,
                    )
                    &&& rows@[k].average as int == trunc_div(
                        groups_of(samples@)[k].1,
                        groups_of(samples@)[k].2,
                    )
                },
        decreases groups@.len() - g,
    {
        let (gh, gsum, gcnt) = groups[g];
        proof {
            assert(lift_groups(groups@)[g as int] == groups_of(samples@)[g as int]);
        }
        let label = hour_key(gh * 3600);
        let average = trunc_div_i64(gsum, gcnt as u64);
        rows.push(HourlyRow { label, average });
        g = g + 1;
    }
    rows
}

} // verus!
