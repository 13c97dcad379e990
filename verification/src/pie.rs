//! The proportional (pie) chart: converts an ordered sequence of
//! (category, percentage, intensity) entries into filled wedge paths with
//! optional two-line labels, and a legend block that walks the same entries
//! with the same color assignment.
//!
//! Angles are exact fractions of the entries' total: the slice for entry
//! `i` spans the turn fractions `prefix(i)/total` to `prefix(i+1)/total`,
//! where `prefix` is the running sum of percentages, so slices are
//! contiguous by construction and together cover the whole circle.

use vstd::prelude::*;

verus! {

use vstd::arithmetic::div_mod::lemma_div_is_ordered;
use vstd::arithmetic::div_mod::lemma_div_multiples_vanish;
use vstd::arithmetic::mul::lemma_mul_inequality;
use vstd::string::StringExecFns;
use crate::palette::palette_color;
use crate::palette::color_at;
use crate::text::dec_int;
use crate::text::dec_i64;
use crate::text::escape_seq;
use crate::text::escape_text;
use crate::text::fixed2;
use crate::text::fmt_fixed2_u;
use crate::text::tenths_str;
use crate::text::fmt_tenths;
use crate::trig::cos_mag_spec;
use crate::trig::cos_neg_spec;
use crate::trig::cos_parts;
use crate::trig::sin_mag_spec;
use crate::trig::sin_neg_spec;
use crate::trig::sin_parts;
use crate::trig::coord_spec;
use crate::trig::coord_from;

/// One entry of the generation mix: a category label, its share in tenths
/// of a percent, and, where known, its carbon intensity.
pub struct ProportionEntry {
    /// The category name, shown in slice labels and legend rows.
    pub label: String,
    /// The share of this category, in tenths of a percent.
    pub percent_tenths: u32,
    /// The carbon intensity of this category, where known.
    pub intensity: Option<i32>,
}

/// The largest entry count a render call accepts.
pub const MAX_ENTRIES: usize = 1000000;

/// The largest percentage an entry may carry: one hundred percent, in
/// tenths.
pub const MAX_PERCENT_TENTHS: u32 = 1000;

/// Whether every entry's percentage is within range.
pub open spec fn entries_ok(s: Seq<ProportionEntry>) -> bool {
    &&& s.len() <= MAX_ENTRIES
    &&& forall|i: int| 0 <= i < s.len() ==> s[i].percent_tenths <= MAX_PERCENT_TENTHS
}

/// The sum of the entries' percentages, in tenths.
pub open spec fn total_of(s: Seq<ProportionEntry>) -> int
    decreases s.len(),
{
    if s.len() == 0 {
        0
    } else {
        total_of(s.drop_last()) + s.last().percent_tenths
    }
}

/// The total is never negative.
pub proof fn lemma_total_nonneg(s: Seq<ProportionEntry>)
    ensures
        total_of(s) >= 0,
    decreases s.len(),
{
    if s.len() > 0 {
        lemma_total_nonneg(s.drop_last());
    }
}

/// A prefix of the entries never sums to more than the whole.
pub proof fn lemma_total_take_le(s: Seq<ProportionEntry>, n: int)
    requires
        0 <= n <= s.len(),
    ensures
        total_of(s.take(n)) <= total_of(s),
    decreases s.len(),
{
    if n == s.len() {
        assert(s.take(n) =~= s);
    } else {
        assert(s.take(n) =~= s.drop_last().take(n));
        lemma_total_take_le(s.drop_last(), n);
    }
}

/// With every percentage in range, the total stays within a thousand
/// tenths per entry.
pub proof fn lemma_total_bound(s: Seq<ProportionEntry>)
    requires
        forall|i: int| 0 <= i < s.len() ==> s[i].percent_tenths <= 1000,
    ensures
        total_of(s) <= 1000 * s.len(),
    decreases s.len(),
{
    if s.len() > 0 {
        assert(forall|i: int|
            0 <= i < s.drop_last().len() ==> s.drop_last()[i].percent_tenths <= 1000);
        lemma_total_bound(s.drop_last());
    }
}

/// Extending a prefix by one entry adds that entry's percentage.
pub proof fn lemma_total_take_step(s: Seq<ProportionEntry>, n: int)
    requires
        0 <= n < s.len(),
    ensures
        total_of(s.take(n + 1)) == total_of(s.take(n)) + s[n].percent_tenths,
{
    assert(s.take(n + 1).drop_last() =~= s.take(n));
    assert(s.take(n + 1).last() == s[n]);
}

/// Computes the sum of the entries' percentages.
pub fn total_tenths(entries: &Vec<ProportionEntry>) -> (t: u64)
    requires
        entries_ok(entries@),
    ensures
        t == total_of(entries@),
        t <= 1000000000,
{
    let mut t: u64 = 0;
    let mut i: usize = 0;
    while i < entries.len()
        invariant
            entries_ok(entries@),
            i <= entries@.len(),
            t == total_of(entries@.take(i as int)),
            t <= 1000 * i,
        decreases entries@.len() - i,
    {
        proof {
            lemma_total_take_step(entries@, i as int);
        }
        t = t + entries[i].percent_tenths as u64;
        i = i + 1;
    }
    proof {
        assert(entries@.take(entries@.len() as int) =~= entries@);
        lemma_total_bound(entries@);
    }
    t
}

/// The turn fraction, in millionths, of a partial sum over a total.
pub open spec fn frac_of(num: int, den: int) -> int {
    num * 1000000 / den
}

/// Computes a turn fraction in millionths; never more than a full turn.
fn frac_millionths(num: u64, den: u64) -> (r: u64)
    requires
        num <= den,
        0 < den <= 4000000000,
    ensures
        r == frac_of(num as int, den as int),
        r <= 1000000,
{
    proof {
        lemma_mul_inequality(num as int, den as int, 1000000);
    }
    let r = (num * 1000000) / den;
    proof {
        lemma_div_is_ordered(num as int * 1000000, den as int * 1000000, den as int);
        lemma_div_multiples_vanish(1000000, den as int);
        assert(den as int * 1000000 == 1000000 * den as int) by (nonlinear_arith);
    }
    r
}

/// The x coordinate, in hundredths, of the point at a turn fraction `p` on
/// the circle of the given radius around the chart center.
pub open spec fn polar_x(p: int, radius: int) -> int {
    coord_spec(25000, radius, cos_neg_spec(p), cos_mag_spec(p))
}

/// The y coordinate, in hundredths, of the same point.
pub open spec fn polar_y(p: int, radius: int) -> int {
    coord_spec(25000, radius, sin_neg_spec(p), sin_mag_spec(p))
}

/// Computes both coordinates of the point at a turn fraction on a circle
/// around the chart center.
fn polar_point(p: u64, radius: u64) -> (r: (u64, u64))
    requires
        p <= 1000000,
        radius <= 17500,
    ensures
        r.0 == polar_x(p as int, radius as int),
        r.1 == polar_y(p as int, radius as int),
        7500 <= r.0 <= 42500,
        7500 <= r.1 <= 42500,
{
    let (cn, cm) = cos_parts(p);
    let (sn, sm) = sin_parts(p);
    let x = coord_from(25000, radius, cn, cm);
    let y = coord_from(25000, radius, sn, sm);
    (x, y)
}

/// The wedge path markup of one slice: a move to the center, a line to the
/// start-angle point, an arc to the end-angle point (taking the long way
/// round if and only if the slice spans more than half the circle), and a
/// closing line, filled with the entry's palette color.
pub open spec fn slice_path_spec(perc: int, prefix: int, total: int, idx: int) -> Seq<char> {
    let sp = frac_of(prefix, total);
    let ep = frac_of(prefix + perc, total);
    let flag: Seq<char> = if 2 * perc > total {
        "1"@
    } else {
        "0"@
    };
    "<path d=\"M 250 250 L "@ + fixed2(polar_x(sp, 15000)) + " "@ + fixed2(polar_y(sp, 15000))
        + " A 150 150 0 "@ + flag + " 1 "@ + fixed2(polar_x(ep, 15000)) + " "@ + fixed2(
        polar_y(ep, 15000),
    ) + " Z\" fill=\""@ + palette_color(idx) + "\" stroke=\"white\" stroke-width=\"2\" />"@
}

/// The two stacked label lines of one slice, placed at the slice's midpoint
/// angle on the label ring: the escaped category name, then the percentage
/// with one decimal place.
pub open spec fn slice_label_spec(label: Seq<char>, perc: int, prefix: int, total: int) -> Seq<
    char,
> {
    let mid = frac_of(2 * prefix + perc, 2 * total);
    let lx = polar_x(mid, 17500);
    let ly = polar_y(mid, 17500);
    "<text x=\""@ + fixed2(lx) + "\" y=\""@ + fixed2(ly - 200)
        + "\" text-anchor=\"middle\" font-family=\"Arial, sans-serif\" font-size=\"11\" font-weight=\"bold\" fill=\"#333333\">"@
        + escape_seq(label) + "</text>"@ + "<text x=\""@ + fixed2(lx) + "\" y=\""@ + fixed2(
        ly + 1000,
    )
        + "\" text-anchor=\"middle\" font-family=\"Arial, sans-serif\" font-size=\"10\" fill=\"#666666\">"@
        + tenths_str(perc as nat) + "%</text>"@
}

/// The whole markup of one slice: its wedge path, followed by its two label
/// lines exactly when the entry's share reaches half a percent.
pub open spec fn slice_spec(label: Seq<char>, perc: int, prefix: int, total: int, idx: int) -> Seq<
    char,
> {
    slice_path_spec(perc, prefix, total, idx) + if perc >= 5 {
        slice_label_spec(label, perc, prefix, total)
    } else {
        Seq::empty()
    }
}

/// Renders the two label lines of one slice.
fn label_markup(label: &String, perc: u32, prefix: u64, total: u64) -> (r: String)
    requires
        prefix + perc <= total,
        0 < total <= 1000000000,
    ensures
        r@ == slice_label_spec(label@, perc as int, prefix as int, total as int),
{
    let mid = frac_millionths(2 * prefix + perc as u64, 2 * total);
    let (lx, ly) = polar_point(mid, 17500);
    let lxs = fmt_fixed2_u(lx);
    let ly1s = fmt_fixed2_u(ly - 200);
    let ly2s = fmt_fixed2_u(ly + 1000);
    let name = escape_text(label.as_str());
    let pcs = fmt_tenths(perc as u64);
    let mut r = String::from_str("<text x=\"");
    r.append(lxs.as_str());
    r.append("\" y=\"");
    r.append(ly1s.as_str());
    r.append(
        "\" text-anchor=\"middle\" font-family=\"Arial, sans-serif\" font-size=\"11\" font-weight=\"bold\" fill=\"#333333\">",
    );
    r.append(name.as_str());
    r.append("</text>");
    r.append("<text x=\"");
    r.append(lxs.as_str());
    r.append("\" y=\"");
    r.append(ly2s.as_str());
    r.append(
        "\" text-anchor=\"middle\" font-family=\"Arial, sans-serif\" font-size=\"10\" fill=\"#666666\">",
    );
    r.append(pcs.as_str());
    r.append("%</text>");
    proof {
        assert(r@ =~= slice_label_spec(label@, perc as int, prefix as int, total as int));
    }
    r
}

/// Renders one slice.
fn slice_markup(label: &String, perc: u32, prefix: u64, total: u64, idx: usize) -> (r: String)
    requires
        prefix + perc <= total,
        0 < total <= 1000000000,
    ensures
        r@ == slice_spec(label@, perc as int, prefix as int, total as int, idx as int),
{
    let sp = frac_millionths(prefix, total);
    let ep = frac_millionths(prefix + perc as u64, total);
    let (x1, y1) = polar_point(sp, 15000);
    let (x2, y2) = polar_point(ep, 15000);
    let x1s = fmt_fixed2_u(x1);
    let y1s = fmt_fixed2_u(y1);
    let x2s = fmt_fixed2_u(x2);
    let y2s = fmt_fixed2_u(y2);
    let mut r = String::from_str("<path d=\"M 250 250 L ");
    r.append(x1s.as_str());
    r.append(" ");
    r.append(y1s.as_str());
    r.append(" A 150 150 0 ");
    if 2 * (perc as u64) > total {
        r.append("1");
    } else {
        r.append("0");
    }
    r.append(" 1 ");
    r.append(x2s.as_str());
    r.append(" ");
    r.append(y2s.as_str());
    r.append(" Z\" fill=\"");
    r.append(color_at(idx));
    r.append("\" stroke=\"white\" stroke-width=\"2\" />");
    proof {
        assert(r@ =~= slice_path_spec(perc as int, prefix as int, total as int, idx as int));
    }
    if perc >= 5 {
        let labels = label_markup(label, perc, prefix, total);
        r.append(labels.as_str());
    }
    r
}

/// The chart markup of the first `n` entries, slices laid out consecutively
/// from angle zero in entry order.
pub open spec fn pie_slices_spec(s: Seq<ProportionEntry>, total: int, n: int) -> Seq<char>
    decreases n,
{
    if n <= 0 {
        Seq::empty()
    } else {
        pie_slices_spec(s, total, n - 1) + slice_spec(
            s[n - 1].label@,
            s[n - 1].percent_tenths as int,
            total_of(s.take(n - 1)),
            total,
            n - 1,
        )
    }
}

/// The whole proportional chart: every slice in entry order, or nothing at
/// all when the percentages sum to zero and no angle can be formed.
pub open spec fn pie_chart_spec(s: Seq<ProportionEntry>) -> Seq<char> {
    if total_of(s) == 0 {
        Seq::empty()
    } else {
        pie_slices_spec(s, total_of(s), s.len() as int)
    }
}

/// The turn fraction, in millionths, where slice `i` begins: the running
/// sum of the percentages before it, over the total. This is the fraction
/// whose circle point the renderer draws the slice's first radius to.
pub open spec fn slice_start(s: Seq<ProportionEntry>, i: int) -> int {
    frac_of(total_of(s.take(i)), total_of(s))
}

/// The turn fraction, in millionths, where slice `i` ends.
pub open spec fn slice_end(s: Seq<ProportionEntry>, i: int) -> int {
    frac_of(total_of(s.take(i + 1)), total_of(s))
}

/// The sum of the angular widths of the first `n` slices, in millionths of
/// a turn.
pub open spec fn widths_sum(s: Seq<ProportionEntry>, n: int) -> int
    decreases n,
{
    if n <= 0 {
        0
    } else {
        widths_sum(s, n - 1) + (slice_end(s, n - 1) - slice_start(s, n - 1))
    }
}

/// The slice widths telescope: the first `n` of them sum to the `n`th
/// start angle, measured from the very first start angle.
proof fn lemma_widths_telescope(s: Seq<ProportionEntry>, n: int)
    requires
        0 <= n <= s.len(),
    ensures
        widths_sum(s, n) == slice_start(s, n) - slice_start(s, 0),
    decreases n,
{
    if n > 0 {
        lemma_widths_telescope(s, n - 1);
    }
}

/// Law: each slice begins exactly where the previous one ends — the slices
/// are contiguous, with no gap and no overlap.
pub proof fn lemma_slices_contiguous(s: Seq<ProportionEntry>, i: int)
    requires
        0 <= i,
    ensures
        slice_start(s, i + 1) == slice_end(s, i),
{
}

/// Law: for non-empty entries with a positive total, the slice angular
/// widths sum to exactly one full turn — the circle is covered without
/// drift.
pub proof fn lemma_widths_fill_circle(s: Seq<ProportionEntry>)
    requires
        s.len() > 0,
        total_of(s) > 0,
    ensures
        widths_sum(s, s.len() as int) == 1000000,
{
    lemma_widths_telescope(s, s.len() as int);
    assert(s.take(s.len() as int) =~= s);
    assert(s.take(0) =~= Seq::<ProportionEntry>::empty());
    lemma_div_multiples_vanish(0, total_of(s));
    assert(total_of(s) * 1000000 == 1000000 * total_of(s)) by (nonlinear_arith);
    lemma_div_multiples_vanish(1000000, total_of(s));
}

/// Law: a slice whose share is below half a percent draws its wedge but no
/// label text; one at or above half a percent draws the wedge followed by
/// exactly the two label lines (name, then percentage).
pub proof fn lemma_label_policy(label: Seq<char>, perc: int, prefix: int, total: int, idx: int)
    ensures
        perc < 5 ==> slice_spec(label, perc, prefix, total, idx) == slice_path_spec(
            perc,
            prefix,
            total,
            idx,
        ),
        perc >= 5 ==> slice_spec(label, perc, prefix, total, idx) == slice_path_spec(
            perc,
            prefix,
            total,
            idx,
        ) + slice_label_spec(label, perc, prefix, total),
{
    if perc < 5 {
        assert(slice_spec(label, perc, prefix, total, idx) =~= slice_path_spec(
            perc,
            prefix,
            total,
            idx,
        ));
    }
}

/// Law: the proportional renderers are pure functions of the entries:
/// equal inputs give byte-identical chart and legend markup, whatever else
/// differs between the two render calls.
pub proof fn lemma_proportion_render_deterministic(
    a: Seq<ProportionEntry>,
    b: Seq<ProportionEntry>,
)
    requires
        a == b,
    ensures
        pie_chart_spec(a) == pie_chart_spec(b),
        legend_spec(a, a.len() as int) == legend_spec(b, b.len() as int),
{
}

/// The legend text for a carbon intensity value, with its fixed unit
/// suffix: an intensity of exactly zero still renders, as a literal zero
/// with the unit.
pub open spec fn intensity_text_spec(v: int) -> Seq<char> {
    if v == 0 {
        "0 gCO\u{2082}/kWh"@
    } else {
        dec_int(v) + " gCO\u{2082}/kWh"@
    }
}

/// Renders the legend text for a carbon intensity value.
pub fn intensity_text(v: i32) -> (r: String)
    ensures
        r@ == intensity_text_spec(v as int),
{
    if v == 0 {
        String::from_str("0 gCO\u{2082}/kWh")
    } else {
        let mut r = dec_i64(v as i64);
        r.append(" gCO\u{2082}/kWh");
        proof {
            assert(r@ =~= intensity_text_spec(v as int));
        }
        r
    }
}

/// One legend row: the entry's color swatch, its escaped label, and a
/// detail line with the percentage to one decimal place and, where the
/// intensity is known, the intensity text.
pub open spec fn legend_row_spec(
    label: Seq<char>,
    perc: int,
    intensity: Option<i32>,
    idx: int,
) -> Seq<char> {
    "<div class=\"legend-item\"><div class=\"legend-color\" style=\"background-color: "@
        + palette_color(idx)
        + "\"></div><div class=\"legend-info\"><span class=\"legend-label\">"@ + escape_seq(label)
        + "</span><span class=\"legend-details\">"@ + tenths_str(perc as nat) + "%"@ + (
    match intensity {
        Option::Some(v) => " \u{2022} "@ + intensity_text_spec(v as int),
        Option::None => Seq::<char>::empty(),
    }) + "</span></div></div>"@
}

/// Renders one legend row.
fn legend_row(label: &String, perc: u32, intensity: &Option<i32>, idx: usize) -> (r: String)
    ensures
        r@ == legend_row_spec(label@, perc as int, *intensity, idx as int),
{
    let name = escape_text(label.as_str());
    let pcs = fmt_tenths(perc as u64);
    let mut r = String::from_str(
        "<div class=\"legend-item\"><div class=\"legend-color\" style=\"background-color: ",
    );
    r.append(color_at(idx));
    r.append("\"></div><div class=\"legend-info\"><span class=\"legend-label\">");
    r.append(name.as_str());
    r.append("</span><span class=\"legend-details\">");
    r.append(pcs.as_str());
    r.append("%");
    match intensity {
        Option::Some(v) => {
            r.append(" \u{2022} ");
            let text = intensity_text(*v);
            r.append(text.as_str());
        },
        Option::None => {},
    }
    r.append("</span></div></div>");
    proof {
        assert(r@ =~= legend_row_spec(label@, perc as int, *intensity, idx as int));
    }
    r
}

/// The legend rows of the first `n` entries, in entry order with the same
/// color assignment as the chart.
pub open spec fn legend_spec(s: Seq<ProportionEntry>, n: int) -> Seq<char>
    decreases n,
{
    if n <= 0 {
        Seq::<char>::empty()
    } else {
        legend_spec(s, n - 1) + legend_row_spec(
            s[n - 1].label@,
            s[n - 1].percent_tenths as int,
            s[n - 1].intensity,
            n - 1,
        )
    }
}

/// Renders the legend block for the given entries.
pub fn render_legend(entries: &Vec<ProportionEntry>) -> (r: String)
    ensures
        r@ == legend_spec(entries@, entries@.len() as int),
{
    let mut out = String::new();
    let mut i: usize = 0;
    while i < entries.len()
        invariant
            i <= entries@.len(),
            out@ == legend_spec(entries@, i as int),
        decreases entries@.len() - i,
    {
        let e = &entries[i];
        let row = legend_row(&e.label, e.percent_tenths, &e.intensity, i);
        out.append(row.as_str());
        i = i + 1;
    }
    out
}

/// Renders the proportional chart of the given entries.
pub fn render_pie_chart(entries: &Vec<ProportionEntry>) -> (r: String)
    requires
        entries_ok(entries@),
    ensures
        r@ == pie_chart_spec(entries@),
        total_of(entries@) == 0 ==> r@ == Seq::<char>::empty(),
{
    let total = total_tenths(entries);
    if total == 0 {
        return String::new();
    }
    let mut out = String::new();
    let mut prefix: u64 = 0;
    let mut i: usize = 0;
    while i < entries.len()
        invariant
            entries_ok(entries@),
            i <= entries@.len(),
            total == total_of(entries@),
            0 < total <= 1000000000,
            prefix == total_of(entries@.take(i as int)),
            prefix <= total,
            out@ == pie_slices_spec(entries@, total as int, i as int),
        decreases entries@.len() - i,
    {
        proof {
            lemma_total_take_step(entries@, i as int);
            lemma_total_take_le(entries@, i + 1);
            lemma_total_nonneg(entries@.take(i as int));
        }
        let e = &entries[i];
        let piece = slice_markup(&e.label, e.percent_tenths, prefix, total, i);
        out.append(piece.as_str());
        prefix = prefix + e.percent_tenths as u64;
        i = i + 1;
    }
    out
}

} // verus!
