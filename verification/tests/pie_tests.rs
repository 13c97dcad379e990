use carbon_charts::pie::intensity_text;
use carbon_charts::pie::render_legend;
use carbon_charts::pie::render_pie_chart;
use carbon_charts::pie::ProportionEntry;

fn entry(label: &str, percent_tenths: u32, intensity: Option<i32>) -> ProportionEntry {
    ProportionEntry { label: label.to_string(), percent_tenths, intensity }
}

#[test]
fn pie_empty_entries_renders_nothing() {
    let entries: Vec<ProportionEntry> = Vec::new();
    assert_eq!(render_pie_chart(&entries), "");
}

#[test]
fn pie_zero_total_renders_nothing() {
    let entries = vec![entry("wind", 0, None), entry("solar", 0, None)];
    assert_eq!(render_pie_chart(&entries), "");
}

#[test]
fn pie_single_entry_covers_circle() {
    let entries = vec![entry("wind", 1000, None)];
    let out = render_pie_chart(&entries);
    let expected = "<path d=\"M 250 250 L 400 250 A 150 150 0 1 1 400 250 Z\" \
fill=\"#FF6B6B\" stroke=\"white\" stroke-width=\"2\" />\
<text x=\"75\" y=\"248\" text-anchor=\"middle\" font-family=\"Arial, sans-serif\" \
font-size=\"11\" font-weight=\"bold\" fill=\"#333333\">wind</text>\
<text x=\"75\" y=\"260\" text-anchor=\"middle\" font-family=\"Arial, sans-serif\" \
font-size=\"10\" fill=\"#666666\">100.0%</text>";
    assert_eq!(out, expected);
}

#[test]
fn pie_two_halves_share_boundary_point() {
    // The first slice ends exactly where the second begins: both paths name
    // the same circle point (100, 250).
    let entries = vec![entry("wind", 500, None), entry("gas", 500, None)];
    let out = render_pie_chart(&entries);
    assert!(out.contains("M 250 250 L 400 250 A 150 150 0 0 1 100 250 Z"));
    assert!(out.contains("M 250 250 L 100 250 A 150 150 0 0 1 400 250 Z"));
}

#[test]
fn pie_normalizes_by_entry_total_not_by_hundred() {
    // Percentages summing to half still cover the full circle: the sum is
    // the normalization denominator.
    let halves = vec![entry("wind", 250, None), entry("gas", 250, None)];
    let out = render_pie_chart(&halves);
    assert!(out.contains("M 250 250 L 400 250 A 150 150 0 0 1 100 250 Z"));
    assert!(out.contains("M 250 250 L 100 250 A 150 150 0 0 1 400 250 Z"));
}

#[test]
fn pie_thin_slice_has_geometry_but_no_label() {
    let entries = vec![entry("other", 4, None), entry("wind", 996, None)];
    let out = render_pie_chart(&entries);
    // Both wedges are drawn, but only the large slice gets its two label
    // lines.
    assert_eq!(out.matches("<path").count(), 2);
    assert_eq!(out.matches("<text").count(), 2);
    assert!(out.contains(">wind</text>"));
    assert!(!out.contains(">other</text>"));
}

#[test]
fn pie_half_percent_slice_gets_two_label_lines() {
    let entries = vec![entry("other", 5, None), entry("wind", 995, None)];
    let out = render_pie_chart(&entries);
    assert_eq!(out.matches("<text").count(), 4);
    assert!(out.contains(">other</text>"));
    assert!(out.contains(">0.5%</text>"));
}

#[test]
fn pie_colors_follow_entry_order_cyclically() {
    let mut entries = Vec::new();
    for i in 0..16 {
        entries.push(entry(&format!("f{}", i), 10, None));
    }
    let out = render_pie_chart(&entries);
    // The sixteenth slice wraps around to the first palette color.
    assert_eq!(out.matches("fill=\"#FF6B6B\"").count(), 2);
    assert_eq!(out.matches("fill=\"#4ECDC4\"").count(), 1);
}

#[test]
fn pie_escapes_label_text() {
    let entries = vec![entry("a<b&c", 1000, None)];
    let out = render_pie_chart(&entries);
    assert!(out.contains(">a&lt;b&amp;c</text>"));
    assert!(!out.contains(">a<b&c</text>"));
}

#[test]
fn legend_row_shows_swatch_label_percent_and_intensity() {
    let entries = vec![entry("wind", 345, Some(120))];
    let out = render_legend(&entries);
    let expected = "<div class=\"legend-item\">\
<div class=\"legend-color\" style=\"background-color: #FF6B6B\"></div>\
<div class=\"legend-info\"><span class=\"legend-label\">wind</span>\
<span class=\"legend-details\">34.5% \u{2022} 120 gCO\u{2082}/kWh</span>\
</div></div>";
    assert_eq!(out, expected);
}

#[test]
fn legend_row_without_intensity_omits_intensity_text() {
    let entries = vec![entry("solar", 120, None)];
    let out = render_legend(&entries);
    assert!(out.contains("<span class=\"legend-details\">12.0%</span>"));
    assert!(!out.contains("gCO\u{2082}/kWh"));
}

#[test]
fn legend_zero_intensity_renders_literal_zero_with_unit() {
    assert_eq!(intensity_text(0), "0 gCO\u{2082}/kWh");
    let entries = vec![entry("wind", 500, Some(0))];
    let out = render_legend(&entries);
    assert!(out.contains("50.0% \u{2022} 0 gCO\u{2082}/kWh"));
}

#[test]
fn legend_nonzero_intensity_renders_value_with_unit() {
    assert_eq!(intensity_text(45), "45 gCO\u{2082}/kWh");
}

#[test]
fn pie_and_legend_render_identically_twice() {
    let entries = vec![
        entry("wind", 345, Some(12)),
        entry("gas", 400, Some(430)),
        entry("other", 4, Some(0)),
    ];
    assert_eq!(render_pie_chart(&entries), render_pie_chart(&entries));
    assert_eq!(render_legend(&entries), render_legend(&entries));
}
