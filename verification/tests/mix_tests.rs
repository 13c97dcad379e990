use carbon_charts::mix::headline_intensity;
use carbon_charts::mix::hourly_averages;
use carbon_charts::mix::intensity_for_fuel;
use carbon_charts::mix::timeline_points;
use carbon_charts::mix::CarbonFactors;
use carbon_charts::mix::HourlySample;
use carbon_charts::mix::IntensityReading;
use carbon_charts::mix::TimelineEntry;
use carbon_charts::text::escape_text;
use carbon_charts::text::fmt_fixed2;
use carbon_charts::text::fmt_tenths;
use carbon_charts::timefmt::fmt_hhmm;

// 2024-06-01T00:00Z as Unix seconds.
const DAY: i64 = 1717200000;

fn factors() -> CarbonFactors {
    CarbonFactors {
        biomass: 120,
        coal: 937,
        gas_combined_cycle: 394,
        gas_open_cycle: 651,
        hydro: 0,
        nuclear: 0,
        other: 300,
        solar: 0,
        wind: 0,
        dutch_imports: 474,
        french_imports: 53,
        irish_imports: 458,
    }
}

#[test]
fn headline_prefers_actual_over_forecast() {
    let readings = vec![IntensityReading { actual: Some(123), forecast: Some(456) }];
    assert_eq!(headline_intensity(&readings), 123);
}

#[test]
fn headline_falls_back_to_forecast_then_zero() {
    let forecast_only = vec![IntensityReading { actual: None, forecast: Some(456) }];
    assert_eq!(headline_intensity(&forecast_only), 456);
    let neither = vec![IntensityReading { actual: None, forecast: None }];
    assert_eq!(headline_intensity(&neither), 0);
    let empty: Vec<IntensityReading> = Vec::new();
    assert_eq!(headline_intensity(&empty), 0);
}

#[test]
fn fuel_factors_match_by_name() {
    let f = factors();
    assert_eq!(intensity_for_fuel("biomass", &f), 120);
    assert_eq!(intensity_for_fuel("coal", &f), 937);
    assert_eq!(intensity_for_fuel("gas", &f), 394);
    assert_eq!(intensity_for_fuel("wind", &f), 0);
    assert_eq!(intensity_for_fuel("unheard-of", &f), 0);
}

#[test]
fn imports_factor_is_truncated_average() {
    let f = factors();
    // (474 + 53 + 458) / 3 = 985 / 3, truncated.
    assert_eq!(intensity_for_fuel("imports", &f), 328);
}

#[test]
fn timeline_drops_records_without_start_time() {
    let entries = vec![
        TimelineEntry {
            from: Some("2024-06-01T10:00Z".to_string()),
            reading: IntensityReading { actual: Some(100), forecast: Some(90) },
        },
        TimelineEntry {
            from: None,
            reading: IntensityReading { actual: Some(5), forecast: None },
        },
        TimelineEntry {
            from: Some("2024-06-01T10:30Z".to_string()),
            reading: IntensityReading { actual: None, forecast: Some(80) },
        },
    ];
    let points = timeline_points(entries);
    assert_eq!(points.len(), 2);
    assert_eq!(points[0].datetime, "2024-06-01T10:00Z");
    assert_eq!(points[0].intensity, 100);
    assert!(!points[0].is_forecast);
    assert_eq!(points[1].datetime, "2024-06-01T10:30Z");
    assert_eq!(points[1].intensity, 80);
    assert!(points[1].is_forecast);
}

#[test]
fn hourly_averages_group_consecutive_hours() {
    let samples = vec![
        HourlySample { t: DAY + 36000, intensity: 100 },
        HourlySample { t: DAY + 37800, intensity: 200 },
        HourlySample { t: DAY + 39600, intensity: 50 },
    ];
    let rows = hourly_averages(&samples);
    assert_eq!(rows.len(), 2);
    assert_eq!(rows[0].label, "2024-06-01 10:00");
    assert_eq!(rows[0].average, 150);
    assert_eq!(rows[1].label, "2024-06-01 11:00");
    assert_eq!(rows[1].average, 50);
}

#[test]
fn hourly_average_truncates_toward_zero() {
    let samples = vec![
        HourlySample { t: DAY, intensity: 100 },
        HourlySample { t: DAY + 60, intensity: 101 },
        HourlySample { t: DAY + 120, intensity: 101 },
    ];
    let rows = hourly_averages(&samples);
    assert_eq!(rows.len(), 1);
    // (100 + 101 + 101) / 3 = 302 / 3, truncated.
    assert_eq!(rows[0].average, 100);
}

#[test]
fn clock_label_is_zero_padded() {
    assert_eq!(fmt_hhmm(DAY + 36000), "10:00");
    assert_eq!(fmt_hhmm(DAY + 3 * 3600 + 5 * 60), "03:05");
    assert_eq!(fmt_hhmm(DAY), "00:00");
}

#[test]
fn fixed_point_formatting_trims_trailing_zeros() {
    assert_eq!(fmt_fixed2(25000), "250");
    assert_eq!(fmt_fixed2(24800), "248");
    assert_eq!(fmt_fixed2(26550), "265.5");
    assert_eq!(fmt_fixed2(26552), "265.52");
    assert_eq!(fmt_fixed2(-50), "-0.5");
}

#[test]
fn percentage_formatting_keeps_one_decimal() {
    assert_eq!(fmt_tenths(1000), "100.0");
    assert_eq!(fmt_tenths(345), "34.5");
    assert_eq!(fmt_tenths(0), "0.0");
}

#[test]
fn escaping_replaces_markup_characters() {
    assert_eq!(escape_text("a<b&c"), "a&lt;b&amp;c");
    assert_eq!(escape_text("\"quoted\" & 'apostrophe' <tag>"),
        "&quot;quoted&quot; &amp; &#39;apostrophe&#39; &lt;tag&gt;");
    assert_eq!(escape_text("plain"), "plain");
    assert_eq!(escape_text(""), "");
}
