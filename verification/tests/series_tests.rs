use carbon_charts::series::marker_index;
use carbon_charts::series::marker_index_of_times;
use carbon_charts::series::render_intensity_chart;
use carbon_charts::series::series_paths;
use carbon_charts::series::tick_bounds;
use carbon_charts::series::tick_step;
use carbon_charts::series::IntensityPoint;

// 2024-06-01T00:00Z as Unix seconds; the point times below are that day's
// morning half-hours.
const DAY: i64 = 1717200000;

fn point(datetime: &str, intensity: i32, is_forecast: bool) -> IntensityPoint {
    IntensityPoint { datetime: datetime.to_string(), intensity, is_forecast }
}

#[test]
fn series_empty_input_renders_nothing() {
    let points: Vec<IntensityPoint> = Vec::new();
    assert_eq!(render_intensity_chart(&points, DAY + 36000), "");
}

#[test]
fn series_flat_series_renders_nothing() {
    let points = vec![
        point("2024-06-01T10:00Z", 100, false),
        point("2024-06-01T10:30Z", 100, false),
    ];
    assert_eq!(render_intensity_chart(&points, DAY + 36000), "");
}

#[test]
fn series_paths_split_at_forecast_boundary() {
    // Two measured points and one forecast point: the historical path holds
    // exactly the first two, and the forecast path is seeded from the last
    // historical position so the strokes join without a gap.
    let points = vec![
        point("2024-06-01T10:00Z", 50, false),
        point("2024-06-01T10:30Z", 150, false),
        point("2024-06-01T11:00Z", 100, true),
    ];
    let (hist, fore) = series_paths(&points);
    assert_eq!(hist, "M 50 140 L 265 20");
    assert_eq!(fore, "M 265 20 L 480 80");
}

#[test]
fn series_marker_at_first_future_point() {
    let points = vec![
        point("2024-06-01T10:00Z", 50, false),
        point("2024-06-01T10:30Z", 150, false),
        point("2024-06-01T11:00Z", 100, true),
    ];
    // Now is 10:45, between the second and third points.
    let now = DAY + 38700;
    assert_eq!(marker_index(&points, now), 2);
    let out = render_intensity_chart(&points, now);
    assert!(out.contains(
        "<line x1=\"480\" y1=\"20\" x2=\"480\" y2=\"140\" stroke=\"#e74c3c\" stroke-width=\"2\"/>"
    ));
}

#[test]
fn series_marker_falls_back_to_midpoint() {
    let points = vec![
        point("2024-06-01T10:00Z", 50, false),
        point("2024-06-01T10:30Z", 150, false),
        point("2024-06-01T11:00Z", 100, false),
    ];
    // Now is past every point, so the marker sits at the midpoint index.
    let now = DAY + 50000;
    assert_eq!(marker_index(&points, now), 1);
}

#[test]
fn series_marker_ignores_unparsable_timestamps() {
    let points = vec![
        point("not a time", 50, false),
        point("2024-06-01T10:30Z", 150, false),
    ];
    let now = DAY + 36900;
    assert_eq!(marker_index(&points, now), 1);
}

#[test]
fn marker_of_times_picks_first_after_now() {
    let times = vec![Some(10i64), Some(20), Some(30)];
    assert_eq!(marker_index_of_times(&times, 15), 1);
    assert_eq!(marker_index_of_times(&times, 25), 2);
    assert_eq!(marker_index_of_times(&times, 35), 1);
    let gaps = vec![None, Some(20i64), Some(30)];
    assert_eq!(marker_index_of_times(&gaps, 5), 1);
}

#[test]
fn tick_step_is_quarter_range_rounded_up() {
    assert_eq!(tick_step(20, 180), 40);
    assert_eq!(tick_bounds(20, 180), (0, 200));
}

#[test]
fn tick_step_never_drops_below_twenty() {
    assert_eq!(tick_step(0, 40), 20);
    assert_eq!(tick_step(100, 101), 20);
}

#[test]
fn series_tick_labels_cover_the_range() {
    let points = vec![
        point("2024-06-01T10:00Z", 20, false),
        point("2024-06-01T10:30Z", 180, false),
    ];
    let out = render_intensity_chart(&points, DAY + 36900);
    // Step 40 from 0 through 200, first tick at or below the minimum.
    for label in [">0</text>", ">40</text>", ">80</text>", ">120</text>", ">160</text>",
        ">200</text>"] {
        assert!(out.contains(label), "missing tick label {}", label);
    }
    assert!(!out.contains(">240</text>"));
}

#[test]
fn series_time_labels_start_at_window_start() {
    let points = vec![
        point("2024-06-01T10:00Z", 20, false),
        point("2024-06-01T10:30Z", 180, false),
    ];
    // Now is 10:00, so the window starts twelve hours earlier at 22:00.
    let out = render_intensity_chart(&points, DAY + 36000);
    assert!(out.contains(">22:00</text>"));
}

#[test]
fn series_renders_identically_twice() {
    let points = vec![
        point("2024-06-01T10:00Z", 50, false),
        point("2024-06-01T10:30Z", 150, false),
        point("2024-06-01T11:00Z", 100, true),
    ];
    let now = DAY + 38700;
    assert_eq!(
        render_intensity_chart(&points, now),
        render_intensity_chart(&points, now)
    );
}
