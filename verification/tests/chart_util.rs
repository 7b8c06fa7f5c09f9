use repolyze::chart_util::{fit_bar_dimensions, format_value_fit, render_sparkline_bars};

#[test]
fn format_value_fit_small_values_pass_through() {
    assert_eq!(format_value_fit(0, 3), "0");
    assert_eq!(format_value_fit(42, 3), "42");
    assert_eq!(format_value_fit(999, 3), "999");
}

#[test]
fn format_value_fit_si_abbreviation() {
    assert_eq!(format_value_fit(1_000, 2), "1k");
    assert_eq!(format_value_fit(12_000, 3), "12k");
    assert_eq!(format_value_fit(1_000_000, 2), "1M");
    assert_eq!(format_value_fit(1_000_000_000, 2), "1G");
}

#[test]
fn format_value_fit_truncates_with_plus() {
    // "12k" is 3 chars, col_width=2 → "1+"
    assert_eq!(format_value_fit(12_000, 2), "1+");
}

#[test]
fn format_value_fit_col_width_zero_returns_raw() {
    assert_eq!(format_value_fit(12_345, 0), "12345");
}

#[test]
fn format_value_fit_width_one_and_small_values() {
    assert_eq!(format_value_fit(12_000, 1), "+");
    assert_eq!(format_value_fit(123, 2), "12");
}

#[test]
fn fit_bar_dimensions_weekday_fits_at_default() {
    let bars: Vec<(String, u64)> = ["Mon", "Tue", "Wed", "Thu", "Fri", "Sat", "Sun"]
        .iter()
        .map(|l| (l.to_string(), 10u64))
        .collect();
    let (cw, gap, labels) = fit_bar_dimensions(&bars, 80);
    // max(label_width=3, value_width=2, 3) = 3
    assert_eq!(cw, 3);
    assert_eq!(gap, 1);
    assert_eq!(labels.len(), 7);
    assert_eq!(labels[0], "Mon");
}

#[test]
fn fit_bar_dimensions_hour_strips_suffix() {
    let bars: Vec<(String, u64)> = (0..24).map(|h| (format!("{h:02}:00"), 5u64)).collect();
    let (_, _, labels) = fit_bar_dimensions(&bars, 80);
    // With 24 bars × 5-char labels + gaps = 143 > 80; stripped to bare "HH".
    assert_eq!(labels[0], "00");
    assert_eq!(labels[23], "23");
}

#[test]
fn fit_bar_dimensions_respects_caller_padded_width() {
    let bars: Vec<(String, u64)> = (0..24).map(|h| (format!("{h:02}:00"), 99u64)).collect();
    let tui_width: usize = 71;
    // Caller reserves 1 char for the row's leading space.
    let (cw, gap, _) = fit_bar_dimensions(&bars, tui_width - 1);
    let rendered = 1 + 24 * cw + 23 * gap;
    assert!(
        rendered <= tui_width,
        "rendered width {rendered} exceeded terminal {tui_width} (cw={cw}, gap={gap})"
    );
}

#[test]
fn fit_bar_dimensions_includes_value_width() {
    // 7 bars, all values = 999 (3 digits). col_width must be >= 3.
    let bars: Vec<(String, u64)> = ["Mon", "Tue", "Wed", "Thu", "Fri", "Sat", "Sun"]
        .iter()
        .map(|l| (l.to_string(), 999u64))
        .collect();
    let (cw, _, _) = fit_bar_dimensions(&bars, 80);
    assert!(cw >= 3, "col_width {cw} should accommodate 3-digit values");
}

#[test]
fn fit_bar_dimensions_shrinks_to_zero_gap_when_narrow() {
    let bars: Vec<(String, u64)> = (0..10).map(|i| (format!("label{i}"), 1u64)).collect();
    let (cw, gap, labels) = fit_bar_dimensions(&bars, 12);
    // 12 - 9 gaps = 3, 3 / 10 = 0 → no gaps, 12 / 10 = 1 column each
    assert_eq!((cw, gap), (1, 0));
    assert_eq!(labels[3], "l");
}

#[test]
fn render_sparkline_bars_all_zero_returns_empty_message() {
    let bars = vec![("A".to_string(), 0u64), ("B".to_string(), 0u64)];
    let out = render_sparkline_bars(&bars, 80, "(no data)");
    assert!(out.contains("(no data)"));
    assert!(!out.contains('█'));
    assert_eq!(out, "A B\n(no data)\n");
}

#[test]
fn render_sparkline_bars_renders_tallest_block_for_max_value() {
    let bars = vec![("A".to_string(), 1u64), ("B".to_string(), 10u64)];
    let out = render_sparkline_bars(&bars, 80, "(no data)");
    assert!(out.contains('█'));
    // Value row contains both values
    assert!(out.contains("10"));
    // Label row contains labels
    assert!(out.contains('A'));
    assert!(out.contains('B'));
}

#[test]
fn render_sparkline_bars_produces_ten_lines_when_values_nonzero() {
    // 8 sparkline rows + 1 value row + 1 label row = 10 newline-terminated lines.
    let bars = vec![("A".to_string(), 5u64), ("B".to_string(), 10u64)];
    let out = render_sparkline_bars(&bars, 80, "(no data)");
    assert_eq!(out.matches('\n').count(), 10);
}

#[test]
fn render_sparkline_bars_exact_layout() {
    let bars = vec![("A".to_string(), 5u64), ("B".to_string(), 10u64)];
    let out = render_sparkline_bars(&bars, 80, "(no data)");
    let lines: Vec<&str> = out.lines().collect();
    // A bar's top row shows the block of its rounded remainder: 1/16 of the row → ▅.
    assert_eq!(lines[0], "    ▅▅▅");
    assert_eq!(lines[4], "▅▅▅ ███");
    assert_eq!(lines[5], "███ ███");
    assert_eq!(lines[8], " 5  10 ");
    assert_eq!(lines[9], " A   B ");
}
