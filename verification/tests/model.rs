use repolyze::model::{ActivitySummary, AnalysisRequest, HeatmapData, DAYS_IN_WEEK, HEATMAP_MAX_WEEKS};

#[test]
fn analysis_request_supports_multiple_repositories() {
    let request = AnalysisRequest {
        repositories: vec!["/tmp/a".into(), "/tmp/b".into()],
    };

    assert_eq!(request.repositories.len(), 2);
}

#[test]
fn activity_summary_defaults_to_zeros() {
    let activity = ActivitySummary::default();
    assert_eq!(activity.by_hour.iter().sum::<u32>(), 0);
    assert_eq!(activity.by_weekday.iter().sum::<u32>(), 0);
}

fn make_heatmap(max_count: u32) -> HeatmapData {
    HeatmapData {
        start_date: "2024-01-01".into(),
        end_date: "2025-01-01".into(),
        grid: vec![vec![0; HEATMAP_MAX_WEEKS]; DAYS_IN_WEEK],
        week_count: 52,
        max_count,
        month_labels: vec![],
    }
}

#[test]
fn legend_labels_zero_max() {
    let labels = make_heatmap(0).legend_labels();
    assert_eq!(labels, ["0", "0", "0", "0", "0"]);
}

#[test]
fn legend_labels_max_one() {
    let labels = make_heatmap(1).legend_labels();
    // All non-zero levels collapse to 1
    assert_eq!(labels[0], "0");
    assert!(labels.iter().all(|l| !l.is_empty()));
}

#[test]
fn legend_labels_max_twelve() {
    let labels = make_heatmap(12).legend_labels();
    // 25% of 12 = 3, 50% = 6, 75% = 9
    assert_eq!(labels[0], "0");
    assert_eq!(labels[1], "1-3");
    assert_eq!(labels[2], "4-6");
    assert_eq!(labels[3], "7-9");
    assert_eq!(labels[4], "10-12");
}

#[test]
fn legend_labels_small_maxima() {
    assert_eq!(make_heatmap(4).legend_labels(), ["0", "1", "2", "3", "4"]);
    assert_eq!(make_heatmap(1).legend_labels(), ["0", "1", "1", "1", "1"]);
    assert_eq!(make_heatmap(2).legend_labels(), ["0", "1", "2", "2", "2"]);
    assert_eq!(make_heatmap(3).legend_labels(), ["0", "1", "2", "3", "3"]);
    assert_eq!(make_heatmap(100).legend_labels(), ["0", "1-25", "26-50", "51-75", "76-100"]);
}
