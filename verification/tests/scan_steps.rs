use repolyze::store::scan::{next_scan_step, CacheStatus, ScanAction, ScanEvent, ScanPhase};

fn run(events: &[ScanEvent]) -> (ScanPhase, Vec<ScanAction>) {
    let mut phase = ScanPhase::AwaitMetadata;
    let mut actions = Vec::new();
    for e in events {
        let (next, action) = next_scan_step(phase, *e);
        phase = next;
        if let Some(a) = action {
            actions.push(a);
        }
    }
    (phase, actions)
}

fn finish(status: CacheStatus, success: bool, with_key: bool) -> ScanAction {
    ScanAction::Finish { status, success, with_key }
}

#[test]
fn analyze_target_uses_cached_snapshot_when_key_matches() {
    // A cacheable key whose snapshot is stored: the snapshot is used, nothing is analysed,
    // and the one scan record is ("hit", "success").
    let (phase, actions) = run(&[ScanEvent::MetadataRead { cacheable: true }, ScanEvent::SnapshotFound]);
    assert_eq!(phase, ScanPhase::Done);
    assert_eq!(actions, vec![ScanAction::LoadSnapshot, finish(CacheStatus::Hit, true, true)]);
    assert!(!actions.contains(&ScanAction::Analyze));
    let records: Vec<(String, String)> = actions
        .iter()
        .filter_map(|a| match a {
            ScanAction::Finish { status, success, .. } => Some((
                status.label().to_string(),
                if *success { "success".to_string() } else { "failed".to_string() },
            )),
            _ => None,
        })
        .collect();
    assert_eq!(records.as_slice(), &[("hit".to_string(), "success".to_string())]);
}

#[test]
fn first_scan_is_a_miss_that_stores_the_analysis() {
    let (phase, actions) = run(&[
        ScanEvent::MetadataRead { cacheable: true },
        ScanEvent::SnapshotMissing,
        ScanEvent::AnalysisDone,
        ScanEvent::SnapshotSaved,
    ]);
    assert_eq!(phase, ScanPhase::Done);
    assert_eq!(
        actions,
        vec![
            ScanAction::LoadSnapshot,
            ScanAction::Analyze,
            ScanAction::SaveSnapshot,
            finish(CacheStatus::Miss, true, true)
        ]
    );
}

#[test]
fn uncacheable_repository_bypasses_the_store() {
    let (phase, actions) = run(&[ScanEvent::MetadataRead { cacheable: false }, ScanEvent::AnalysisDone]);
    assert_eq!(phase, ScanPhase::Done);
    assert_eq!(actions, vec![ScanAction::Analyze, finish(CacheStatus::Bypass, true, true)]);
    let (_, failed) = run(&[ScanEvent::MetadataRead { cacheable: false }, ScanEvent::AnalysisFailed]);
    assert_eq!(failed, vec![ScanAction::Analyze, finish(CacheStatus::Bypass, false, true)]);
}

#[test]
fn metadata_failure_records_a_failed_miss_without_key() {
    let (phase, actions) = run(&[ScanEvent::MetadataFailed]);
    assert_eq!(phase, ScanPhase::Done);
    assert_eq!(actions, vec![finish(CacheStatus::Miss, false, false)]);
}

#[test]
fn lookup_or_analysis_failure_of_cacheable_repository_is_a_failed_miss() {
    let (_, a) = run(&[ScanEvent::MetadataRead { cacheable: true }, ScanEvent::SnapshotFailed]);
    assert_eq!(a, vec![ScanAction::LoadSnapshot, finish(CacheStatus::Miss, false, true)]);
    let (_, b) = run(&[
        ScanEvent::MetadataRead { cacheable: true },
        ScanEvent::SnapshotMissing,
        ScanEvent::AnalysisFailed,
    ]);
    assert_eq!(b, vec![ScanAction::LoadSnapshot, ScanAction::Analyze, finish(CacheStatus::Miss, false, true)]);
}

#[test]
fn events_after_the_record_change_nothing() {
    let (phase, actions) = run(&[
        ScanEvent::MetadataFailed,
        ScanEvent::MetadataRead { cacheable: true },
        ScanEvent::SnapshotFound,
        ScanEvent::AnalysisDone,
    ]);
    assert_eq!(phase, ScanPhase::Done);
    assert_eq!(actions, vec![finish(CacheStatus::Miss, false, false)]);
}

#[test]
fn event_of_another_phase_is_ignored() {
    let (phase, action) = next_scan_step(ScanPhase::AwaitMetadata, ScanEvent::SnapshotFound);
    assert_eq!(phase, ScanPhase::AwaitMetadata);
    assert_eq!(action, None);
}

#[test]
fn cache_status_labels() {
    assert_eq!(CacheStatus::Hit.label(), "hit");
    assert_eq!(CacheStatus::Miss.label(), "miss");
    assert_eq!(CacheStatus::Bypass.label(), "bypass");
}
