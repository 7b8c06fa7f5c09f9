//! The decisions of one scan of a local repository against the snapshot store: whether a
//! stored snapshot is looked for, when the repository is analysed, whether the analysis is
//! stored, and what the scan records. The caller performs each action and reports what came
//! of it as the next event.
use vstd::prelude::*;

verus! {

/// How a scan used the snapshot store.
#[derive(Debug, Clone, Copy, PartialEq, Eq, Structural)]
pub enum CacheStatus {
    /// A stored snapshot was reused.
    Hit,
    /// The repository could be cached but was analysed (or its metadata could not be read).
    Miss,
    /// The repository cannot be cached and was analysed.
    Bypass,
}

impl CacheStatus {
    /// The word the scan record stores.
    pub open spec fn spec_label(self) -> Seq<char> {
        match self {
            CacheStatus::Hit => "hit"@,
            CacheStatus::Miss => "miss"@,
            CacheStatus::Bypass => "bypass"@,
        }
    }

    /// The word the scan record stores: `hit`, `miss` or `bypass`.
    pub fn label(&self) -> (s: &'static str)
        ensures
            s@ == self.spec_label(),
    {
        match self {
            CacheStatus::Hit => "hit",
            CacheStatus::Miss => "miss",
            CacheStatus::Bypass => "bypass",
        }
    }
}

/// Where a scan stands: what it waits for.
#[derive(Debug, Clone, Copy, PartialEq, Eq, Structural)]
pub enum ScanPhase {
    /// The repository's cache metadata (its head and whether it can be cached) is being read;
    /// every scan starts here.
    AwaitMetadata,
    /// A stored snapshot is being looked for.
    AwaitSnapshot,
    /// The repository is being analysed.
    AwaitAnalysis { cacheable: bool },
    /// The fresh analysis is being stored.
    AwaitSave,
    /// The scan is over.
    Done,
}

/// What came of the last action.
#[derive(Debug, Clone, Copy, PartialEq, Eq, Structural)]
pub enum ScanEvent {
    MetadataRead { cacheable: bool },
    MetadataFailed,
    SnapshotFound,
    SnapshotMissing,
    SnapshotFailed,
    AnalysisDone,
    AnalysisFailed,
    /// The store was asked to keep the analysis; a failure there only warns.
    SnapshotSaved,
}

/// What the caller does next.
#[derive(Debug, Clone, Copy, PartialEq, Eq, Structural)]
pub enum ScanAction {
    LoadSnapshot,
    Analyze,
    SaveSnapshot,
    /// Record the scan with this cache status, as a success or a failure, with or without
    /// the cache metadata; then the scan yields the stored snapshot (a successful hit), the
    /// fresh analysis (another success), or the failure that ended it.
    Finish { status: CacheStatus, success: bool, with_key: bool },
}

/// The next phase and action after `event` in `phase`; an event that does not belong to the
/// phase changes nothing and asks for nothing.
pub open spec fn scan_next(phase: ScanPhase, event: ScanEvent) -> (ScanPhase, Option<ScanAction>) {
    match (phase, event) {
        (ScanPhase::AwaitMetadata, ScanEvent::MetadataRead { cacheable }) => if cacheable {
            (ScanPhase::AwaitSnapshot, Some(ScanAction::LoadSnapshot))
        } else {
            (ScanPhase::AwaitAnalysis { cacheable: false }, Some(ScanAction::Analyze))
        },
        (ScanPhase::AwaitMetadata, ScanEvent::MetadataFailed) => (
            ScanPhase::Done,
            Some(ScanAction::Finish { status: CacheStatus::Miss, success: false, with_key: false }),
        ),
        (ScanPhase::AwaitSnapshot, ScanEvent::SnapshotFound) => (
            ScanPhase::Done,
            Some(ScanAction::Finish { status: CacheStatus::Hit, success: true, with_key: true }),
        ),
        (ScanPhase::AwaitSnapshot, ScanEvent::SnapshotMissing) => (
            ScanPhase::AwaitAnalysis { cacheable: true },
            Some(ScanAction::Analyze),
        ),
        (ScanPhase::AwaitSnapshot, ScanEvent::SnapshotFailed) => (
            ScanPhase::Done,
            Some(ScanAction::Finish { status: CacheStatus::Miss, success: false, with_key: true }),
        ),
        (ScanPhase::AwaitAnalysis { cacheable }, ScanEvent::AnalysisFailed) => (
            ScanPhase::Done,
            Some(
                ScanAction::Finish {
                    status: if cacheable { CacheStatus::Miss } else { CacheStatus::Bypass },
                    success: false,
                    with_key: true,
                },
            ),
        ),
        (ScanPhase::AwaitAnalysis { cacheable }, ScanEvent::AnalysisDone) => if cacheable {
            (ScanPhase::AwaitSave, Some(ScanAction::SaveSnapshot))
        } else {
            (
                ScanPhase::Done,
                Some(ScanAction::Finish { status: CacheStatus::Bypass, success: true, with_key: true }),
            )
        },
        (ScanPhase::AwaitSave, ScanEvent::SnapshotSaved) => (
            ScanPhase::Done,
            Some(ScanAction::Finish { status: CacheStatus::Miss, success: true, with_key: true }),
        ),
        _ => (phase, None),
    }
}

/// The next phase and action of a scan after `event` in `phase`.
pub fn next_scan_step(phase: ScanPhase, event: ScanEvent) -> (r: (ScanPhase, Option<ScanAction>))
    ensures
        r == scan_next(phase, event),
{
    match (phase, event) {
        (ScanPhase::AwaitMetadata, ScanEvent::MetadataRead { cacheable }) => if cacheable {
            (ScanPhase::AwaitSnapshot, Some(ScanAction::LoadSnapshot))
        } else {
            (ScanPhase::AwaitAnalysis { cacheable: false }, Some(ScanAction::Analyze))
        },
        (ScanPhase::AwaitMetadata, ScanEvent::MetadataFailed) => (
            ScanPhase::Done,
            Some(ScanAction::Finish { status: CacheStatus::Miss, success: false, with_key: false }),
        ),
        (ScanPhase::AwaitSnapshot, ScanEvent::SnapshotFound) => (
            ScanPhase::Done,
            Some(ScanAction::Finish { status: CacheStatus::Hit, success: true, with_key: true }),
        ),
        (ScanPhase::AwaitSnapshot, ScanEvent::SnapshotMissing) => (
            ScanPhase::AwaitAnalysis { cacheable: true },
            Some(ScanAction::Analyze),
        ),
        (ScanPhase::AwaitSnapshot, ScanEvent::SnapshotFailed) => (
            ScanPhase::Done,
            Some(ScanAction::Finish { status: CacheStatus::Miss, success: false, with_key: true }),
        ),
        (ScanPhase::AwaitAnalysis { cacheable }, ScanEvent::AnalysisFailed) => {
            let status = if cacheable { CacheStatus::Miss } else { CacheStatus::Bypass };
            (ScanPhase::Done, Some(ScanAction::Finish { status, success: false, with_key: true }))
        },
        (ScanPhase::AwaitAnalysis { cacheable }, ScanEvent::AnalysisDone) => if cacheable {
            (ScanPhase::AwaitSave, Some(ScanAction::SaveSnapshot))
        } else {
            (
                ScanPhase::Done,
                Some(ScanAction::Finish { status: CacheStatus::Bypass, success: true, with_key: true }),
            )
        },
        (ScanPhase::AwaitSave, ScanEvent::SnapshotSaved) => (
            ScanPhase::Done,
            Some(ScanAction::Finish { status: CacheStatus::Miss, success: true, with_key: true }),
        ),
        _ => (phase, None),
    }
}

/// The phase reached and the actions asked for when a scan meets `events` in turn.
pub open spec fn scan_run(events: Seq<ScanEvent>) -> (ScanPhase, Seq<ScanAction>)
    decreases events.len(),
{
    if events.len() == 0 {
        (ScanPhase::AwaitMetadata, Seq::empty())
    } else {
        let (p, acts) = scan_run(events.drop_last());
        let (q, a) = scan_next(p, events.last());
        (q, match a {
            Some(x) => acts.push(x),
            None => acts,
        })
    }
}

/// The actions a scan has asked for in each phase: a scan waiting for something has asked
/// for exactly the steps that lead there, and a finished scan followed one of the seven
/// paths (metadata failure; hit; lookup failure; analysis failure or success, cached or
/// not).
pub open spec fn scan_path(phase: ScanPhase, acts: Seq<ScanAction>) -> bool {
    let load = ScanAction::LoadSnapshot;
    let analyze = ScanAction::Analyze;
    let save = ScanAction::SaveSnapshot;
    match phase {
        ScanPhase::AwaitMetadata => acts == Seq::<ScanAction>::empty(),
        ScanPhase::AwaitSnapshot => acts == seq![load],
        ScanPhase::AwaitAnalysis { cacheable } => if cacheable {
            acts == seq![load, analyze]
        } else {
            acts == seq![analyze]
        },
        ScanPhase::AwaitSave => acts == seq![load, analyze, save],
        ScanPhase::Done => {
            ||| acts == seq![ScanAction::Finish { status: CacheStatus::Miss, success: false, with_key: false }]
            ||| acts == seq![load, ScanAction::Finish { status: CacheStatus::Hit, success: true, with_key: true }]
            ||| acts == seq![load, ScanAction::Finish { status: CacheStatus::Miss, success: false, with_key: true }]
            ||| acts == seq![load, analyze, ScanAction::Finish { status: CacheStatus::Miss, success: false, with_key: true }]
            ||| acts == seq![load, analyze, save, ScanAction::Finish { status: CacheStatus::Miss, success: true, with_key: true }]
            ||| acts == seq![analyze, ScanAction::Finish { status: CacheStatus::Bypass, success: false, with_key: true }]
            ||| acts == seq![analyze, ScanAction::Finish { status: CacheStatus::Bypass, success: true, with_key: true }]
        },
    }
}

/// Every scan, whatever events it meets, follows one of the paths of `scan_path`.
pub proof fn lemma_scan_paths(events: Seq<ScanEvent>)
    ensures
        scan_path(scan_run(events).0, scan_run(events).1),
    decreases events.len(),
{
    if events.len() > 0 {
        let dl = events.drop_last();
        lemma_scan_paths(dl);
        let (p, acts) = scan_run(dl);
        let (q, a) = scan_next(p, events.last());
        if let Some(x) = a {
            let load = ScanAction::LoadSnapshot;
            let analyze = ScanAction::Analyze;
            match p {
                ScanPhase::AwaitMetadata => assert(acts.push(x) =~= seq![x]),
                ScanPhase::AwaitSnapshot => assert(acts.push(x) =~= seq![load, x]),
                ScanPhase::AwaitAnalysis { cacheable } => if cacheable {
                    assert(acts.push(x) =~= seq![load, analyze, x]);
                } else {
                    assert(acts.push(x) =~= seq![analyze, x]);
                },
                ScanPhase::AwaitSave => assert(acts.push(x) =~= seq![load, analyze, ScanAction::SaveSnapshot, x]),
                ScanPhase::Done => {},
            }
        }
    }
}

/// A scan records itself once, as its last action, and exactly when it is over; after that
/// no event asks for anything more.
pub proof fn lemma_scan_records_once(events: Seq<ScanEvent>, more: Seq<ScanEvent>)
    ensures
        ({
            let (p, acts) = scan_run(events);
            &&& (p == ScanPhase::Done) == (acts.len() > 0 && acts.last() is Finish)
            &&& forall|i: int| 0 <= i < acts.len() - 1 ==> !(acts[i] is Finish)
        }),
        scan_run(events).0 == ScanPhase::Done ==> scan_run(events + more) == scan_run(events),
    decreases more.len(),
{
    lemma_scan_paths(events);
    if more.len() > 0 {
        lemma_scan_records_once(events, more.drop_last());
        assert((events + more).drop_last() =~= events + more.drop_last());
    }
}

/// A repository that cannot be cached is never looked up in the store nor stored there,
/// and its scan records `bypass`.
pub proof fn lemma_uncacheable_scan_bypasses(events: Seq<ScanEvent>)
    requires
        events.len() > 0,
        events[0] == (ScanEvent::MetadataRead { cacheable: false }),
    ensures
        forall|i: int| 0 <= i < scan_run(events).1.len() ==> {
            let a = #[trigger] scan_run(events).1[i];
            &&& a != ScanAction::LoadSnapshot
            &&& a != ScanAction::SaveSnapshot
            &&& a matches ScanAction::Finish { status, .. } ==> status == CacheStatus::Bypass
        },
{
    lemma_scan_paths(events);
    lemma_actions_grow(events, 1);
    let first = events.take(1);
    assert(first.drop_last() =~= Seq::<ScanEvent>::empty());
    assert(first.last() == events[0]);
    assert(scan_run(first.drop_last()) == (ScanPhase::AwaitMetadata, Seq::<ScanAction>::empty()));
    assert(scan_run(first).1 =~= seq![ScanAction::Analyze]);
    assert(scan_run(events).1.take(1)[0] == scan_run(events).1[0]);
    assert(scan_run(events).1[0] == ScanAction::Analyze);
}

/// The actions of a scan only grow as events come: those asked for after the first `n`
/// events begin the actions asked for after all of them.
proof fn lemma_actions_grow(events: Seq<ScanEvent>, n: int)
    requires
        0 <= n <= events.len(),
    ensures
        scan_run(events.take(n)).1.len() <= scan_run(events).1.len(),
        scan_run(events).1.take(scan_run(events.take(n)).1.len() as int) == scan_run(events.take(n)).1,
    decreases events.len(),
{
    if n == events.len() {
        assert(events.take(n) =~= events);
        assert(scan_run(events).1.take(scan_run(events).1.len() as int) =~= scan_run(events).1);
    } else {
        lemma_actions_grow(events.drop_last(), n);
        assert(events.drop_last().take(n) =~= events.take(n));
        let k = scan_run(events.take(n)).1.len() as int;
        assert(scan_run(events).1.take(k) =~= scan_run(events.drop_last()).1.take(k));
    }
}

/// A stored snapshot is reused only when it was found right after the lookup, and then the
/// repository is not analysed; a successful `miss` has stored the fresh analysis first.
pub proof fn lemma_hit_and_miss_paths(events: Seq<ScanEvent>)
    ensures
        ({
            let acts = scan_run(events).1;
            &&& acts.contains(ScanAction::Finish { status: CacheStatus::Hit, success: true, with_key: true })
                ==> !acts.contains(ScanAction::Analyze)
            &&& acts.contains(ScanAction::Finish { status: CacheStatus::Miss, success: true, with_key: true })
                ==> acts.contains(ScanAction::SaveSnapshot)
        }),
{
    lemma_scan_paths(events);
    let acts = scan_run(events).1;
    let hit = ScanAction::Finish { status: CacheStatus::Hit, success: true, with_key: true };
    let miss = ScanAction::Finish { status: CacheStatus::Miss, success: true, with_key: true };
    if acts.contains(hit) {
        let i = choose|i: int| 0 <= i < acts.len() && acts[i] == hit;
        assert(acts.len() == 2 && acts[0] == ScanAction::LoadSnapshot);
        assert(!acts.contains(ScanAction::Analyze)) by {
            if acts.contains(ScanAction::Analyze) {
                let j = choose|j: int| 0 <= j < acts.len() && acts[j] == ScanAction::Analyze;
                assert(j == 0 || j == 1);
            }
        }
    }
    if acts.contains(miss) {
        let i = choose|i: int| 0 <= i < acts.len() && acts[i] == miss;
        assert(acts.len() == 4 && acts[2] == ScanAction::SaveSnapshot);
    }
}

} // verus!
