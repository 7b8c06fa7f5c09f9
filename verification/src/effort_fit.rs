//! Whether the per-user effort view can be built over a set of analyses: every sum it takes
//! (per merged contributor, per extension, per date, per trend window) is part of one of a
//! few grand totals, so testing those totals is enough.
use vstd::prelude::*;

use crate::analytics::{
    acts_entries, all_sum, collect_events, totals_fit, events_totals_fit, key_sum, lemma_key_sum_le_all_sum,
    lemma_totals_fit_merge, merge_events, merge_fits, trends_defined, trends_defined_exec, trend_windows,
    window_sum, date_totals_fit,
};
use crate::model::{ContributorActivityStats, ContributorStats, RepositoryAnalysis};
use crate::settings::{Settings, UserView};
use crate::tally::entries_total;
use crate::users::{acts_with_key, contribs_with_key, effort_defined, ext_events, key_acts, key_contribs, key_entries};

verus! {

/// The sum of the counts of a list of `(name, count)` pairs.
pub open spec fn ext_counts(v: Seq<(String, u64)>) -> nat
    decreases v.len(),
{
    if v.len() == 0 {
        0
    } else {
        ext_counts(v.drop_last()) + v.last().1 as nat
    }
}

/// The changed files per extension, summed over the contributors.
pub open spec fn contribs_ext_total(cs: Seq<ContributorStats>) -> nat
    decreases cs.len(),
{
    if cs.len() == 0 {
        0
    } else {
        contribs_ext_total(cs.drop_last()) + ext_counts(cs.last().file_extensions@)
    }
}

/// The changed files per extension, summed over every contributor of every repository.
pub open spec fn repos_ext_total(repos: Seq<RepositoryAnalysis>) -> nat
    decreases repos.len(),
{
    if repos.len() == 0 {
        0
    } else {
        repos_ext_total(repos.drop_last()) + contribs_ext_total(repos.last().contributions.contributors@)
    }
}

/// The sum of the counts of a list of dated counts.
pub open spec fn dated_counts(v: Seq<(String, u32)>) -> nat
    decreases v.len(),
{
    if v.len() == 0 {
        0
    } else {
        dated_counts(v.drop_last()) + v.last().1 as nat
    }
}

/// The dated commits summed over activity rows.
pub open spec fn acts_dated_total(acts: Seq<ContributorActivityStats>) -> nat
    decreases acts.len(),
{
    if acts.len() == 0 {
        0
    } else {
        acts_dated_total(acts.drop_last()) + dated_counts(acts.last().commits_by_date@)
    }
}

/// The dated commits summed over every activity row of every repository.
pub open spec fn repos_dated_total(repos: Seq<RepositoryAnalysis>) -> nat
    decreases repos.len(),
{
    if repos.len() == 0 {
        0
    } else {
        repos_dated_total(repos.drop_last()) + acts_dated_total(repos.last().contributions.activity_by_contributor@)
    }
}

proof fn lemma_all_sum_append(
    a: Seq<(Seq<char>, Option<(Seq<char>, u64, u64, u64, u64)>)>,
    b: Seq<(Seq<char>, Option<(Seq<char>, u64, u64, u64, u64)>)>,
    f: int,
)
    ensures
        all_sum(a + b, f) == all_sum(a, f) + all_sum(b, f),
    decreases b.len(),
{
    if b.len() > 0 {
        lemma_all_sum_append(a, b.drop_last(), f);
        assert((a + b).drop_last() =~= a + b.drop_last());
    }
}

/// The events of one contributor's extensions sum to its extension counts (field 1) and to
/// nothing in the other fields.
proof fn lemma_ext_map_sum(
    m: Seq<(Seq<char>, Option<(Seq<char>, u64, u64, u64, u64)>)>,
    v: Seq<(String, u64)>,
    f: int,
)
    requires
        m.len() == v.len(),
        forall|i: int| 0 <= i < m.len() ==> (#[trigger] m[i]).1 == Some((Seq::<char>::empty(), v[i].1, 0u64, 0u64, 0u64)),
    ensures
        all_sum(m, f) == if f == 1 { ext_counts(v) } else { 0 },
    decreases m.len(),
{
    if m.len() > 0 {
        let (m2, v2) = (m.drop_last(), v.drop_last());
        assert forall|i: int| 0 <= i < m2.len() implies (#[trigger] m2[i]).1 == Some((Seq::<char>::empty(), v2[i].1, 0u64, 0u64, 0u64)) by {
            assert(m2[i] == m[i] && v2[i] == v[i]);
        }
        lemma_ext_map_sum(m2, v2, f);
        assert(m.last() == m[m.len() - 1]);
    }
}

/// The extension events of contributors sum to their extension totals.
proof fn lemma_ext_events_sum(cs: Seq<ContributorStats>, f: int)
    ensures
        all_sum(ext_events(cs), f) == if f == 1 { contribs_ext_total(cs) } else { 0 },
    decreases cs.len(),
{
    if cs.len() > 0 {
        lemma_ext_events_sum(cs.drop_last(), f);
        let v = cs.last().file_extensions@;
        let m = v.map_values(|e: (String, u64)| (e.0@, Some((Seq::<char>::empty(), e.1, 0u64, 0u64, 0u64))));
        assert(ext_events(cs) == ext_events(cs.drop_last()) + m);
        lemma_all_sum_append(ext_events(cs.drop_last()), m, f);
        lemma_ext_map_sum(m, v, f);
    }
}

proof fn lemma_contribs_ext_total_append(a: Seq<ContributorStats>, b: Seq<ContributorStats>)
    ensures
        contribs_ext_total(a + b) == contribs_ext_total(a) + contribs_ext_total(b),
    decreases b.len(),
{
    if b.len() > 0 {
        lemma_contribs_ext_total_append(a, b.drop_last());
        assert((a + b).drop_last() =~= a + b.drop_last());
    }
}

proof fn lemma_contribs_with_key_ext(cs: Seq<ContributorStats>, users: Seq<UserView>, key: Seq<char>)
    ensures
        contribs_ext_total(contribs_with_key(cs, users, key)) <= contribs_ext_total(cs),
    decreases cs.len(),
{
    if cs.len() > 0 {
        lemma_contribs_with_key_ext(cs.drop_last(), users, key);
        let tail = if crate::settings::spec_canonical_key(users, cs.last().email@) == key {
            seq![cs.last()]
        } else {
            Seq::empty()
        };
        lemma_contribs_ext_total_append(contribs_with_key(cs.drop_last(), users, key), tail);
        if tail.len() == 1 {
            assert(tail.drop_last() =~= Seq::<ContributorStats>::empty());
            assert(contribs_ext_total(tail.drop_last()) == 0);
            assert(tail.last() == cs.last());
            assert(contribs_ext_total(tail) == ext_counts(cs.last().file_extensions@));
        } else {
            assert(contribs_ext_total(tail) == 0);
        }
        assert(contribs_with_key(cs, users, key) == contribs_with_key(cs.drop_last(), users, key) + tail);
    }
}

/// The extension total of one merged contributor is at most that of all contributors.
proof fn lemma_key_contribs_ext(repos: Seq<RepositoryAnalysis>, users: Seq<UserView>, key: Seq<char>)
    ensures
        contribs_ext_total(key_contribs(repos, users, key)) <= repos_ext_total(repos),
    decreases repos.len(),
{
    if repos.len() > 0 {
        lemma_key_contribs_ext(repos.drop_last(), users, key);
        let cs = repos.last().contributions.contributors@;
        lemma_contribs_ext_total_append(key_contribs(repos.drop_last(), users, key), contribs_with_key(cs, users, key));
        lemma_contribs_with_key_ext(cs, users, key);
    }
}

proof fn lemma_dated_counts_append(a: Seq<(String, u32)>, b: Seq<(String, u32)>)
    ensures
        dated_counts(a + b) == dated_counts(a) + dated_counts(b),
    decreases b.len(),
{
    if b.len() > 0 {
        lemma_dated_counts_append(a, b.drop_last());
        assert((a + b).drop_last() =~= a + b.drop_last());
    }
}

proof fn lemma_acts_entries_total(acts: Seq<ContributorActivityStats>)
    ensures
        dated_counts(acts_entries(acts, None)) == acts_dated_total(acts),
    decreases acts.len(),
{
    if acts.len() > 0 {
        lemma_acts_entries_total(acts.drop_last());
        lemma_dated_counts_append(acts_entries(acts.drop_last(), None), acts.last().commits_by_date@);
    }
}

proof fn lemma_acts_dated_total_append(a: Seq<ContributorActivityStats>, b: Seq<ContributorActivityStats>)
    ensures
        acts_dated_total(a + b) == acts_dated_total(a) + acts_dated_total(b),
    decreases b.len(),
{
    if b.len() > 0 {
        lemma_acts_dated_total_append(a, b.drop_last());
        assert((a + b).drop_last() =~= a + b.drop_last());
    }
}

proof fn lemma_acts_with_key_dated(acts: Seq<ContributorActivityStats>, users: Seq<UserView>, key: Seq<char>)
    ensures
        acts_dated_total(acts_with_key(acts, users, key)) <= acts_dated_total(acts),
    decreases acts.len(),
{
    if acts.len() > 0 {
        lemma_acts_with_key_dated(acts.drop_last(), users, key);
        let tail = if crate::settings::spec_canonical_key(users, acts.last().email@) == key {
            seq![acts.last()]
        } else {
            Seq::empty()
        };
        lemma_acts_dated_total_append(acts_with_key(acts.drop_last(), users, key), tail);
        if tail.len() == 1 {
            assert(tail.drop_last() =~= Seq::<ContributorActivityStats>::empty());
            assert(acts_dated_total(tail.drop_last()) == 0);
            assert(tail.last() == acts.last());
            assert(acts_dated_total(tail) == dated_counts(acts.last().commits_by_date@));
        } else {
            assert(acts_dated_total(tail) == 0);
        }
        assert(acts_with_key(acts, users, key) == acts_with_key(acts.drop_last(), users, key) + tail);
    }
}

/// The dated commits of one merged contributor are at most those of all activity rows.
proof fn lemma_key_entries_total(repos: Seq<RepositoryAnalysis>, users: Seq<UserView>, key: Seq<char>)
    ensures
        dated_counts(key_entries(repos, users, key)) <= repos_dated_total(repos),
{
    lemma_acts_entries_total(key_acts(repos, users, key));
    lemma_key_acts_dated(repos, users, key);
}

proof fn lemma_key_acts_dated(repos: Seq<RepositoryAnalysis>, users: Seq<UserView>, key: Seq<char>)
    ensures
        acts_dated_total(key_acts(repos, users, key)) <= repos_dated_total(repos),
    decreases repos.len(),
{
    if repos.len() > 0 {
        lemma_key_acts_dated(repos.drop_last(), users, key);
        let acts = repos.last().contributions.activity_by_contributor@;
        lemma_acts_dated_total_append(key_acts(repos.drop_last(), users, key), acts_with_key(acts, users, key));
        lemma_acts_with_key_dated(acts, users, key);
    }
}

proof fn lemma_entries_total_le(v: Seq<(String, u32)>, d: Seq<char>)
    ensures
        entries_total(v, d) <= dated_counts(v),
    decreases v.len(),
{
    if v.len() > 0 {
        lemma_entries_total_le(v.drop_last(), d);
    }
}

proof fn lemma_window_sum_le(v: Seq<(String, u32)>, s: Seq<char>, e: Seq<char>)
    ensures
        window_sum(v, s, e) <= dated_counts(v),
    decreases v.len(),
{
    if v.len() > 0 {
        lemma_window_sum_le(v.drop_last(), s, e);
    }
}

proof fn lemma_ext_counts_prefix(v: Seq<(String, u64)>, k: int)
    requires
        0 <= k <= v.len(),
    ensures
        ext_counts(v.take(k)) <= ext_counts(v),
    decreases v.len() - k,
{
    if k < v.len() {
        lemma_ext_counts_prefix(v, k + 1);
        assert(v.take(k + 1).drop_last() =~= v.take(k));
    } else {
        assert(v.take(k) =~= v);
    }
}

proof fn lemma_contribs_ext_prefix(cs: Seq<ContributorStats>, j: int)
    requires
        0 <= j < cs.len(),
    ensures
        contribs_ext_total(cs.take(j)) + ext_counts(cs[j].file_extensions@) <= contribs_ext_total(cs),
    decreases cs.len() - j,
{
    assert(cs.take(j + 1).drop_last() =~= cs.take(j));
    if j + 1 < cs.len() {
        lemma_contribs_ext_prefix(cs, j + 1);
    } else {
        assert(cs.take(j + 1) =~= cs);
    }
}

proof fn lemma_repos_ext_prefix(repos: Seq<RepositoryAnalysis>, i: int)
    requires
        0 <= i < repos.len(),
    ensures
        repos_ext_total(repos.take(i)) + contribs_ext_total(repos[i].contributions.contributors@) <= repos_ext_total(repos),
    decreases repos.len() - i,
{
    assert(repos.take(i + 1).drop_last() =~= repos.take(i));
    if i + 1 < repos.len() {
        lemma_repos_ext_prefix(repos, i + 1);
    } else {
        assert(repos.take(i + 1) =~= repos);
    }
}

proof fn lemma_dated_counts_prefix(v: Seq<(String, u32)>, k: int)
    requires
        0 <= k <= v.len(),
    ensures
        dated_counts(v.take(k)) <= dated_counts(v),
    decreases v.len() - k,
{
    if k < v.len() {
        lemma_dated_counts_prefix(v, k + 1);
        assert(v.take(k + 1).drop_last() =~= v.take(k));
    } else {
        assert(v.take(k) =~= v);
    }
}

proof fn lemma_acts_dated_prefix(acts: Seq<ContributorActivityStats>, j: int)
    requires
        0 <= j < acts.len(),
    ensures
        acts_dated_total(acts.take(j)) + dated_counts(acts[j].commits_by_date@) <= acts_dated_total(acts),
    decreases acts.len() - j,
{
    assert(acts.take(j + 1).drop_last() =~= acts.take(j));
    if j + 1 < acts.len() {
        lemma_acts_dated_prefix(acts, j + 1);
    } else {
        assert(acts.take(j + 1) =~= acts);
    }
}

proof fn lemma_repos_dated_prefix(repos: Seq<RepositoryAnalysis>, i: int)
    requires
        0 <= i < repos.len(),
    ensures
        repos_dated_total(repos.take(i)) + acts_dated_total(repos[i].contributions.activity_by_contributor@)
            <= repos_dated_total(repos),
    decreases repos.len() - i,
{
    assert(repos.take(i + 1).drop_last() =~= repos.take(i));
    if i + 1 < repos.len() {
        lemma_repos_dated_prefix(repos, i + 1);
    } else {
        assert(repos.take(i + 1) =~= repos);
    }
}

/// The extension counts summed over every contributor of every repository, or `None` when
/// the sum does not fit in `u64`.
fn repos_ext_sum(repos: &Vec<RepositoryAnalysis>) -> (r: Option<u64>)
    ensures
        match r {
            Some(t) => t == repos_ext_total(repos@),
            None => repos_ext_total(repos@) > u64::MAX,
        },
{
    let mut total: u64 = 0;
    let mut i: usize = 0;
    while i < repos.len()
        invariant
            i <= repos.len(),
            total == repos_ext_total(repos@.take(i as int)),
        decreases repos.len() - i,
    {
        let cs = &repos[i].contributions.contributors;
        let mut t: u64 = total;
        let mut j: usize = 0;
        while j < cs.len()
            invariant
                i < repos.len(),
                *cs == repos@[i as int].contributions.contributors,
                j <= cs.len(),
                t == repos_ext_total(repos@.take(i as int)) + contribs_ext_total(cs@.take(j as int)),
            decreases cs.len() - j,
        {
            let exts = &cs[j].file_extensions;
            let mut k: usize = 0;
            while k < exts.len()
                invariant
                    i < repos.len(),
                    *cs == repos@[i as int].contributions.contributors,
                    j < cs.len(),
                    *exts == cs@[j as int].file_extensions,
                    k <= exts.len(),
                    t == repos_ext_total(repos@.take(i as int)) + contribs_ext_total(cs@.take(j as int)) + ext_counts(
                        exts@.take(k as int),
                    ),
                decreases exts.len() - k,
            {
                let n = exts[k].1;
                if n > u64::MAX - t {
                    proof {
                        assert(exts@.take(k + 1).drop_last() =~= exts@.take(k as int));
                        lemma_ext_counts_prefix(exts@, k + 1);
                        lemma_contribs_ext_prefix(cs@, j as int);
                        lemma_repos_ext_prefix(repos@, i as int);
                    }
                    return None;
                }
                t = t + n;
                assert(exts@.take(k + 1).drop_last() =~= exts@.take(k as int));
                k = k + 1;
            }
            assert(exts@.take(exts.len() as int) =~= exts@);
            assert(cs@.take(j + 1).drop_last() =~= cs@.take(j as int));
            j = j + 1;
        }
        assert(cs@.take(cs.len() as int) =~= cs@);
        assert(repos@.take(i + 1).drop_last() =~= repos@.take(i as int));
        total = t;
        i = i + 1;
    }
    assert(repos@.take(repos.len() as int) =~= repos@);
    Some(total)
}

/// The dated commits summed over every activity row of every repository, or `None` when the
/// sum does not fit in `u64`.
fn repos_dated_sum(repos: &Vec<RepositoryAnalysis>) -> (r: Option<u64>)
    ensures
        match r {
            Some(t) => t == repos_dated_total(repos@),
            None => repos_dated_total(repos@) > u64::MAX,
        },
{
    let mut total: u64 = 0;
    let mut i: usize = 0;
    while i < repos.len()
        invariant
            i <= repos.len(),
            total == repos_dated_total(repos@.take(i as int)),
        decreases repos.len() - i,
    {
        let acts = &repos[i].contributions.activity_by_contributor;
        let mut t: u64 = total;
        let mut j: usize = 0;
        while j < acts.len()
            invariant
                i < repos.len(),
                *acts == repos@[i as int].contributions.activity_by_contributor,
                j <= acts.len(),
                t == repos_dated_total(repos@.take(i as int)) + acts_dated_total(acts@.take(j as int)),
            decreases acts.len() - j,
        {
            let dated = &acts[j].commits_by_date;
            let mut k: usize = 0;
            while k < dated.len()
                invariant
                    i < repos.len(),
                    *acts == repos@[i as int].contributions.activity_by_contributor,
                    j < acts.len(),
                    *dated == acts@[j as int].commits_by_date,
                    k <= dated.len(),
                    t == repos_dated_total(repos@.take(i as int)) + acts_dated_total(acts@.take(j as int)) + dated_counts(
                        dated@.take(k as int),
                    ),
                decreases dated.len() - k,
            {
                let n = dated[k].1 as u64;
                if n > u64::MAX - t {
                    proof {
                        assert(dated@.take(k + 1).drop_last() =~= dated@.take(k as int));
                        lemma_dated_counts_prefix(dated@, k + 1);
                        lemma_acts_dated_prefix(acts@, j as int);
                        lemma_repos_dated_prefix(repos@, i as int);
                    }
                    return None;
                }
                t = t + n;
                assert(dated@.take(k + 1).drop_last() =~= dated@.take(k as int));
                k = k + 1;
            }
            assert(dated@.take(dated.len() as int) =~= dated@);
            assert(acts@.take(j + 1).drop_last() =~= acts@.take(j as int));
            j = j + 1;
        }
        assert(acts@.take(acts.len() as int) =~= acts@);
        assert(repos@.take(i + 1).drop_last() =~= repos@.take(i as int));
        total = t;
        i = i + 1;
    }
    assert(repos@.take(repos.len() as int) =~= repos@);
    Some(total)
}

/// Whether the effort view (`build_user_effort_data`) can be built over `repos` for the day
/// `today`: the merged fields summed over all contributors fit in `u64`, so do the extension
/// counts, the dated commits of all activity rows fit in `u32`, and the trend windows of
/// `today` run forwards. Then every merged contributor's sums fit as that view requires.
pub fn effort_fits(repos: &Vec<RepositoryAnalysis>, settings: &Settings, today: &str) -> (b: bool)
    ensures
        b == (totals_fit(merge_events(repos@, settings@)) && repos_ext_total(repos@) <= u64::MAX
            && repos_dated_total(repos@) <= u32::MAX && trends_defined(Seq::empty(), today@)),
        b ==> merge_fits(merge_events(repos@, settings@)),
        b ==> forall|k: Seq<char>| #[trigger] effort_defined(repos@, settings@, k, today@),
{
    let events = collect_events(repos, settings);
    if !events_totals_fit(&events) {
        return false;
    }
    proof {
        lemma_totals_fit_merge(merge_events(repos@, settings@));
    }
    let ext = repos_ext_sum(repos);
    let dated = repos_dated_sum(repos);
    let empty: Vec<(String, u32)> = Vec::new();
    let ext_ok = match ext {
        Some(_) => true,
        None => false,
    };
    let dated_ok = match dated {
        Some(t) => t <= 0xffff_ffff,
        None => false,
    };
    if !ext_ok || !dated_ok || !trends_defined_exec(&empty, today) {
        return false;
    }
    proof {
        let users = settings@;
        assert forall|k: Seq<char>| #[trigger] effort_defined(repos@, users, k, today@) by {
            let cs = key_contribs(repos@, users, k);
            lemma_key_contribs_ext(repos@, users, k);
            assert forall|key: Seq<char>, f: int| 1 <= f <= 4 implies #[trigger] key_sum(ext_events(cs), key, f) <= u64::MAX by {
                lemma_key_sum_le_all_sum(ext_events(cs), key, f);
                lemma_ext_events_sum(cs, f);
            }
            let v = key_entries(repos@, users, k);
            lemma_key_entries_total(repos@, users, k);
            assert forall|d: Seq<char>| #[trigger] entries_total(v, d) <= u32::MAX by {
                lemma_entries_total_le(v, d);
            }
            assert(date_totals_fit(v));
            if crate::date_util::spec_parse_ymd(today@) is Some {
                assert forall|i: int| 0 <= i < 4 implies ({
                    let w = #[trigger] trend_windows(today@)[i];
                    !crate::text::seq_lt(w.1, w.0) && window_sum(v, w.0, w.1) <= u64::MAX
                }) by {
                    let w = trend_windows(today@)[i];
                    lemma_window_sum_le(v, w.0, w.1);
                }
            }
            assert(trends_defined(v, today@));
        }
    }
    true
}

} // verus!
