//! Parsing of `git log --format=%H%x1f%an%x1f%ae%x1f%aI --numstat` output.
use vstd::prelude::*;

use crate::error::RepolyzeError;
use crate::text::{
    line_ranges, lines_seq, parse_u64_in, parse_u64_spec, pieces, split_ranges, split_seq,
    str_chars, string_of_range, trim_range, trim_seq,
};

verus! {

broadcast use vstd::string::group_string_axioms;

/// One line of `--numstat` output: lines added and deleted in a file.
#[derive(Debug, Clone)]
pub struct FileChange {
    pub additions: u64,
    pub deletions: u64,
    pub path: String,
}

pub struct FileChangeView {
    pub additions: u64,
    pub deletions: u64,
    pub path: Seq<char>,
}

impl View for FileChange {
    type V = FileChangeView;

    open spec fn view(&self) -> FileChangeView {
        FileChangeView { additions: self.additions, deletions: self.deletions, path: self.path@ }
    }
}

/// A commit with its author, its author date (ISO 8601) and its file changes.
#[derive(Debug, Clone)]
pub struct ParsedCommit {
    pub hash: String,
    pub author_name: String,
    pub author_email: String,
    pub timestamp: String,
    pub file_changes: Vec<FileChange>,
}

pub struct CommitView {
    pub hash: Seq<char>,
    pub author_name: Seq<char>,
    pub author_email: Seq<char>,
    pub timestamp: Seq<char>,
    pub file_changes: Seq<FileChangeView>,
}

impl View for ParsedCommit {
    type V = CommitView;

    open spec fn view(&self) -> CommitView {
        CommitView {
            hash: self.hash@,
            author_name: self.author_name@,
            author_email: self.author_email@,
            timestamp: self.timestamp@,
            file_changes: self.file_changes@.map_values(|f: FileChange| f@),
        }
    }
}

/// The views of a sequence of commits.
pub open spec fn commit_views(cs: Seq<ParsedCommit>) -> Seq<CommitView> {
    cs.map_values(|c: ParsedCommit| c@)
}

/// A header line: hash, author name, author email and date separated by `\x1f`.
pub open spec fn header_of(line: Seq<char>) -> Option<CommitView> {
    let f = split_seq(line, '\u{1f}');
    if f.len() == 4 {
        Some(
            CommitView {
                hash: f[0],
                author_name: f[1],
                author_email: f[2],
                timestamp: f[3],
                file_changes: Seq::empty(),
            },
        )
    } else {
        None
    }
}

/// A number of a `--numstat` line; `-` (binary files) and anything else unparsable count 0.
pub open spec fn count_or_zero(s: Seq<char>) -> u64 {
    match parse_u64_spec(s) {
        Some(v) => v,
        None => 0,
    }
}

/// A `--numstat` line: additions, deletions and path separated by tabs.
pub open spec fn numstat_of(line: Seq<char>) -> Option<FileChangeView> {
    let p = split_seq(line, '\t');
    if p.len() == 3 {
        Some(FileChangeView { additions: count_or_zero(p[0]), deletions: count_or_zero(p[1]), path: p[2] })
    } else {
        None
    }
}

/// The commits completed so far and the commit being read, after the given lines.
pub open spec fn parse_state(lines: Seq<Seq<char>>) -> (Seq<CommitView>, Option<CommitView>)
    decreases lines.len(),
{
    if lines.len() == 0 {
        (Seq::empty(), None)
    } else {
        let prev = parse_state(lines.drop_last());
        let line = trim_seq(lines.last());
        if line.len() == 0 {
            prev
        } else {
            match header_of(line) {
                Some(h) => (
                    match prev.1 {
                        Some(c) => prev.0.push(c),
                        None => prev.0,
                    },
                    Some(h),
                ),
                None => match (prev.1, numstat_of(line)) {
                    (Some(c), Some(fc)) => (
                        prev.0,
                        Some(
                            CommitView {
                                hash: c.hash,
                                author_name: c.author_name,
                                author_email: c.author_email,
                                timestamp: c.timestamp,
                                file_changes: c.file_changes.push(fc),
                            },
                        ),
                    ),
                    _ => prev,
                },
            }
        }
    }
}

/// The commits that `parse_git_log` reads from `output`.
///
/// Lines are trimmed and blank lines skipped. A line of four `\x1f`-separated fields starts a
/// commit; a line of three tab-separated fields adds a file change to the current commit;
/// other lines, and file changes before the first commit, are ignored.
pub open spec fn spec_parse_git_log(output: Seq<char>) -> Seq<CommitView> {
    let st = parse_state(lines_seq(output));
    match st.1 {
        Some(c) => st.0.push(c),
        None => st.0,
    }
}

pub open spec fn opt_commit_view(c: Option<ParsedCommit>) -> Option<CommitView> {
    match c {
        Some(c) => Some(c@),
        None => None,
    }
}


/// A commit without its file changes.
pub open spec fn header_part(c: CommitView) -> CommitView {
    CommitView {
        hash: c.hash,
        author_name: c.author_name,
        author_email: c.author_email,
        timestamp: c.timestamp,
        file_changes: Seq::empty(),
    }
}

/// Whether a line (once trimmed) is a commit header.
pub open spec fn is_header_line(l: Seq<char>) -> bool {
    header_of(trim_seq(l)) is Some
}

/// The commits read so far, the one being read included.
pub open spec fn state_commits(st: (Seq<CommitView>, Option<CommitView>)) -> Seq<CommitView> {
    match st.1 {
        Some(c) => st.0.push(c),
        None => st.0,
    }
}

/// Line `k` of `lines`, trimmed, is a `--numstat` line `additions\tdeletions\tpath` that
/// gives the file change `fc`: its path is the third field, its additions the number in the
/// first field and its deletions the number in the second (0 for `-` or anything unparsable).
pub open spec fn change_on_line(lines: Seq<Seq<char>>, k: int, fc: FileChangeView) -> bool {
    0 <= k < lines.len() && ({
        let p = split_seq(trim_seq(lines[k]), '\t');
        &&& p.len() == 3
        &&& fc.path == p[2]
        &&& fc.additions == (match parse_u64_spec(p[0]) {
            Some(v) => v,
            None => 0u64,
        })
        &&& fc.deletions == (match parse_u64_spec(p[1]) {
            Some(v) => v,
            None => 0u64,
        })
    })
}

/// Some line of `lines` gives the file change `fc`.
pub open spec fn change_from_lines(lines: Seq<Seq<char>>, fc: FileChangeView) -> bool {
    exists|k: int| #[trigger] change_on_line(lines, k, fc)
}

/// Every file change of every commit read from some lines is given by one of those lines.
pub proof fn lemma_changes_come_from_lines(lines: Seq<Seq<char>>)
    ensures
        forall|i: int, j: int|
            #![trigger state_commits(parse_state(lines))[i].file_changes[j]]
            0 <= i < state_commits(parse_state(lines)).len() && 0 <= j < state_commits(parse_state(lines))[i].file_changes.len()
                ==> change_from_lines(lines, state_commits(parse_state(lines))[i].file_changes[j]),
    decreases lines.len(),
{
    if lines.len() > 0 {
        let dl = lines.drop_last();
        lemma_changes_come_from_lines(dl);
        let prev = parse_state(dl);
        let sp = state_commits(prev);
        let line = trim_seq(lines.last());
        let kl = lines.len() - 1;
        assert(lines[kl] == lines.last());
        // A change given by a line of `dl` is given by the same line of `lines`.
        assert forall|k: int, fc: FileChangeView| #[trigger] change_on_line(dl, k, fc) implies change_on_line(lines, k, fc) by {
            assert(dl[k] == lines[k]);
        }
        assert forall|i: int, j: int|
            #![trigger state_commits(parse_state(lines))[i].file_changes[j]]
            0 <= i < state_commits(parse_state(lines)).len() && 0 <= j < state_commits(parse_state(lines))[i].file_changes.len() implies change_from_lines(lines, state_commits(parse_state(lines))[i].file_changes[j]) by {
            if line.len() == 0 {
                let k = choose|k: int| #[trigger] change_on_line(dl, k, sp[i].file_changes[j]);
                assert(change_on_line(lines, k, state_commits(parse_state(lines))[i].file_changes[j]));
            } else {
                match header_of(line) {
                    Some(h) => {
                        assert(state_commits(parse_state(lines)) == sp.push(h));
                        if i < sp.len() {
                            assert(state_commits(parse_state(lines))[i] == sp[i]);
                            let k = choose|k: int| #[trigger] change_on_line(dl, k, sp[i].file_changes[j]);
                            assert(change_on_line(lines, k, state_commits(parse_state(lines))[i].file_changes[j]));
                        } else {
                            assert(state_commits(parse_state(lines))[i] == h);
                        }
                    },
                    None => match (prev.1, numstat_of(line)) {
                        (Some(c), Some(fc)) => {
                            assert(sp == prev.0.push(c));
                            if i < sp.len() - 1 || j < c.file_changes.len() {
                                assert(state_commits(parse_state(lines))[i].file_changes[j] == sp[i].file_changes[j]);
                                let k = choose|k: int| #[trigger] change_on_line(dl, k, sp[i].file_changes[j]);
                                assert(change_on_line(lines, k, state_commits(parse_state(lines))[i].file_changes[j]));
                            } else {
                                assert(state_commits(parse_state(lines))[i].file_changes[j] == fc);
                                assert(change_on_line(lines, kl, fc));
                            }
                        },
                        _ => {
                            let k = choose|k: int| #[trigger] change_on_line(dl, k, sp[i].file_changes[j]);
                            assert(change_on_line(lines, k, state_commits(parse_state(lines))[i].file_changes[j]));
                        },
                    },
                }
            }
        }
    } else {
        assert(parse_state(lines) == (Seq::<CommitView>::empty(), None::<CommitView>));
        assert(state_commits(parse_state(lines)).len() == 0);
    }
}

/// Line `k` of `lines`, trimmed, is the header of commit `c`: its four `\x1f`-separated
/// fields are the hash, the author's name and email and the date, in that order.
pub open spec fn header_on_line(lines: Seq<Seq<char>>, k: int, c: CommitView) -> bool {
    0 <= k < lines.len() && split_seq(trim_seq(lines[k]), '\u{1f}') == seq![c.hash, c.author_name, c.author_email, c.timestamp]
}

/// Some line of `lines` is the header of `c`.
pub open spec fn header_from_lines(lines: Seq<Seq<char>>, c: CommitView) -> bool {
    exists|k: int| #[trigger] header_on_line(lines, k, c)
}

/// Every commit read from some lines has its hash, author and date from one of those lines.
pub proof fn lemma_headers_come_from_lines(lines: Seq<Seq<char>>)
    ensures
        forall|i: int|
            0 <= i < state_commits(parse_state(lines)).len() ==> header_from_lines(lines, #[trigger] state_commits(parse_state(lines))[i]),
    decreases lines.len(),
{
    if lines.len() > 0 {
        let dl = lines.drop_last();
        lemma_headers_come_from_lines(dl);
        let prev = parse_state(dl);
        let sp = state_commits(prev);
        let line = trim_seq(lines.last());
        let kl = lines.len() - 1;
        assert(lines[kl] == lines.last());
        assert forall|k: int, c: CommitView| #[trigger] header_on_line(dl, k, c) implies header_on_line(lines, k, c) by {
            assert(dl[k] == lines[k]);
        }
        assert forall|i: int| 0 <= i < state_commits(parse_state(lines)).len() implies header_from_lines(
            lines,
            #[trigger] state_commits(parse_state(lines))[i],
        ) by {
            if line.len() == 0 {
                let k = choose|k: int| #[trigger] header_on_line(dl, k, sp[i]);
                assert(header_on_line(lines, k, state_commits(parse_state(lines))[i]));
            } else {
                match header_of(line) {
                    Some(h) => {
                        assert(state_commits(parse_state(lines)) == sp.push(h));
                        if i < sp.len() {
                            assert(state_commits(parse_state(lines))[i] == sp[i]);
                            let k = choose|k: int| #[trigger] header_on_line(dl, k, sp[i]);
                            assert(header_on_line(lines, k, state_commits(parse_state(lines))[i]));
                        } else {
                            let f = split_seq(line, '\u{1f}');
                            assert(f =~= seq![h.hash, h.author_name, h.author_email, h.timestamp]);
                            assert(header_on_line(lines, kl, h));
                        }
                    },
                    None => match (prev.1, numstat_of(line)) {
                        (Some(c), Some(fc)) => {
                            assert(sp == prev.0.push(c));
                            let k = choose|k: int| #[trigger] header_on_line(dl, k, sp[i]);
                            assert(header_on_line(lines, k, state_commits(parse_state(lines))[i]));
                        },
                        _ => {
                            let k = choose|k: int| #[trigger] header_on_line(dl, k, sp[i]);
                            assert(header_on_line(lines, k, state_commits(parse_state(lines))[i]));
                        },
                    },
                }
            }
        }
    } else {
        assert(parse_state(lines) == (Seq::<CommitView>::empty(), None::<CommitView>));
        assert(state_commits(parse_state(lines)).len() == 0);
    }
}

/// Line `k` of `lines`, trimmed, has the four `\x1f`-separated fields of a commit header.
pub open spec fn is_header_at(lines: Seq<Seq<char>>, k: int) -> bool {
    0 <= k < lines.len() && split_seq(trim_seq(lines[k]), '\u{1f}').len() == 4
}

/// Line `k` of `lines`, trimmed, is no header and has the three tab-separated fields of a
/// `--numstat` line.
pub open spec fn is_numstat_at(lines: Seq<Seq<char>>, k: int) -> bool {
    0 <= k < lines.len() && split_seq(trim_seq(lines[k]), '\u{1f}').len() != 4 && split_seq(trim_seq(lines[k]), '\t').len() == 3
}

/// Some commit of `cs` has the header of line `k`.
pub open spec fn header_read(lines: Seq<Seq<char>>, k: int, cs: Seq<CommitView>) -> bool {
    exists|i: int| 0 <= i < cs.len() && #[trigger] header_on_line(lines, k, cs[i])
}

/// Some commit of `cs` has the file change of line `k`.
pub open spec fn change_read(lines: Seq<Seq<char>>, k: int, cs: Seq<CommitView>) -> bool {
    exists|i: int, j: int| 0 <= i < cs.len() && 0 <= j < cs[i].file_changes.len() && #[trigger] change_on_line(lines, k, cs[i].file_changes[j])
}

proof fn lemma_current_after_header(lines: Seq<Seq<char>>, k: int)
    requires
        is_header_at(lines, k),
    ensures
        parse_state(lines).1 is Some,
    decreases lines.len(),
{
    let dl = lines.drop_last();
    let line = trim_seq(lines.last());
    if k < dl.len() {
        assert(dl[k] == lines[k]);
        lemma_current_after_header(dl, k);
        if line.len() == 0 {
        } else {
            match header_of(line) {
                Some(h) => {},
                None => {},
            }
        }
    } else {
        assert(lines[k] == lines.last());
        assert(line.len() > 0) by {
            if line.len() == 0 {
                assert(split_seq(line, '\u{1f}').len() == 1);
            }
        }
        assert(header_of(line) is Some);
    }
}

/// The log misses nothing: every header line gives a commit with its fields, and every
/// `--numstat` line after the first header gives a file change of some commit.
pub proof fn lemma_lines_are_read(lines: Seq<Seq<char>>)
    ensures
        forall|k: int| #[trigger] is_header_at(lines, k) ==> header_read(lines, k, state_commits(parse_state(lines))),
        forall|k: int, h: int| #[trigger] is_numstat_at(lines, k) && #[trigger] is_header_at(lines, h) && h < k ==> change_read(
            lines,
            k,
            state_commits(parse_state(lines)),
        ),
    decreases lines.len(),
{
    if lines.len() > 0 {
        let dl = lines.drop_last();
        lemma_lines_are_read(dl);
        let prev = parse_state(dl);
        let sp = state_commits(prev);
        let sc = state_commits(parse_state(lines));
        let line = trim_seq(lines.last());
        let kl = lines.len() - 1;
        assert(lines[kl] == lines.last());
        // Every commit of `sp` is in `sc` at its index with its header and at least its
        // file changes.
        assert(sc.len() >= sp.len());
        assert forall|i: int| 0 <= i < sp.len() implies {
            &&& (#[trigger] sc[i]).hash == sp[i].hash && sc[i].author_name == sp[i].author_name
            &&& sc[i].author_email == sp[i].author_email && sc[i].timestamp == sp[i].timestamp
            &&& sc[i].file_changes.len() >= sp[i].file_changes.len()
            &&& forall|j: int| 0 <= j < sp[i].file_changes.len() ==> sc[i].file_changes[j] == sp[i].file_changes[j]
        } by {
            if line.len() > 0 {
                match header_of(line) {
                    Some(h) => {
                        assert(sc == sp.push(h));
                    },
                    None => match (prev.1, numstat_of(line)) {
                        (Some(c), Some(fc)) => {
                            assert(sp == prev.0.push(c));
                        },
                        _ => {},
                    },
                }
            }
        }
        assert forall|k: int| #[trigger] is_header_at(lines, k) implies header_read(lines, k, sc) by {
            if k < dl.len() {
                assert(dl[k] == lines[k]);
                assert(is_header_at(dl, k));
                let i = choose|i: int| 0 <= i < sp.len() && #[trigger] header_on_line(dl, k, sp[i]);
                assert(header_on_line(lines, k, sc[i]));
            } else {
                assert(line.len() > 0) by {
                    if line.len() == 0 {
                        assert(split_seq(line, '\u{1f}').len() == 1);
                    }
                }
                let h = header_of(line).unwrap();
                assert(sc == sp.push(h));
                let f = split_seq(line, '\u{1f}');
                assert(f =~= seq![h.hash, h.author_name, h.author_email, h.timestamp]);
                assert(header_on_line(lines, k, sc[sc.len() - 1]));
            }
        }
        assert forall|k: int, hk: int| #[trigger] is_numstat_at(lines, k) && #[trigger] is_header_at(lines, hk) && hk < k implies change_read(
            lines,
            k,
            sc,
        ) by {
            assert(dl[hk] == lines[hk]);
            assert(is_header_at(dl, hk));
            if k < dl.len() {
                assert(dl[k] == lines[k]);
                assert(is_numstat_at(dl, k));
                let (i, j) = choose|i: int, j: int|
                    0 <= i < sp.len() && 0 <= j < sp[i].file_changes.len() && #[trigger] change_on_line(dl, k, sp[i].file_changes[j]);
                assert(sc[i].file_changes[j] == sp[i].file_changes[j]);
                assert(change_on_line(lines, k, sc[i].file_changes[j]));
            } else {
                lemma_current_after_header(dl, hk);
                assert(line.len() > 0) by {
                    if line.len() == 0 {
                        assert(split_seq(line, '\u{1f}').len() == 1);
                    }
                }
                assert(header_of(line) is None);
                let c = prev.1.unwrap();
                let fc = numstat_of(line).unwrap();
                assert(sp == prev.0.push(c));
                let n = c.file_changes.len() as int;
                assert(sc[sc.len() - 1].file_changes[n] == fc);
                assert(change_on_line(lines, k, fc));
            }
        }
    }
}

/// The commits read from some lines are the header lines, in order: there is one commit per
/// header line, with that line's hash, author and date.
pub proof fn lemma_commits_are_header_lines(lines: Seq<Seq<char>>)
    ensures
        state_commits(parse_state(lines)).map_values(|c: CommitView| header_part(c)) == lines.filter(
            |l: Seq<char>| is_header_line(l),
        ).map_values(|l: Seq<char>| header_of(trim_seq(l)).unwrap()),
    decreases lines.len(),
{
    let f = |l: Seq<char>| is_header_line(l);
    if lines.len() == 0 {
        assert(lines.filter(f) =~= Seq::<Seq<char>>::empty());
        assert(state_commits(parse_state(lines)).map_values(|c: CommitView| header_part(c)) =~= Seq::<CommitView>::empty());
    } else {
        lemma_commits_are_header_lines(lines.drop_last());
        lines.drop_last().lemma_filter_push(lines.last(), f);
        assert(lines.drop_last().push(lines.last()) =~= lines);
        let prev = parse_state(lines.drop_last());
        let line = trim_seq(lines.last());
        let before = state_commits(prev).map_values(|c: CommitView| header_part(c));
        if line.len() == 0 {
            assert(split_seq(line, '\u{1f}').len() == 1);
            assert(!f(lines.last()));
        } else {
            match header_of(line) {
                Some(h) => {
                    assert(state_commits(parse_state(lines)) =~= state_commits(prev).push(h));
                    assert(header_part(h) == h);
                    assert(state_commits(parse_state(lines)).map_values(|c: CommitView| header_part(c)) =~= before.push(
                        header_part(h),
                    ));
                    let fl = lines.drop_last().filter(f);
                    assert(fl.push(lines.last()).map_values(|l: Seq<char>| header_of(trim_seq(l)).unwrap()) =~= fl.map_values(
                        |l: Seq<char>| header_of(trim_seq(l)).unwrap(),
                    ).push(h));
                },
                None => {
                    match (prev.1, numstat_of(line)) {
                        (Some(c), Some(fc)) => {
                            let c2 = CommitView {
                                hash: c.hash,
                                author_name: c.author_name,
                                author_email: c.author_email,
                                timestamp: c.timestamp,
                                file_changes: c.file_changes.push(fc),
                            };
                            assert(header_part(c2) == header_part(c));
                            assert(state_commits(parse_state(lines)).map_values(|c: CommitView| header_part(c)) =~= before);
                        },
                        _ => {},
                    }
                },
            }
        }
    }
}

fn parse_count(s: &Vec<char>, lo: usize, hi: usize) -> (r: u64)
    requires
        lo <= hi <= s.len(),
    ensures
        r == count_or_zero(s@.subrange(lo as int, hi as int)),
{
    match parse_u64_in(s, lo, hi) {
        Some(v) => v,
        None => 0,
    }
}

/// Parse the output of `git log --format=%H%x1f%an%x1f%ae%x1f%aI --numstat`.
pub fn parse_git_log(output: &str) -> (r: Result<Vec<ParsedCommit>, RepolyzeError>)
    ensures
        match r {
            Ok(cs) => commit_views(cs@) == spec_parse_git_log(output@),
            Err(_) => false,
        },
        r matches Ok(cs) ==> forall|i: int, j: int|
            #![trigger cs@[i].file_changes@[j]]
            0 <= i < cs.len() && 0 <= j < cs@[i].file_changes.len() ==> change_from_lines(
                lines_seq(output@),
                cs@[i].file_changes@[j]@,
            ),        r matches Ok(cs) ==> forall|i: int| 0 <= i < cs.len() ==> header_from_lines(lines_seq(output@), #[trigger] cs@[i]@),
        r matches Ok(cs) ==> forall|k: int| #[trigger] is_header_at(lines_seq(output@), k) ==> header_read(
            lines_seq(output@),
            k,
            commit_views(cs@),
        ),
        r matches Ok(cs) ==> forall|k: int, h: int|
            #[trigger] is_numstat_at(lines_seq(output@), k) && #[trigger] is_header_at(lines_seq(output@), h) && h < k
                ==> change_read(lines_seq(output@), k, commit_views(cs@)),
{
    let s = str_chars(output);
    let lines = line_ranges(&s, 0, s.len());
    assert(s@.subrange(0, s.len() as int) =~= s@);
    let ghost ls = pieces(s@, lines@);
    let mut commits: Vec<ParsedCommit> = Vec::new();
    let mut current: Option<ParsedCommit> = None;
    let mut k: usize = 0;
    while k < lines.len()
        invariant
            k <= lines.len(),
            ls == pieces(s@, lines@),
            ls == lines_seq(s@),
            crate::text::ranges_within(lines@, 0, s.len() as int),
            (commit_views(commits@), opt_commit_view(current)) == parse_state(ls.take(k as int)),
        decreases lines.len() - k,
    {
        let (a, b) = lines[k];
        assert(0 <= lines@[k as int].0 <= lines@[k as int].1 <= s.len());
        assert(ls.take(k + 1).drop_last() =~= ls.take(k as int));
        assert(ls.take(k + 1).last() == s@.subrange(a as int, b as int));
        let (ta, tb) = trim_range(&s, a, b);
        let ghost line = s@.subrange(ta as int, tb as int);
        if ta < tb {
            let fields = split_ranges(&s, ta, tb, '\u{1f}');
            if fields.len() == 4 {
                let ghost fs = split_seq(line, '\u{1f}');
                assert(fs[0] == s@.subrange(fields@[0].0 as int, fields@[0].1 as int));
                assert(fs[1] == s@.subrange(fields@[1].0 as int, fields@[1].1 as int));
                assert(fs[2] == s@.subrange(fields@[2].0 as int, fields@[2].1 as int));
                assert(fs[3] == s@.subrange(fields@[3].0 as int, fields@[3].1 as int));
                assert(ta <= fields@[0].0 <= fields@[0].1 <= tb);
                assert(ta <= fields@[1].0 <= fields@[1].1 <= tb);
                assert(ta <= fields@[2].0 <= fields@[2].1 <= tb);
                assert(ta <= fields@[3].0 <= fields@[3].1 <= tb);
                let h = ParsedCommit {
                    hash: string_of_range(&s, fields[0].0, fields[0].1),
                    author_name: string_of_range(&s, fields[1].0, fields[1].1),
                    author_email: string_of_range(&s, fields[2].0, fields[2].1),
                    timestamp: string_of_range(&s, fields[3].0, fields[3].1),
                    file_changes: Vec::new(),
                };
                assert(h@.file_changes =~= Seq::<FileChangeView>::empty());
                match current {
                    Some(c) => {
                        let ghost before = commits@;
                        commits.push(c);
                        assert(commit_views(commits@) =~= commit_views(before).push(c@));
                    },
                    None => {},
                }
                current = Some(h);
            } else {
                let parts = split_ranges(&s, ta, tb, '\t');
                if parts.len() == 3 && current.is_some() {
                    let ghost ps = split_seq(line, '\t');
                    assert(ps[0] == s@.subrange(parts@[0].0 as int, parts@[0].1 as int));
                    assert(ps[1] == s@.subrange(parts@[1].0 as int, parts@[1].1 as int));
                    assert(ps[2] == s@.subrange(parts@[2].0 as int, parts@[2].1 as int));
                    assert(ta <= parts@[0].0 <= parts@[0].1 <= tb);
                    assert(ta <= parts@[1].0 <= parts@[1].1 <= tb);
                    assert(ta <= parts@[2].0 <= parts@[2].1 <= tb);
                    let additions = parse_count(&s, parts[0].0, parts[0].1);
                    let deletions = parse_count(&s, parts[1].0, parts[1].1);
                    let path = string_of_range(&s, parts[2].0, parts[2].1);
                    let fc = FileChange { additions, deletions, path };
                    let mut c = current.unwrap();
                    let ghost before = c@;
                    c.file_changes.push(fc);
                    assert(c@.file_changes =~= before.file_changes.push(fc@));
                    current = Some(c);
                }
            }
        }
        k = k + 1;
    }
    assert(ls.take(lines.len() as int) =~= ls);
    match current {
        Some(c) => {
            let ghost before = commits@;
            commits.push(c);
            assert(commit_views(commits@) =~= commit_views(before).push(c@));
        },
        None => {},
    }
    proof {
        lemma_changes_come_from_lines(ls);
        assert forall|i: int, j: int|
            #![trigger commits@[i].file_changes@[j]]
            0 <= i < commits.len() && 0 <= j < commits@[i].file_changes.len() implies change_from_lines(
                lines_seq(output@),
                commits@[i].file_changes@[j]@,
            ) by {
            let sc = state_commits(parse_state(ls));
            assert(commit_views(commits@) == sc);
            assert(commit_views(commits@)[i] == commits@[i]@);
            assert(commits@[i]@.file_changes[j] == commits@[i].file_changes@[j]@);
            assert(sc[i].file_changes[j] == commits@[i].file_changes@[j]@);
            assert(ls == lines_seq(output@));
        }
        lemma_headers_come_from_lines(ls);
        lemma_lines_are_read(ls);
        assert(commit_views(commits@) == state_commits(parse_state(ls)));
        assert(ls == lines_seq(output@));
        assert forall|i: int| 0 <= i < commits.len() implies header_from_lines(lines_seq(output@), #[trigger] commits@[i]@) by {
            let sc = state_commits(parse_state(ls));
            assert(commit_views(commits@) == sc);
            assert(commit_views(commits@)[i] == commits@[i]@);
            assert(ls == lines_seq(output@));
        }
    }
    Ok(commits)
}

} // verus!
