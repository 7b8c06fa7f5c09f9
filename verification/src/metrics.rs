//! Size metrics of a repository's working tree: files and directories, bytes, lines, files
//! per extension and the largest files.
use vstd::prelude::*;
use vstd::utf8::{decode_utf8, valid_utf8};

use crate::analytics::{is_ranking, rank_by_ratio, usize_ints};
use crate::model::{FileMetric, SizeMetrics};
use crate::text::{
    lines_seq, line_ranges, lowercase, pieces, ranges_within, rfind_char, rfind_char_in, seq_lt, str_chars, str_lt,
    string_of_range, to_lowercase, trim_range, trim_seq,
};

verus! {

broadcast use vstd::string::group_string_axioms;

/// At most this many files are listed as the largest.
pub const MAX_LARGEST_FILES: usize = 10;

// ---------------------------------------------------------------------------
// Lines of a file
// ---------------------------------------------------------------------------

/// The lines of `ls` that are empty or only whitespace.
pub open spec fn blank_count(ls: Seq<Seq<char>>) -> nat
    decreases ls.len(),
{
    if ls.len() == 0 {
        0
    } else {
        blank_count(ls.drop_last()) + if trim_seq(ls.last()).len() == 0 {
            1nat
        } else {
            0nat
        }
    }
}

/// `(lines, non-empty lines, blank lines)` of a text, its lines as `str::lines` splits them.
pub open spec fn spec_line_counts(text: Seq<char>) -> (nat, nat, nat) {
    let ls = lines_seq(text);
    (ls.len(), (ls.len() - blank_count(ls)) as nat, blank_count(ls))
}

proof fn lemma_blank_le(ls: Seq<Seq<char>>)
    ensures
        blank_count(ls) <= ls.len(),
    decreases ls.len(),
{
    if ls.len() > 0 {
        lemma_blank_le(ls.drop_last());
    }
}

/// `(lines, non-empty lines, blank lines)` of a text.
pub fn count_lines_in(text: &str) -> (r: (u64, u64, u64))
    ensures
        (r.0 as nat, r.1 as nat, r.2 as nat) == spec_line_counts(text@),
{
    let c = str_chars(text);
    assert(c@.subrange(0, c.len() as int) =~= c@);
    let rs = line_ranges(&c, 0, c.len());
    let ghost ls = lines_seq(text@);
    let mut total: u64 = 0;
    let mut blank: u64 = 0;
    let mut k: usize = 0;
    while k < rs.len()
        invariant
            k <= rs.len(),
            ranges_within(rs@, 0, c.len() as int),
            pieces(c@, rs@) == ls,
            total == k,
            blank == blank_count(ls.take(k as int)),
            blank <= total,
        decreases rs.len() - k,
    {
        let (a, b) = rs[k];
        assert(0 <= rs@[k as int].0 <= rs@[k as int].1 <= c.len());
        let (x, y) = trim_range(&c, a, b);
        assert(ls[k as int] == c@.subrange(a as int, b as int));
        assert(ls.take(k + 1).drop_last() =~= ls.take(k as int));
        if x == y {
            blank = blank + 1;
        }
        total = total + 1;
        k = k + 1;
    }
    assert(ls.take(rs.len() as int) =~= ls);
    proof {
        lemma_blank_le(ls);
    }
    (total, total - blank, blank)
}

/// The text of `bytes` when they are valid UTF-8 (`std::str::from_utf8`).
#[verifier::external_body]
fn utf8_text(bytes: &Vec<u8>) -> (r: Option<String>)
    ensures
        r is Some <==> valid_utf8(bytes@),
        r matches Some(s) ==> s@ == decode_utf8(bytes@),
{
    match std::str::from_utf8(bytes.as_slice()) {
        Ok(s) => Some(s.to_string()),
        Err(_) => None,
    }
}

/// `(lines, non-empty lines, blank lines)` of a file's contents; `(0, 0, 0)` for contents
/// with a NUL byte (taken as binary) or that are not UTF-8.
pub fn count_lines(contents: &Vec<u8>) -> (r: (u64, u64, u64))
    ensures
        (contents@.contains(0u8) || !valid_utf8(contents@)) ==> r == (0u64, 0u64, 0u64),
        !(contents@.contains(0u8) || !valid_utf8(contents@)) ==> (r.0 as nat, r.1 as nat, r.2 as nat) == spec_line_counts(
            decode_utf8(contents@),
        ),
{
    let mut i: usize = 0;
    while i < contents.len()
        invariant
            i <= contents.len(),
            forall|j: int| 0 <= j < i ==> contents@[j] != 0u8,
        decreases contents.len() - i,
    {
        if contents[i] == 0 {
            assert(contents@.contains(0u8)) by {
                assert(contents@[i as int] == 0u8);
            }
            return (0, 0, 0);
        }
        i = i + 1;
    }
    assert(!contents@.contains(0u8));
    match utf8_text(contents) {
        Some(t) => count_lines_in(t.as_str()),
        None => (0, 0, 0),
    }
}

// ---------------------------------------------------------------------------
// Extensions
// ---------------------------------------------------------------------------

/// The last component of a `/`-separated path.
pub open spec fn file_name_of(path: Seq<char>) -> Seq<char> {
    match rfind_char(path, '/') {
        Some(i) => path.skip(i + 1),
        None => path,
    }
}

/// `Path::extension`: what follows the last `.` of the file name, unless the name has no
/// `.` other than a leading one, or is `..`.
pub open spec fn extension_of(path: Seq<char>) -> Option<Seq<char>> {
    let f = file_name_of(path);
    if f == ".."@ {
        None
    } else {
        match rfind_char(f, '.') {
            Some(i) => if i == 0 {
                None
            } else {
                Some(f.skip(i + 1))
            },
            None => None,
        }
    }
}

/// The extension of the file at `path` (relative to the repository's root).
pub fn file_extension(path: &str) -> (r: Option<String>)
    ensures
        match (r, extension_of(path@)) {
            (Some(a), Some(b)) => a@ == b,
            (None, None) => true,
            _ => false,
        },
{
    proof {
        reveal_strlit("..");
    }
    let c = str_chars(path);
    assert(c@.subrange(0, c.len() as int) =~= c@);
    let start: usize = match rfind_char_in(&c, 0, c.len(), '/') {
        Some(i) => i + 1,
        None => 0,
    };
    assert(c@.subrange(start as int, c.len() as int) =~= file_name_of(path@));
    let n = c.len() - start;
    if n == 2 && c[start] == '.' && c[start + 1] == '.' {
        assert(file_name_of(path@) =~= ".."@);
        return None;
    }
    assert(file_name_of(path@) != ".."@) by {
        if file_name_of(path@) == ".."@ {
            assert(file_name_of(path@)[0] == '.');
            assert(file_name_of(path@)[1] == '.');
        }
    }
    match rfind_char_in(&c, start, c.len(), '.') {
        Some(d) => {
            if d == start {
                None
            } else {
                assert(c@.subrange(d + 1, c.len() as int) =~= file_name_of(path@).skip(d - start + 1));
                Some(string_of_range(&c, d + 1, c.len()))
            }
        },
        None => None,
    }
}

// ---------------------------------------------------------------------------
// Aggregating a walk
// ---------------------------------------------------------------------------

/// What a walk of a working tree (ignored files left out) found: a directory, or a file
/// with its path relative to the root, its size and its line counts.
#[derive(Debug)]
pub enum WalkEntry {
    File { path: String, size: u64, lines: (u64, u64, u64) },
    Directory { path: String },
}

/// The files among the entries, in order.
pub open spec fn walked_files(es: Seq<WalkEntry>) -> Seq<(Seq<char>, u64, (u64, u64, u64))>
    decreases es.len(),
{
    if es.len() == 0 {
        Seq::empty()
    } else {
        walked_files(es.drop_last()) + match es.last() {
            WalkEntry::File { path, size, lines } => seq![(path@, size, lines)],
            WalkEntry::Directory { .. } => Seq::empty(),
        }
    }
}

pub open spec fn dir_count(es: Seq<WalkEntry>) -> nat
    decreases es.len(),
{
    if es.len() == 0 {
        0
    } else {
        dir_count(es.drop_last()) + match es.last() {
            WalkEntry::File { .. } => 0nat,
            WalkEntry::Directory { .. } => 1nat,
        }
    }
}

/// Field `f` of the files summed: 0 sizes, 1 lines, 2 non-empty lines, 3 blank lines.
pub open spec fn file_sum(fs: Seq<(Seq<char>, u64, (u64, u64, u64))>, f: int) -> nat
    decreases fs.len(),
{
    if fs.len() == 0 {
        0
    } else {
        let x = fs.last();
        file_sum(fs.drop_last(), f) + if f == 0 {
            x.1 as nat
        } else if f == 1 {
            x.2.0 as nat
        } else if f == 2 {
            x.2.1 as nat
        } else {
            x.2.2 as nat
        }
    }
}

/// The files with the (lowercased) extension `e`.
pub open spec fn ext_count(fs: Seq<(Seq<char>, u64, (u64, u64, u64))>, e: Seq<char>) -> nat
    decreases fs.len(),
{
    if fs.len() == 0 {
        0
    } else {
        ext_count(fs.drop_last(), e) + match extension_of(fs.last().0) {
            Some(x) => if lowercase(x) == e {
                1nat
            } else {
                0nat
            },
            None => 0nat,
        }
    }
}

/// The lowercased extensions that occur.
pub open spec fn has_ext(fs: Seq<(Seq<char>, u64, (u64, u64, u64))>, e: Seq<char>) -> bool {
    exists|i: int| 0 <= i < fs.len() && (match extension_of(#[trigger] fs[i].0) {
        Some(x) => lowercase(x) == e,
        None => false,
    })
}

/// The sums of the walk fit in `u64`.
pub open spec fn walk_fits(es: Seq<WalkEntry>) -> bool {
    &&& walked_files(es).len() <= u64::MAX
    &&& forall|f: int| 0 <= f < 4 ==> #[trigger] file_sum(walked_files(es), f) <= u64::MAX
}

/// The sizes of the files as ratios over 1, for ranking them.
pub open spec fn size_keys(fs: Seq<(Seq<char>, u64, (u64, u64, u64))>) -> Seq<(u64, u64)> {
    fs.map_values(|x: (Seq<char>, u64, (u64, u64, u64))| (x.1, 1u64))
}

/// `m` sums up the walk: counts and sums of the files, the directories, the files per
/// lowercased extension in the order of extensions, and the largest files (by bytes, the
/// first found first among equally large ones), at most `MAX_LARGEST_FILES`.
pub open spec fn sums_up(m: SizeMetrics, es: Seq<WalkEntry>) -> bool {
    let fs = walked_files(es);
    &&& m.files == fs.len()
    &&& m.directories == dir_count(es)
    &&& m.total_bytes == file_sum(fs, 0)
    &&& m.total_lines == file_sum(fs, 1)
    &&& m.non_empty_lines == file_sum(fs, 2)
    &&& m.blank_lines == file_sum(fs, 3)
    &&& forall|i: int, j: int| 0 <= i < j < m.by_extension.len() ==> seq_lt(
        (#[trigger] m.by_extension@[i]).0@,
        (#[trigger] m.by_extension@[j]).0@,
    )
    &&& forall|i: int| 0 <= i < m.by_extension.len() ==> has_ext(fs, (#[trigger] m.by_extension@[i]).0@)
        && m.by_extension@[i].1 == ext_count(fs, m.by_extension@[i].0@)
    &&& forall|e: Seq<char>| has_ext(fs, e) ==> exists|i: int| 0 <= i < m.by_extension.len() && (#[trigger] m.by_extension@[i]).0@ == e
    &&& exists|ord: Seq<int>| #[trigger] is_ranking(size_keys(fs), ord) && m.largest_files.len() == (if fs.len() < MAX_LARGEST_FILES {
        fs.len()
    } else {
        MAX_LARGEST_FILES as nat
    }) && forall|k: int| 0 <= k < m.largest_files.len() ==> {
        let x = fs[ord[k]];
        &&& (#[trigger] m.largest_files@[k]).path@ == x.0
        &&& m.largest_files@[k].bytes == x.1
        &&& m.largest_files@[k].lines == x.2.0
    }
}

proof fn lemma_ext_count_le(fs: Seq<(Seq<char>, u64, (u64, u64, u64))>, e: Seq<char>)
    ensures
        ext_count(fs, e) <= fs.len(),
    decreases fs.len(),
{
    if fs.len() > 0 {
        lemma_ext_count_le(fs.drop_last(), e);
    }
}

proof fn lemma_has_ext_push(fs: Seq<(Seq<char>, u64, (u64, u64, u64))>, x: (Seq<char>, u64, (u64, u64, u64)), e: Seq<char>)
    ensures
        has_ext(fs.push(x), e) <==> (has_ext(fs, e) || (match extension_of(x.0) {
            Some(y) => lowercase(y) == e,
            None => false,
        })),
{
    let g = fs.push(x);
    if has_ext(g, e) {
        let i = choose|i: int| 0 <= i < g.len() && (match extension_of(#[trigger] g[i].0) {
            Some(y) => lowercase(y) == e,
            None => false,
        });
        if i < fs.len() {
            assert(g[i] == fs[i]);
        }
    }
    if has_ext(fs, e) {
        let i = choose|i: int| 0 <= i < fs.len() && (match extension_of(#[trigger] fs[i].0) {
            Some(y) => lowercase(y) == e,
            None => false,
        });
        assert(g[i] == fs[i]);
    }
    if (match extension_of(x.0) {
        Some(y) => lowercase(y) == e,
        None => false,
    }) {
        assert(g[fs.len() as int] == x);
    }
}

/// The files per extension after one more file with the lowercased extension `lower`.
fn count_extension(exts: &mut Vec<(String, u64)>, lower: String, Ghost(fs): Ghost<Seq<(Seq<char>, u64, (u64, u64, u64))>>, Ghost(x): Ghost<(Seq<char>, u64, (u64, u64, u64))>)
    requires
        extension_of(x.0) matches Some(y) && lowercase(y) == lower@,
        fs.len() + 1 <= u64::MAX,
        forall|i: int, j: int| 0 <= i < j < old(exts).len() ==> seq_lt((#[trigger] old(exts)@[i]).0@, (#[trigger] old(exts)@[j]).0@),
        forall|i: int| 0 <= i < old(exts).len() ==> has_ext(fs, (#[trigger] old(exts)@[i]).0@) && old(exts)@[i].1 == ext_count(fs, old(exts)@[i].0@),
        forall|e: Seq<char>| has_ext(fs, e) ==> exists|i: int| 0 <= i < old(exts).len() && (#[trigger] old(exts)@[i]).0@ == e,
    ensures
        forall|i: int, j: int| 0 <= i < j < final(exts).len() ==> seq_lt((#[trigger] final(exts)@[i]).0@, (#[trigger] final(exts)@[j]).0@),
        forall|i: int| 0 <= i < final(exts).len() ==> has_ext(fs.push(x), (#[trigger] final(exts)@[i]).0@) && final(exts)@[i].1 == ext_count(fs.push(x), final(exts)@[i].0@),
        forall|e: Seq<char>| has_ext(fs.push(x), e) ==> exists|i: int| 0 <= i < final(exts).len() && (#[trigger] final(exts)@[i]).0@ == e,
{
    let ghost g = fs.push(x);
    assert(g.drop_last() =~= fs);
    assert forall|e: Seq<char>| #[trigger] ext_count(g, e) == ext_count(fs, e) + if lower@ == e { 1nat } else { 0nat } by {}
    assert forall|e: Seq<char>| #[trigger] has_ext(g, e) <==> (has_ext(fs, e) || lower@ == e) by {
        lemma_has_ext_push(fs, x, e);
    }
    let mut pos: usize = 0;
    while pos < exts.len() && str_lt(exts[pos].0.as_str(), lower.as_str())
        invariant
            pos <= exts.len(),
            forall|t: int| 0 <= t < pos ==> seq_lt((#[trigger] exts@[t]).0@, lower@),
        ensures
            pos <= exts.len(),
            forall|t: int| 0 <= t < pos ==> seq_lt((#[trigger] exts@[t]).0@, lower@),
            pos < exts.len() ==> !seq_lt(exts@[pos as int].0@, lower@),
        decreases exts.len() - pos,
    {
        pos = pos + 1;
    }
    let ghost before = exts@;
    if pos < exts.len() && exts[pos].0 == lower {
        proof {
            lemma_ext_count_le(fs, lower@);
        }
        let n = exts[pos].1 + 1;
        let k = exts[pos].0.clone();
        exts.set(pos, (k, n));
        assert forall|e: Seq<char>| has_ext(g, e) implies exists|i: int| 0 <= i < exts.len() && (#[trigger] exts@[i]).0@ == e by {
            if e == lower@ {
                assert(exts@[pos as int].0@ == e);
            } else {
                let i = choose|i: int| 0 <= i < before.len() && (#[trigger] before[i]).0@ == e;
                assert(exts@[i].0@ == e);
            }
        }
    } else {
        proof {
            if pos < before.len() {
                crate::text::lemma_seq_lt_total(before[pos as int].0@, lower@);
            }
            assert(!has_ext(fs, lower@)) by {
                if has_ext(fs, lower@) {
                    let i = choose|i: int| 0 <= i < before.len() && (#[trigger] before[i]).0@ == lower@;
                    if i < pos {
                        crate::text::lemma_seq_lt_irreflexive(lower@);
                    } else if i > pos {
                        assert(seq_lt(before[pos as int].0@, before[i].0@));
                        assert(seq_lt(lower@, before[pos as int].0@));
                        crate::text::lemma_seq_lt_transitive(lower@, before[pos as int].0@, lower@);
                        crate::text::lemma_seq_lt_irreflexive(lower@);
                    }
                }
            }
            assert(ext_count(fs, lower@) == 0) by {
                lemma_no_ext_zero(fs, lower@);
            }
        }
        exts.insert(pos, (lower, 1));
        proof {
            before.insert_ensures(pos as int, exts@[pos as int]);
            assert forall|i: int, j: int| 0 <= i < j < exts.len() implies seq_lt((#[trigger] exts@[i]).0@, (#[trigger] exts@[j]).0@) by {
                if j < pos {
                    assert(exts@[i] == before[i] && exts@[j] == before[j]);
                } else if i > pos {
                    assert(exts@[i] == before[i - 1] && exts@[j] == before[j - 1]);
                } else if i == pos {
                    assert(exts@[j] == before[j - 1]);
                    if j - 1 > pos {
                        crate::text::lemma_seq_lt_transitive(lower@, before[pos as int].0@, before[j - 1].0@);
                    }
                } else {
                    assert(exts@[i] == before[i]);
                    if j > pos {
                        assert(exts@[j] == before[j - 1]);
                        if j - 1 > pos {
                            crate::text::lemma_seq_lt_transitive(lower@, before[pos as int].0@, before[j - 1].0@);
                        }
                        crate::text::lemma_seq_lt_transitive(before[i].0@, lower@, before[j - 1].0@);
                    }
                }
            }
            assert forall|e: Seq<char>| has_ext(g, e) implies exists|i: int| 0 <= i < exts.len() && (#[trigger] exts@[i]).0@ == e by {
                if e == lower@ {
                    assert(exts@[pos as int].0@ == e);
                } else {
                    let i = choose|i: int| 0 <= i < before.len() && (#[trigger] before[i]).0@ == e;
                    if i < pos {
                        assert(exts@[i].0@ == e);
                    } else {
                        assert(exts@[i + 1].0@ == e);
                    }
                }
            }
        }
    }
}

proof fn lemma_no_ext_zero(fs: Seq<(Seq<char>, u64, (u64, u64, u64))>, e: Seq<char>)
    requires
        !has_ext(fs, e),
    ensures
        ext_count(fs, e) == 0,
    decreases fs.len(),
{
    if fs.len() > 0 {
        let p = fs.drop_last();
        assert(!has_ext(p, e)) by {
            if has_ext(p, e) {
                let i = choose|i: int| 0 <= i < p.len() && (match extension_of(#[trigger] p[i].0) {
                    Some(y) => lowercase(y) == e,
                    None => false,
                });
                assert(fs[i] == p[i]);
            }
        }
        lemma_no_ext_zero(p, e);
        let l = fs.len() - 1;
        assert(fs[l] == fs.last());
        if (match extension_of(fs.last().0) {
            Some(y) => lowercase(y) == e,
            None => false,
        }) {
            assert(has_ext(fs, e));
        }
    }
}

proof fn lemma_sum_prefix(es: Seq<WalkEntry>, n: int, f: int)
    requires
        0 <= n <= es.len(),
    ensures
        file_sum(walked_files(es.take(n)), f) <= file_sum(walked_files(es), f),
        walked_files(es.take(n)).len() <= walked_files(es).len(),
    decreases es.len() - n,
{
    if n < es.len() {
        lemma_sum_prefix(es, n + 1, f);
        assert(es.take(n + 1).drop_last() =~= es.take(n));
        let a = walked_files(es.take(n));
        match es[n] {
            WalkEntry::File { path, size, lines } => {
                assert(walked_files(es.take(n + 1)) == a + seq![(path@, size, lines)]);
                assert((a + seq![(path@, size, lines)]).drop_last() =~= a);
            },
            WalkEntry::Directory { .. } => {
                assert(walked_files(es.take(n + 1)) =~= a);
            },
        }
    } else {
        assert(es.take(n) =~= es);
    }
}

/// The size metrics of a walk of a working tree.
pub fn size_metrics_from(entries: &Vec<WalkEntry>) -> (m: SizeMetrics)
    requires
        walk_fits(entries@),
    ensures
        sums_up(m, entries@),
{
    let ghost es = entries@;
    let mut files: u64 = 0;
    let mut directories: u64 = 0;
    let mut total_bytes: u64 = 0;
    let mut total_lines: u64 = 0;
    let mut non_empty_lines: u64 = 0;
    let mut blank_lines: u64 = 0;
    let mut exts: Vec<(String, u64)> = Vec::new();
    let mut paths: Vec<String> = Vec::new();
    let mut keys: Vec<(u64, u64)> = Vec::new();
    let mut lines_of: Vec<u64> = Vec::new();
    let mut i: usize = 0;
    while i < entries.len()
        invariant
            i <= entries.len(),
            es == entries@,
            walk_fits(es),
            files == walked_files(es.take(i as int)).len(),
            directories == dir_count(es.take(i as int)),
            directories <= i,
            total_bytes == file_sum(walked_files(es.take(i as int)), 0),
            total_lines == file_sum(walked_files(es.take(i as int)), 1),
            non_empty_lines == file_sum(walked_files(es.take(i as int)), 2),
            blank_lines == file_sum(walked_files(es.take(i as int)), 3),
            paths.len() == files && keys.len() == files && lines_of.len() == files,
            forall|k: int| 0 <= k < files ==> {
                let x = #[trigger] walked_files(es.take(i as int))[k];
                &&& paths@[k]@ == x.0
                &&& keys@[k] == (x.1, 1u64)
                &&& lines_of@[k] == x.2.0
            },
            forall|a: int, b: int| 0 <= a < b < exts.len() ==> seq_lt((#[trigger] exts@[a]).0@, (#[trigger] exts@[b]).0@),
            forall|a: int| 0 <= a < exts.len() ==> has_ext(walked_files(es.take(i as int)), (#[trigger] exts@[a]).0@)
                && exts@[a].1 == ext_count(walked_files(es.take(i as int)), exts@[a].0@),
            forall|e: Seq<char>| #[trigger] has_ext(walked_files(es.take(i as int)), e) ==> exists|a: int| 0 <= a < exts.len() && (
            #[trigger] exts@[a]).0@ == e,
        decreases entries.len() - i,
    {
        assert(es.take(i + 1).drop_last() =~= es.take(i as int));
        assert(es.take(i + 1).last() == es[i as int]);
        let ghost fs = walked_files(es.take(i as int));
        match &entries[i] {
            WalkEntry::Directory { .. } => {
                directories = directories + 1;
                assert(walked_files(es.take(i + 1)) =~= fs);
            },
            WalkEntry::File { path, size, lines } => {
                let ghost x = (path@, *size, *lines);
                assert(walked_files(es.take(i + 1)) =~= fs.push(x));
                assert(fs.push(x).drop_last() =~= fs);
                proof {
                    lemma_sum_prefix(es, i + 1, 0);
                    lemma_sum_prefix(es, i + 1, 1);
                    lemma_sum_prefix(es, i + 1, 2);
                    lemma_sum_prefix(es, i + 1, 3);
                    assert(file_sum(walked_files(es), 0) <= u64::MAX);
                    assert(file_sum(walked_files(es), 1) <= u64::MAX);
                    assert(file_sum(walked_files(es), 2) <= u64::MAX);
                    assert(file_sum(walked_files(es), 3) <= u64::MAX);
                }
                files = files + 1;
                total_bytes = total_bytes + *size;
                total_lines = total_lines + lines.0;
                non_empty_lines = non_empty_lines + lines.1;
                blank_lines = blank_lines + lines.2;
                match file_extension(path.as_str()) {
                    Some(ext) => {
                        let lower = to_lowercase(ext.as_str());
                        count_extension(&mut exts, lower, Ghost(fs), Ghost(x));
                    },
                    None => {
                        assert forall|e: Seq<char>| #[trigger] ext_count(fs.push(x), e) == ext_count(fs, e) by {}
                        assert forall|e: Seq<char>| #[trigger] has_ext(fs.push(x), e) <==> has_ext(fs, e) by {
                            lemma_has_ext_push(fs, x, e);
                        }
                    },
                }
                paths.push(path.clone());
                keys.push((*size, 1));
                lines_of.push(lines.0);
                assert forall|k: int| 0 <= k < files implies {
                    let y = #[trigger] walked_files(es.take(i + 1))[k];
                    &&& paths@[k]@ == y.0
                    &&& keys@[k] == (y.1, 1u64)
                    &&& lines_of@[k] == y.2.0
                } by {
                    if k < files - 1 {
                        assert(walked_files(es.take(i + 1))[k] == fs[k]);
                    }
                }
            },
        }
        i = i + 1;
    }
    assert(es.take(entries.len() as int) =~= es);
    let ghost fs = walked_files(es);
    assert forall|e: Seq<char>| has_ext(fs, e) implies exists|a: int| 0 <= a < exts.len() && (#[trigger] exts@[a]).0@ == e by {
        assert(walked_files(es.take(i as int)) == fs);
        assert(has_ext(walked_files(es.take(i as int)), e));
    }
    assert(keys@ =~= size_keys(fs));
    let ord = rank_by_ratio(&keys);
    let n = if files < 10 { files as usize } else { MAX_LARGEST_FILES };
    let mut largest: Vec<FileMetric> = Vec::new();
    let mut k: usize = 0;
    while k < n
        invariant
            k <= n,
            n == if files < 10 { files as usize } else { MAX_LARGEST_FILES },
            files == fs.len(),
            paths.len() == files && keys.len() == files && lines_of.len() == files,
            is_ranking(size_keys(fs), usize_ints(ord@)),
            forall|t: int| 0 <= t < files ==> {
                let x = #[trigger] fs[t];
                &&& paths@[t]@ == x.0
                &&& keys@[t] == (x.1, 1u64)
                &&& lines_of@[t] == x.2.0
            },
            largest.len() == k,
            forall|t: int| 0 <= t < k ==> {
                let x = fs[usize_ints(ord@)[t]];
                &&& (#[trigger] largest@[t]).path@ == x.0
                &&& largest@[t].bytes == x.1
                &&& largest@[t].lines == x.2.0
            },
        decreases n - k,
    {
        assert(usize_ints(ord@)[k as int] == ord@[k as int] as int);
        assert(0 <= usize_ints(ord@)[k as int] < fs.len());
        let j = ord[k];
        largest.push(FileMetric { path: paths[j].clone(), bytes: keys[j].0, lines: lines_of[j] });
        k = k + 1;
    }
    let m = SizeMetrics {
        files,
        directories,
        total_bytes,
        total_lines,
        non_empty_lines,
        blank_lines,
        by_extension: exts,
        largest_files: largest,
    };
    let ghost o = usize_ints(ord@);
    assert(is_ranking(size_keys(fs), o));
    assert(m.largest_files.len() == (if fs.len() < MAX_LARGEST_FILES { fs.len() } else { MAX_LARGEST_FILES as nat }));
    assert(forall|k: int| 0 <= k < m.largest_files.len() ==> {
        let x = fs[o[k]];
        &&& (#[trigger] m.largest_files@[k]).path@ == x.0
        &&& m.largest_files@[k].bytes == x.1
        &&& m.largest_files@[k].lines == x.2.0
    });
    assert(m.files == fs.len());
    assert(m.directories == dir_count(es));
    assert(m.total_bytes == file_sum(fs, 0));
    assert(m.blank_lines == file_sum(fs, 3));
    assert(forall|i: int| 0 <= i < m.by_extension.len() ==> has_ext(fs, (#[trigger] m.by_extension@[i]).0@)
        && m.by_extension@[i].1 == ext_count(fs, m.by_extension@[i].0@));
    assert forall|e: Seq<char>| has_ext(fs, e) implies exists|i: int| 0 <= i < m.by_extension.len() && (#[trigger] m.by_extension@[i]).0@
        == e by {
        let a = choose|a: int| 0 <= a < exts.len() && (#[trigger] exts@[a]).0@ == e;
        assert(m.by_extension@[a].0@ == e);
    }
    m
}

} // verus!
