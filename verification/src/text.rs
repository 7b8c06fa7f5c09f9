//! Character-level text utilities with exact specifications.
use vstd::prelude::*;

verus! {

broadcast use vstd::string::group_string_axioms;

/// Collects the characters of a string slice.
pub fn str_chars(s: &str) -> (v: Vec<char>)
    ensures
        v@ == s@,
{
    let mut v: Vec<char> = Vec::new();
    for c in it: s.chars()
        invariant
            it.seq() == s@,
            v@ == it.seq().take(it.index() as int),
    {
        v.push(c);
    }
    v
}

/// Builds a `String` holding exactly the given characters, in order.
/// Trusted: `Iterator::collect` into `String` (std `FromIterator<&char>`), which
/// appends each character in iteration order.
#[verifier::external_body]
pub fn string_from_chars(v: &Vec<char>) -> (s: String)
    ensures
        s@ == v@,
{
    v.iter().collect()
}

pub open spec fn is_digit(c: char) -> bool {
    '0' <= c && c <= '9'
}

pub open spec fn digit_val(c: char) -> nat {
    ((c as int) - ('0' as int)) as nat
}

pub open spec fn all_digits(s: Seq<char>) -> bool {
    forall|i: int| 0 <= i < s.len() ==> is_digit(#[trigger] s[i])
}

/// Value of a sequence of decimal digits (most significant first).
pub open spec fn digits_value(s: Seq<char>) -> nat
    decreases s.len(),
{
    if s.len() == 0 {
        0
    } else {
        digits_value(s.drop_last()) * 10 + digit_val(s.last())
    }
}

/// Text accepted by Rust's unsigned integer `parse`: an optional `+`, then at least one
/// ASCII digit. Gives the mathematical value (range checks are the caller's).
pub open spec fn parse_nat(s: Seq<char>) -> Option<nat> {
    let body = if s.len() > 0 && s[0] == '+' { s.drop_first() } else { s };
    if body.len() > 0 && all_digits(body) {
        Some(digits_value(body))
    } else {
        None
    }
}

/// Text accepted by Rust's signed integer `parse`: an optional sign, then at least one digit.
pub open spec fn parse_int(s: Seq<char>) -> Option<int> {
    if s.len() > 0 && s[0] == '-' {
        let body = s.drop_first();
        if body.len() > 0 && all_digits(body) {
            Some(-(digits_value(body) as int))
        } else {
            None
        }
    } else {
        match parse_nat(s) {
            Some(v) => Some(v as int),
            None => None,
        }
    }
}

/// `str::parse::<u64>` on the characters `s[lo..hi]`.
pub open spec fn parse_u64_spec(s: Seq<char>) -> Option<u64> {
    match parse_nat(s) {
        Some(v) => if v <= u64::MAX { Some(v as u64) } else { None },
        None => None,
    }
}

pub open spec fn parse_u32_spec(s: Seq<char>) -> Option<u32> {
    match parse_nat(s) {
        Some(v) => if v <= u32::MAX { Some(v as u32) } else { None },
        None => None,
    }
}

pub open spec fn parse_usize_spec(s: Seq<char>) -> Option<usize> {
    match parse_nat(s) {
        Some(v) => if v <= usize::MAX { Some(v as usize) } else { None },
        None => None,
    }
}

pub open spec fn parse_i32_spec(s: Seq<char>) -> Option<i32> {
    match parse_int(s) {
        Some(v) => if i32::MIN <= v <= i32::MAX { Some(v as i32) } else { None },
        None => None,
    }
}

proof fn lemma_digits_value_prefix(s: Seq<char>, k: int)
    requires
        0 <= k <= s.len(),
        all_digits(s),
    ensures
        digits_value(s.take(k)) <= digits_value(s),
    decreases s.len() - k,
{
    if k < s.len() {
        lemma_digits_value_prefix(s, k + 1);
        assert(s.take(k + 1).drop_last() =~= s.take(k));
        assert(s.take(k + 1).last() == s[k]);
        assert(is_digit(s[k]));
    } else {
        assert(s.take(k) =~= s);
    }
}

/// Parses the decimal digits `s[lo..hi]` (no sign), failing where the text is empty, holds a
/// character that is not a digit, or denotes a value above `bound`.
fn parse_digits_bounded(s: &Vec<char>, lo: usize, hi: usize, bound: u64) -> (r: Option<u64>)
    requires
        lo <= hi <= s.len(),
        bound >= 9,
    ensures
        ({
            let body = s@.subrange(lo as int, hi as int);
            r == (if body.len() > 0 && all_digits(body) && digits_value(body) <= bound {
                Some(digits_value(body) as u64)
            } else {
                None
            })
        }),
{
    let ghost body = s@.subrange(lo as int, hi as int);
    if lo == hi {
        return None;
    }
    let mut acc: u64 = 0;
    let mut i = lo;
    while i < hi
        invariant
            lo <= i <= hi <= s.len(),
            lo < hi,
            bound >= 9,
            body == s@.subrange(lo as int, hi as int),
            all_digits(body.take(i - lo)),
            acc as nat == digits_value(body.take(i - lo)),
            acc <= bound,
        decreases hi - i,
    {
        let c = s[i];
        assert(body.take(i - lo + 1).drop_last() =~= body.take(i - lo));
        assert(body.take(i - lo + 1).last() == c);
        if !('0' <= c && c <= '9') {
            assert(body[i - lo] == c);
            assert(!is_digit(body[i - lo]));
            assert(!all_digits(body));
            return None;
        }
        let d = (c as u32 - '0' as u32) as u64;
        if acc > (bound - d) / 10 {
            proof {
                assert(all_digits(body.take(i - lo + 1)));
                assert(digits_value(body.take(i - lo + 1)) > bound) by (nonlinear_arith)
                    requires
                        acc > (bound - d) / 10,
                        digits_value(body.take(i - lo + 1)) == acc * 10 + d,
                        d <= 9,
                        bound >= 9,
                ;
                if all_digits(body) {
                    lemma_digits_value_prefix(body, i - lo + 1);
                }
            }
            return None;
        }
        acc = acc * 10 + d;
        i = i + 1;
    }
    assert(body.take(i - lo) =~= body);
    Some(acc)
}

/// Parses `s[lo..hi]` as an unsigned number no greater than `bound` (an optional `+`, then digits).
fn parse_unsigned_bounded(s: &Vec<char>, lo: usize, hi: usize, bound: u64) -> (r: Option<u64>)
    requires
        lo <= hi <= s.len(),
        bound >= 9,
    ensures
        r == (match parse_nat(s@.subrange(lo as int, hi as int)) {
            Some(v) => if v <= bound { Some(v as u64) } else { None },
            None => None,
        }),
{
    let ghost t = s@.subrange(lo as int, hi as int);
    if lo < hi && s[lo] == '+' {
        assert(t.drop_first() =~= s@.subrange(lo + 1, hi as int));
        parse_digits_bounded(s, lo + 1, hi, bound)
    } else {
        parse_digits_bounded(s, lo, hi, bound)
    }
}

/// `str::parse::<u64>` on the characters `s[lo..hi]`.
pub fn parse_u64_in(s: &Vec<char>, lo: usize, hi: usize) -> (r: Option<u64>)
    requires
        lo <= hi <= s.len(),
    ensures
        r == parse_u64_spec(s@.subrange(lo as int, hi as int)),
{
    parse_unsigned_bounded(s, lo, hi, u64::MAX)
}

/// `str::parse::<u32>` on the characters `s[lo..hi]`.
pub fn parse_u32_in(s: &Vec<char>, lo: usize, hi: usize) -> (r: Option<u32>)
    requires
        lo <= hi <= s.len(),
    ensures
        r == parse_u32_spec(s@.subrange(lo as int, hi as int)),
{
    match parse_unsigned_bounded(s, lo, hi, u32::MAX as u64) {
        Some(v) => Some(v as u32),
        None => None,
    }
}

/// `str::parse::<usize>` on the characters `s[lo..hi]`.
pub fn parse_usize_in(s: &Vec<char>, lo: usize, hi: usize) -> (r: Option<usize>)
    requires
        lo <= hi <= s.len(),
    ensures
        r == parse_usize_spec(s@.subrange(lo as int, hi as int)),
{
    match parse_unsigned_bounded(s, lo, hi, usize::MAX as u64) {
        Some(v) => Some(v as usize),
        None => None,
    }
}

/// `str::parse::<i32>` on the characters `s[lo..hi]`.
pub fn parse_i32_in(s: &Vec<char>, lo: usize, hi: usize) -> (r: Option<i32>)
    requires
        lo <= hi <= s.len(),
    ensures
        r == parse_i32_spec(s@.subrange(lo as int, hi as int)),
{
    let ghost t = s@.subrange(lo as int, hi as int);
    if lo < hi && s[lo] == '-' {
        assert(t.drop_first() =~= s@.subrange(lo + 1, hi as int));
        match parse_digits_bounded(s, lo + 1, hi, 0x8000_0000u64) {
            Some(v) => Some((0i64 - v as i64) as i32),
            None => None,
        }
    } else {
        match parse_unsigned_bounded(s, lo, hi, 0x7fff_ffffu64) {
            Some(v) => Some(v as i32),
            None => None,
        }
    }
}


// ---------------------------------------------------------------------------
// Splitting
// ---------------------------------------------------------------------------

/// `str::split(sep)` on a character sequence: the pieces between separators, in order.
/// An empty input gives one empty piece; a trailing separator gives a trailing empty piece.
pub open spec fn split_seq(s: Seq<char>, sep: char) -> Seq<Seq<char>>
    decreases s.len(),
{
    if s.len() == 0 {
        seq![Seq::<char>::empty()]
    } else {
        let prev = split_seq(s.drop_last(), sep);
        if s.last() == sep {
            prev.push(Seq::<char>::empty())
        } else {
            prev.update(prev.len() - 1, prev.last().push(s.last()))
        }
    }
}

pub proof fn lemma_split_seq_nonempty(s: Seq<char>, sep: char)
    ensures
        split_seq(s, sep).len() >= 1,
    decreases s.len(),
{
    if s.len() > 0 {
        lemma_split_seq_nonempty(s.drop_last(), sep);
    }
}

/// The pieces of `s` that the index ranges `r` select.
pub open spec fn pieces(s: Seq<char>, r: Seq<(usize, usize)>) -> Seq<Seq<char>> {
    r.map_values(|p: (usize, usize)| s.subrange(p.0 as int, p.1 as int))
}

pub open spec fn ranges_within(r: Seq<(usize, usize)>, lo: int, hi: int) -> bool {
    forall|i: int| 0 <= i < r.len() ==> lo <= (#[trigger] r[i]).0 <= r[i].1 <= hi
}

/// The index ranges of the pieces of `s[lo..hi]` split at `sep`.
pub fn split_ranges(s: &Vec<char>, lo: usize, hi: usize, sep: char) -> (r: Vec<(usize, usize)>)
    requires
        lo <= hi <= s.len(),
    ensures
        ranges_within(r@, lo as int, hi as int),
        pieces(s@, r@) == split_seq(s@.subrange(lo as int, hi as int), sep),
{
    let mut r: Vec<(usize, usize)> = Vec::new();
    let mut start = lo;
    let mut i = lo;
    assert(s@.subrange(lo as int, lo as int) =~= Seq::<char>::empty());
    while i < hi
        invariant
            lo <= start <= i <= hi <= s.len(),
            ranges_within(r@, lo as int, start as int),
            pieces(s@, r@).push(s@.subrange(start as int, i as int)) == split_seq(
                s@.subrange(lo as int, i as int),
                sep,
            ),
        decreases hi - i,
    {
        let ghost prev = split_seq(s@.subrange(lo as int, i as int), sep);
        assert(s@.subrange(lo as int, i + 1).drop_last() =~= s@.subrange(lo as int, i as int));
        if s[i] == sep {
            r.push((start, i));
            start = i + 1;
            assert(pieces(s@, r@) =~= prev);
            assert(s@.subrange(start as int, i + 1) =~= Seq::<char>::empty());
        } else {
            assert(s@.subrange(start as int, i + 1) =~= s@.subrange(start as int, i as int).push(s[i as int]));
            assert(pieces(s@, r@).push(s@.subrange(start as int, i + 1)) =~= prev.update(
                prev.len() - 1,
                prev.last().push(s@[i as int]),
            ));
        }
        i = i + 1;
    }
    r.push((start, hi));
    assert(pieces(s@, r@) =~= split_seq(s@.subrange(lo as int, hi as int), sep));
    r
}

/// Index of the first occurrence of `c` in `s`, if any (`str::find` on a character).
pub open spec fn find_char(s: Seq<char>, c: char) -> Option<int>
    decreases s.len(),
{
    if s.len() == 0 {
        None
    } else {
        match find_char(s.drop_last(), c) {
            Some(i) => Some(i),
            None => if s.last() == c {
                Some(s.len() - 1)
            } else {
                None
            },
        }
    }
}

pub proof fn lemma_find_char_prefix(s: Seq<char>, c: char, k: int)
    requires
        0 <= k <= s.len(),
        find_char(s.take(k), c) is Some,
    ensures
        find_char(s, c) == find_char(s.take(k), c),
    decreases s.len() - k,
{
    if k < s.len() {
        assert(s.take(k + 1).drop_last() =~= s.take(k));
        lemma_find_char_prefix(s, c, k + 1);
    } else {
        assert(s.take(k) =~= s);
    }
}

pub proof fn lemma_find_char_props(s: Seq<char>, c: char)
    ensures
        match find_char(s, c) {
            Some(i) => 0 <= i < s.len() && s[i] == c && forall|j: int| 0 <= j < i ==> s[j] != c,
            None => forall|j: int| 0 <= j < s.len() ==> s[j] != c,
        },
    decreases s.len(),
{
    if s.len() > 0 {
        let p = s.drop_last();
        lemma_find_char_props(p, c);
        assert forall|j: int| 0 <= j < p.len() implies p[j] == s[j] by {}
    }
}

/// Index (within `s`) of the first `c` in `s[lo..hi]`.
pub fn find_char_in(s: &Vec<char>, lo: usize, hi: usize, c: char) -> (r: Option<usize>)
    requires
        lo <= hi <= s.len(),
    ensures
        match (r, find_char(s@.subrange(lo as int, hi as int), c)) {
            (Some(a), Some(b)) => lo <= a < hi && a - lo == b,
            (None, None) => true,
            _ => false,
        },
{
    let ghost t = s@.subrange(lo as int, hi as int);
    let mut i = lo;
    while i < hi
        invariant
            lo <= i <= hi <= s.len(),
            t == s@.subrange(lo as int, hi as int),
            find_char(t.take(i - lo), c) is None,
        decreases hi - i,
    {
        assert(t.take(i - lo + 1).drop_last() =~= t.take(i - lo));
        if s[i] == c {
            proof {
                lemma_find_char_prefix(t, c, i - lo + 1);
            }
            return Some(i);
        }
        i = i + 1;
    }
    assert(t.take(hi - lo) =~= t);
    None
}

// ---------------------------------------------------------------------------
// Whitespace and trimming
// ---------------------------------------------------------------------------

/// `char::is_whitespace`: the Unicode `White_Space` property.
pub open spec fn is_ws(c: char) -> bool {
    let v = c as u32;
    ||| 9 <= v <= 13
    ||| v == 32
    ||| v == 0x85
    ||| v == 0xA0
    ||| v == 0x1680
    ||| 0x2000 <= v <= 0x200A
    ||| v == 0x2028
    ||| v == 0x2029
    ||| v == 0x202F
    ||| v == 0x205F
    ||| v == 0x3000
}

pub fn char_is_ws(c: char) -> (b: bool)
    ensures
        b == is_ws(c),
{
    let v = c as u32;
    (9 <= v && v <= 13) || v == 32 || v == 0x85 || v == 0xA0 || v == 0x1680 || (0x2000 <= v && v
        <= 0x200A) || v == 0x2028 || v == 0x2029 || v == 0x202F || v == 0x205F || v == 0x3000
}

pub open spec fn trim_start_seq(s: Seq<char>) -> Seq<char>
    decreases s.len(),
{
    if s.len() > 0 && is_ws(s[0]) {
        trim_start_seq(s.drop_first())
    } else {
        s
    }
}

pub open spec fn trim_end_seq(s: Seq<char>) -> Seq<char>
    decreases s.len(),
{
    if s.len() > 0 && is_ws(s.last()) {
        trim_end_seq(s.drop_last())
    } else {
        s
    }
}

/// `str::trim`: leading and trailing whitespace removed.
pub open spec fn trim_seq(s: Seq<char>) -> Seq<char> {
    trim_end_seq(trim_start_seq(s))
}

/// The index range of `s[lo..hi]` with leading and trailing whitespace removed.
pub fn trim_range(s: &Vec<char>, lo: usize, hi: usize) -> (r: (usize, usize))
    requires
        lo <= hi <= s.len(),
    ensures
        lo <= r.0 <= r.1 <= hi,
        s@.subrange(r.0 as int, r.1 as int) == trim_seq(s@.subrange(lo as int, hi as int)),
{
    let mut a = lo;
    while a < hi && char_is_ws(s[a])
        invariant
            lo <= a <= hi <= s.len(),
            trim_start_seq(s@.subrange(lo as int, hi as int)) == trim_start_seq(
                s@.subrange(a as int, hi as int),
            ),
        decreases hi - a,
    {
        assert(s@.subrange(a as int, hi as int).drop_first() =~= s@.subrange(a + 1, hi as int));
        a = a + 1;
    }
    assert(trim_start_seq(s@.subrange(a as int, hi as int)) == s@.subrange(a as int, hi as int));
    let mut b = hi;
    while b > a && char_is_ws(s[b - 1])
        invariant
            lo <= a <= b <= hi <= s.len(),
            trim_seq(s@.subrange(lo as int, hi as int)) == trim_end_seq(
                s@.subrange(a as int, b as int),
            ),
        decreases b - a,
    {
        assert(s@.subrange(a as int, b as int).drop_last() =~= s@.subrange(a as int, b - 1));
        b = b - 1;
    }
    (a, b)
}

// ---------------------------------------------------------------------------
// Lines
// ---------------------------------------------------------------------------

pub open spec fn strip_cr(s: Seq<char>) -> Seq<char> {
    if s.len() > 0 && s.last() == '\r' {
        s.drop_last()
    } else {
        s
    }
}

/// `str::lines`: the pieces between `\n`, a `\r` before each `\n` removed, and no final
/// empty piece after a trailing `\n` (an empty text has no lines).
pub open spec fn lines_seq(s: Seq<char>) -> Seq<Seq<char>> {
    let parts = split_seq(s, '\n');
    let n = parts.len();
    let body = parts.take(n - 1).map_values(|p: Seq<char>| strip_cr(p));
    if parts[n - 1].len() == 0 {
        body
    } else {
        body.push(parts[n - 1])
    }
}

/// The index ranges of the lines of `s[lo..hi]`.
pub fn line_ranges(s: &Vec<char>, lo: usize, hi: usize) -> (r: Vec<(usize, usize)>)
    requires
        lo <= hi <= s.len(),
    ensures
        ranges_within(r@, lo as int, hi as int),
        pieces(s@, r@) == lines_seq(s@.subrange(lo as int, hi as int)),
{
    let parts = split_ranges(s, lo, hi, '\n');
    let ghost ps = split_seq(s@.subrange(lo as int, hi as int), '\n');
    proof {
        lemma_split_seq_nonempty(s@.subrange(lo as int, hi as int), '\n');
    }
    let n = parts.len();
    let mut r: Vec<(usize, usize)> = Vec::new();
    let mut k: usize = 0;
    while k + 1 < n
        invariant
            lo <= hi <= s.len(),
            n == parts.len(),
            n >= 1,
            k < n,
            ranges_within(parts@, lo as int, hi as int),
            pieces(s@, parts@) == ps,
            ranges_within(r@, lo as int, hi as int),
            pieces(s@, r@) == ps.take(k as int).map_values(|p: Seq<char>| strip_cr(p)),
        decreases n - k,
    {
        let (a, b) = parts[k];
        assert(lo <= parts@[k as int].0 <= parts@[k as int].1 <= hi);
        assert(ps[k as int] == s@.subrange(a as int, b as int));
        let e = if b > a && s[b - 1] == '\r' {
            assert(s@.subrange(a as int, b as int).drop_last() =~= s@.subrange(a as int, b - 1));
            b - 1
        } else {
            b
        };
        assert(strip_cr(ps[k as int]) =~= s@.subrange(a as int, e as int));
        let ghost old_r = r@;
        r.push((a, e));
        assert(pieces(s@, r@) =~= pieces(s@, old_r).push(s@.subrange(a as int, e as int)));
        assert(ps.take(k + 1) =~= ps.take(k as int).push(ps[k as int]));
        assert(ps.take(k + 1).map_values(|p: Seq<char>| strip_cr(p)) =~= ps.take(
            k as int,
        ).map_values(|p: Seq<char>| strip_cr(p)).push(strip_cr(ps[k as int])));
        k = k + 1;
    }
    let (a, b) = parts[n - 1];
    assert(ps[n - 1] == s@.subrange(a as int, b as int));
    if a < b {
        r.push((a, b));
        assert(pieces(s@, r@) =~= lines_seq(s@.subrange(lo as int, hi as int)));
    } else {
        assert(pieces(s@, r@) =~= lines_seq(s@.subrange(lo as int, hi as int)));
    }
    r
}


// ---------------------------------------------------------------------------
// Building text
// ---------------------------------------------------------------------------

pub open spec fn digit_char(d: nat) -> char {
    if d == 0 {
        '0'
    } else if d == 1 {
        '1'
    } else if d == 2 {
        '2'
    } else if d == 3 {
        '3'
    } else if d == 4 {
        '4'
    } else if d == 5 {
        '5'
    } else if d == 6 {
        '6'
    } else if d == 7 {
        '7'
    } else if d == 8 {
        '8'
    } else {
        '9'
    }
}

/// Decimal representation of `n`, without leading zeros (`"0"` for zero).
pub open spec fn nat_digits(n: nat) -> Seq<char>
    decreases n,
{
    if n < 10 {
        seq![digit_char(n)]
    } else {
        nat_digits(n / 10).push(digit_char(n % 10))
    }
}

/// `n` copies of `c`.
pub open spec fn repeat_char(c: char, n: nat) -> Seq<char> {
    Seq::new(n, |i: int| c)
}

/// `s` preceded by copies of `c` up to total length `w`.
pub open spec fn pad_left(s: Seq<char>, w: nat, c: char) -> Seq<char> {
    if s.len() < w {
        repeat_char(c, (w - s.len()) as nat) + s
    } else {
        s
    }
}

/// `s` followed by copies of `c` up to total length `w`.
pub open spec fn pad_right(s: Seq<char>, w: nat, c: char) -> Seq<char> {
    if s.len() < w {
        s + repeat_char(c, (w - s.len()) as nat)
    } else {
        s
    }
}

/// `{:^w$}` (centred, extra space on the right) applied to `s`.
pub open spec fn pad_center(s: Seq<char>, w: nat) -> Seq<char> {
    if s.len() < w {
        let total = (w - s.len()) as nat;
        let left = total / 2;
        repeat_char(' ', left) + s + repeat_char(' ', (total - left) as nat)
    } else {
        s
    }
}

pub proof fn lemma_nat_digits_props(n: nat)
    ensures
        nat_digits(n).len() >= 1,
        all_digits(nat_digits(n)),
        digits_value(nat_digits(n)) == n,
    decreases n,
{
    assert(digit_val(digit_char(n % 10)) == n % 10);
    if n >= 10 {
        lemma_nat_digits_props(n / 10);
        let s = nat_digits(n);
        assert(s.drop_last() =~= nat_digits(n / 10));
        assert(s.last() == digit_char(n % 10));
        assert((n / 10) * 10 + n % 10 == n);
        assert(digits_value(s) == digits_value(nat_digits(n / 10)) * 10 + digit_val(digit_char(n % 10)));
    } else {
        let s = nat_digits(n);
        assert(s.drop_last() =~= Seq::<char>::empty());
        assert(digits_value(s) == digits_value(s.drop_last()) * 10 + digit_val(s.last()));
        assert forall|i: int| 0 <= i < s.len() implies is_digit(#[trigger] s[i]) by {
            if i < s.len() - 1 {
                assert(s[i] == nat_digits(n / 10)[i]);
            }
        }
    }
}

/// Appends the decimal digits of `n`.
pub fn push_u64_digits(v: &mut Vec<char>, n: u64)
    ensures
        final(v)@ == old(v)@ + nat_digits(n as nat),
    decreases n,
{
    if n >= 10 {
        push_u64_digits(v, n / 10);
    }
    let d = (n % 10) as u32;
    let c = char_from_digit(d);
    v.push(c);
    proof {
        if n >= 10 {
            assert(v@ =~= old(v)@ + nat_digits(n as nat));
        } else {
            assert(v@ =~= old(v)@ + nat_digits(n as nat));
        }
    }
}

/// The character of the decimal digit `d`.
pub fn char_from_digit(d: u32) -> (c: char)
    requires
        d < 10,
    ensures
        c == digit_char(d as nat),
{
    match d {
        0 => '0',
        1 => '1',
        2 => '2',
        3 => '3',
        4 => '4',
        5 => '5',
        6 => '6',
        7 => '7',
        8 => '8',
        _ => '9',
    }
}

/// The decimal text of `n` (`n.to_string()`).
pub fn u64_chars(n: u64) -> (v: Vec<char>)
    ensures
        v@ == nat_digits(n as nat),
{
    let mut v: Vec<char> = Vec::new();
    push_u64_digits(&mut v, n);
    assert(v@ =~= nat_digits(n as nat));
    v
}

/// The decimal text of a signed number (`n.to_string()`).
pub open spec fn int_digits(n: int) -> Seq<char> {
    if n < 0 {
        seq!['-'] + nat_digits((-n) as nat)
    } else {
        nat_digits(n as nat)
    }
}

/// Appends the decimal text of a signed number.
pub fn push_i64_digits(v: &mut Vec<char>, n: i64)
    ensures
        final(v)@ == old(v)@ + int_digits(n as int),
{
    if n < 0 {
        v.push('-');
        let mag: u64 = if n == i64::MIN { 0x8000_0000_0000_0000u64 } else { (-n) as u64 };
        push_u64_digits(v, mag);
    } else {
        push_u64_digits(v, n as u64);
    }
    assert(v@ =~= old(v)@ + int_digits(n as int));
}

/// Appends `n` copies of `c`.
pub fn push_repeat(v: &mut Vec<char>, c: char, n: usize)
    ensures
        final(v)@ == old(v)@ + repeat_char(c, n as nat),
{
    let mut i: usize = 0;
    while i < n
        invariant
            i <= n,
            v@ == old(v)@ + repeat_char(c, i as nat),
        decreases n - i,
    {
        v.push(c);
        i = i + 1;
        assert(v@ =~= old(v)@ + repeat_char(c, i as nat));
    }
}

/// Appends the characters of `w`.
pub fn push_all(v: &mut Vec<char>, w: &Vec<char>)
    ensures
        final(v)@ == old(v)@ + w@,
{
    let mut i: usize = 0;
    while i < w.len()
        invariant
            i <= w.len(),
            v@ == old(v)@ + w@.take(i as int),
        decreases w.len() - i,
    {
        v.push(w[i]);
        i = i + 1;
        assert(v@ =~= old(v)@ + w@.take(i as int));
    }
    assert(w@.take(w.len() as int) =~= w@);
}

/// Appends the characters of `s[lo..hi]`.
pub fn push_range(v: &mut Vec<char>, s: &Vec<char>, lo: usize, hi: usize)
    requires
        lo <= hi <= s.len(),
    ensures
        final(v)@ == old(v)@ + s@.subrange(lo as int, hi as int),
{
    let mut i: usize = lo;
    while i < hi
        invariant
            lo <= i <= hi <= s.len(),
            v@ == old(v)@ + s@.subrange(lo as int, i as int),
        decreases hi - i,
    {
        v.push(s[i]);
        i = i + 1;
        assert(v@ =~= old(v)@ + s@.subrange(lo as int, i as int));
    }
}

/// The characters `s[lo..hi]` as a `String`.
pub fn string_of_range(s: &Vec<char>, lo: usize, hi: usize) -> (r: String)
    requires
        lo <= hi <= s.len(),
    ensures
        r@ == s@.subrange(lo as int, hi as int),
{
    let mut v: Vec<char> = Vec::new();
    push_range(&mut v, s, lo, hi);
    assert(v@ =~= s@.subrange(lo as int, hi as int));
    string_from_chars(&v)
}

/// An owned copy of a string slice.
pub fn string_of_str(s: &str) -> (r: String)
    ensures
        r@ == s@,
{
    s.to_owned()
}

/// Appends the characters of a string slice.
pub fn push_str(v: &mut Vec<char>, s: &str)
    ensures
        final(v)@ == old(v)@ + s@,
{
    let w = str_chars(s);
    push_all(v, &w);
}

/// Appends `s` padded on the left with `c` to width `w`.
pub fn push_pad_left(v: &mut Vec<char>, s: &Vec<char>, w: usize, c: char)
    ensures
        final(v)@ == old(v)@ + pad_left(s@, w as nat, c),
{
    if s.len() < w {
        push_repeat(v, c, w - s.len());
    }
    push_all(v, s);
    assert(v@ =~= old(v)@ + pad_left(s@, w as nat, c));
}

/// Appends `s` padded on the right with `c` to width `w`.
pub fn push_pad_right(v: &mut Vec<char>, s: &Vec<char>, w: usize, c: char)
    ensures
        final(v)@ == old(v)@ + pad_right(s@, w as nat, c),
{
    push_all(v, s);
    if s.len() < w {
        push_repeat(v, c, w - s.len());
    }
    assert(v@ =~= old(v)@ + pad_right(s@, w as nat, c));
}

/// Appends `s` centred in width `w`.
pub fn push_pad_center(v: &mut Vec<char>, s: &Vec<char>, w: usize)
    ensures
        final(v)@ == old(v)@ + pad_center(s@, w as nat),
{
    if s.len() < w {
        let total = w - s.len();
        let left = total / 2;
        push_repeat(v, ' ', left);
        push_all(v, s);
        push_repeat(v, ' ', total - left);
    } else {
        push_all(v, s);
    }
    assert(v@ =~= old(v)@ + pad_center(s@, w as nat));
}

// ---------------------------------------------------------------------------
// Case, order and sets of strings
// ---------------------------------------------------------------------------

/// What `str::to_lowercase` returns for a text (Unicode lowercase mapping of each
/// character, depending on the text alone).
pub uninterp spec fn lowercase(s: Seq<char>) -> Seq<char>;

/// Every character is ASCII.
pub open spec fn is_ascii_text(s: Seq<char>) -> bool {
    forall|i: int| 0 <= i < s.len() ==> (s[i] as u32) < 128
}

/// `c` with `A`..=`Z` turned into `a`..=`z`.
pub open spec fn ascii_lower_char(c: char) -> char {
    if 'A' <= c <= 'Z' {
        ((c as u32) + 32) as char
    } else {
        c
    }
}

/// `c` with `a`..=`z` turned into `A`..=`Z`.
pub open spec fn ascii_upper_char(c: char) -> char {
    if 'a' <= c <= 'z' {
        ((c as u32) - 32) as char
    } else {
        c
    }
}

/// The text with its ASCII capitals made small.
pub open spec fn ascii_lower(s: Seq<char>) -> Seq<char> {
    s.map_values(|c: char| ascii_lower_char(c))
}

/// The text with its small ASCII letters made capitals.
pub open spec fn ascii_upper(s: Seq<char>) -> Seq<char> {
    s.map_values(|c: char| ascii_upper_char(c))
}

/// Lowering ASCII text twice is lowering it once; it stays ASCII.
pub proof fn lemma_ascii_lower_idempotent(s: Seq<char>)
    requires
        is_ascii_text(s),
    ensures
        is_ascii_text(ascii_lower(s)),
        ascii_lower(ascii_lower(s)) == ascii_lower(s),
{
    assert(ascii_lower(ascii_lower(s)) =~= ascii_lower(s));
}

/// Raising ASCII text to capitals keeps it ASCII and loses nothing that lowering keeps.
pub proof fn lemma_ascii_lower_of_upper(s: Seq<char>)
    requires
        is_ascii_text(s),
    ensures
        is_ascii_text(ascii_upper(s)),
        ascii_lower(ascii_upper(s)) == ascii_lower(s),
{
    assert(ascii_lower(ascii_upper(s)) =~= ascii_lower(s));
}

/// Trusted: std `str::to_lowercase`. The result is named `lowercase` of the text; for
/// ASCII text std documents it exactly: `A`..=`Z` become `a`..=`z` and every other
/// character stays. For other text nothing more is claimed.
#[verifier::external_body]
pub(crate) fn to_lowercase(s: &str) -> (r: String)
    ensures
        r@ == lowercase(s@),
        is_ascii_text(s@) ==> r@ == ascii_lower(s@),
{
    s.to_lowercase()
}

/// Strict lexicographic order on texts by code point, which is the order of `str`'s `Ord`
/// (UTF-8 preserves code point order byte by byte).
pub open spec fn seq_lt(a: Seq<char>, b: Seq<char>) -> bool
    decreases a.len(),
{
    if a.len() == 0 {
        b.len() > 0
    } else if b.len() == 0 {
        false
    } else if a[0] != b[0] {
        (a[0] as u32) < (b[0] as u32)
    } else {
        seq_lt(a.drop_first(), b.drop_first())
    }
}

proof fn lemma_char_code_injective(x: char, y: char)
    requires
        x != y,
    ensures
        (x as u32) != (y as u32),
{
    assert((x as int) != (y as int));
}

pub proof fn lemma_seq_lt_irreflexive(a: Seq<char>)
    ensures
        !seq_lt(a, a),
    decreases a.len(),
{
    if a.len() > 0 {
        lemma_seq_lt_irreflexive(a.drop_first());
    }
}

pub proof fn lemma_seq_lt_transitive(a: Seq<char>, b: Seq<char>, c: Seq<char>)
    requires
        seq_lt(a, b),
        seq_lt(b, c),
    ensures
        seq_lt(a, c),
    decreases a.len(),
{
    if a.len() > 0 && b.len() > 0 && c.len() > 0 {
        if a[0] == b[0] && b[0] == c[0] {
            lemma_seq_lt_transitive(a.drop_first(), b.drop_first(), c.drop_first());
        }
    }
}

pub proof fn lemma_seq_lt_total(a: Seq<char>, b: Seq<char>)
    ensures
        a == b || seq_lt(a, b) || seq_lt(b, a),
    decreases a.len(),
{
    if a.len() > 0 && b.len() > 0 {
        if a[0] == b[0] {
            lemma_seq_lt_total(a.drop_first(), b.drop_first());
            if a.drop_first() == b.drop_first() {
                assert(a =~= seq![a[0]] + a.drop_first());
                assert(b =~= seq![b[0]] + b.drop_first());
            }
        } else {
            lemma_char_code_injective(a[0], b[0]);
        }
    } else if a.len() == 0 && b.len() == 0 {
        assert(a =~= b);
    }
}

pub proof fn lemma_seq_lt_asymmetric(a: Seq<char>, b: Seq<char>)
    requires
        seq_lt(a, b),
    ensures
        !seq_lt(b, a),
{
    if seq_lt(b, a) {
        lemma_seq_lt_transitive(a, b, a);
        lemma_seq_lt_irreflexive(a);
    }
}

proof fn lemma_seq_lt_common_prefix(a: Seq<char>, b: Seq<char>, i: int)
    requires
        0 <= i <= a.len(),
        i <= b.len(),
        a.take(i) == b.take(i),
    ensures
        seq_lt(a, b) == seq_lt(a.skip(i), b.skip(i)),
    decreases i,
{
    if i > 0 {
        assert(a[0] == a.take(i)[0]);
        assert(b[0] == b.take(i)[0]);
        assert(a.drop_first().take(i - 1) =~= a.take(i).drop_first());
        assert(b.drop_first().take(i - 1) =~= b.take(i).drop_first());
        lemma_seq_lt_common_prefix(a.drop_first(), b.drop_first(), i - 1);
        assert(a.drop_first().skip(i - 1) =~= a.skip(i));
        assert(b.drop_first().skip(i - 1) =~= b.skip(i));
    } else {
        assert(a.skip(0) =~= a);
        assert(b.skip(0) =~= b);
    }
}

/// `a < b` for strings.
pub fn str_lt(a: &str, b: &str) -> (r: bool)
    ensures
        r == seq_lt(a@, b@),
{
    let x = str_chars(a);
    let y = str_chars(b);
    let mut i: usize = 0;
    while i < x.len() && i < y.len() && x[i] == y[i]
        invariant
            i <= x.len(),
            i <= y.len(),
            x@.take(i as int) == y@.take(i as int),
        decreases x.len() - i,
    {
        assert(x@.take(i + 1) =~= x@.take(i as int).push(x@[i as int]));
        assert(y@.take(i + 1) =~= y@.take(i as int).push(y@[i as int]));
        i = i + 1;
    }
    proof {
        lemma_seq_lt_common_prefix(x@, y@, i as int);
    }
    if i == x.len() {
        i < y.len()
    } else if i == y.len() {
        false
    } else {
        (x[i] as u32) < (y[i] as u32)
    }
}

/// The texts of a sequence of strings.
pub open spec fn string_views(v: Seq<String>) -> Seq<Seq<char>> {
    v.map_values(|s: String| s@)
}

/// Whether `v` holds a string equal to `s`.
pub fn contains_string(v: &Vec<String>, s: &String) -> (r: bool)
    ensures
        r == string_views(v@).contains(s@),
{
    let mut i: usize = 0;
    while i < v.len()
        invariant
            i <= v.len(),
            forall|j: int| 0 <= j < i ==> v@[j]@ != s@,
        decreases v.len() - i,
    {
        if v[i] == *s {
            assert(string_views(v@)[i as int] == s@);
            return true;
        }
        i = i + 1;
    }
    proof {
        if string_views(v@).contains(s@) {
            let k = choose|k: int| 0 <= k < string_views(v@).len() && string_views(v@)[k] == s@;
            assert(v@[k]@ == s@);
        }
    }
    false
}

/// Adds `s` to `v` unless an equal string is already there.
pub fn insert_string(v: &mut Vec<String>, s: String)
    requires
        string_views(old(v)@).no_duplicates(),
    ensures
        string_views(final(v)@).no_duplicates(),
        string_views(final(v)@).to_set() == string_views(old(v)@).to_set().insert(s@),
{
    if !contains_string(v, &s) {
        let ghost before = v@;
        v.push(s);
        assert(string_views(v@) =~= string_views(before).push(s@));
        proof {
            string_views(before).lemma_push_to_set_commute(s@);
        }
    } else {
        assert(string_views(v@).to_set() =~= string_views(v@).to_set().insert(s@));
    }
}

/// `a == b` for string slices.
pub fn str_eq(a: &str, b: &str) -> (r: bool)
    ensures
        r == (a@ == b@),
{
    string_of_str(a) == string_of_str(b)
}

/// `s` starts with `p`.
pub open spec fn starts_with(s: Seq<char>, p: Seq<char>) -> bool {
    p.len() <= s.len() && s.take(p.len() as int) == p
}

/// `s` holds `p` as a contiguous piece.
pub open spec fn contains_seq(s: Seq<char>, p: Seq<char>) -> bool {
    exists|i: int| 0 <= i && i + p.len() <= s.len() && #[trigger] s.subrange(i, i + p.len()) == p
}

/// Whether `s[lo..hi]` starts with the characters of `p`.
pub fn range_starts_with(s: &Vec<char>, lo: usize, hi: usize, p: &Vec<char>) -> (r: bool)
    requires
        lo <= hi <= s.len(),
    ensures
        r == starts_with(s@.subrange(lo as int, hi as int), p@),
{
    if p.len() > hi - lo {
        return false;
    }
    let mut k: usize = 0;
    while k < p.len()
        invariant
            k <= p.len() <= hi - lo,
            lo <= hi <= s.len(),
            forall|j: int| 0 <= j < k ==> s@[lo + j] == p@[j],
        decreases p.len() - k,
    {
        if s[lo + k] != p[k] {
            assert(s@.subrange(lo as int, hi as int).take(p.len() as int)[k as int] != p@[k as int]);
            return false;
        }
        k = k + 1;
    }
    assert(s@.subrange(lo as int, hi as int).take(p.len() as int) =~= p@);
    true
}

/// Whether `s[lo..hi]` holds the characters of `p` as a contiguous piece.
pub fn range_contains(s: &Vec<char>, lo: usize, hi: usize, p: &Vec<char>) -> (r: bool)
    requires
        lo <= hi <= s.len(),
    ensures
        r == contains_seq(s@.subrange(lo as int, hi as int), p@),
{
    let ghost t = s@.subrange(lo as int, hi as int);
    if p.len() > hi - lo {
        return false;
    }
    if p.len() == 0 {
        assert(t.subrange(0, 0 + p.len()) =~= p@);
        return true;
    }
    let last = hi - p.len();
    let mut i: usize = lo;
    while i <= last
        invariant
            lo <= i <= last + 1,
            p.len() >= 1,
            last == hi - p.len(),
            lo <= hi <= s.len(),
            p.len() <= hi - lo,
            t == s@.subrange(lo as int, hi as int),
            forall|j: int| 0 <= j < i - lo ==> #[trigger] t.subrange(j, j + p.len()) != p@,
        decreases last + 1 - i,
    {
        if range_starts_with(s, i, hi, p) {
            assert(t.subrange(i - lo, i - lo + p.len()) =~= s@.subrange(i as int, hi as int).take(p.len() as int));
            return true;
        }
        assert(t.subrange(i - lo, i - lo + p.len()) =~= s@.subrange(i as int, hi as int).take(p.len() as int));
        i = i + 1;
    }
    false
}

/// Index of the last occurrence of `c` in `s`, if any.
pub open spec fn rfind_char(s: Seq<char>, c: char) -> Option<int>
    decreases s.len(),
{
    if s.len() == 0 {
        None
    } else if s.last() == c {
        Some(s.len() - 1)
    } else {
        rfind_char(s.drop_last(), c)
    }
}

/// Index (within `s`) of the last `c` in `s[lo..hi]`.
pub fn rfind_char_in(s: &Vec<char>, lo: usize, hi: usize, c: char) -> (r: Option<usize>)
    requires
        lo <= hi <= s.len(),
    ensures
        match (r, rfind_char(s@.subrange(lo as int, hi as int), c)) {
            (Some(a), Some(b)) => lo <= a < hi && a - lo == b,
            (None, None) => true,
            _ => false,
        },
    decreases hi - lo,
{
    if hi == lo {
        return None;
    }
    assert(s@.subrange(lo as int, hi as int).drop_last() =~= s@.subrange(lo as int, hi - 1));
    if s[hi - 1] == c {
        Some(hi - 1)
    } else {
        rfind_char_in(s, lo, hi - 1, c)
    }
}


// ---------------------------------------------------------------------------
// Sorted sets of strings
// ---------------------------------------------------------------------------

/// Strictly ascending by `str` order (so also free of duplicates).
pub open spec fn ascending(v: Seq<Seq<char>>) -> bool {
    forall|i: int, j: int| 0 <= i < j < v.len() ==> seq_lt(#[trigger] v[i], #[trigger] v[j])
}

pub proof fn lemma_ascending_unique(v: Seq<Seq<char>>)
    requires
        ascending(v),
    ensures
        v.no_duplicates(),
{
    assert forall|i: int, j: int| 0 <= i < v.len() && 0 <= j < v.len() && i != j implies v[i] != v[j] by {
        if i < j {
            lemma_seq_lt_irreflexive(v[i]);
        } else {
            lemma_seq_lt_irreflexive(v[j]);
        }
    }
}

/// Position at which `x` goes into the ascending `v`: after every string below it.
fn insert_position(v: &Vec<String>, x: &String) -> (pos: usize)
    requires
        ascending(string_views(v@)),
        !string_views(v@).contains(x@),
    ensures
        pos <= v.len(),
        forall|t: int| 0 <= t < pos ==> seq_lt(#[trigger] v@[t]@, x@),
        forall|t: int| pos <= t < v.len() ==> seq_lt(x@, #[trigger] v@[t]@),
{
    let mut pos: usize = 0;
    while pos < v.len() && str_lt(v[pos].as_str(), x.as_str())
        invariant
            pos <= v.len(),
            forall|t: int| 0 <= t < pos ==> seq_lt(#[trigger] v@[t]@, x@),
        decreases v.len() - pos,
    {
        pos = pos + 1;
    }
    proof {
        if pos < v.len() {
            assert(!seq_lt(v@[pos as int]@, x@));
            assert(string_views(v@)[pos as int] == v@[pos as int]@);
            lemma_seq_lt_total(v@[pos as int]@, x@);
            assert forall|t: int| pos <= t < v.len() implies seq_lt(x@, #[trigger] v@[t]@) by {
                if t > pos {
                    assert(seq_lt(string_views(v@)[pos as int], string_views(v@)[t]));
                    lemma_seq_lt_transitive(x@, v@[pos as int]@, v@[t]@);
                }
            }
        }
    }
    pos
}

/// The same set of strings, in ascending order.
pub fn sort_strings(v: Vec<String>) -> (r: Vec<String>)
    requires
        string_views(v@).no_duplicates(),
    ensures
        string_views(r@).to_set() == string_views(v@).to_set(),
        ascending(string_views(r@)),
        string_views(r@).no_duplicates(),
{
    let mut r: Vec<String> = Vec::new();
    let mut i: usize = 0;
    while i < v.len()
        invariant
            i <= v.len(),
            string_views(v@).no_duplicates(),
            ascending(string_views(r@)),
            string_views(r@).to_set() == string_views(v@.take(i as int)).to_set(),
        decreases v.len() - i,
    {
        let x = v[i].clone();
        proof {
            assert(!string_views(r@).contains(x@)) by {
                if string_views(r@).contains(x@) {
                    assert(string_views(v@.take(i as int)).to_set().contains(x@));
                    let k = choose|k: int| 0 <= k < i && #[trigger] string_views(v@.take(i as int))[k] == x@;
                    assert(string_views(v@)[k] == string_views(v@)[i as int]);
                }
            }
        }
        let pos = insert_position(&r, &x);
        let ghost before = string_views(r@);
        r.insert(pos, x);
        proof {
            assert(string_views(r@) =~= before.insert(pos as int, x@));
            assert forall|a: int, b: int| 0 <= a < b < r.len() implies seq_lt(
                #[trigger] string_views(r@)[a],
                #[trigger] string_views(r@)[b],
            ) by {
                if b < pos {
                } else if a < pos && b == pos {
                    assert(seq_lt(r@[a]@, x@));
                } else if a < pos && b > pos {
                    assert(seq_lt(before[a], before[b - 1]));
                } else if a == pos {
                    assert(seq_lt(x@, r@[b]@));
                } else {
                    assert(seq_lt(before[a - 1], before[b - 1]));
                }
            }
            assert(string_views(v@.take(i + 1)) =~= string_views(v@.take(i as int)).push(x@));
            assert(string_views(r@).to_set() =~= string_views(v@.take(i + 1)).to_set()) by {
                assert forall|e: Seq<char>| string_views(r@).to_set().contains(e) <==> string_views(v@.take(i + 1)).to_set().contains(e) by {
                    if string_views(r@).contains(e) {
                        let k = choose|k: int| 0 <= k < r.len() && #[trigger] string_views(r@)[k] == e;
                        if k == pos {
                            assert(string_views(v@.take(i + 1))[i as int] == e);
                        } else {
                            let q = if k < pos { k } else { k - 1 };
                            assert(before[q] == e);
                            assert(before.to_set().contains(e));
                            assert(string_views(v@.take(i as int)).to_set().contains(e));
                            let k2 = choose|k2: int| 0 <= k2 < i && #[trigger] string_views(v@.take(i as int))[k2] == e;
                            assert(string_views(v@.take(i + 1))[k2] == e);
                        }
                        assert(string_views(v@.take(i + 1)).contains(e));
                    }
                    if string_views(v@.take(i + 1)).contains(e) && e != x@ {
                        let k = choose|k: int| 0 <= k < i + 1 && #[trigger] string_views(v@.take(i + 1))[k] == e;
                        assert(string_views(v@.take(i as int))[k] == e);
                        assert(before.to_set().contains(e));
                        let q = choose|q: int| 0 <= q < before.len() && #[trigger] before[q] == e;
                        if q < pos {
                            assert(string_views(r@)[q] == e);
                        } else {
                            assert(string_views(r@)[q + 1] == e);
                        }
                    }
                    if e == x@ {
                        assert(string_views(r@)[pos as int] == e);
                        assert(string_views(v@.take(i + 1))[i as int] == e);
                    }
                }
            }
        }
        i = i + 1;
    }
    assert(v@.take(v.len() as int) =~= v@);
    proof {
        lemma_ascending_unique(string_views(r@));
    }
    r
}

} // verus!

