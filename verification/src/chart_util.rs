//! Layout and rendering of small bar charts drawn with Unicode block characters.
use vstd::prelude::*;
use vstd::utf8::encode_utf8;

use crate::text::{
    nat_digits, pad_center, push_all, push_pad_center, push_repeat, repeat_char, str_chars,
    string_from_chars, u64_chars,
};

verus! {

broadcast use vstd::string::group_string_axioms;

// ---------------------------------------------------------------------------
// Fitting columns into a width
// ---------------------------------------------------------------------------

/// Width of a label as `str::len` counts it: bytes of its UTF-8 encoding.
pub open spec fn label_width(s: Seq<char>) -> nat {
    (encode_utf8(s).len() as usize) as nat
}

/// Widest label; 1 when there are no labels.
pub open spec fn max_label_width(labels: Seq<Seq<char>>) -> nat
    decreases labels.len(),
{
    if labels.len() == 0 {
        1
    } else if labels.len() == 1 {
        label_width(labels[0])
    } else {
        let m = max_label_width(labels.drop_last());
        let w = label_width(labels.last());
        if w > m {
            w
        } else {
            m
        }
    }
}

/// Widest decimal rendering of a value; 1 when there are no values.
pub open spec fn max_value_width(values: Seq<u64>) -> nat
    decreases values.len(),
{
    if values.len() == 0 {
        1
    } else if values.len() == 1 {
        nat_digits(values[0] as nat).len()
    } else {
        let m = max_value_width(values.drop_last());
        let w = nat_digits(values.last() as nat).len();
        if w > m {
            w
        } else {
            m
        }
    }
}

pub open spec fn max_nat(a: nat, b: nat) -> nat {
    if a >= b {
        a
    } else {
        b
    }
}

/// The texts of a sequence of strings.
pub open spec fn views(v: Seq<String>) -> Seq<Seq<char>> {
    v.map_values(|s: String| s@)
}

/// The labels of a list of bars.
pub open spec fn bar_labels(bars: Seq<(String, u64)>) -> Seq<Seq<char>> {
    bars.map_values(|b: (String, u64)| b.0@)
}

/// The values of a list of bars.
pub open spec fn bar_values(bars: Seq<(String, u64)>) -> Seq<u64> {
    bars.map_values(|b: (String, u64)| b.1)
}

/// Column width wanted for `labels`: the widest label or value, and at least 3.
pub open spec fn desired_width(labels: Seq<Seq<char>>, value_width: nat) -> nat {
    max_nat(max_nat(max_label_width(labels), value_width), 3)
}

/// The column width when `n` columns of the desired width, `gap` apart, fit in `max_width`.
pub open spec fn fit_width(labels: Seq<Seq<char>>, value_width: nat, gap: nat, max_width: nat) -> Option<nat> {
    let n = labels.len();
    let desired = desired_width(labels, value_width);
    let gaps = if n >= 1 { ((n - 1) as nat) * gap } else { 0 };
    if n * desired + gaps <= max_width {
        Some(desired)
    } else {
        None
    }
}

/// An hour label such as `"14:00"`: longer than 3 and ending in `":00"`.
pub open spec fn is_hour_label(l: Seq<char>) -> bool {
    l.len() > 3 && l.subrange(l.len() - 3, l.len() as int) == ":00"@
}

pub open spec fn all_hour_labels(labels: Seq<Seq<char>>) -> bool {
    forall|i: int| 0 <= i < labels.len() ==> is_hour_label(#[trigger] labels[i])
}

/// Labels with their last three characters removed.
pub open spec fn strip_hour_suffix(labels: Seq<Seq<char>>) -> Seq<Seq<char>> {
    labels.map_values(|l: Seq<char>| l.subrange(0, l.len() - 3))
}

/// The first `k` characters of `l` (all of them when it is shorter).
pub open spec fn take_chars(l: Seq<char>, k: nat) -> Seq<char> {
    if l.len() <= k {
        l
    } else {
        l.take(k as int)
    }
}

pub open spec fn truncate_labels(labels: Seq<Seq<char>>, k: nat) -> Seq<Seq<char>> {
    labels.map_values(|l: Seq<char>| take_chars(l, k))
}

/// The layout when even the shortened labels do not fit: shrink the columns.
pub open spec fn shrink_layout(labels: Seq<Seq<char>>, max_width: nat) -> (nat, nat, Seq<Seq<char>>) {
    let n = labels.len();
    let gaps: nat = if n >= 1 { (n - 1) as nat } else { 0 };
    let d: nat = if n >= 1 { n } else { 1 };
    let cw0 = (if max_width >= gaps { (max_width - gaps) as nat } else { 0nat }) / d;
    if cw0 == 0 {
        let cw = max_nat(max_width / d, 1);
        (cw, 0, truncate_labels(labels, cw))
    } else {
        (cw0, 1, truncate_labels(labels, cw0))
    }
}

/// `(col_width, gap, display_labels)` as `fit_bar_dimensions` computes it.
pub open spec fn spec_fit_bar_dimensions(bars: Seq<(String, u64)>, max_width: nat) -> (nat, nat, Seq<Seq<char>>) {
    let labels = bar_labels(bars);
    let vw = max_value_width(bar_values(bars));
    match fit_width(labels, vw, 1, max_width) {
        Some(cw) => (cw, 1, labels),
        None => if all_hour_labels(labels) {
            let stripped = strip_hour_suffix(labels);
            match fit_width(stripped, vw, 1, max_width) {
                Some(cw) => (cw, 1, stripped),
                None => shrink_layout(stripped, max_width),
            }
        } else {
            shrink_layout(labels, max_width)
        },
    }
}

/// The inputs on which the first fitting attempt stays within `usize`
/// (elsewhere `n * width + gaps` overflows).
pub open spec fn fit_in_usize(bars: Seq<(String, u64)>) -> bool {
    let n = bars.len();
    let d = desired_width(bar_labels(bars), max_value_width(bar_values(bars)));
    n * d + (if n >= 1 { (n - 1) as nat } else { 0nat }) <= usize::MAX
}

/// Widest label among `labels`, each given by its `str::len`.
fn max_label_width_exec(labels: &Vec<String>) -> (r: usize)
    ensures
        r as nat == max_label_width(views(labels@)),
{
    let ghost vs = views(labels@);
    if labels.len() == 0 {
        return 1;
    }
    let mut m: usize = labels[0].as_str().len();
    let mut i: usize = 1;
    assert(vs.take(1).drop_last() =~= vs.take(0));
    while i < labels.len()
        invariant
            1 <= i <= labels.len(),
            vs == views(labels@),
            m as nat == max_label_width(vs.take(i as int)),
        decreases labels.len() - i,
    {
        let w = labels[i].as_str().len();
        assert(vs.take(i as int + 1).drop_last() =~= vs.take(i as int));
        if w > m {
            m = w;
        }
        i = i + 1;
    }
    assert(vs.take(labels.len() as int) =~= vs);
    m
}

/// Widest value in decimal.
fn max_value_width_exec(bars: &Vec<(String, u64)>) -> (r: usize)
    ensures
        r as nat == max_value_width(bar_values(bars@)),
{
    let ghost vals = bar_values(bars@);
    if bars.len() == 0 {
        return 1;
    }
    let mut m: usize = u64_chars(bars[0].1).len();
    let mut i: usize = 1;
    assert(vals.take(1).drop_last() =~= vals.take(0));
    while i < bars.len()
        invariant
            1 <= i <= bars.len(),
            vals == bar_values(bars@),
            m as nat == max_value_width(vals.take(i as int)),
        decreases bars.len() - i,
    {
        let w = u64_chars(bars[i].1).len();
        assert(vals.take(i as int + 1).drop_last() =~= vals.take(i as int));
        if w > m {
            m = w;
        }
        i = i + 1;
    }
    assert(vals.take(bars.len() as int) =~= vals);
    m
}

/// `fit_width` computed without overflow.
fn fit_width_exec(labels: &Vec<String>, value_width: usize, gap: usize, max_width: usize) -> (r: Option<usize>)
    requires
        gap <= 1,
    ensures
        match (r, fit_width(views(labels@), value_width as nat, gap as nat, max_width as nat)) {
            (Some(a), Some(b)) => a as nat == b,
            (None, None) => true,
            _ => false,
        },
{
    let lw = max_label_width_exec(labels);
    let mut desired = lw;
    if value_width > desired {
        desired = value_width;
    }
    if 3 > desired {
        desired = 3;
    }
    let n = labels.len();
    let gaps: u128 = if n >= 1 && gap == 1 { (n - 1) as u128 } else { 0 };
    proof {
        assert((n as u128) * (desired as u128) <= 0xffff_ffff_ffff_ffffu128 * 0xffff_ffff_ffff_ffffu128)
            by (nonlinear_arith)
            requires n <= 0xffff_ffff_ffff_ffffu128, desired <= 0xffff_ffff_ffff_ffffu128;
    }
    let total: u128 = (n as u128) * (desired as u128) + gaps;
    if total <= max_width as u128 {
        Some(desired)
    } else {
        None
    }
}

fn is_hour_label_exec(l: &String) -> (b: bool)
    ensures
        b == is_hour_label(l@),
{
    let c = str_chars(l.as_str());
    let n = c.len();
    proof {
        reveal_strlit(":00");
    }
    if n > 3 && c[n - 3] == ':' && c[n - 2] == '0' && c[n - 1] == '0' {
        assert(c@.subrange(n - 3, n as int) =~= ":00"@);
        true
    } else {
        proof {
            if n > 3 {
                assert(c@.subrange(n - 3, n as int)[0] == c@[n - 3]);
                assert(c@.subrange(n - 3, n as int)[1] == c@[n - 2]);
                assert(c@.subrange(n - 3, n as int)[2] == c@[n - 1]);
            }
        }
        false
    }
}

/// Applies `map` to each label: the labels of the bars as owned strings.
fn bar_label_strings(bars: &Vec<(String, u64)>) -> (r: Vec<String>)
    ensures
        views(r@) == bar_labels(bars@),
{
    let mut r: Vec<String> = Vec::new();
    let mut i: usize = 0;
    while i < bars.len()
        invariant
            i <= bars.len(),
            r.len() == i,
            forall|j: int| 0 <= j < i ==> #[trigger] r@[j]@ == bars@[j].0@,
        decreases bars.len() - i,
    {
        r.push(bars[i].0.clone());
        i = i + 1;
    }
    assert(views(r@) =~= bar_labels(bars@));
    r
}

fn all_hour_labels_exec(labels: &Vec<String>) -> (b: bool)
    ensures
        b == all_hour_labels(views(labels@)),
{
    let ghost vs = views(labels@);
    let mut i: usize = 0;
    while i < labels.len()
        invariant
            i <= labels.len(),
            vs == views(labels@),
            forall|j: int| 0 <= j < i ==> is_hour_label(#[trigger] vs[j]),
        decreases labels.len() - i,
    {
        if !is_hour_label_exec(&labels[i]) {
            assert(!is_hour_label(vs[i as int]));
            return false;
        }
        i = i + 1;
    }
    true
}

/// The first `k` characters of `l`.
fn take_chars_exec(l: &String, k: usize) -> (r: String)
    ensures
        r@ == take_chars(l@, k as nat),
{
    let c = str_chars(l.as_str());
    if c.len() <= k {
        return l.clone();
    }
    let mut v: Vec<char> = Vec::new();
    let mut i: usize = 0;
    while i < k
        invariant
            i <= k < c.len(),
            v@ == c@.take(i as int),
        decreases k - i,
    {
        v.push(c[i]);
        i = i + 1;
        assert(v@ =~= c@.take(i as int));
    }
    string_from_chars(&v)
}

fn strip_hour_suffix_exec(labels: &Vec<String>) -> (r: Vec<String>)
    requires
        all_hour_labels(views(labels@)),
    ensures
        views(r@) == strip_hour_suffix(views(labels@)),
{
    let ghost vs = views(labels@);
    let mut r: Vec<String> = Vec::new();
    let mut i: usize = 0;
    while i < labels.len()
        invariant
            i <= labels.len(),
            vs == views(labels@),
            all_hour_labels(vs),
            r.len() == i,
            forall|j: int| 0 <= j < i ==> #[trigger] r@[j]@ == vs[j].subrange(0, vs[j].len() - 3),
        decreases labels.len() - i,
    {
        let c = str_chars(labels[i].as_str());
        assert(is_hour_label(vs[i as int]));
        let k = c.len() - 3;
        let mut v: Vec<char> = Vec::new();
        let mut j: usize = 0;
        while j < k
            invariant
                j <= k < c.len(),
                v@ == c@.take(j as int),
            decreases k - j,
        {
            v.push(c[j]);
            j = j + 1;
            assert(v@ =~= c@.take(j as int));
        }
        r.push(string_from_chars(&v));
        i = i + 1;
    }
    assert(views(r@) =~= strip_hour_suffix(vs));
    r
}

fn truncate_labels_exec(labels: &Vec<String>, k: usize) -> (r: Vec<String>)
    ensures
        views(r@) == truncate_labels(views(labels@), k as nat),
{
    let ghost vs = views(labels@);
    let mut r: Vec<String> = Vec::new();
    let mut i: usize = 0;
    while i < labels.len()
        invariant
            i <= labels.len(),
            vs == views(labels@),
            r.len() == i,
            forall|j: int| 0 <= j < i ==> #[trigger] r@[j]@ == take_chars(vs[j], k as nat),
        decreases labels.len() - i,
    {
        r.push(take_chars_exec(&labels[i], k));
        i = i + 1;
    }
    assert(views(r@) =~= truncate_labels(vs, k as nat));
    r
}

fn shrink_layout_exec(labels: &Vec<String>, max_width: usize) -> (r: (usize, usize, Vec<String>))
    ensures
        r.0 as nat == shrink_layout(views(labels@), max_width as nat).0,
        r.1 as nat == shrink_layout(views(labels@), max_width as nat).1,
        views(r.2@) == shrink_layout(views(labels@), max_width as nat).2,
{
    let n = labels.len();
    let gaps: usize = if n >= 1 { n - 1 } else { 0 };
    let d: usize = if n >= 1 { n } else { 1 };
    let cw0 = (if max_width >= gaps { max_width - gaps } else { 0 }) / d;
    if cw0 == 0 {
        let mut cw = max_width / d;
        if cw < 1 {
            cw = 1;
        }
        let t = truncate_labels_exec(labels, cw);
        (cw, 0, t)
    } else {
        let t = truncate_labels_exec(labels, cw0);
        (cw0, 1, t)
    }
}

/// Compute `(col_width, gap, display_labels)` that fits `bars.len()` columns into `max_width`
/// chars.
///
/// Strategy: the labels as given with `gap = 1`; else, when every label is an hour label
/// (`"14:00"`), the labels without their `":00"` suffix; else columns shrunk to what fits,
/// with labels truncated to the column width.
pub fn fit_bar_dimensions(bars: &Vec<(String, u64)>, max_width: usize) -> (r: (usize, usize, Vec<String>))
    requires
        fit_in_usize(bars@),
    ensures
        r.0 as nat == spec_fit_bar_dimensions(bars@, max_width as nat).0,
        r.1 as nat == spec_fit_bar_dimensions(bars@, max_width as nat).1,
        views(r.2@) == spec_fit_bar_dimensions(bars@, max_width as nat).2,
        r.2.len() == bars.len(),
        r.1 <= 1,
        r.0 >= 1,
        // A layout of at least one column per character never exceeds the width.
        bars.len() >= 1 && max_width >= bars.len() ==> bars.len() * r.0 + (bars.len() - 1) * r.1
            <= max_width,
{
    let labels = bar_label_strings(bars);
    let vw = max_value_width_exec(bars);
    let ghost vs = views(labels@);
    let ghost n = bars.len() as nat;
    let r = match fit_width_exec(&labels, vw, 1, max_width) {
        Some(cw) => (cw, 1, labels),
        None => {
            if all_hour_labels_exec(&labels) {
                let stripped = strip_hour_suffix_exec(&labels);
                match fit_width_exec(&stripped, vw, 1, max_width) {
                    Some(cw) => (cw, 1, stripped),
                    None => shrink_layout_exec(&stripped, max_width),
                }
            } else {
                shrink_layout_exec(&labels, max_width)
            }
        },
    };
    proof {
        let m = max_width as nat;
        if n >= 1 && m >= n {
            let d = n as int;
            let gaps = (n - 1) as int;
            let t = m - gaps;
            vstd::arithmetic::div_mod::lemma_fundamental_div_mod(t, d);
            vstd::arithmetic::div_mod::lemma_fundamental_div_mod(m as int, d);
            assert(0 <= t % d);
            assert(0 <= (m as int) % d);
            assert(d * ((m as int) / d) <= m);
            assert(d * (t / d) <= t);
            assert((m as int) / d >= 1) by {
                vstd::arithmetic::div_mod::lemma_div_is_ordered(d, m as int, d);
                vstd::arithmetic::div_mod::lemma_div_by_self(d);
            }
        }
        assert(views(r.2@).len() == r.2@.len());
        assert(strip_hour_suffix(vs).len() == vs.len());
    }
    r
}

// ---------------------------------------------------------------------------
// Abbreviating values
// ---------------------------------------------------------------------------

/// `scaled` followed by `suffix`, cut to `col_width` with a trailing `+` when it is too wide.
pub open spec fn abbreviate(scaled: nat, suffix: char, col_width: nat) -> Seq<char> {
    let candidate = nat_digits(scaled).push(suffix);
    if candidate.len() <= col_width {
        candidate
    } else if col_width >= 2 {
        candidate.take(col_width - 1).push('+')
    } else {
        seq!['+']
    }
}

/// What `format_value_fit(value, col_width)` returns.
pub open spec fn spec_format_value_fit(value: u64, col_width: nat) -> Seq<char> {
    let raw = nat_digits(value as nat);
    if raw.len() <= col_width || col_width == 0 {
        raw
    } else if value >= 1_000_000_000 {
        abbreviate((value / 1_000_000_000) as nat, 'G', col_width)
    } else if value >= 1_000_000 {
        abbreviate((value / 1_000_000) as nat, 'M', col_width)
    } else if value >= 1_000 {
        abbreviate((value / 1_000) as nat, 'k', col_width)
    } else {
        raw.take(col_width as int)
    }
}

fn abbreviate_exec(scaled: u64, suffix: char, col_width: usize) -> (r: Vec<char>)
    ensures
        r@ == abbreviate(scaled as nat, suffix, col_width as nat),
{
    let mut candidate = u64_chars(scaled);
    candidate.push(suffix);
    if candidate.len() <= col_width {
        candidate
    } else if col_width >= 2 {
        let mut v: Vec<char> = Vec::new();
        let mut i: usize = 0;
        while i < col_width - 1
            invariant
                i <= col_width - 1,
                col_width - 1 < candidate.len(),
                v@ == candidate@.take(i as int),
            decreases col_width - 1 - i,
        {
            v.push(candidate[i]);
            i = i + 1;
            assert(v@ =~= candidate@.take(i as int));
        }
        v.push('+');
        v
    } else {
        let mut v: Vec<char> = Vec::new();
        v.push('+');
        assert(v@ =~= seq!['+']);
        v
    }
}

/// `format_value_fit` as a character vector.
pub fn format_value_fit_chars(value: u64, col_width: usize) -> (r: Vec<char>)
    ensures
        r@ == spec_format_value_fit(value, col_width as nat),
        col_width >= 1 ==> r@.len() <= col_width,
{
    let raw = u64_chars(value);
    if raw.len() <= col_width || col_width == 0 {
        return raw;
    }
    if value >= 1_000_000_000 {
        abbreviate_exec(value / 1_000_000_000, 'G', col_width)
    } else if value >= 1_000_000 {
        abbreviate_exec(value / 1_000_000, 'M', col_width)
    } else if value >= 1_000 {
        abbreviate_exec(value / 1_000, 'k', col_width)
    } else {
        let mut v: Vec<char> = Vec::new();
        let mut i: usize = 0;
        while i < col_width
            invariant
                i <= col_width < raw.len(),
                v@ == raw@.take(i as int),
            decreases col_width - i,
        {
            v.push(raw[i]);
            i = i + 1;
            assert(v@ =~= raw@.take(i as int));
        }
        v
    }
}

/// Format a bar value so it fits within `col_width` chars.
///
/// Uses SI suffixes (`k`, `M`, `G`) when the raw number would overflow the column width.
/// Falls back to a `head+` truncation if even the abbreviated form is too wide.
pub fn format_value_fit(value: u64, col_width: usize) -> (r: String)
    ensures
        r@ == spec_format_value_fit(value, col_width as nat),
        col_width >= 1 ==> r@.len() <= col_width,
{
    let v = format_value_fit_chars(value, col_width);
    string_from_chars(&v)
}

// ---------------------------------------------------------------------------
// Sparkline bar charts
// ---------------------------------------------------------------------------

/// Height (rows) of the block-character sparkline charts.
pub const SPARKLINE_CHART_HEIGHT: usize = 8;

/// The block characters `▁▂▃▄▅▆▇█`, from shortest to tallest (index 0..=7).
pub open spec fn spark_block(i: nat) -> char {
    if i == 0 {
        '\u{2581}'
    } else if i == 1 {
        '\u{2582}'
    } else if i == 2 {
        '\u{2583}'
    } else if i == 3 {
        '\u{2584}'
    } else if i == 4 {
        '\u{2585}'
    } else if i == 5 {
        '\u{2586}'
    } else if i == 6 {
        '\u{2587}'
    } else {
        '\u{2588}'
    }
}

/// The block character with index `i` (indices above 7 give the full block).
pub fn spark_block_exec(i: usize) -> (c: char)
    ensures
        c == spark_block(i as nat),
{
    if i == 0 {
        '\u{2581}'
    } else if i == 1 {
        '\u{2582}'
    } else if i == 2 {
        '\u{2583}'
    } else if i == 3 {
        '\u{2584}'
    } else if i == 4 {
        '\u{2585}'
    } else if i == 5 {
        '\u{2586}'
    } else if i == 6 {
        '\u{2587}'
    } else {
        '\u{2588}'
    }
}

/// The character drawn for `value` in sparkline row `row` (0 = bottom) of an 8-row chart
/// scaled to `max`: blank below the row's mid-height threshold `(row + 1/2) / 8`, a full
/// block a whole row above it, else the block of the rounded eighth in between.
pub open spec fn sparkline_cell(row: nat, value: nat, max: nat) -> char {
    if 16 * value < (2 * row + 1) * max {
        ' '
    } else if 16 * value >= (2 * row + 3) * max {
        '\u{2588}'
    } else {
        // round((value / max - threshold) * 64), halves away from zero
        let num = (64 * value - (8 * row + 4) * max) as nat;
        let frac = (2 * num + max) / (2 * max);
        spark_block(if frac > 7 { 7 } else { frac })
    }
}

pub(crate) fn sparkline_cell_exec(row: usize, value: u64, max: u64) -> (c: char)
    requires
        row < 8,
        max > 0,
    ensures
        c == sparkline_cell(row as nat, value as nat, max as nat),
{
    let v = value as u128;
    let m = max as u128;
    let lo = (2 * row + 1) as u128;
    let hi = (2 * row + 3) as u128;
    let q = (8 * row + 4) as u128;
    proof {
        assert(lo * m <= 16 * 0x1_0000_0000_0000_0000) by (nonlinear_arith)
            requires lo <= 16, m <= 0x1_0000_0000_0000_0000;
        assert(hi * m <= 32 * 0x1_0000_0000_0000_0000) by (nonlinear_arith)
            requires hi <= 32, m <= 0x1_0000_0000_0000_0000;
        assert(q * m <= 64 * 0x1_0000_0000_0000_0000) by (nonlinear_arith)
            requires q <= 64, m <= 0x1_0000_0000_0000_0000;
    }
    if 16 * v < lo * m {
        ' '
    } else if 16 * v >= hi * m {
        '\u{2588}'
    } else {
        assert(q * m == 4 * (lo * m)) by (nonlinear_arith)
            requires q == 4 * lo;
        let num = 64 * v - q * m;
        let frac = (2 * num + m) / (2 * m);
        let f: usize = if frac > 7 { 7 } else { frac as usize };
        spark_block_exec(f)
    }
}

/// Cells joined with `gap` spaces between neighbours.
pub open spec fn join_cells(cells: Seq<Seq<char>>, gap: nat) -> Seq<char>
    decreases cells.len(),
{
    if cells.len() == 0 {
        Seq::empty()
    } else if cells.len() == 1 {
        cells[0]
    } else {
        join_cells(cells.drop_last(), gap) + repeat_char(' ', gap) + cells.last()
    }
}

/// One sparkline row: each value's cell repeated across its column.
pub open spec fn sparkline_row(row: nat, values: Seq<u64>, max: nat, col_width: nat, gap: nat) -> Seq<char> {
    join_cells(
        values.map_values(|v: u64| repeat_char(sparkline_cell(row, v as nat, max), col_width)),
        gap,
    ) + seq!['\n']
}

/// Sparkline rows from `row - 1` down to 0.
pub open spec fn sparkline_rows(row: nat, values: Seq<u64>, max: nat, col_width: nat, gap: nat) -> Seq<char>
    decreases row,
{
    if row == 0 {
        Seq::empty()
    } else {
        sparkline_row((row - 1) as nat, values, max, col_width, gap) + sparkline_rows(
            (row - 1) as nat,
            values,
            max,
            col_width,
            gap,
        )
    }
}

/// The row of centred abbreviated values.
pub open spec fn value_row(values: Seq<u64>, col_width: nat, gap: nat) -> Seq<char> {
    join_cells(
        values.map_values(|v: u64| pad_center(spec_format_value_fit(v, col_width), col_width)),
        gap,
    ) + seq!['\n']
}

/// The row of centred labels.
pub open spec fn label_row(labels: Seq<Seq<char>>, col_width: nat, gap: nat) -> Seq<char> {
    join_cells(labels.map_values(|l: Seq<char>| pad_center(l, col_width)), gap) + seq!['\n']
}

/// Largest value; 0 when there are none.
pub open spec fn max_value(values: Seq<u64>) -> nat
    decreases values.len(),
{
    if values.len() == 0 {
        0
    } else {
        let m = max_value(values.drop_last());
        if values.last() as nat > m {
            values.last() as nat
        } else {
            m
        }
    }
}

/// What `render_sparkline_bars(bars, max_width, empty_message)` returns.
pub open spec fn spec_render_sparkline_bars(
    bars: Seq<(String, u64)>,
    max_width: nat,
    empty_message: Seq<char>,
) -> Seq<char> {
    let values = bar_values(bars);
    let max = max_value(values);
    if max == 0 {
        join_cells(bar_labels(bars), 1) + seq!['\n'] + empty_message + seq!['\n']
    } else {
        let layout = spec_fit_bar_dimensions(bars, max_width);
        sparkline_rows(8, values, max, layout.0, layout.1) + value_row(values, layout.0, layout.1)
            + label_row(layout.2, layout.0, layout.1)
    }
}

pub proof fn lemma_max_value_bound(values: Seq<u64>)
    ensures
        max_value(values) <= u64::MAX,
        forall|i: int| 0 <= i < values.len() ==> values[i] <= max_value(values),
    decreases values.len(),
{
    if values.len() > 0 {
        lemma_max_value_bound(values.drop_last());
        assert forall|i: int| 0 <= i < values.len() implies values[i] <= max_value(values) by {
            if i < values.len() - 1 {
                assert(values.drop_last()[i] == values[i]);
            }
        }
    }
}

pub(crate) fn max_value_exec(bars: &Vec<(String, u64)>) -> (r: u64)
    ensures
        r as nat == max_value(bar_values(bars@)),
{
    let ghost vals = bar_values(bars@);
    let mut m: u64 = 0;
    let mut i: usize = 0;
    while i < bars.len()
        invariant
            i <= bars.len(),
            vals == bar_values(bars@),
            m as nat == max_value(vals.take(i as int)),
        decreases bars.len() - i,
    {
        assert(vals.take(i as int + 1).drop_last() =~= vals.take(i as int));
        if bars[i].1 > m {
            m = bars[i].1;
        }
        i = i + 1;
    }
    assert(vals.take(bars.len() as int) =~= vals);
    m
}

/// The texts of a sequence of character vectors.
pub open spec fn cviews(v: Seq<Vec<char>>) -> Seq<Seq<char>> {
    v.map_values(|c: Vec<char>| c@)
}

/// Appends the given cells, `gap` spaces apart.
fn push_joined(out: &mut Vec<char>, cells: &Vec<Vec<char>>, gap: usize)
    ensures
        final(out)@ == old(out)@ + join_cells(cviews(cells@), gap as nat),
{
    let ghost vs = cviews(cells@);
    let mut i: usize = 0;
    while i < cells.len()
        invariant
            i <= cells.len(),
            vs == cviews(cells@),
            out@ == old(out)@ + join_cells(vs.take(i as int), gap as nat),
        decreases cells.len() - i,
    {
        assert(vs.take(i as int + 1).drop_last() =~= vs.take(i as int));
        if i > 0 && gap > 0 {
            push_repeat(out, ' ', gap);
        }
        push_all(out, &cells[i]);
        proof {
            if i == 0 {
                assert(join_cells(vs.take(1), gap as nat) == vs[0]);
            } else if gap == 0 {
                assert(repeat_char(' ', 0) =~= Seq::<char>::empty());
            }
        }
        i = i + 1;
        assert(out@ =~= old(out)@ + join_cells(vs.take(i as int), gap as nat));
    }
    assert(vs.take(cells.len() as int) =~= vs);
}

/// A vector holding `n` copies of `c`.
fn repeated(c: char, n: usize) -> (r: Vec<char>)
    ensures
        r@ == repeat_char(c, n as nat),
{
    let mut v: Vec<char> = Vec::new();
    push_repeat(&mut v, c, n);
    assert(v@ =~= repeat_char(c, n as nat));
    v
}

fn centred(s: &Vec<char>, w: usize) -> (r: Vec<char>)
    ensures
        r@ == pad_center(s@, w as nat),
{
    let mut v: Vec<char> = Vec::new();
    push_pad_center(&mut v, s, w);
    assert(v@ =~= pad_center(s@, w as nat));
    v
}

/// The cells of sparkline row `row`: each value's block repeated across its column.
fn sparkline_cells(bars: &Vec<(String, u64)>, row: usize, max_val: u64, col_width: usize) -> (r: Vec<Vec<char>>)
    requires
        row < 8,
        max_val > 0,
    ensures
        cviews(r@) == bar_values(bars@).map_values(
            |v: u64| repeat_char(sparkline_cell(row as nat, v as nat, max_val as nat), col_width as nat),
        ),
{
    let mut r: Vec<Vec<char>> = Vec::new();
    let mut i: usize = 0;
    while i < bars.len()
        invariant
            i <= bars.len(),
            row < 8,
            max_val > 0,
            r.len() == i,
            forall|j: int| 0 <= j < i ==> #[trigger] r@[j]@ == repeat_char(
                sparkline_cell(row as nat, bars@[j].1 as nat, max_val as nat),
                col_width as nat,
            ),
        decreases bars.len() - i,
    {
        let c = sparkline_cell_exec(row, bars[i].1, max_val);
        r.push(repeated(c, col_width));
        i = i + 1;
    }
    assert(cviews(r@) =~= bar_values(bars@).map_values(
        |v: u64| repeat_char(sparkline_cell(row as nat, v as nat, max_val as nat), col_width as nat),
    ));
    r
}

/// The cells of the value row: each value abbreviated and centred.
fn value_cells(bars: &Vec<(String, u64)>, col_width: usize) -> (r: Vec<Vec<char>>)
    ensures
        cviews(r@) == bar_values(bars@).map_values(
            |v: u64| pad_center(spec_format_value_fit(v, col_width as nat), col_width as nat),
        ),
{
    let mut r: Vec<Vec<char>> = Vec::new();
    let mut i: usize = 0;
    while i < bars.len()
        invariant
            i <= bars.len(),
            r.len() == i,
            forall|j: int| 0 <= j < i ==> #[trigger] r@[j]@ == pad_center(
                spec_format_value_fit(bars@[j].1, col_width as nat),
                col_width as nat,
            ),
        decreases bars.len() - i,
    {
        let text = format_value_fit_chars(bars[i].1, col_width);
        r.push(centred(&text, col_width));
        i = i + 1;
    }
    assert(cviews(r@) =~= bar_values(bars@).map_values(
        |v: u64| pad_center(spec_format_value_fit(v, col_width as nat), col_width as nat),
    ));
    r
}

/// The cells of the label row: each label centred.
fn label_cells(labels: &Vec<String>, col_width: usize) -> (r: Vec<Vec<char>>)
    ensures
        cviews(r@) == views(labels@).map_values(|l: Seq<char>| pad_center(l, col_width as nat)),
{
    let mut r: Vec<Vec<char>> = Vec::new();
    let mut i: usize = 0;
    while i < labels.len()
        invariant
            i <= labels.len(),
            r.len() == i,
            forall|j: int| 0 <= j < i ==> #[trigger] r@[j]@ == pad_center(labels@[j]@, col_width as nat),
        decreases labels.len() - i,
    {
        let l = str_chars(labels[i].as_str());
        r.push(centred(&l, col_width));
        i = i + 1;
    }
    assert(cviews(r@) =~= views(labels@).map_values(|l: Seq<char>| pad_center(l, col_width as nat)));
    r
}

/// The labels of the bars as character vectors.
fn label_chars(bars: &Vec<(String, u64)>) -> (r: Vec<Vec<char>>)
    ensures
        cviews(r@) == bar_labels(bars@),
{
    let mut r: Vec<Vec<char>> = Vec::new();
    let mut i: usize = 0;
    while i < bars.len()
        invariant
            i <= bars.len(),
            r.len() == i,
            forall|j: int| 0 <= j < i ==> #[trigger] r@[j]@ == bars@[j].0@,
        decreases bars.len() - i,
    {
        r.push(str_chars(bars[i].0.as_str()));
        i = i + 1;
    }
    assert(cviews(r@) =~= bar_labels(bars@));
    r
}

/// Appends the eight sparkline rows, top row first.
fn push_sparkline_rows(out: &mut Vec<char>, bars: &Vec<(String, u64)>, max_val: u64, col_width: usize, gap: usize)
    requires
        max_val > 0,
    ensures
        final(out)@ == old(out)@ + sparkline_rows(8, bar_values(bars@), max_val as nat, col_width as nat, gap as nat),
{
    let ghost values = bar_values(bars@);
    let mut row: usize = 8;
    while row > 0
        invariant
            row <= 8,
            values == bar_values(bars@),
            max_val > 0,
            out@ + sparkline_rows(row as nat, values, max_val as nat, col_width as nat, gap as nat)
                == old(out)@ + sparkline_rows(8, values, max_val as nat, col_width as nat, gap as nat),
        decreases row,
    {
        row = row - 1;
        let cells = sparkline_cells(bars, row, max_val, col_width);
        let ghost before = out@;
        push_joined(out, &cells, gap);
        out.push('\n');
        assert(out@ =~= before + sparkline_row(row as nat, values, max_val as nat, col_width as nat, gap as nat));
        assert(sparkline_rows((row + 1) as nat, values, max_val as nat, col_width as nat, gap as nat)
            == sparkline_row(row as nat, values, max_val as nat, col_width as nat, gap as nat)
                + sparkline_rows(row as nat, values, max_val as nat, col_width as nat, gap as nat));
        assert(out@ + sparkline_rows(row as nat, values, max_val as nat, col_width as nat, gap as nat)
            =~= before + sparkline_rows((row + 1) as nat, values, max_val as nat, col_width as nat, gap as nat));
    }
    assert(sparkline_rows(0, values, max_val as nat, col_width as nat, gap as nat) =~= Seq::<char>::empty());
    assert(out@ =~= old(out)@ + sparkline_rows(8, values, max_val as nat, col_width as nat, gap as nat));
}

/// Render a bar chart of 8 block-character rows plus a value row and label row.
///
/// If every value is 0, returns `{labels joined by space}\n{empty_message}\n`.
/// `max_width` is the total chart-area width (same semantics as `fit_bar_dimensions`).
pub fn render_sparkline_bars(bars: &Vec<(String, u64)>, max_width: usize, empty_message: &str) -> (r: String)
    requires
        fit_in_usize(bars@),
    ensures
        r@ == spec_render_sparkline_bars(bars@, max_width as nat, empty_message@),
{
    let v = render_sparkline_bars_chars(bars, max_width, empty_message);
    string_from_chars(&v)
}

/// `render_sparkline_bars` as a character vector.
pub fn render_sparkline_bars_chars(bars: &Vec<(String, u64)>, max_width: usize, empty_message: &str) -> (out: Vec<char>)
    requires
        fit_in_usize(bars@),
    ensures
        out@ == spec_render_sparkline_bars(bars@, max_width as nat, empty_message@),
{
    let ghost values = bar_values(bars@);
    let max_val = max_value_exec(bars);
    let mut out: Vec<char> = Vec::new();
    if max_val == 0 {
        let cells = label_chars(bars);
        push_joined(&mut out, &cells, 1);
        out.push('\n');
        let msg = str_chars(empty_message);
        push_all(&mut out, &msg);
        out.push('\n');
        assert(out@ =~= spec_render_sparkline_bars(bars@, max_width as nat, empty_message@));
        return out;
    }
    let (col_width, gap, display_labels) = fit_bar_dimensions(bars, max_width);
    push_sparkline_rows(&mut out, bars, max_val, col_width, gap);
    let ghost after_rows = out@;
    let cells = value_cells(bars, col_width);
    push_joined(&mut out, &cells, gap);
    out.push('\n');
    assert(out@ =~= after_rows + value_row(values, col_width as nat, gap as nat));
    let ghost after_values = out@;
    let lcells = label_cells(&display_labels, col_width);
    push_joined(&mut out, &lcells, gap);
    out.push('\n');
    assert(out@ =~= after_values + label_row(views(display_labels@), col_width as nat, gap as nat));
    out
}

} // verus!
