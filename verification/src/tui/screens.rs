//! The text of each screen of the interface, as lines of tinted segments.
//!
//! A terminal front end draws these lines as they are: each segment in its tint, the lines
//! one below the other.
use vstd::prelude::*;

use crate::text::{
    line_ranges, lines_seq, nat_digits, pieces, push_all, push_range, push_repeat, push_str,
    push_u64_digits, repeat_char, str_chars, string_from_chars, string_of_str,
};
use crate::tui::app::{
    pair_views, spec_effective_menu_len, spec_filtered, spec_menu_description, spec_menu_label,
    AppState, BranchProgress, MenuItem, WorkspaceInfo,
};
use crate::tui::ui::{format_delete_detail, spec_delete_detail};
use crate::tui::app::GitToolsMode;
use crate::git::branches::BranchInfo;
use crate::chart_util::{
    bar_labels, bar_values, fit_bar_dimensions, fit_in_usize, format_value_fit_chars, join_cells,
    max_value, max_value_exec, spec_fit_bar_dimensions, spec_format_value_fit, sparkline_cell,
    sparkline_cell_exec, views,
};
use crate::text::{pad_center, pad_right};
use crate::model::{spec_legend_labels, HeatmapData};
use crate::chart_util::{spark_block, spark_block_exec};
use crate::tui::ui::{aggregate_weekly, lemma_weekly_len, weekly_groups};
use crate::analytics::{BarChartData, TimelineData};
use crate::model::{spec_display_name, RepositoryAnalysis, RepositoryTarget};
use crate::tui::app::GitToolsState;
use crate::tui::app::AnalyzeView;

verus! {

broadcast use vstd::string::group_string_axioms;

/// How a segment of text is drawn.
#[derive(Debug, Clone, Copy, PartialEq, Eq, Structural)]
pub enum Tint {
    Plain,
    Bold,
    Cyan,
    CyanBold,
    Yellow,
    YellowBold,
    YellowItalic,
    DarkGray,
    Green,
    Red,
    White,
    /// A dark teal, the colour of the lowest heatmap intensity.
    Teal,
    LightCyan,
}

/// A run of text drawn in one tint.
#[derive(Debug, Clone)]
pub struct Segment {
    pub text: String,
    pub tint: Tint,
}

/// A line as a sequence of (text, tint) pairs.
pub type LineView = Seq<(Seq<char>, Tint)>;

pub open spec fn line_view(l: Seq<Segment>) -> LineView {
    l.map_values(|s: Segment| (s.text@, s.tint))
}

pub open spec fn lines_view(ls: Seq<Vec<Segment>>) -> Seq<LineView> {
    ls.map_values(|l: Vec<Segment>| line_view(l@))
}

/// A line of one segment.
pub open spec fn one(text: Seq<char>, tint: Tint) -> LineView {
    seq![(text, tint)]
}

/// An empty line.
pub open spec fn blank() -> LineView {
    Seq::empty()
}

pub fn segment(text: &str, tint: Tint) -> (s: Segment)
    ensures
        s.text@ == text@,
        s.tint == tint,
{
    Segment { text: string_of_str(text), tint }
}

pub fn segment_of(chars: &Vec<char>, tint: Tint) -> (s: Segment)
    ensures
        s.text@ == chars@,
        s.tint == tint,
{
    Segment { text: string_from_chars(chars), tint }
}

/// A line holding one segment.
pub fn line_of(text: &str, tint: Tint) -> (l: Vec<Segment>)
    ensures
        line_view(l@) == one(text@, tint),
{
    let mut l: Vec<Segment> = Vec::new();
    l.push(segment(text, tint));
    assert(line_view(l@) =~= one(text@, tint));
    l
}

/// A line holding one segment made of `chars`.
pub fn line_of_chars(chars: &Vec<char>, tint: Tint) -> (l: Vec<Segment>)
    ensures
        line_view(l@) == one(chars@, tint),
{
    let mut l: Vec<Segment> = Vec::new();
    l.push(segment_of(chars, tint));
    assert(line_view(l@) =~= one(chars@, tint));
    l
}

/// Appends a segment to a line.
pub fn push_segment(l: &mut Vec<Segment>, s: Segment)
    ensures
        line_view(final(l)@) == line_view(old(l)@).push((s.text@, s.tint)),
{
    l.push(s);
    assert(line_view(l@) =~= line_view(old(l)@).push((s.text@, s.tint)));
}

/// Appends a line.
pub fn push_line(lines: &mut Vec<Vec<Segment>>, l: Vec<Segment>)
    ensures
        lines_view(final(lines)@) == lines_view(old(lines)@).push(line_view(l@)),
{
    let ghost lv = line_view(l@);
    lines.push(l);
    assert(lines_view(lines@) =~= lines_view(old(lines)@).push(lv));
}

/// Appends an empty line.
pub fn push_blank(lines: &mut Vec<Vec<Segment>>)
    ensures
        lines_view(final(lines)@) == lines_view(old(lines)@).push(blank()),
{
    let l: Vec<Segment> = Vec::new();
    assert(line_view(l@) =~= blank());
    push_line(lines, l);
}

/// Appends a line of one segment.
pub fn push_text(lines: &mut Vec<Vec<Segment>>, text: &str, tint: Tint)
    ensures
        lines_view(final(lines)@) == lines_view(old(lines)@).push(one(text@, tint)),
{
    push_line(lines, line_of(text, tint));
}

/// Appends all of `more`.
pub fn push_lines(lines: &mut Vec<Vec<Segment>>, more: Vec<Vec<Segment>>)
    ensures
        lines_view(final(lines)@) == lines_view(old(lines)@) + lines_view(more@),
{
    let mut more = more;
    let ghost all = lines_view(more@);
    let ghost start = lines_view(lines@);
    let ghost n = more@.len();
    while more.len() > 0
        invariant
            lines_view(lines@) == start + all.take(n - more@.len()),
            lines_view(more@) == all.skip(n - more@.len()),
            more@.len() <= n,
            all.len() == n,
        decreases more.len(),
    {
        let ghost k = n - more@.len();
        let ghost before = more@;
        assert(lines_view(before)[0] == all.skip(k)[0]);
        let l = more.remove(0);
        assert(line_view(l@) == all[k]);
        push_line(lines, l);
        assert(all.take(k + 1) =~= all.take(k).push(all[k]));
        assert(more@ =~= before.subrange(1, before.len() as int));
        assert forall|j: int| 0 <= j < more@.len() implies lines_view(more@)[j] == all.skip(k + 1)[j] by {
            assert(lines_view(before)[j + 1] == all.skip(k)[j + 1]);
        }
        assert(lines_view(more@) =~= all.skip(k + 1));
    }
    assert(all.take(n as int) =~= all);
}

/// Appends the segments of `more` to a line.
pub fn append_segments(l: &mut Vec<Segment>, more: Vec<Segment>)
    ensures
        line_view(final(l)@) == line_view(old(l)@) + line_view(more@),
{
    let mut more = more;
    let ghost all = line_view(more@);
    let ghost start = line_view(l@);
    let ghost n = more@.len();
    while more.len() > 0
        invariant
            line_view(l@) == start + all.take(n - more@.len()),
            line_view(more@) == all.skip(n - more@.len()),
            more@.len() <= n,
            all.len() == n,
        decreases more.len(),
    {
        let ghost k = n - more@.len();
        let ghost before = more@;
        assert(line_view(before)[0] == all.skip(k)[0]);
        let s = more.remove(0);
        assert((s.text@, s.tint) == all[k]);
        push_segment(l, s);
        assert(all.take(k + 1) =~= all.take(k).push(all[k]));
        assert(more@ =~= before.subrange(1, before.len() as int));
        assert forall|j: int| 0 <= j < more@.len() implies line_view(more@)[j] == all.skip(k + 1)[j] by {
            assert(line_view(before)[j + 1] == all.skip(k)[j + 1]);
        }
        assert(line_view(more@) =~= all.skip(k + 1));
    }
    assert(all.take(n as int) =~= all);
}

// ---------------------------------------------------------------------------
// Key hints
// ---------------------------------------------------------------------------

/// A key in yellow followed by its label in dark grey.
pub open spec fn spec_key_hint(key: Seq<char>, label: Seq<char>) -> LineView {
    seq![(key, Tint::Yellow), (seq![' '] + label, Tint::DarkGray)]
}

/// The key hints from the first on, separated by a dark-grey bar.
pub open spec fn spec_hints(hints: Seq<(Seq<char>, Seq<char>)>) -> LineView
    decreases hints.len(),
{
    if hints.len() == 0 {
        Seq::empty()
    } else {
        let sep: LineView = if hints.len() > 1 {
            seq![("  \u{2502}  "@, Tint::DarkGray)]
        } else {
            Seq::empty()
        };
        spec_hints(hints.drop_last()) + sep + spec_key_hint(hints.last().0, hints.last().1)
    }
}

/// The footer line of key hints, after one leading space.
pub open spec fn spec_hints_line(hints: Seq<(Seq<char>, Seq<char>)>) -> LineView {
    seq![(" "@, Tint::Plain)] + spec_hints(hints)
}

pub open spec fn hint_views(hints: Seq<(&str, &str)>) -> Seq<(Seq<char>, Seq<char>)> {
    hints.map_values(|h: (&str, &str)| (h.0@, h.1@))
}

/// The two segments of one key hint.
pub fn key_hint(key: &str, label: &str) -> (r: Vec<Segment>)
    ensures
        line_view(r@) == spec_key_hint(key@, label@),
{
    let mut r: Vec<Segment> = Vec::new();
    push_segment(&mut r, segment(key, Tint::Yellow));
    let mut v: Vec<char> = Vec::new();
    v.push(' ');
    push_str(&mut v, label);
    push_segment(&mut r, segment_of(&v, Tint::DarkGray));
    assert(line_view(r@) =~= spec_key_hint(key@, label@));
    r
}

/// The footer line of key hints.
pub fn hints_line(hints: &[(&str, &str)]) -> (r: Vec<Segment>)
    ensures
        line_view(r@) == spec_hints_line(hint_views(hints@)),
{
    let mut r: Vec<Segment> = Vec::new();
    push_segment(&mut r, segment(" ", Tint::Plain));
    let mut i: usize = 0;
    while i < hints.len()
        invariant
            i <= hints.len(),
            line_view(r@) == seq![(" "@, Tint::Plain)] + spec_hints(hint_views(hints@.take(i as int))),
        decreases hints.len() - i,
    {
        let ghost before = line_view(r@);
        if i > 0 {
            push_segment(&mut r, segment("  \u{2502}  ", Tint::DarkGray));
        }
        let (key, label) = hints[i];
        append_segments(&mut r, key_hint(key, label));
        assert(hint_views(hints@.take(i + 1)).drop_last() =~= hint_views(hints@.take(i as int)));
        i = i + 1;
    }
    assert(hints@.take(hints.len() as int) =~= hints@);
    r
}


pub open spec fn hint(key: &str, label: &str) -> (Seq<char>, Seq<char>) {
    (key@, label@)
}

/// `Esc Home │ Q Quit`.
pub open spec fn home_quit_hints() -> Seq<(Seq<char>, Seq<char>)> {
    seq![hint("Esc", "Home"), hint("Q", "Quit")]
}

fn home_quit_line() -> (r: Vec<Segment>)
    ensures
        line_view(r@) == spec_hints_line(home_quit_hints()),
{
    let h = [("Esc", "Home"), ("Q", "Quit")];
    let r = hints_line(&h);
    assert(hint_views(h@) =~= home_quit_hints());
    r
}

// ---------------------------------------------------------------------------
// Help and metadata
// ---------------------------------------------------------------------------

/// The lines of the help screen.
pub open spec fn spec_help_lines() -> Seq<LineView> {
    seq![
        one(" Help"@, Tint::Bold),
        blank(),
        one(" Navigation:"@, Tint::Plain),
        one("   j/\u{2193}       Move down in menu"@, Tint::Plain),
        one("   k/\u{2191}       Move up in menu"@, Tint::Plain),
        one("   Enter     Activate selected item"@, Tint::Plain),
        one("   ?         Return to Help"@, Tint::Plain),
        one("   Esc       Return to Home"@, Tint::Plain),
        one("   q         Quit"@, Tint::Plain),
        blank(),
        one(" Analyze results:"@, Tint::Plain),
        one("   e         Export report as Markdown"@, Tint::Plain),
        one("   j/\u{2193}       Scroll down"@, Tint::Plain),
        one("   k/\u{2191}       Scroll up"@, Tint::Plain),
        blank(),
        one(" Screens:"@, Tint::Plain),
        one("   Analyze    Analyze one or more repositories"@, Tint::Plain),
        one("   Git Tools  Git repository maintenance tools"@, Tint::Plain),
        one("   Help       This screen"@, Tint::Plain),
        one("   Metadata   Database info and table row counts"@, Tint::Plain),
        blank(),
        spec_hints_line(home_quit_hints()),
    ]
}

/// The help screen: key bindings and the screens there are.
pub fn help_lines() -> (r: Vec<Vec<Segment>>)
    ensures
        lines_view(r@) == spec_help_lines(),
{
    let mut r: Vec<Vec<Segment>> = Vec::new();
    push_text(&mut r, " Help", Tint::Bold);
    push_blank(&mut r);
    push_text(&mut r, " Navigation:", Tint::Plain);
    push_text(&mut r, "   j/\u{2193}       Move down in menu", Tint::Plain);
    push_text(&mut r, "   k/\u{2191}       Move up in menu", Tint::Plain);
    push_text(&mut r, "   Enter     Activate selected item", Tint::Plain);
    push_text(&mut r, "   ?         Return to Help", Tint::Plain);
    push_text(&mut r, "   Esc       Return to Home", Tint::Plain);
    push_text(&mut r, "   q         Quit", Tint::Plain);
    push_blank(&mut r);
    push_text(&mut r, " Analyze results:", Tint::Plain);
    push_text(&mut r, "   e         Export report as Markdown", Tint::Plain);
    push_text(&mut r, "   j/\u{2193}       Scroll down", Tint::Plain);
    push_text(&mut r, "   k/\u{2191}       Scroll up", Tint::Plain);
    push_blank(&mut r);
    push_text(&mut r, " Screens:", Tint::Plain);
    push_text(&mut r, "   Analyze    Analyze one or more repositories", Tint::Plain);
    push_text(&mut r, "   Git Tools  Git repository maintenance tools", Tint::Plain);
    push_text(&mut r, "   Help       This screen", Tint::Plain);
    push_text(&mut r, "   Metadata   Database info and table row counts", Tint::Plain);
    push_blank(&mut r);
    push_line(&mut r, home_quit_line());
    assert(lines_view(r@) =~= spec_help_lines());
    r
}

/// Each line of `text` after one space, in the plain tint.
pub open spec fn indented_lines(text: Seq<char>) -> Seq<LineView> {
    lines_seq(text).map_values(|l: Seq<char>| one(seq![' '] + l, Tint::Plain))
}

/// Appends each line of `text` after one space.
pub fn push_indented(lines: &mut Vec<Vec<Segment>>, text: &String)
    ensures
        lines_view(final(lines)@) == lines_view(old(lines)@) + indented_lines(text@),
{
    let chars = str_chars(text.as_str());
    let ranges = line_ranges(&chars, 0, chars.len());
    assert(chars@.subrange(0, chars@.len() as int) =~= chars@);
    let ghost ls = lines_seq(chars@);
    let ghost start = lines_view(lines@);
    let mut i: usize = 0;
    while i < ranges.len()
        invariant
            i <= ranges.len(),
            crate::text::ranges_within(ranges@, 0, chars.len() as int),
            pieces(chars@, ranges@) == ls,
            chars@ == text@,
            lines_view(lines@) == start + ls.take(i as int).map_values(
                |l: Seq<char>| one(seq![' '] + l, Tint::Plain),
            ),
        decreases ranges.len() - i,
    {
        let (a, b) = ranges[i];
        assert(0 <= ranges@[i as int].0 <= ranges@[i as int].1 <= chars.len());
        let mut v: Vec<char> = Vec::new();
        v.push(' ');
        push_range(&mut v, &chars, a, b);
        assert(ls[i as int] == chars@.subrange(a as int, b as int));
        assert(v@ =~= seq![' '] + ls[i as int]);
        push_line(lines, line_of_chars(&v, Tint::Plain));
        assert(ls.take(i + 1) =~= ls.take(i as int).push(ls[i as int]));
        assert(ls.take(i + 1).map_values(|l: Seq<char>| one(seq![' '] + l, Tint::Plain))
            =~= ls.take(i as int).map_values(|l: Seq<char>| one(seq![' '] + l, Tint::Plain)).push(
            one(seq![' '] + ls[i as int], Tint::Plain),
        ));
        i = i + 1;
    }
    assert(ls.take(ranges.len() as int) =~= ls);
}

/// The lines of the metadata screen for the prepared text, if it is there yet.
pub open spec fn spec_metadata_lines(text: Option<Seq<char>>) -> Seq<LineView> {
    let body: Seq<LineView> = match text {
        Some(t) => indented_lines(t),
        None => seq![one(" Loading..."@, Tint::Plain)],
    };
    seq![one(" Metadata"@, Tint::Bold), blank()] + body + seq![
        blank(),
        spec_hints_line(home_quit_hints()),
    ]
}

pub open spec fn opt_view(s: Option<String>) -> Option<Seq<char>> {
    match s {
        Some(t) => Some(t@),
        None => None,
    }
}

/// The metadata screen: the database summary, or a loading note until it is ready.
pub fn metadata_lines(text: &Option<String>) -> (r: Vec<Vec<Segment>>)
    ensures
        lines_view(r@) == spec_metadata_lines(opt_view(*text)),
{
    let mut r: Vec<Vec<Segment>> = Vec::new();
    push_text(&mut r, " Metadata", Tint::Bold);
    push_blank(&mut r);
    match text {
        Some(t) => push_indented(&mut r, t),
        None => push_text(&mut r, " Loading...", Tint::Plain),
    }
    push_blank(&mut r);
    push_line(&mut r, home_quit_line());
    assert(lines_view(r@) =~= spec_metadata_lines(opt_view(*text)));
    r
}

// ---------------------------------------------------------------------------
// Home
// ---------------------------------------------------------------------------

/// The lines of the ASCII logo, the first one empty.
pub open spec fn logo_lines() -> Seq<Seq<char>> {
    seq![
        ""@,
        "  ____                  _"@,
        " |  _ \\ ___ _ __   ___ | |_   _ _______"@,
        " | |_) / _ \\ '_ \\ / _ \\| | | | |_  / _ \\"@,
        " |  _ <  __/ |_) | (_) | | |_| |/ /  __/"@,
        " |_| \\_\\___| .__/ \\___/|_|\\__, /___\\___|"@,
        "            |_|            |___/"@,
    ]
}

/// The marker and tint of a menu row: an arrow in bold yellow when it is selected.
pub open spec fn selection(selected: bool) -> (Seq<char>, Tint) {
    if selected {
        ("\u{27a4} "@, Tint::YellowBold)
    } else {
        ("  "@, Tint::Plain)
    }
}

/// Spaces that fill `len` characters up to `width`, none when it is already as wide.
pub open spec fn fill(len: nat, width: nat) -> Seq<char> {
    if len < width {
        repeat_char(' ', (width - len) as nat)
    } else {
        Seq::empty()
    }
}

/// Row `i` (counted from 0) of the home menu.
pub open spec fn spec_home_item(i: nat, item: MenuItem, selected: bool) -> LineView {
    let (prefix, tint) = selection(selected);
    let name = spec_menu_label(item);
    seq![
        (prefix + nat_digits(i + 1) + ". "@, tint),
        (name, tint),
        (fill(name.len(), 12), Tint::Plain),
        (spec_menu_description(item), Tint::DarkGray),
    ]
}

pub open spec fn navigate_hints() -> Seq<(Seq<char>, Seq<char>)> {
    seq![hint("\u{2191}\u{2193}", "Navigate"), hint("Enter", "Select"), hint("?", "Help"), hint("Q", "Quit")]
}

/// The lines of the home screen: logo, slogan, link, version, the menu and the key hints.
pub open spec fn spec_home_lines(menu: Seq<MenuItem>, selected: nat, version: Seq<char>) -> Seq<LineView> {
    logo_lines().map_values(|l: Seq<char>| one(l, Tint::Cyan)) + seq![
        one("  Know your code better."@, Tint::YellowItalic),
        blank(),
        one("  https://github.com/maximgorbatyuk/repolyze"@, Tint::DarkGray),
        one("  v"@ + version + "  \u{00a9} maximgorbatyuk"@, Tint::DarkGray),
        blank(),
        blank(),
    ] + Seq::new(menu.len(), |i: int| spec_home_item(i as nat, menu[i], i == selected)) + seq![
        blank(),
        spec_hints_line(navigate_hints()),
    ]
}

/// Appends the marker of a menu row and its number with a dot.
fn push_numbered(v: &mut Vec<char>, selected: bool, i: usize)
    requires
        i < usize::MAX,
    ensures
        final(v)@ == old(v)@ + selection(selected).0 + nat_digits(i as nat + 1) + ". "@,
{
    if selected {
        push_str(v, "\u{27a4} ");
    } else {
        push_str(v, "  ");
    }
    push_u64_digits(v, i as u64 + 1);
    push_str(v, ". ");
}

fn home_item(i: usize, item: MenuItem, selected: bool) -> (r: Vec<Segment>)
    requires
        i < usize::MAX,
    ensures
        line_view(r@) == spec_home_item(i as nat, item, selected),
{
    let tint = if selected { Tint::YellowBold } else { Tint::Plain };
    let mut r: Vec<Segment> = Vec::new();
    let mut v: Vec<char> = Vec::new();
    push_numbered(&mut v, selected, i);
    push_segment(&mut r, segment_of(&v, tint));
    let name = item.label();
    push_segment(&mut r, segment(name, tint));
    let name_len = str_chars(name).len();
    let mut pad: Vec<char> = Vec::new();
    if name_len < 12 {
        push_repeat(&mut pad, ' ', 12 - name_len);
    }
    assert(pad@ =~= fill(name@.len(), 12));
    push_segment(&mut r, segment_of(&pad, Tint::Plain));
    push_segment(&mut r, segment(item.description(), Tint::DarkGray));
    assert(line_view(r@) =~= spec_home_item(i as nat, item, selected));
    r
}

/// The home screen for the menu `menu` with row `selected` highlighted, naming the
/// program's `version`.
pub fn home_lines(menu: &Vec<MenuItem>, selected: usize, version: &str) -> (r: Vec<Vec<Segment>>)
    ensures
        lines_view(r@) == spec_home_lines(menu@, selected as nat, version@),
{
    let mut r: Vec<Vec<Segment>> = Vec::new();
    push_text(&mut r, "", Tint::Cyan);
    push_text(&mut r, "  ____                  _", Tint::Cyan);
    push_text(&mut r, " |  _ \\ ___ _ __   ___ | |_   _ _______", Tint::Cyan);
    push_text(&mut r, " | |_) / _ \\ '_ \\ / _ \\| | | | |_  / _ \\", Tint::Cyan);
    push_text(&mut r, " |  _ <  __/ |_) | (_) | | |_| |/ /  __/", Tint::Cyan);
    push_text(&mut r, " |_| \\_\\___| .__/ \\___/|_|\\__, /___\\___|", Tint::Cyan);
    push_text(&mut r, "            |_|            |___/", Tint::Cyan);
    assert(lines_view(r@) =~= logo_lines().map_values(|l: Seq<char>| one(l, Tint::Cyan)));
    push_text(&mut r, "  Know your code better.", Tint::YellowItalic);
    push_blank(&mut r);
    push_text(&mut r, "  https://github.com/maximgorbatyuk/repolyze", Tint::DarkGray);
    let mut v: Vec<char> = Vec::new();
    push_str(&mut v, "  v");
    push_str(&mut v, version);
    push_str(&mut v, "  \u{00a9} maximgorbatyuk");
    push_line(&mut r, line_of_chars(&v, Tint::DarkGray));
    push_blank(&mut r);
    push_blank(&mut r);
    let ghost head = lines_view(r@);
    let mut i: usize = 0;
    while i < menu.len()
        invariant
            i <= menu.len(),
            lines_view(r@) == head + Seq::new(
                i as nat,
                |k: int| spec_home_item(k as nat, menu@[k], k == selected),
            ),
        decreases menu.len() - i,
    {
        push_line(&mut r, home_item(i, menu[i], i == selected));
        assert(Seq::new((i + 1) as nat, |k: int| spec_home_item(k as nat, menu@[k], k == selected))
            =~= Seq::new(i as nat, |k: int| spec_home_item(k as nat, menu@[k], k == selected)).push(
            spec_home_item(i as nat, menu@[i as int], i == selected),
        ));
        i = i + 1;
    }
    push_blank(&mut r);
    let h = [("\u{2191}\u{2193}", "Navigate"), ("Enter", "Select"), ("?", "Help"), ("Q", "Quit")];
    let hl = hints_line(&h);
    assert(hint_views(h@) =~= navigate_hints());
    push_line(&mut r, hl);
    assert(lines_view(r@) =~= spec_home_lines(menu@, selected as nat, version@));
    r
}

// ---------------------------------------------------------------------------
// Analysis menu and contributor choice
// ---------------------------------------------------------------------------

/// The label of entry `i` of the analysis menu.
pub open spec fn analyze_menu_label(i: int) -> Seq<char> {
    if i == 0 {
        "Full report"@
    } else if i == 1 {
        "Contribution"@
    } else if i == 2 {
        "Most active days and hours"@
    } else if i == 3 {
        "Activity heatmap"@
    } else if i == 4 {
        "Commits by weekday"@
    } else if i == 5 {
        "Commits by hour"@
    } else if i == 6 {
        "Commit timeline"@
    } else if i == 7 {
        "User effort"@
    } else {
        "Compare repositories"@
    }
}

fn analyze_menu_label_exec(i: usize) -> (s: &'static str)
    ensures
        s@ == analyze_menu_label(i as int),
{
    if i == 0 {
        "Full report"
    } else if i == 1 {
        "Contribution"
    } else if i == 2 {
        "Most active days and hours"
    } else if i == 3 {
        "Activity heatmap"
    } else if i == 4 {
        "Commits by weekday"
    } else if i == 5 {
        "Commits by hour"
    } else if i == 6 {
        "Commit timeline"
    } else if i == 7 {
        "User effort"
    } else {
        "Compare repositories"
    }
}

/// How the workspace is described: one repository, several, or none.
pub open spec fn workspace_mode(info: WorkspaceInfo) -> Seq<char> {
    if info.is_single_repo {
        "Single repository"@
    } else if info.repo_count > 0 {
        "Multi-repository ("@ + nat_digits(info.repo_count as nat) + " repos)"@
    } else {
        "No repositories found"@
    }
}

/// The folder and mode lines shown above the analysis menu.
pub open spec fn workspace_lines(w: Option<WorkspaceInfo>) -> Seq<LineView> {
    match w {
        Some(info) => seq![
            seq![("   Folder:  "@, Tint::DarkGray), (info.folder@, Tint::Plain)],
            seq![("   Mode:    "@, Tint::DarkGray), (workspace_mode(info), Tint::Plain)],
            blank(),
        ],
        None => Seq::empty(),
    }
}

/// A numbered menu row made of one segment.
pub open spec fn numbered_row(i: nat, label: Seq<char>, selected: bool) -> LineView {
    one(selection(selected).0 + nat_digits(i + 1) + ". "@ + label, selection(selected).1)
}

pub open spec fn menu_hints() -> Seq<(Seq<char>, Seq<char>)> {
    seq![hint("\u{2191}\u{2193}", "Navigate"), hint("Enter", "Select"), hint("Esc", "Home"), hint("Q", "Quit")]
}

/// The lines of the analysis menu.
pub open spec fn spec_analyze_menu_lines(w: Option<WorkspaceInfo>, selected: nat) -> Seq<LineView> {
    seq![one(" Analyze \u{2014} Select View"@, Tint::Bold), blank()] + workspace_lines(w) + Seq::new(
        spec_effective_menu_len(w) as nat,
        |i: int| numbered_row(i as nat, analyze_menu_label(i), i == selected),
    ) + seq![blank(), spec_hints_line(menu_hints())]
}

fn numbered_row_exec(i: usize, label: &str, selected: bool) -> (r: Vec<Segment>)
    requires
        i < usize::MAX,
    ensures
        line_view(r@) == numbered_row(i as nat, label@, selected),
{
    let mut v: Vec<char> = Vec::new();
    push_numbered(&mut v, selected, i);
    push_str(&mut v, label);
    let tint = if selected { Tint::YellowBold } else { Tint::Plain };
    line_of_chars(&v, tint)
}

fn menu_hints_line() -> (r: Vec<Segment>)
    ensures
        line_view(r@) == spec_hints_line(menu_hints()),
{
    let h = [("\u{2191}\u{2193}", "Navigate"), ("Enter", "Select"), ("Esc", "Home"), ("Q", "Quit")];
    let r = hints_line(&h);
    assert(hint_views(h@) =~= menu_hints());
    r
}

/// The analysis menu: the workspace, when known, and the views to choose from.
pub fn analyze_menu_lines(app: &AppState) -> (r: Vec<Vec<Segment>>)
    ensures
        lines_view(r@) == spec_analyze_menu_lines(app.workspace_info, app.analyze_menu_selected as nat),
{
    let mut r: Vec<Vec<Segment>> = Vec::new();
    push_text(&mut r, " Analyze \u{2014} Select View", Tint::Bold);
    push_blank(&mut r);
    match &app.workspace_info {
        Some(info) => {
            let mut l1: Vec<Segment> = Vec::new();
            push_segment(&mut l1, segment("   Folder:  ", Tint::DarkGray));
            push_segment(&mut l1, Segment { text: info.folder.clone(), tint: Tint::Plain });
            push_line(&mut r, l1);
            let mut m: Vec<char> = Vec::new();
            if info.is_single_repo {
                push_str(&mut m, "Single repository");
            } else if info.repo_count > 0 {
                push_str(&mut m, "Multi-repository (");
                push_u64_digits(&mut m, info.repo_count as u64);
                push_str(&mut m, " repos)");
            } else {
                push_str(&mut m, "No repositories found");
            }
            assert(m@ =~= workspace_mode(*info));
            let mut l2: Vec<Segment> = Vec::new();
            push_segment(&mut l2, segment("   Mode:    ", Tint::DarkGray));
            push_segment(&mut l2, segment_of(&m, Tint::Plain));
            push_line(&mut r, l2);
            push_blank(&mut r);
            assert(lines_view(r@) =~~= seq![one(" Analyze \u{2014} Select View"@, Tint::Bold), blank()]
                + workspace_lines(app.workspace_info));
        },
        None => {
            assert(lines_view(r@) =~= seq![one(" Analyze \u{2014} Select View"@, Tint::Bold), blank()]
                + workspace_lines(app.workspace_info));
        },
    }
    let ghost head = lines_view(r@);
    assert(head =~= seq![one(" Analyze \u{2014} Select View"@, Tint::Bold), blank()] + workspace_lines(
        app.workspace_info,
    ));
    let n = app.effective_menu_len();
    let selected = app.analyze_menu_selected;
    let mut i: usize = 0;
    while i < n
        invariant
            i <= n,
            n <= 9,
            lines_view(r@) == head + Seq::new(
                i as nat,
                |k: int| numbered_row(k as nat, analyze_menu_label(k), k == selected),
            ),
        decreases n - i,
    {
        push_line(&mut r, numbered_row_exec(i, analyze_menu_label_exec(i), i == selected));
        assert(Seq::new((i + 1) as nat, |k: int| numbered_row(k as nat, analyze_menu_label(k), k == selected))
            =~= Seq::new(i as nat, |k: int| numbered_row(k as nat, analyze_menu_label(k), k == selected)).push(
            numbered_row(i as nat, analyze_menu_label(i as int), i == selected),
        ));
        i = i + 1;
    }
    push_blank(&mut r);
    push_line(&mut r, menu_hints_line());
    assert(lines_view(r@) =~= spec_analyze_menu_lines(app.workspace_info, app.analyze_menu_selected as nat));
    r
}

/// A contributor row: the email and, in brackets, the name.
pub open spec fn contributor_label(c: (Seq<char>, Seq<char>)) -> Seq<char> {
    c.0 + " ("@ + c.1 + ")"@
}

pub open spec fn filter_hints() -> Seq<(Seq<char>, Seq<char>)> {
    seq![hint("Type", "Filter"), hint("\u{2191}\u{2193}", "Navigate"), hint("Enter", "Select"), hint("Esc", "Home")]
}

/// The lines of the contributor choice for the contributors that match the filter.
pub open spec fn spec_user_select_lines(
    filter: Seq<char>,
    matching: Seq<(Seq<char>, Seq<char>)>,
    selected: nat,
) -> Seq<LineView> {
    let body: Seq<LineView> = if matching.len() == 0 {
        seq![one(" No contributors match the filter."@, Tint::DarkGray)]
    } else {
        Seq::new(
            matching.len(),
            |i: int| numbered_row(i as nat, contributor_label(matching[i]), i == selected),
        )
    };
    seq![
        one(" User Effort \u{2014} Select Contributor"@, Tint::Bold),
        blank(),
        seq![(" Filter: "@, Tint::DarkGray), (filter, Tint::Plain), ("_"@, Tint::Yellow)],
        blank(),
    ] + body + seq![blank(), spec_hints_line(filter_hints())]
}

/// The contributor choice of the user-effort view: the filter being typed and the
/// contributors that match it.
pub fn user_select_lines(app: &AppState) -> (r: Vec<Vec<Segment>>)
    ensures
        lines_view(r@) == spec_user_select_lines(
            app.contributor_filter@,
            spec_filtered(app.contributor_list@, app.contributor_filter@),
            app.contributor_selected as nat,
        ),
{
    let mut r: Vec<Vec<Segment>> = Vec::new();
    push_text(&mut r, " User Effort \u{2014} Select Contributor", Tint::Bold);
    push_blank(&mut r);
    let mut f: Vec<Segment> = Vec::new();
    push_segment(&mut f, segment(" Filter: ", Tint::DarkGray));
    push_segment(&mut f, Segment { text: app.contributor_filter.clone(), tint: Tint::Plain });
    push_segment(&mut f, segment("_", Tint::Yellow));
    push_line(&mut r, f);
    push_blank(&mut r);
    let filtered = app.filtered_contributors();
    let ghost m = pair_views(filtered@);
    let selected = app.contributor_selected;
    let ghost head = lines_view(r@);
    if filtered.len() == 0 {
        push_text(&mut r, " No contributors match the filter.", Tint::DarkGray);
        assert(lines_view(r@) =~= head + seq![one(" No contributors match the filter."@, Tint::DarkGray)]);
    } else {
        let mut i: usize = 0;
        while i < filtered.len()
            invariant
                i <= filtered.len(),
                m == pair_views(filtered@),
                lines_view(r@) == head + Seq::new(
                    i as nat,
                    |k: int| numbered_row(k as nat, contributor_label(m[k]), k == selected),
                ),
            decreases filtered.len() - i,
        {
            let mut v: Vec<char> = Vec::new();
            push_numbered(&mut v, i == selected, i);
            push_str(&mut v, filtered[i].0.as_str());
            push_str(&mut v, " (");
            push_str(&mut v, filtered[i].1.as_str());
            push_str(&mut v, ")");
            let tint = if i == selected { Tint::YellowBold } else { Tint::Plain };
            assert(v@ =~= selection(i == selected).0 + nat_digits(i as nat + 1) + ". "@ + contributor_label(
                m[i as int],
            ));
            push_line(&mut r, line_of_chars(&v, tint));
            assert(Seq::new((i + 1) as nat, |k: int| numbered_row(k as nat, contributor_label(m[k]), k == selected))
                =~= Seq::new(i as nat, |k: int| numbered_row(k as nat, contributor_label(m[k]), k == selected)).push(
                numbered_row(i as nat, contributor_label(m[i as int]), i == selected),
            ));
            i = i + 1;
        }
    }
    assert(head =~~= seq![
        one(" User Effort \u{2014} Select Contributor"@, Tint::Bold),
        blank(),
        seq![(" Filter: "@, Tint::DarkGray), (app.contributor_filter@, Tint::Plain), ("_"@, Tint::Yellow)],
        blank(),
    ]);
    push_blank(&mut r);
    let h = [("Type", "Filter"), ("\u{2191}\u{2193}", "Navigate"), ("Enter", "Select"), ("Esc", "Home")];
    let hl = hints_line(&h);
    assert(hint_views(h@) =~= filter_hints());
    push_line(&mut r, hl);
    assert(lines_view(r@) =~= spec_user_select_lines(
        app.contributor_filter@,
        spec_filtered(app.contributor_list@, app.contributor_filter@),
        app.contributor_selected as nat,
    ));
    r
}

// ---------------------------------------------------------------------------
// Deleting branches
// ---------------------------------------------------------------------------

/// Frame `i` of the spinner (it has eight frames and wraps around).
pub open spec fn spinner(i: nat) -> char {
    let k = i % 8;
    if k == 0 {
        '\u{2801}'
    } else if k == 1 {
        '\u{2809}'
    } else if k == 2 {
        '\u{2819}'
    } else if k == 3 {
        '\u{2838}'
    } else if k == 4 {
        '\u{2830}'
    } else if k == 5 {
        '\u{2834}'
    } else if k == 6 {
        '\u{2826}'
    } else {
        '\u{2807}'
    }
}

pub fn spinner_exec(i: usize) -> (c: char)
    ensures
        c == spinner(i as nat),
{
    let k = i % 8;
    if k == 0 {
        '\u{2801}'
    } else if k == 1 {
        '\u{2809}'
    } else if k == 2 {
        '\u{2819}'
    } else if k == 3 {
        '\u{2838}'
    } else if k == 4 {
        '\u{2830}'
    } else if k == 5 {
        '\u{2834}'
    } else if k == 6 {
        '\u{2826}'
    } else {
        '\u{2807}'
    }
}

/// A branch counts as deleted when it was processed and no part of its deletion failed.
pub open spec fn deleted_ok(p: BranchProgress) -> bool {
    p.processed && !(p.local_ok == Some(false)) && !(p.remote_ok == Some(false))
}

/// Number of processed branches.
pub open spec fn count_processed(ps: Seq<BranchProgress>) -> nat
    decreases ps.len(),
{
    if ps.len() == 0 {
        0
    } else {
        count_processed(ps.drop_last()) + if ps.last().processed { 1nat } else { 0nat }
    }
}

/// Number of branches deleted without failure.
pub open spec fn count_deleted(ps: Seq<BranchProgress>) -> nat
    decreases ps.len(),
{
    if ps.len() == 0 {
        0
    } else {
        count_deleted(ps.drop_last()) + if deleted_ok(ps.last()) { 1nat } else { 0nat }
    }
}

/// The line of one branch of the deletion list.
pub open spec fn progress_row(p: BranchProgress, current: bool, frame: nat) -> LineView {
    if p.processed {
        let (icon, tint) = if deleted_ok(p) {
            ('\u{2713}', Tint::Green)
        } else {
            ('\u{2717}', Tint::Red)
        };
        seq![
            ("   "@ + seq![icon, ' '], tint),
            (p.name@, Tint::White),
            ("  ("@ + spec_delete_detail(p.local_ok, p.remote_ok) + ")"@, Tint::DarkGray),
        ]
    } else if current {
        seq![("   "@ + seq![spinner(frame), ' '], Tint::Cyan), (p.name@, Tint::Yellow)]
    } else {
        one("   \u{2022} "@ + p.name@, Tint::DarkGray)
    }
}

pub open spec fn done_hints() -> Seq<(Seq<char>, Seq<char>)> {
    seq![hint("Enter/Esc", "Back"), hint("\u{2191}\u{2193}", "Scroll"), hint("Q", "Quit")]
}

pub open spec fn cancel_hints() -> Seq<(Seq<char>, Seq<char>)> {
    seq![hint("Esc", "Cancel"), hint("\u{2191}\u{2193}", "Scroll")]
}

/// The lines of the deletion screen.
pub open spec fn spec_progress_lines(
    progress: Seq<BranchProgress>,
    done: bool,
    multi_repo: bool,
    current_repo: Seq<char>,
    current_index: nat,
    frame: nat,
) -> Seq<LineView> {
    let total = progress.len();
    let counter = if done {
        one(
            " Done. "@ + nat_digits(count_deleted(progress)) + seq!['/'] + nat_digits(total)
                + " branch(es) deleted successfully."@,
            Tint::CyanBold,
        )
    } else {
        one(" Removed "@ + nat_digits(count_processed(progress)) + seq!['/'] + nat_digits(total), Tint::CyanBold)
    };
    let activity: Seq<LineView> = if done {
        Seq::empty()
    } else if multi_repo && current_repo.len() > 0 {
        seq![one(" Now processing: "@ + current_repo, Tint::Yellow)]
    } else {
        seq![seq![(seq![' ', spinner(frame)], Tint::Cyan), (" Deleting..."@, Tint::Yellow)]]
    };
    seq![one(" Git Tools \u{2014} Deleting Branches"@, Tint::Bold), blank(), counter] + activity + seq![blank()]
        + Seq::new(total, |i: int| progress_row(progress[i], i == current_index && !done, frame))
        + seq![blank(), spec_hints_line(if done { done_hints() } else { cancel_hints() })]
}

fn progress_row_exec(p: &BranchProgress, current: bool, frame: usize) -> (r: Vec<Segment>)
    ensures
        line_view(r@) == progress_row(*p, current, frame as nat),
{
    let mut r: Vec<Segment> = Vec::new();
    if p.processed {
        let ok = !(p.local_ok == Some(false)) && !(p.remote_ok == Some(false));
        let mut v: Vec<char> = Vec::new();
        push_str(&mut v, "   ");
        if ok {
            v.push('\u{2713}');
        } else {
            v.push('\u{2717}');
        }
        v.push(' ');
        push_segment(&mut r, segment_of(&v, if ok { Tint::Green } else { Tint::Red }));
        push_segment(&mut r, Segment { text: p.name.clone(), tint: Tint::White });
        let mut d: Vec<char> = Vec::new();
        push_str(&mut d, "  (");
        let detail = format_delete_detail(p);
        push_str(&mut d, detail.as_str());
        push_str(&mut d, ")");
        push_segment(&mut r, segment_of(&d, Tint::DarkGray));
    } else if current {
        let mut v: Vec<char> = Vec::new();
        push_str(&mut v, "   ");
        v.push(spinner_exec(frame));
        v.push(' ');
        push_segment(&mut r, segment_of(&v, Tint::Cyan));
        push_segment(&mut r, Segment { text: p.name.clone(), tint: Tint::Yellow });
    } else {
        let mut v: Vec<char> = Vec::new();
        push_str(&mut v, "   \u{2022} ");
        push_str(&mut v, p.name.as_str());
        push_segment(&mut r, segment_of(&v, Tint::DarkGray));
    }
    assert(line_view(r@) =~~= progress_row(*p, current, frame as nat));
    r
}

/// The deletion screen of the Git tools: how many branches are done, what is being worked
/// on, and the outcome of each branch.
pub fn progress_lines(app: &AppState) -> (r: Vec<Vec<Segment>>)
    ensures
        lines_view(r@) == spec_progress_lines(
            app.git_tools.progress@,
            app.git_tools.done,
            app.git_tools.selected_repos@.len() > 1,
            app.git_tools.current_repo@,
            app.git_tools.current_index as nat,
            app.spinner_frame as nat,
        ),
{
    let progress = &app.git_tools.progress;
    let done = app.git_tools.done;
    let frame = app.spinner_frame;
    let ghost ps = progress@;
    let mut completed: usize = 0;
    let mut success: usize = 0;
    let mut i: usize = 0;
    while i < progress.len()
        invariant
            i <= progress.len(),
            ps == progress@,
            completed as nat == count_processed(ps.take(i as int)),
            success as nat == count_deleted(ps.take(i as int)),
            completed <= i,
            success <= i,
        decreases progress.len() - i,
    {
        assert(ps.take(i + 1).drop_last() =~= ps.take(i as int));
        if progress[i].processed {
            completed = completed + 1;
        }
        if progress[i].processed && !(progress[i].local_ok == Some(false)) && !(progress[i].remote_ok
            == Some(false)) {
            success = success + 1;
        }
        i = i + 1;
    }
    assert(ps.take(progress.len() as int) =~= ps);
    let mut r: Vec<Vec<Segment>> = Vec::new();
    push_text(&mut r, " Git Tools \u{2014} Deleting Branches", Tint::Bold);
    push_blank(&mut r);
    let mut c: Vec<char> = Vec::new();
    if done {
        push_str(&mut c, " Done. ");
        push_u64_digits(&mut c, success as u64);
        c.push('/');
        push_u64_digits(&mut c, progress.len() as u64);
        push_str(&mut c, " branch(es) deleted successfully.");
    } else {
        push_str(&mut c, " Removed ");
        push_u64_digits(&mut c, completed as u64);
        c.push('/');
        push_u64_digits(&mut c, progress.len() as u64);
    }
    push_line(&mut r, line_of_chars(&c, Tint::CyanBold));
    let multi_repo = app.git_tools.selected_repos.len() > 1;
    if !done {
        if multi_repo && str_chars(app.git_tools.current_repo.as_str()).len() > 0 {
            let mut v: Vec<char> = Vec::new();
            push_str(&mut v, " Now processing: ");
            push_str(&mut v, app.git_tools.current_repo.as_str());
            push_line(&mut r, line_of_chars(&v, Tint::Yellow));
        } else {
            let mut v: Vec<char> = Vec::new();
            v.push(' ');
            v.push(spinner_exec(frame));
            let mut l: Vec<Segment> = Vec::new();
            push_segment(&mut l, segment_of(&v, Tint::Cyan));
            push_segment(&mut l, segment(" Deleting...", Tint::Yellow));
            push_line(&mut r, l);
        }
    }
    push_blank(&mut r);
    let ghost head = lines_view(r@);
    let current_index = app.git_tools.current_index;
    let mut k: usize = 0;
    while k < progress.len()
        invariant
            k <= progress.len(),
            ps == progress@,
            lines_view(r@) == head + Seq::new(
                k as nat,
                |j: int| progress_row(ps[j], j == current_index && !done, frame as nat),
            ),
        decreases progress.len() - k,
    {
        push_line(&mut r, progress_row_exec(&progress[k], k == current_index && !done, frame));
        assert(Seq::new((k + 1) as nat, |j: int| progress_row(ps[j], j == current_index && !done, frame as nat))
            =~= Seq::new(k as nat, |j: int| progress_row(ps[j], j == current_index && !done, frame as nat)).push(
            progress_row(ps[k as int], k == current_index && !done, frame as nat),
        ));
        k = k + 1;
    }
    push_blank(&mut r);
    if done {
        let h = [("Enter/Esc", "Back"), ("\u{2191}\u{2193}", "Scroll"), ("Q", "Quit")];
        let hl = hints_line(&h);
        assert(hint_views(h@) =~= done_hints());
        push_line(&mut r, hl);
    } else {
        let h = [("Esc", "Cancel"), ("\u{2191}\u{2193}", "Scroll")];
        let hl = hints_line(&h);
        assert(hint_views(h@) =~= cancel_hints());
        push_line(&mut r, hl);
    }
    assert(lines_view(r@) =~~= spec_progress_lines(
        app.git_tools.progress@,
        app.git_tools.done,
        app.git_tools.selected_repos@.len() > 1,
        app.git_tools.current_repo@,
        app.git_tools.current_index as nat,
        app.spinner_frame as nat,
    ));
    r
}

// ---------------------------------------------------------------------------
// Branches to delete
// ---------------------------------------------------------------------------

/// Texts joined with `, ` between neighbours.
pub open spec fn join_comma(parts: Seq<Seq<char>>) -> Seq<char>
    decreases parts.len(),
{
    if parts.len() == 0 {
        Seq::empty()
    } else if parts.len() == 1 {
        parts[0]
    } else {
        join_comma(parts.drop_last()) + ", "@ + parts.last()
    }
}

/// Where a branch lives and when it last changed: `local`, `remote`, then the date.
pub open spec fn branch_tags(b: BranchInfo) -> Seq<Seq<char>> {
    let a: Seq<Seq<char>> = if b.has_local { seq!["local"@] } else { Seq::empty() };
    let c: Seq<Seq<char>> = if b.has_remote { seq!["remote"@] } else { Seq::empty() };
    let d: Seq<Seq<char>> = match b.last_activity {
        Some(date) => seq![date@],
        None => Seq::empty(),
    };
    a + c + d
}

/// The line of one branch that is about to be deleted.
pub open spec fn branch_row(b: BranchInfo) -> LineView {
    let tags = branch_tags(b);
    if tags.len() == 0 {
        one("   "@ + b.name@, Tint::Plain)
    } else {
        seq![("   "@ + b.name@, Tint::Plain), ("  ("@ + join_comma(tags) + ")"@, Tint::DarkGray)]
    }
}

/// A protected branch, after its repository when several are selected.
pub open spec fn protected_row(p: (Seq<char>, Seq<char>), multi_repo: bool) -> LineView {
    if multi_repo {
        one("   ["@ + p.0 + "] "@ + p.1, Tint::DarkGray)
    } else {
        one("   "@ + p.1, Tint::DarkGray)
    }
}

pub open spec fn mode_title(mode: Option<GitToolsMode>) -> Seq<char> {
    match mode {
        Some(GitToolsMode::MergedBranches) => "Merged Branches"@,
        Some(GitToolsMode::StaleBranches) => "Stale Branches"@,
        None => "Branches"@,
    }
}

pub open spec fn back_hints() -> Seq<(Seq<char>, Seq<char>)> {
    seq![hint("Esc", "Back")]
}

pub open spec fn confirm_hints() -> Seq<(Seq<char>, Seq<char>)> {
    seq![hint("y/Enter", "Confirm delete"), hint("n/Esc", "Cancel"), hint("\u{2191}\u{2193}", "Scroll")]
}

/// The lines of the branch review screen.
pub open spec fn spec_branch_list_lines(
    mode: Option<GitToolsMode>,
    branches: Seq<BranchInfo>,
    protected: Seq<(Seq<char>, Seq<char>)>,
    multi_repo: bool,
) -> Seq<LineView> {
    let head = seq![one(" Git Tools \u{2014} "@ + mode_title(mode), Tint::Bold), blank()];
    if branches.len() == 0 {
        head + seq![
            one(" No branches to remove."@, Tint::DarkGray),
            blank(),
            spec_hints_line(back_hints()),
        ]
    } else {
        let prot: Seq<LineView> = if protected.len() == 0 {
            Seq::empty()
        } else {
            seq![one(" Protected branches (will not be touched):"@, Tint::DarkGray)] + Seq::new(
                protected.len(),
                |i: int| protected_row(protected[i], multi_repo),
            ) + seq![blank()]
        };
        head + seq![
            one(" Review the branches below, then press y/Enter to delete or n/Esc to cancel."@, Tint::DarkGray),
            blank(),
        ] + prot + seq![
            one(" The following "@ + nat_digits(branches.len()) + " branch(es) will be deleted:"@, Tint::Yellow),
            blank(),
        ] + Seq::new(branches.len(), |i: int| branch_row(branches[i])) + seq![
            blank(),
            spec_hints_line(confirm_hints()),
        ]
    }
}

fn branch_row_exec(b: &BranchInfo) -> (r: Vec<Segment>)
    ensures
        line_view(r@) == branch_row(*b),
{
    let mut label: Vec<char> = Vec::new();
    push_str(&mut label, "   ");
    push_str(&mut label, b.name.as_str());
    let mut tags: Vec<char> = Vec::new();
    let mut any = false;
    let ghost mut parts: Seq<Seq<char>> = Seq::empty();
    if b.has_local {
        push_str(&mut tags, "local");
        any = true;
        proof {
            parts = parts.push("local"@);
        }
    }
    assert(tags@ =~= join_comma(parts));
    if b.has_remote {
        if any {
            push_str(&mut tags, ", ");
        }
        push_str(&mut tags, "remote");
        any = true;
        proof {
            parts = parts.push("remote"@);
        }
        assert(parts.drop_last() =~= if b.has_local { seq!["local"@] } else { Seq::<Seq<char>>::empty() });
    }
    assert(tags@ =~= join_comma(parts));
    match &b.last_activity {
        Some(date) => {
            let ghost before = parts;
            if any {
                push_str(&mut tags, ", ");
            }
            push_str(&mut tags, date.as_str());
            any = true;
            proof {
                parts = parts.push(date@);
            }
            assert(parts.drop_last() =~= before);
            assert(tags@ =~= join_comma(parts));
        },
        None => {},
    }
    assert(parts =~= branch_tags(*b));
    assert(any == (parts.len() > 0));
    let mut r: Vec<Segment> = Vec::new();
    push_segment(&mut r, segment_of(&label, Tint::Plain));
    if any {
        let mut t: Vec<char> = Vec::new();
        push_str(&mut t, "  (");
        push_all(&mut t, &tags);
        push_str(&mut t, ")");
        push_segment(&mut r, segment_of(&t, Tint::DarkGray));
    }
    assert(line_view(r@) =~~= branch_row(*b));
    r
}

/// The review screen of the Git tools: the protected branches that stay, and the branches
/// that are about to be deleted with where they live and when they last changed.
pub fn branch_list_lines(app: &AppState) -> (r: Vec<Vec<Segment>>)
    ensures
        lines_view(r@) == spec_branch_list_lines(
            app.git_tools.mode,
            app.git_tools.branches@,
            pair_views(app.git_tools.protected_branches@),
            app.git_tools.selected_repos@.len() > 1,
        ),
{
    let tools = &app.git_tools;
    let mut r: Vec<Vec<Segment>> = Vec::new();
    let mut t: Vec<char> = Vec::new();
    push_str(&mut t, " Git Tools \u{2014} ");
    match tools.mode {
        Some(GitToolsMode::MergedBranches) => push_str(&mut t, "Merged Branches"),
        Some(GitToolsMode::StaleBranches) => push_str(&mut t, "Stale Branches"),
        None => push_str(&mut t, "Branches"),
    }
    push_line(&mut r, line_of_chars(&t, Tint::Bold));
    push_blank(&mut r);
    let multi_repo = tools.selected_repos.len() > 1;
    let ghost prot = pair_views(tools.protected_branches@);
    if tools.branches.len() == 0 {
        push_text(&mut r, " No branches to remove.", Tint::DarkGray);
        push_blank(&mut r);
        let h = [("Esc", "Back")];
        let hl = hints_line(&h);
        assert(hint_views(h@) =~= back_hints());
        push_line(&mut r, hl);
    } else {
        push_text(
            &mut r,
            " Review the branches below, then press y/Enter to delete or n/Esc to cancel.",
            Tint::DarkGray,
        );
        push_blank(&mut r);
        let ghost h0 = lines_view(r@);
        if tools.protected_branches.len() > 0 {
            push_text(&mut r, " Protected branches (will not be touched):", Tint::DarkGray);
            let ghost h1 = lines_view(r@);
            let mut i: usize = 0;
            while i < tools.protected_branches.len()
                invariant
                    i <= tools.protected_branches.len(),
                    prot == pair_views(tools.protected_branches@),
                    lines_view(r@) == h1 + Seq::new(i as nat, |k: int| protected_row(prot[k], multi_repo)),
                decreases tools.protected_branches.len() - i,
            {
                let mut v: Vec<char> = Vec::new();
                if multi_repo {
                    push_str(&mut v, "   [");
                    push_str(&mut v, tools.protected_branches[i].0.as_str());
                    push_str(&mut v, "] ");
                } else {
                    push_str(&mut v, "   ");
                }
                push_str(&mut v, tools.protected_branches[i].1.as_str());
                let ghost pi = prot[i as int];
                assert(pi == (tools.protected_branches@[i as int].0@, tools.protected_branches@[i as int].1@));
                if multi_repo {
                    assert(v@ =~= "   ["@ + pi.0 + "] "@ + pi.1);
                } else {
                    assert(v@ =~= "   "@ + pi.1);
                }
                push_line(&mut r, line_of_chars(&v, Tint::DarkGray));
                assert(Seq::new((i + 1) as nat, |k: int| protected_row(prot[k], multi_repo)) =~= Seq::new(
                    i as nat,
                    |k: int| protected_row(prot[k], multi_repo),
                ).push(protected_row(prot[i as int], multi_repo)));
                i = i + 1;
            }
            push_blank(&mut r);
        }
        let ghost h2 = lines_view(r@);
        let mut c: Vec<char> = Vec::new();
        push_str(&mut c, " The following ");
        push_u64_digits(&mut c, tools.branches.len() as u64);
        push_str(&mut c, " branch(es) will be deleted:");
        push_line(&mut r, line_of_chars(&c, Tint::Yellow));
        push_blank(&mut r);
        let ghost h3 = lines_view(r@);
        let ghost bs = tools.branches@;
        let mut i: usize = 0;
        while i < tools.branches.len()
            invariant
                i <= tools.branches.len(),
                bs == tools.branches@,
                lines_view(r@) == h3 + Seq::new(i as nat, |k: int| branch_row(bs[k])),
            decreases tools.branches.len() - i,
        {
            push_line(&mut r, branch_row_exec(&tools.branches[i]));
            assert(Seq::new((i + 1) as nat, |k: int| branch_row(bs[k])) =~= Seq::new(
                i as nat,
                |k: int| branch_row(bs[k]),
            ).push(branch_row(bs[i as int])));
            i = i + 1;
        }
        push_blank(&mut r);
        let h = [("y/Enter", "Confirm delete"), ("n/Esc", "Cancel"), ("\u{2191}\u{2193}", "Scroll")];
        let hl = hints_line(&h);
        assert(hint_views(h@) =~= confirm_hints());
        push_line(&mut r, hl);
    }
    assert(lines_view(r@) =~~= spec_branch_list_lines(
        app.git_tools.mode,
        app.git_tools.branches@,
        pair_views(app.git_tools.protected_branches@),
        app.git_tools.selected_repos@.len() > 1,
    ));
    r
}

// ---------------------------------------------------------------------------
// Bar charts
// ---------------------------------------------------------------------------

/// Tinted cells joined by plain runs of `gap` spaces (no run when `gap` is 0).
pub open spec fn seg_cells(cells: LineView, gap: nat) -> LineView
    decreases cells.len(),
{
    if cells.len() == 0 {
        Seq::empty()
    } else {
        let sep: LineView = if cells.len() > 1 && gap > 0 {
            seq![(repeat_char(' ', gap), Tint::Plain)]
        } else {
            Seq::empty()
        };
        seg_cells(cells.drop_last(), gap) + sep + seq![cells.last()]
    }
}

/// Bars are cyan; the blank above a bar is plain.
pub open spec fn cell_tint(row: nat, value: nat, max: nat) -> Tint {
    if 16 * value >= (2 * row + 1) * max {
        Tint::Cyan
    } else {
        Tint::Plain
    }
}

/// Chart row `row` (0 = bottom) of the bars of `values`.
pub open spec fn bar_row(row: nat, values: Seq<u64>, max: nat, col_width: nat, gap: nat) -> LineView {
    seq![(" "@, Tint::Plain)] + seg_cells(
        values.map_values(
            |v: u64| (repeat_char(sparkline_cell(row, v as nat, max), col_width), cell_tint(row, v as nat, max)),
        ),
        gap,
    )
}

/// The lines of a vertical bar chart of `bars` drawn within `max_width` columns: eight rows
/// of block characters, the values and the labels; the labels and "(no data)" when every
/// value is zero.
pub open spec fn spec_bar_chart_lines(bars: Seq<(String, u64)>, max_width: nat) -> Seq<LineView> {
    let values = bar_values(bars);
    let max = max_value(values);
    if max == 0 {
        seq![
            one(" "@ + join_cells(bar_labels(bars), 1), Tint::Plain),
            one(" (no data)"@, Tint::DarkGray),
        ]
    } else {
        let layout = spec_fit_bar_dimensions(bars, if max_width >= 1 { (max_width - 1) as nat } else { 0 });
        let (cw, gap, labels) = layout;
        Seq::new(8, |k: int| bar_row((7 - k) as nat, values, max, cw, gap)) + seq![
            seq![(" "@, Tint::Plain)] + seg_cells(
                values.map_values(|v: u64| (pad_center(spec_format_value_fit(v, cw), cw), Tint::DarkGray)),
                gap,
            ),
            seq![(" "@, Tint::Plain)] + seg_cells(
                labels.map_values(|l: Seq<char>| (pad_center(l, cw), Tint::Plain)),
                gap,
            ),
        ]
    }
}

/// Appends cell `i` of a row of cells, after the gap when it is not the first.
fn push_cell(line: &mut Vec<Segment>, i: usize, gap: usize, cell: &Vec<char>, tint: Tint, Ghost(cells): Ghost<LineView>)
    requires
        i < cells.len(),
        cells[i as int] == (cell@, tint),
        line_view(old(line)@) == seq![(" "@, Tint::Plain)] + seg_cells(cells.take(i as int), gap as nat),
    ensures
        line_view(final(line)@) == seq![(" "@, Tint::Plain)] + seg_cells(cells.take(i + 1), gap as nat),
{
    assert(cells.take(i + 1).drop_last() =~= cells.take(i as int));
    if i > 0 && gap > 0 {
        let mut sp: Vec<char> = Vec::new();
        push_repeat(&mut sp, ' ', gap);
        assert(sp@ =~= repeat_char(' ', gap as nat));
        push_segment(line, segment_of(&sp, Tint::Plain));
    }
    push_segment(line, segment_of(cell, tint));
    assert(line_view(line@) =~~= seq![(" "@, Tint::Plain)] + seg_cells(cells.take(i + 1), gap as nat));
}

fn bar_row_exec(bars: &Vec<(String, u64)>, row: usize, max_val: u64, cw: usize, gap: usize) -> (r: Vec<Segment>)
    requires
        row < 8,
        max_val > 0,
    ensures
        line_view(r@) == bar_row(row as nat, bar_values(bars@), max_val as nat, cw as nat, gap as nat),
{
    let ghost cells = bar_values(bars@).map_values(
        |v: u64| (repeat_char(sparkline_cell(row as nat, v as nat, max_val as nat), cw as nat), cell_tint(row as nat, v as nat, max_val as nat)),
    );
    let mut r: Vec<Segment> = Vec::new();
    push_segment(&mut r, segment(" ", Tint::Plain));
    assert(line_view(r@) =~~= seq![(" "@, Tint::Plain)] + seg_cells(cells.take(0), gap as nat));
    let mut i: usize = 0;
    while i < bars.len()
        invariant
            i <= bars.len(),
            row < 8,
            max_val > 0,
            cells.len() == bars.len(),
            cells == bar_values(bars@).map_values(
                |v: u64| (repeat_char(sparkline_cell(row as nat, v as nat, max_val as nat), cw as nat), cell_tint(row as nat, v as nat, max_val as nat)),
            ),
            line_view(r@) == seq![(" "@, Tint::Plain)] + seg_cells(cells.take(i as int), gap as nat),
        decreases bars.len() - i,
    {
        let v = bars[i].1;
        let c = sparkline_cell_exec(row, v, max_val);
        let mut cell: Vec<char> = Vec::new();
        push_repeat(&mut cell, c, cw);
        assert(cell@ =~= repeat_char(c, cw as nat));
        let lo = (2 * row + 1) as u128;
        let m = max_val as u128;
        assert(lo * m <= 16 * 0x1_0000_0000_0000_0000) by (nonlinear_arith)
            requires lo <= 16, m <= 0x1_0000_0000_0000_0000;
        let tint = if 16 * (v as u128) >= lo * m { Tint::Cyan } else { Tint::Plain };
        assert(bar_values(bars@)[i as int] == v);
        push_cell(&mut r, i, gap, &cell, tint, Ghost(cells));
        i = i + 1;
    }
    assert(cells.take(bars.len() as int) =~= cells);
    r
}

fn value_line(bars: &Vec<(String, u64)>, cw: usize, gap: usize) -> (vl: Vec<Segment>)
    ensures
        line_view(vl@) == seq![(" "@, Tint::Plain)] + seg_cells(
            bar_values(bars@).map_values(|v: u64| (pad_center(spec_format_value_fit(v, cw as nat), cw as nat), Tint::DarkGray)),
            gap as nat,
        ),
{
    let ghost values = bar_values(bars@);
    let ghost vcells = values.map_values(|v: u64| (pad_center(spec_format_value_fit(v, cw as nat), cw as nat), Tint::DarkGray));
    let mut vl: Vec<Segment> = Vec::new();
    push_segment(&mut vl, segment(" ", Tint::Plain));
    assert(line_view(vl@) =~~= seq![(" "@, Tint::Plain)] + seg_cells(vcells.take(0), gap as nat));
    let mut i: usize = 0;
    while i < bars.len()
        invariant
            i <= bars.len(),
            values == bar_values(bars@),
            vcells == values.map_values(|v: u64| (pad_center(spec_format_value_fit(v, cw as nat), cw as nat), Tint::DarkGray)),
            line_view(vl@) == seq![(" "@, Tint::Plain)] + seg_cells(vcells.take(i as int), gap as nat),
        decreases bars.len() - i,
    {
        let text = format_value_fit_chars(bars[i].1, cw);
        let mut cell: Vec<char> = Vec::new();
        crate::text::push_pad_center(&mut cell, &text, cw);
        assert(cell@ =~= pad_center(text@, cw as nat));
        push_cell(&mut vl, i, gap, &cell, Tint::DarkGray, Ghost(vcells));
        i = i + 1;
    }
    assert(vcells.take(bars.len() as int) =~= vcells);
    vl
}

fn label_line(labels: &Vec<String>, cw: usize, gap: usize) -> (ll: Vec<Segment>)
    ensures
        line_view(ll@) == seq![(" "@, Tint::Plain)] + seg_cells(
            views(labels@).map_values(|l: Seq<char>| (pad_center(l, cw as nat), Tint::Plain)),
            gap as nat,
        ),
{
    let ghost lcells = views(labels@).map_values(|l: Seq<char>| (pad_center(l, cw as nat), Tint::Plain));
    let mut ll: Vec<Segment> = Vec::new();
    push_segment(&mut ll, segment(" ", Tint::Plain));
    assert(line_view(ll@) =~~= seq![(" "@, Tint::Plain)] + seg_cells(lcells.take(0), gap as nat));
    let mut j: usize = 0;
    while j < labels.len()
        invariant
            j <= labels.len(),
            lcells == views(labels@).map_values(|l: Seq<char>| (pad_center(l, cw as nat), Tint::Plain)),
            line_view(ll@) == seq![(" "@, Tint::Plain)] + seg_cells(lcells.take(j as int), gap as nat),
        decreases labels.len() - j,
    {
        let l = str_chars(labels[j].as_str());
        let mut cell: Vec<char> = Vec::new();
        crate::text::push_pad_center(&mut cell, &l, cw);
        assert(cell@ =~= pad_center(l@, cw as nat));
        push_cell(&mut ll, j, gap, &cell, Tint::Plain, Ghost(lcells));
        j = j + 1;
    }
    assert(lcells.take(labels.len() as int) =~= lcells);
    ll
}

/// A vertical bar chart of `bars` drawn within `max_width` columns, one leading space on
/// every line: eight rows of cyan block characters, the values and the labels.
pub fn bar_chart_lines(bars: &Vec<(String, u64)>, max_width: u16) -> (r: Vec<Vec<Segment>>)
    requires
        fit_in_usize(bars@),
    ensures
        lines_view(r@) == spec_bar_chart_lines(bars@, max_width as nat),
{
    let max_val = max_value_exec(bars);
    let mut r: Vec<Vec<Segment>> = Vec::new();
    if max_val == 0 {
        let mut v: Vec<char> = Vec::new();
        push_str(&mut v, " ");
        let mut i: usize = 0;
        while i < bars.len()
            invariant
                i <= bars.len(),
                v@ == " "@ + join_cells(bar_labels(bars@).take(i as int), 1),
            decreases bars.len() - i,
        {
            assert(bar_labels(bars@).take(i + 1).drop_last() =~= bar_labels(bars@).take(i as int));
            if i > 0 {
                v.push(' ');
            }
            push_str(&mut v, bars[i].0.as_str());
            proof {
                assert(repeat_char(' ', 1) =~= seq![' ']);
                if i == 0 {
                    assert(join_cells(bar_labels(bars@).take(1), 1) == bar_labels(bars@)[0]);
                }
            }
            i = i + 1;
            assert(v@ =~= " "@ + join_cells(bar_labels(bars@).take(i as int), 1));
        }
        assert(bar_labels(bars@).take(bars.len() as int) =~= bar_labels(bars@));
        push_line(&mut r, line_of_chars(&v, Tint::Plain));
        push_text(&mut r, " (no data)", Tint::DarkGray);
        assert(lines_view(r@) =~~= spec_bar_chart_lines(bars@, max_width as nat));
        return r;
    }
    let area: usize = if max_width >= 1 { (max_width - 1) as usize } else { 0 };
    let (cw, gap, labels) = fit_bar_dimensions(bars, area);
    let ghost values = bar_values(bars@);
    let mut row: usize = 8;
    while row > 0
        invariant
            row <= 8,
            max_val > 0,
            max_val as nat == max_value(values),
            values == bar_values(bars@),
            lines_view(r@) == Seq::new((8 - row) as nat, |k: int| bar_row((7 - k) as nat, values, max_val as nat, cw as nat, gap as nat)),
        decreases row,
    {
        row = row - 1;
        push_line(&mut r, bar_row_exec(bars, row, max_val, cw, gap));
        assert(Seq::new((8 - row) as nat, |k: int| bar_row((7 - k) as nat, values, max_val as nat, cw as nat, gap as nat))
            =~= Seq::new((7 - row) as nat, |k: int| bar_row((7 - k) as nat, values, max_val as nat, cw as nat, gap as nat)).push(
            bar_row(row as nat, values, max_val as nat, cw as nat, gap as nat),
        ));
    }
    push_line(&mut r, value_line(bars, cw, gap));
    push_line(&mut r, label_line(&labels, cw, gap));
    assert(lines_view(r@) =~~= spec_bar_chart_lines(bars@, max_width as nat));
    r
}

// ---------------------------------------------------------------------------
// Heatmap
// ---------------------------------------------------------------------------

/// The tint of a heatmap cell with `count` commits when the busiest day has `max`: grey for
/// none, then teal, cyan, light cyan and yellow for up to a quarter, a half, three quarters
/// and more of `max`.
pub open spec fn heat_tint(count: nat, max: nat) -> Tint {
    if count == 0 || max == 0 {
        Tint::DarkGray
    } else if 4 * count <= max {
        Tint::Teal
    } else if 2 * count <= max {
        Tint::Cyan
    } else if 4 * count <= 3 * max {
        Tint::LightCyan
    } else {
        Tint::Yellow
    }
}

pub fn heat_tint_exec(count: u32, max: u32) -> (t: Tint)
    ensures
        t == heat_tint(count as nat, max as nat),
{
    let c = count as u64;
    let m = max as u64;
    if count == 0 || max == 0 {
        Tint::DarkGray
    } else if 4 * c <= m {
        Tint::Teal
    } else if 2 * c <= m {
        Tint::Cyan
    } else if 4 * c <= 3 * m {
        Tint::LightCyan
    } else {
        Tint::Yellow
    }
}

/// The month labels placed at twice their week column, each after the spaces that reach
/// it from where the previous label ended; with the column the last label ends at.
pub open spec fn month_segs(labels: Seq<(usize, String)>) -> (LineView, nat)
    decreases labels.len(),
{
    if labels.len() == 0 {
        (Seq::empty(), 0)
    } else {
        let (prev, last) = month_segs(labels.drop_last());
        let pos = 2 * labels.last().0;
        let label = labels.last().1@;
        let gap: LineView = if pos > last {
            seq![(repeat_char(' ', (pos - last) as nat), Tint::Plain)]
        } else {
            Seq::empty()
        };
        (prev + gap + seq![(label, Tint::DarkGray)], (pos + label.len()) as nat)
    }
}

/// The label in front of heatmap row `w` (Monday first): every other day is named.
pub open spec fn weekday_label(w: int) -> Seq<char> {
    if w == 0 {
        "Mon"@
    } else if w == 2 {
        "Wed"@
    } else if w == 4 {
        "Fri"@
    } else if w == 6 {
        "Sun"@
    } else {
        "   "@
    }
}

/// Heatmap row `w`: its label, then one square per week.
pub open spec fn heat_row(data: HeatmapData, w: int) -> LineView {
    seq![(" "@ + pad_right(weekday_label(w), 4, ' '), Tint::DarkGray)] + Seq::new(
        data.week_count as nat,
        |c: int| ("\u{25a0} "@, heat_tint(data.grid@[w]@[c] as nat, data.max_count as nat)),
    )
}

/// The tint of legend entry `i`.
pub open spec fn legend_tint(i: int) -> Tint {
    if i == 0 {
        Tint::DarkGray
    } else if i == 1 {
        Tint::Teal
    } else if i == 2 {
        Tint::Cyan
    } else if i == 3 {
        Tint::LightCyan
    } else {
        Tint::Yellow
    }
}

/// The first `k` legend entries: a square in the entry's tint and its range, two spaces apart.
pub open spec fn legend_segs(labels: Seq<Seq<char>>, k: nat) -> LineView
    decreases k,
{
    if k == 0 {
        Seq::empty()
    } else {
        let sep: LineView = if k > 1 { seq![("  "@, Tint::Plain)] } else { Seq::empty() };
        legend_segs(labels, (k - 1) as nat) + sep + seq![
            ("\u{25a0}"@, legend_tint(k - 1)),
            (" "@ + labels[k - 1], Tint::DarkGray),
        ]
    }
}

/// Every month label ends within `usize` columns.
pub open spec fn labels_fit(labels: Seq<(usize, String)>) -> bool {
    forall|i: int| 0 <= i < labels.len() ==> 2 * (#[trigger] labels[i]).0 + labels[i].1@.len() <= usize::MAX
}

/// A heatmap's grid holds the seven weekday rows, each at least as long as the weeks shown.
pub open spec fn heatmap_fits(data: HeatmapData) -> bool {
    &&& data.grid@.len() >= 7
    &&& forall|w: int| 0 <= w < 7 ==> data.week_count <= (#[trigger] data.grid@[w])@.len()
    &&& labels_fit(data.month_labels@)
}

/// The lines of a heatmap: the period, the month labels, a row per weekday and the legend.
pub open spec fn spec_heatmap_lines(data: HeatmapData) -> Seq<LineView> {
    seq![
        one("      "@ + data.start_date@ + " .. "@ + data.end_date@, Tint::DarkGray),
        blank(),
        seq![("     "@, Tint::Plain)] + month_segs(data.month_labels@).0,
    ] + Seq::new(7, |w: int| heat_row(data, w)) + seq![
        blank(),
        seq![("      "@, Tint::Plain)] + legend_segs(spec_legend_labels(data.max_count as nat), 5),
    ]
}

fn month_line(labels: &Vec<(usize, String)>) -> (r: Vec<Segment>)
    requires
        labels_fit(labels@),
    ensures
        line_view(r@) == seq![("     "@, Tint::Plain)] + month_segs(labels@).0,
{
    let mut r: Vec<Segment> = Vec::new();
    push_segment(&mut r, segment("     ", Tint::Plain));
    let mut last: usize = 0;
    let mut i: usize = 0;
    while i < labels.len()
        invariant
            i <= labels.len(),
            line_view(r@) == seq![("     "@, Tint::Plain)] + month_segs(labels@.take(i as int)).0,
            last as nat == month_segs(labels@.take(i as int)).1,
            labels_fit(labels@),
        decreases labels.len() - i,
    {
        assert(labels@.take(i + 1).drop_last() =~= labels@.take(i as int));
        let col = labels[i].0;
        let label = str_chars(labels[i].1.as_str());
        assert(2 * labels@[i as int].0 + labels@[i as int].1@.len() <= usize::MAX);
        let pos = 2 * col;
        if pos > last {
            let mut sp: Vec<char> = Vec::new();
            push_repeat(&mut sp, ' ', pos - last);
            assert(sp@ =~= repeat_char(' ', (pos - last) as nat));
            push_segment(&mut r, segment_of(&sp, Tint::Plain));
        }
        push_segment(&mut r, Segment { text: labels[i].1.clone(), tint: Tint::DarkGray });
        last = pos + label.len();
        i = i + 1;
        assert(line_view(r@) =~~= seq![("     "@, Tint::Plain)] + month_segs(labels@.take(i as int)).0);
    }
    assert(labels@.take(labels.len() as int) =~= labels@);
    r
}

fn weekday_label_exec(w: usize) -> (s: &'static str)
    ensures
        s@ == weekday_label(w as int),
{
    if w == 0 {
        "Mon"
    } else if w == 2 {
        "Wed"
    } else if w == 4 {
        "Fri"
    } else if w == 6 {
        "Sun"
    } else {
        "   "
    }
}

fn heat_row_exec(data: &HeatmapData, w: usize) -> (r: Vec<Segment>)
    requires
        w < 7,
        heatmap_fits(*data),
    ensures
        line_view(r@) == heat_row(*data, w as int),
{
    let mut r: Vec<Segment> = Vec::new();
    let mut v: Vec<char> = Vec::new();
    push_str(&mut v, " ");
    let label = str_chars(weekday_label_exec(w));
    crate::text::push_pad_right(&mut v, &label, 4, ' ');
    push_segment(&mut r, segment_of(&v, Tint::DarkGray));
    let ghost head = line_view(r@);
    let row = &data.grid[w];
    assert(data.week_count <= data.grid@[w as int]@.len());
    let mut c: usize = 0;
    while c < data.week_count
        invariant
            c <= data.week_count,
            data.week_count <= row@.len(),
            *row == data.grid@[w as int],
            line_view(r@) == head + Seq::new(
                c as nat,
                |k: int| ("\u{25a0} "@, heat_tint(row@[k] as nat, data.max_count as nat)),
            ),
        decreases data.week_count - c,
    {
        push_segment(&mut r, segment("\u{25a0} ", heat_tint_exec(row[c], data.max_count)));
        assert(Seq::new((c + 1) as nat, |k: int| ("\u{25a0} "@, heat_tint(row@[k] as nat, data.max_count as nat)))
            =~= Seq::new(c as nat, |k: int| ("\u{25a0} "@, heat_tint(row@[k] as nat, data.max_count as nat))).push(
            ("\u{25a0} "@, heat_tint(row@[c as int] as nat, data.max_count as nat)),
        ));
        c = c + 1;
    }
    assert(line_view(r@) =~~= heat_row(*data, w as int));
    r
}

fn legend_tint_exec(i: usize) -> (t: Tint)
    ensures
        t == legend_tint(i as int),
{
    if i == 0 {
        Tint::DarkGray
    } else if i == 1 {
        Tint::Teal
    } else if i == 2 {
        Tint::Cyan
    } else if i == 3 {
        Tint::LightCyan
    } else {
        Tint::Yellow
    }
}

fn legend_line(data: &HeatmapData) -> (r: Vec<Segment>)
    ensures
        line_view(r@) == seq![("      "@, Tint::Plain)] + legend_segs(spec_legend_labels(data.max_count as nat), 5),
{
    let labels = data.legend_labels();
    let ghost ls = spec_legend_labels(data.max_count as nat);
    let mut r: Vec<Segment> = Vec::new();
    push_segment(&mut r, segment("      ", Tint::Plain));
    let mut i: usize = 0;
    while i < 5
        invariant
            i <= 5,
            forall|j: int| 0 <= j < 5 ==> #[trigger] labels[j]@ == ls[j],
            line_view(r@) == seq![("      "@, Tint::Plain)] + legend_segs(ls, i as nat),
        decreases 5 - i,
    {
        if i > 0 {
            push_segment(&mut r, segment("  ", Tint::Plain));
        }
        push_segment(&mut r, segment("\u{25a0}", legend_tint_exec(i)));
        let mut v: Vec<char> = Vec::new();
        push_str(&mut v, " ");
        push_str(&mut v, labels[i].as_str());
        assert(labels[i as int]@ == ls[i as int]);
        push_segment(&mut r, segment_of(&v, Tint::DarkGray));
        i = i + 1;
        assert(line_view(r@) =~~= seq![("      "@, Tint::Plain)] + legend_segs(ls, i as nat));
    }
    r
}

/// A year of commit activity as a grid of coloured squares, with its period, month labels
/// and legend.
pub fn heatmap_lines(data: &HeatmapData) -> (r: Vec<Vec<Segment>>)
    requires
        heatmap_fits(*data),
    ensures
        lines_view(r@) == spec_heatmap_lines(*data),
{
    let mut r: Vec<Vec<Segment>> = Vec::new();
    let mut v: Vec<char> = Vec::new();
    push_str(&mut v, "      ");
    push_str(&mut v, data.start_date.as_str());
    push_str(&mut v, " .. ");
    push_str(&mut v, data.end_date.as_str());
    push_line(&mut r, line_of_chars(&v, Tint::DarkGray));
    push_blank(&mut r);
    push_line(&mut r, month_line(&data.month_labels));
    let ghost head = lines_view(r@);
    let mut w: usize = 0;
    while w < 7
        invariant
            w <= 7,
            heatmap_fits(*data),
            lines_view(r@) == head + Seq::new(w as nat, |k: int| heat_row(*data, k)),
        decreases 7 - w,
    {
        push_line(&mut r, heat_row_exec(data, w));
        assert(Seq::new((w + 1) as nat, |k: int| heat_row(*data, k)) =~= Seq::new(w as nat, |k: int| heat_row(*data, k)).push(
            heat_row(*data, w as int),
        ));
        w = w + 1;
    }
    push_blank(&mut r);
    push_line(&mut r, legend_line(data));
    assert(lines_view(r@) =~~= spec_heatmap_lines(*data));
    r
}

// ---------------------------------------------------------------------------
// Timeline
// ---------------------------------------------------------------------------

pub type Weeks = Seq<(Seq<char>, u32)>;

/// Largest weekly count; 0 when there are no weeks.
pub open spec fn max_week(weeks: Weeks) -> nat
    decreases weeks.len(),
{
    if weeks.len() == 0 {
        0
    } else {
        let m = max_week(weeks.drop_last());
        if weeks.last().1 as nat > m {
            weeks.last().1 as nat
        } else {
            m
        }
    }
}

/// The week shown in column `c` of `cols` columns spread evenly over the weeks.
pub open spec fn sample(weeks: Weeks, cols: nat, c: nat) -> nat {
    let i = c * weeks.len() / cols;
    if i < weeks.len() {
        weeks[i as int].1 as nat
    } else {
        0
    }
}

/// Eighths of the three-row sparkline filled by `v` when the largest value is `max`:
/// `24 * v / max` rounded to the nearest whole number, halves up.
pub open spec fn filled_eighths(v: nat, max: nat) -> nat {
    if max == 0 {
        0
    } else {
        (48 * v + max) / (2 * max)
    }
}

/// The character of sparkline row `row` (0 = bottom) for `v`.
pub open spec fn timeline_char(row: nat, v: nat, max: nat) -> char {
    let f = filled_eighths(v, max);
    let rf: nat = if f > 8 * row {
        if f - 8 * row > 8 { 8 } else { (f - 8 * row) as nat }
    } else {
        0
    };
    if rf == 0 {
        ' '
    } else {
        spark_block((rf - 1) as nat)
    }
}

pub open spec fn timeline_row(row: nat, weeks: Weeks, cols: nat, max: nat) -> LineView {
    seq![(" "@, Tint::Plain)] + Seq::new(
        cols,
        |c: int| (seq![timeline_char(row, sample(weeks, cols, c as nat), max)], Tint::Cyan),
    )
}

/// Columns where date labels go: the first, the middle and the last, or only the first
/// when there are at most two columns.
pub open spec fn label_positions(cols: nat) -> Seq<nat> {
    if cols > 2 {
        seq![0, cols / 2, (cols - 1) as nat]
    } else {
        seq![0nat]
    }
}

/// The date label line after the first `k` positions, with the column it has reached.
pub open spec fn label_text(weeks: Weeks, cols: nat, k: nat) -> (Seq<char>, nat)
    decreases k,
{
    if k == 0 {
        (" "@, 0)
    } else {
        let (text, cursor) = label_text(weeks, cols, (k - 1) as nat);
        let pos = label_positions(cols)[k - 1];
        let n = weeks.len();
        let i = if pos * n / cols < n - 1 { pos * n / cols } else { (n - 1) as nat };
        let label = weeks[i as int].0;
        if pos >= cursor {
            (text + repeat_char(' ', (pos - cursor) as nat) + label, pos + label.len())
        } else {
            (text, cursor)
        }
    }
}

/// Columns of a timeline drawn `width` wide: all but one on each side, at least one.
pub open spec fn timeline_cols(width: nat) -> nat {
    if width >= 3 {
        (width - 2) as nat
    } else {
        1
    }
}

/// The lines of a commit timeline `width` columns wide: three sparkline rows of weekly
/// totals, the first, middle and last week's dates, and the scale.
pub open spec fn spec_timeline_lines(points: Seq<(String, u32)>, width: nat) -> Seq<LineView> {
    if points.len() == 0 {
        seq![one(" No commit data available."@, Tint::Plain)]
    } else {
        let weeks = weekly_groups(points);
        let cols = timeline_cols(width);
        let max = max_week(weeks);
        Seq::new(3, |k: int| timeline_row((2 - k) as nat, weeks, cols, max)) + seq![
            one(label_text(weeks, cols, label_positions(cols).len()).0, Tint::DarkGray),
            one(
                " \u{2581} = 0  \u{2588} = "@ + nat_digits(max) + " commits/week"@,
                Tint::DarkGray,
            ),
        ]
    }
}

fn timeline_char_exec(row: usize, v: u32, max: u32) -> (ch: char)
    requires
        row < 3,
    ensures
        ch == timeline_char(row as nat, v as nat, max as nat),
{
    let f: u64 = if max == 0 { 0 } else { (48 * (v as u64) + max as u64) / (2 * max as u64) };
    let base = 8 * row as u64;
    let rf: u64 = if f > base {
        if f - base > 8 { 8 } else { f - base }
    } else {
        0
    };
    if rf == 0 {
        ' '
    } else {
        spark_block_exec((rf - 1) as usize)
    }
}

/// Sampled week counts for each column.
fn timeline_row_exec(row: usize, weeks: &Vec<(String, u32)>, cols: usize, max: u32, Ghost(wv): Ghost<Weeks>) -> (r: Vec<Segment>)
    requires
        row < 3,
        cols >= 1,
        wv.len() == weeks.len(),
        forall|i: int| 0 <= i < weeks.len() ==> (#[trigger] wv[i]).1 == weeks@[i].1,
        cols * weeks.len() <= usize::MAX,
    ensures
        line_view(r@) == timeline_row(row as nat, wv, cols as nat, max as nat),
{
    let n = weeks.len();
    let mut r: Vec<Segment> = Vec::new();
    push_segment(&mut r, segment(" ", Tint::Plain));
    let ghost head = line_view(r@);
    let mut c: usize = 0;
    while c < cols
        invariant
            c <= cols,
            cols >= 1,
            row < 3,
            n == weeks.len(),
            wv.len() == n,
            forall|i: int| 0 <= i < weeks.len() ==> (#[trigger] wv[i]).1 == weeks@[i].1,
            cols * n <= usize::MAX,
            line_view(r@) == head + Seq::new(
                c as nat,
                |k: int| (seq![timeline_char(row as nat, sample(wv, cols as nat, k as nat), max as nat)], Tint::Cyan),
            ),
        decreases cols - c,
    {
        assert(c * n <= cols * n) by (nonlinear_arith)
            requires c < cols;
        let i = c * n / cols;
        let v: u32 = if i < n { weeks[i].1 } else { 0 };
        let mut cell: Vec<char> = Vec::new();
        cell.push(timeline_char_exec(row, v, max));
        push_segment(&mut r, segment_of(&cell, Tint::Cyan));
        assert(cell@ =~= seq![timeline_char(row as nat, sample(wv, cols as nat, c as nat), max as nat)]);
        assert(Seq::new((c + 1) as nat, |k: int| (seq![timeline_char(row as nat, sample(wv, cols as nat, k as nat), max as nat)], Tint::Cyan))
            =~= Seq::new(c as nat, |k: int| (seq![timeline_char(row as nat, sample(wv, cols as nat, k as nat), max as nat)], Tint::Cyan)).push(
            (seq![timeline_char(row as nat, sample(wv, cols as nat, c as nat), max as nat)], Tint::Cyan),
        ));
        c = c + 1;
    }
    assert(line_view(r@) =~~= timeline_row(row as nat, wv, cols as nat, max as nat));
    r
}

fn label_position_exec(cols: usize, k: usize) -> (p: usize)
    requires
        k < label_positions(cols as nat).len(),
        cols >= 1,
    ensures
        p as nat == label_positions(cols as nat)[k as int],
        p < cols,
{
    if cols > 2 {
        if k == 0 {
            0
        } else if k == 1 {
            cols / 2
        } else {
            cols - 1
        }
    } else {
        0
    }
}

fn label_line_exec(weeks: &Vec<(String, u32)>, cols: usize, Ghost(wv): Ghost<Weeks>) -> (r: Vec<char>)
    requires
        cols >= 1,
        cols <= 0x10000,
        weeks.len() >= 1,
        wv.len() == weeks.len(),
        forall|i: int| 0 <= i < weeks.len() ==> (#[trigger] wv[i]).0 == weeks@[i].0@,
        cols * weeks.len() <= usize::MAX,
        forall|i: int| 0 <= i < weeks.len() ==> (#[trigger] weeks@[i]).0@.len() <= 0x10000,
    ensures
        r@ == label_text(wv, cols as nat, label_positions(cols as nat).len()).0,
{
    let n = weeks.len();
    let count: usize = if cols > 2 { 3 } else { 1 };
    assert(count == label_positions(cols as nat).len());
    let mut r: Vec<char> = Vec::new();
    push_str(&mut r, " ");
    let mut cursor: usize = 0;
    let mut k: usize = 0;
    while k < count
        invariant
            k <= count,
            count == label_positions(cols as nat).len(),
            cols >= 1,
            n == weeks.len(),
            n >= 1,
            wv.len() == n,
            forall|i: int| 0 <= i < weeks.len() ==> (#[trigger] wv[i]).0 == weeks@[i].0@,
            forall|i: int| 0 <= i < weeks.len() ==> (#[trigger] weeks@[i]).0@.len() <= 0x10000,
            cols * n <= usize::MAX,
            cols <= 0x10000,
            r@ == label_text(wv, cols as nat, k as nat).0,
            cursor as nat == label_text(wv, cols as nat, k as nat).1,
            cursor <= cols + 0x10000,
        decreases count - k,
    {
        let pos = label_position_exec(cols, k);
        assert(pos * n <= cols * n) by (nonlinear_arith)
            requires pos < cols;
        let q = pos * n / cols;
        let i = if q < n - 1 { q } else { n - 1 };
        let label = str_chars(weeks[i].0.as_str());
        assert(wv[i as int].0 == label@);
        if pos >= cursor {
            crate::text::push_repeat(&mut r, ' ', pos - cursor);
            push_all(&mut r, &label);
            assert(label@.len() <= 0x10000);
            cursor = pos + label.len();
        }
        k = k + 1;
    }
    r
}

/// A commit timeline `width` columns wide: three rows of cyan block characters for the
/// weekly totals, the dates of the first, middle and last week, and the scale.
pub fn timeline_lines(data: &TimelineData, width: u16) -> (r: Vec<Vec<Segment>>)
    requires
        data.points@.len() * 0x10000 <= usize::MAX,
        forall|i: int| 0 <= i < data.points@.len() ==> (#[trigger] data.points@[i]).0@.len() <= 0x10000,
    ensures
        lines_view(r@) == spec_timeline_lines(data.points@, width as nat),
{
    let mut r: Vec<Vec<Segment>> = Vec::new();
    if data.points.len() == 0 {
        push_text(&mut r, " No commit data available.", Tint::Plain);
        assert(lines_view(r@) =~~= spec_timeline_lines(data.points@, width as nat));
        return r;
    }
    let weeks = aggregate_weekly(&data.points);
    let ghost wv = weekly_groups(data.points@);
    proof {
        lemma_weekly_len(data.points@);
        assert forall|i: int| 0 <= i < weeks.len() implies (#[trigger] weeks@[i]).0@.len() <= 0x10000 by {
            lemma_week_labels(data.points@, i);
        }
    }
    let cols: usize = if width >= 3 { (width - 2) as usize } else { 1 };
    assert(cols * weeks.len() <= usize::MAX) by (nonlinear_arith)
        requires cols <= 0x10000, weeks.len() <= data.points@.len(), data.points@.len() * 0x10000 <= usize::MAX;
    // The largest weekly total.
    let mut max: u32 = 0;
    let mut i: usize = 0;
    while i < weeks.len()
        invariant
            i <= weeks.len(),
            weeks.len() == wv.len(),
            forall|j: int| 0 <= j < weeks.len() ==> (#[trigger] weeks@[j]).1 == wv[j].1,
            max as nat == max_week(wv.take(i as int)),
        decreases weeks.len() - i,
    {
        assert(wv.take(i + 1).drop_last() =~= wv.take(i as int));
        if weeks[i].1 > max {
            max = weeks[i].1;
        }
        i = i + 1;
    }
    assert(wv.take(weeks.len() as int) =~= wv);
    let mut row: usize = 3;
    while row > 0
        invariant
            row <= 3,
            cols >= 1,
            cols as nat == timeline_cols(width as nat),
            cols * weeks.len() <= usize::MAX,
            weeks.len() == wv.len(),
            forall|j: int| 0 <= j < weeks.len() ==> (#[trigger] wv[j]).1 == weeks@[j].1,
            max as nat == max_week(wv),
            lines_view(r@) == Seq::new((3 - row) as nat, |k: int| timeline_row((2 - k) as nat, wv, cols as nat, max as nat)),
        decreases row,
    {
        row = row - 1;
        push_line(&mut r, timeline_row_exec(row, &weeks, cols, max, Ghost(wv)));
        assert(Seq::new((3 - row) as nat, |k: int| timeline_row((2 - k) as nat, wv, cols as nat, max as nat))
            =~= Seq::new((2 - row) as nat, |k: int| timeline_row((2 - k) as nat, wv, cols as nat, max as nat)).push(
            timeline_row(row as nat, wv, cols as nat, max as nat),
        ));
    }
    let labels = label_line_exec(&weeks, cols, Ghost(wv));
    push_line(&mut r, line_of_chars(&labels, Tint::DarkGray));
    let mut scale: Vec<char> = Vec::new();
    push_str(&mut scale, " \u{2581} = 0  \u{2588} = ");
    push_u64_digits(&mut scale, max as u64);
    push_str(&mut scale, " commits/week");
    push_line(&mut r, line_of_chars(&scale, Tint::DarkGray));
    assert(lines_view(r@) =~~= spec_timeline_lines(data.points@, width as nat));
    r
}

/// Every week is labelled with the date of one of its points.
proof fn lemma_week_labels(points: Seq<(String, u32)>, i: int)
    requires
        0 <= i < weekly_groups(points).len(),
    ensures
        exists|j: int| 0 <= j < points.len() && weekly_groups(points)[i].0 == (#[trigger] points[j]).0@,
    decreases points.len(),
{
    let prev = weekly_groups(points.drop_last());
    let p = points.last();
    if i < prev.len() {
        lemma_week_labels(points.drop_last(), i);
        let j = choose|j: int| 0 <= j < points.drop_last().len() && prev[i].0 == (#[trigger] points.drop_last()[j]).0@;
        assert(points[j] == points.drop_last()[j]);
        if (points.len() - 1) % 7 != 0 && i == prev.len() - 1 {
            assert(weekly_groups(points)[i].0 == prev.last().0);
        } else {
            assert(weekly_groups(points)[i].0 == prev[i].0);
        }
    } else {
        lemma_weekly_len(points);
        lemma_weekly_len(points.drop_last());
        assert(weekly_groups(points)[i].0 == p.0@);
        assert(points[points.len() - 1] == p);
    }
}

// ---------------------------------------------------------------------------
// Analysis results
// ---------------------------------------------------------------------------

/// The name of an analysis view in the results title.
pub open spec fn view_title(v: AnalyzeView) -> Seq<char> {
    match v {
        AnalyzeView::All => "All"@,
        AnalyzeView::Contribution => "Contribution"@,
        AnalyzeView::Activity => "Most active days and hours"@,
        AnalyzeView::ActivityHeatmap => "Activity heatmap"@,
        AnalyzeView::WeekdayChart => "Commits by weekday"@,
        AnalyzeView::HourlyChart => "Commits by hour"@,
        AnalyzeView::TimelineChart => "Commit timeline"@,
        AnalyzeView::UserEffort => "User effort"@,
        AnalyzeView::CompareRepos => "Compare repositories"@,
    }
}

fn view_title_exec(v: AnalyzeView) -> (s: &'static str)
    ensures
        s@ == view_title(v),
{
    match v {
        AnalyzeView::All => "All",
        AnalyzeView::Contribution => "Contribution",
        AnalyzeView::Activity => "Most active days and hours",
        AnalyzeView::ActivityHeatmap => "Activity heatmap",
        AnalyzeView::WeekdayChart => "Commits by weekday",
        AnalyzeView::HourlyChart => "Commits by hour",
        AnalyzeView::TimelineChart => "Commit timeline",
        AnalyzeView::UserEffort => "User effort",
        AnalyzeView::CompareRepos => "Compare repositories",
    }
}

/// The one-line summary of a repository's analysis.
pub open spec fn repo_summary(a: RepositoryAnalysis) -> LineView {
    one(
        "   "@ + spec_display_name(a.repository.root@) + " \u{2014} "@ + nat_digits(a.size.files as nat)
            + " files, "@ + nat_digits(a.contributions.total_commits as nat) + " commits, "@ + nat_digits(
            a.contributions.contributors@.len(),
        ) + " contributors"@,
        Tint::Plain,
    )
}

/// A chart below the results: a blank line, its numbered title and a blank line.
pub open spec fn chart_head(title: Seq<char>) -> Seq<LineView> {
    seq![blank(), one(title, Tint::Plain), blank()]
}

/// The heatmap part of the results (numbered `#3` in the full report).
pub open spec fn heatmap_part(h: Option<HeatmapData>, all: bool) -> Seq<LineView> {
    match h {
        Some(d) => seq![blank()] + (if all { seq![one(" #3 Activity heatmap"@, Tint::Plain)] } else { Seq::empty() })
            + seq![
            one(" Daily commit activity over the past year, grouped by week."@, Tint::Plain),
            blank(),
        ] + spec_heatmap_lines(d),
        None => Seq::empty(),
    }
}

/// A bar chart of the full report, numbered `number`.
pub open spec fn bar_part(c: Option<BarChartData>, number: Seq<char>, width: nat) -> Seq<LineView> {
    match c {
        Some(d) => chart_head(" #"@ + number + " "@ + d.title@) + spec_bar_chart_lines(d.bars@, width),
        None => Seq::empty(),
    }
}

pub open spec fn timeline_part(t: Option<TimelineData>, width: nat) -> Seq<LineView> {
    match t {
        Some(d) => chart_head(" #7 "@ + d.title@) + spec_timeline_lines(d.points@, width),
        None => Seq::empty(),
    }
}

/// What the results show: progress while loading, else the results table with its charts,
/// else a summary per repository, else a note that there is nothing yet.
pub open spec fn results_body(app: AppState, width: nat) -> Seq<LineView> {
    if app.is_loading {
        seq![seq![(seq![' ', spinner(app.spinner_frame as nat)], Tint::Cyan), (" Analyzing..."@, Tint::Yellow)]]
            + app.progress_log@.map_values(|m: String| one("   "@ + m@, Tint::DarkGray))
    } else if app.analysis_table is Some {
        let all = app.selected_analyze_view == AnalyzeView::All;
        indented_lines(app.analysis_table->0@) + heatmap_part(app.heatmap_data, all) + if all {
            bar_part(app.weekday_chart, "5"@, width) + bar_part(app.hourly_chart, "6"@, width)
                + timeline_part(app.timeline_data, width)
        } else {
            Seq::empty()
        }
    } else if app.analysis_result is Some {
        app.analysis_result->0.repositories@.map_values(|a: RepositoryAnalysis| repo_summary(a))
    } else {
        seq![one(" No results yet."@, Tint::Plain)]
    }
}

pub open spec fn scroll_hints(export: bool) -> Seq<(Seq<char>, Seq<char>)> {
    if export {
        seq![hint("\u{2191}\u{2193}", "Scroll"), hint("e", "Export"), hint("Esc", "Home"), hint("Q", "Quit")]
    } else {
        seq![hint("\u{2191}\u{2193}", "Scroll"), hint("Esc", "Home"), hint("Q", "Quit")]
    }
}

/// The lines of the results screen `width` columns wide.
pub open spec fn spec_analyze_text_lines(app: AppState, width: nat) -> Seq<LineView> {
    seq![one(" Analyze \u{2014} "@ + view_title(app.selected_analyze_view), Tint::Bold), blank()]
        + results_body(app, width) + (if app.status_message@.len() > 0 {
        seq![blank(), one(" "@ + app.status_message@, Tint::DarkGray)]
    } else {
        Seq::empty()
    }) + seq![blank(), spec_hints_line(scroll_hints(app.analysis_result is Some && !app.is_loading))]
}

/// The charts of the results can be drawn: a heatmap's grid is complete, and the charts
/// stay within the machine's sizes.
pub open spec fn charts_fit(app: AppState) -> bool {
    &&& (app.heatmap_data matches Some(h) ==> heatmap_fits(h))
    &&& (app.weekday_chart matches Some(c) ==> fit_in_usize(c.bars@))
    &&& (app.hourly_chart matches Some(c) ==> fit_in_usize(c.bars@))
    &&& (app.timeline_data matches Some(t) ==> {
        &&& t.points@.len() * 0x10000 <= usize::MAX
        &&& forall|i: int| 0 <= i < t.points@.len() ==> (#[trigger] t.points@[i]).0@.len() <= 0x10000
    })
}

fn repo_summary_exec(a: &RepositoryAnalysis) -> (r: Vec<Segment>)
    ensures
        line_view(r@) == repo_summary(*a),
{
    let mut v: Vec<char> = Vec::new();
    push_str(&mut v, "   ");
    let name = a.repository.display_name();
    push_str(&mut v, name.as_str());
    push_str(&mut v, " \u{2014} ");
    push_u64_digits(&mut v, a.size.files);
    push_str(&mut v, " files, ");
    push_u64_digits(&mut v, a.contributions.total_commits);
    push_str(&mut v, " commits, ");
    push_u64_digits(&mut v, a.contributions.contributors.len() as u64);
    push_str(&mut v, " contributors");
    line_of_chars(&v, Tint::Plain)
}

fn push_bar_part(r: &mut Vec<Vec<Segment>>, c: &Option<BarChartData>, number: &str, width: u16)
    requires
        *c matches Some(d) ==> fit_in_usize(d.bars@),
    ensures
        lines_view(final(r)@) == lines_view(old(r)@) + bar_part(*c, number@, width as nat),
{
    match c {
        Some(d) => {
            push_blank(r);
            let mut t: Vec<char> = Vec::new();
            push_str(&mut t, " #");
            push_str(&mut t, number);
            push_str(&mut t, " ");
            push_str(&mut t, d.title.as_str());
            push_line(r, line_of_chars(&t, Tint::Plain));
            push_blank(r);
            push_lines(r, bar_chart_lines(&d.bars, width));
            assert(lines_view(r@) =~~= lines_view(old(r)@) + bar_part(*c, number@, width as nat));
        },
        None => {
            assert(lines_view(r@) =~~= lines_view(old(r)@) + bar_part(*c, number@, width as nat));
        },
    }
}

fn push_heatmap_part(r: &mut Vec<Vec<Segment>>, h: &Option<HeatmapData>, all: bool)
    requires
        *h matches Some(d) ==> heatmap_fits(d),
    ensures
        lines_view(final(r)@) == lines_view(old(r)@) + heatmap_part(*h, all),
{
    match h {
        Some(d) => {
            push_blank(r);
            if all {
                push_text(r, " #3 Activity heatmap", Tint::Plain);
            }
            push_text(r, " Daily commit activity over the past year, grouped by week.", Tint::Plain);
            push_blank(r);
            push_lines(r, heatmap_lines(d));
        },
        None => {},
    }
    assert(lines_view(r@) =~~= lines_view(old(r)@) + heatmap_part(*h, all));
}

fn push_timeline_part(r: &mut Vec<Vec<Segment>>, t: &Option<TimelineData>, width: u16)
    requires
        *t matches Some(d) ==> {
            &&& d.points@.len() * 0x10000 <= usize::MAX
            &&& forall|i: int| 0 <= i < d.points@.len() ==> (#[trigger] d.points@[i]).0@.len() <= 0x10000
        },
    ensures
        lines_view(final(r)@) == lines_view(old(r)@) + timeline_part(*t, width as nat),
{
    match t {
        Some(d) => {
            push_blank(r);
            let mut v: Vec<char> = Vec::new();
            push_str(&mut v, " #7 ");
            push_str(&mut v, d.title.as_str());
            push_line(r, line_of_chars(&v, Tint::Plain));
            push_blank(r);
            push_lines(r, timeline_lines(d, width));
        },
        None => {},
    }
    assert(lines_view(r@) =~~= lines_view(old(r)@) + timeline_part(*t, width as nat));
}

fn push_results_table(r: &mut Vec<Vec<Segment>>, app: &AppState, table: &String, width: u16)
    requires
        charts_fit(*app),
        app.analysis_table == Some(*table),
    ensures
        lines_view(final(r)@) == lines_view(old(r)@) + indented_lines(table@) + heatmap_part(
            app.heatmap_data,
            app.selected_analyze_view == AnalyzeView::All,
        ) + if app.selected_analyze_view == AnalyzeView::All {
            bar_part(app.weekday_chart, "5"@, width as nat) + bar_part(app.hourly_chart, "6"@, width as nat)
                + timeline_part(app.timeline_data, width as nat)
        } else {
            Seq::empty()
        },
{
    let all = app.selected_analyze_view == AnalyzeView::All;
    push_indented(r, table);
    push_heatmap_part(r, &app.heatmap_data, all);
    if all {
        push_bar_part(r, &app.weekday_chart, "5", width);
        push_bar_part(r, &app.hourly_chart, "6", width);
        push_timeline_part(r, &app.timeline_data, width);
    }
    assert(lines_view(r@) =~= lines_view(old(r)@) + indented_lines(table@) + heatmap_part(
        app.heatmap_data,
        all,
    ) + if all {
        bar_part(app.weekday_chart, "5"@, width as nat) + bar_part(app.hourly_chart, "6"@, width as nat)
            + timeline_part(app.timeline_data, width as nat)
    } else {
        Seq::empty()
    });
}

fn push_results_body(r: &mut Vec<Vec<Segment>>, app: &AppState, width: u16)
    requires
        charts_fit(*app),
    ensures
        lines_view(final(r)@) == lines_view(old(r)@) + results_body(*app, width as nat),
{
    if app.is_loading {
        let mut v: Vec<char> = Vec::new();
        v.push(' ');
        v.push(spinner_exec(app.spinner_frame));
        let mut l: Vec<Segment> = Vec::new();
        push_segment(&mut l, segment_of(&v, Tint::Cyan));
        push_segment(&mut l, segment(" Analyzing...", Tint::Yellow));
        push_line(r, l);
        let ghost head = lines_view(r@);
        let ghost log = app.progress_log@;
        let mut i: usize = 0;
        while i < app.progress_log.len()
            invariant
                i <= app.progress_log.len(),
                log == app.progress_log@,
                lines_view(r@) == head + log.take(i as int).map_values(|m: String| one("   "@ + m@, Tint::DarkGray)),
            decreases app.progress_log.len() - i,
        {
            let mut m: Vec<char> = Vec::new();
            push_str(&mut m, "   ");
            push_str(&mut m, app.progress_log[i].as_str());
            push_line(r, line_of_chars(&m, Tint::DarkGray));
            assert(log.take(i + 1).map_values(|m: String| one("   "@ + m@, Tint::DarkGray)) =~~= log.take(
                i as int,
            ).map_values(|m: String| one("   "@ + m@, Tint::DarkGray)).push(one("   "@ + log[i as int]@, Tint::DarkGray)));
            i = i + 1;
        }
        assert(log.take(log.len() as int) =~= log);
        assert(lines_view(r@) =~~= lines_view(old(r)@) + results_body(*app, width as nat));
    } else {
        match &app.analysis_table {
            Some(table) => {
                push_results_table(r, app, table, width);
            },
            None => {
                match &app.analysis_result {
                    Some(report) => {
                        let ghost repos = report.repositories@;
                        let ghost head = lines_view(r@);
                        let mut i: usize = 0;
                        while i < report.repositories.len()
                            invariant
                                i <= report.repositories.len(),
                                repos == report.repositories@,
                                lines_view(r@) == head + repos.take(i as int).map_values(|a: RepositoryAnalysis| repo_summary(a)),
                            decreases report.repositories.len() - i,
                        {
                            push_line(r, repo_summary_exec(&report.repositories[i]));
                            assert(repos.take(i + 1).map_values(|a: RepositoryAnalysis| repo_summary(a)) =~~= repos.take(
                                i as int,
                            ).map_values(|a: RepositoryAnalysis| repo_summary(a)).push(repo_summary(repos[i as int])));
                            i = i + 1;
                        }
                        assert(repos.take(repos.len() as int) =~= repos);
                    },
                    None => {
                        push_text(r, " No results yet.", Tint::Plain);
                    },
                }
                assert(lines_view(r@) =~~= lines_view(old(r)@) + results_body(*app, width as nat));
            },
        }
    }
}

/// The results screen `width` columns wide: the view's title, the results (or the progress
/// of the analysis still running), the status message and the key hints.
pub fn analyze_text_lines(app: &AppState, width: u16) -> (r: Vec<Vec<Segment>>)
    requires
        charts_fit(*app),
    ensures
        lines_view(r@) == spec_analyze_text_lines(*app, width as nat),
{
    let mut r: Vec<Vec<Segment>> = Vec::new();
    let mut t: Vec<char> = Vec::new();
    push_str(&mut t, " Analyze \u{2014} ");
    push_str(&mut t, view_title_exec(app.selected_analyze_view));
    push_line(&mut r, line_of_chars(&t, Tint::Bold));
    push_blank(&mut r);
    push_results_body(&mut r, app, width);
    let ghost mid = lines_view(r@);
    if str_chars(app.status_message.as_str()).len() > 0 {
        push_blank(&mut r);
        let mut v: Vec<char> = Vec::new();
        push_str(&mut v, " ");
        push_str(&mut v, app.status_message.as_str());
        push_line(&mut r, line_of_chars(&v, Tint::DarkGray));
    }
    push_blank(&mut r);
    if app.analysis_result.is_some() && !app.is_loading {
        let h = [("\u{2191}\u{2193}", "Scroll"), ("e", "Export"), ("Esc", "Home"), ("Q", "Quit")];
        let hl = hints_line(&h);
        assert(hint_views(h@) =~= scroll_hints(true));
        push_line(&mut r, hl);
    } else {
        let h = [("\u{2191}\u{2193}", "Scroll"), ("Esc", "Home"), ("Q", "Quit")];
        let hl = hints_line(&h);
        assert(hint_views(h@) =~= scroll_hints(false));
        push_line(&mut r, hl);
    }
    assert(lines_view(r@) =~~= spec_analyze_text_lines(*app, width as nat));
    r
}

// ---------------------------------------------------------------------------
// Git tools: menu, repositories and input
// ---------------------------------------------------------------------------

/// The names of repositories given by their paths.
pub open spec fn repo_names(paths: Seq<String>) -> Seq<Seq<char>> {
    paths.map_values(|p: String| spec_display_name(p@))
}

/// The names of `paths` joined with `, `.
fn joined_names(paths: &Vec<String>) -> (r: Vec<char>)
    ensures
        r@ == join_comma(repo_names(paths@)),
{
    let ghost ns = repo_names(paths@);
    let mut r: Vec<char> = Vec::new();
    let mut i: usize = 0;
    while i < paths.len()
        invariant
            i <= paths.len(),
            ns == repo_names(paths@),
            r@ == join_comma(ns.take(i as int)),
        decreases paths.len() - i,
    {
        assert(ns.take(i + 1).drop_last() =~= ns.take(i as int));
        if i > 0 {
            push_str(&mut r, ", ");
        }
        let t = RepositoryTarget { root: paths[i].clone() };
        let name = t.display_name();
        push_str(&mut r, name.as_str());
        proof {
            if i == 0 {
                assert(join_comma(ns.take(1)) == ns[0]);
            }
        }
        i = i + 1;
        assert(r@ =~= join_comma(ns.take(i as int)));
    }
    assert(ns.take(paths.len() as int) =~= ns);
    r
}

pub open spec fn tool_label(i: int) -> Seq<char> {
    if i == 0 { "Remove merged branches"@ } else { "Remove stale branches"@ }
}

pub open spec fn tool_description(i: int) -> Seq<char> {
    if i == 0 {
        "Delete branches already merged into a base branch"@
    } else {
        "Delete branches with no activity for N days"@
    }
}

/// Bytes taken by the marker of a menu row (the arrow is three bytes of UTF-8).
pub open spec fn marker_bytes(selected: bool) -> nat {
    if selected { 4 } else { 2 }
}

/// Row `i` of the Git tools menu; the description starts at byte column 34 of the row.
pub open spec fn tool_row(i: nat, selected: bool) -> LineView {
    let rest = nat_digits(i + 1) + ". "@ + tool_label(i as int);
    seq![
        (selection(selected).0 + rest, selection(selected).1),
        (fill(marker_bytes(selected) + rest.len(), 34), Tint::Plain),
        (tool_description(i as int), Tint::DarkGray),
    ]
}

/// The lines of the Git tools menu.
pub open spec fn spec_git_tools_menu_lines(t: GitToolsState) -> Seq<LineView> {
    let head = seq![one(" Git Tools"@, Tint::Bold), blank()];
    match t.workspace_error {
        Some(e) => head + seq![one(" "@ + e@, Tint::Red), blank(), spec_hints_line(home_quit_hints())],
        None => {
            let n = t.repos@.len();
            let info: Seq<LineView> = if n == 0 {
                Seq::empty()
            } else {
                let mode = if n == 1 { "Single repository"@ } else { nat_digits(n) + " repositories"@ };
                seq![seq![("   Repos:  "@, Tint::DarkGray), (mode, Tint::Plain)]] + (if t.selected_repos@.len() > 0 {
                    seq![seq![("   Active: "@, Tint::DarkGray), (join_comma(repo_names(t.selected_repos@)), Tint::Plain)]]
                } else {
                    Seq::empty()
                }) + seq![blank()]
            };
            let note: Seq<LineView> = if n > 1 && t.selected_repos@.len() > 0 {
                seq![one(" Esc Home to change repositories"@, Tint::DarkGray), blank()]
            } else {
                Seq::empty()
            };
            head + info + seq![tool_row(0, t.selected == 0), tool_row(1, t.selected == 1), blank()] + note
                + seq![spec_hints_line(menu_hints())]
        },
    }
}

fn tool_row_exec(i: usize, selected: bool) -> (r: Vec<Segment>)
    requires
        i < 2,
    ensures
        line_view(r@) == tool_row(i as nat, selected),
{
    let mut rest: Vec<char> = Vec::new();
    push_u64_digits(&mut rest, i as u64 + 1);
    push_str(&mut rest, ". ");
    if i == 0 {
        push_str(&mut rest, "Remove merged branches");
    } else {
        push_str(&mut rest, "Remove stale branches");
    }
    assert(rest@ =~= nat_digits(i as nat + 1) + ". "@ + tool_label(i as int));
    let mut v: Vec<char> = Vec::new();
    if selected {
        push_str(&mut v, "\u{27a4} ");
    } else {
        push_str(&mut v, "  ");
    }
    push_all(&mut v, &rest);
    let tint = if selected { Tint::YellowBold } else { Tint::Plain };
    let mut r: Vec<Segment> = Vec::new();
    push_segment(&mut r, segment_of(&v, tint));
    let marker: usize = if selected { 4 } else { 2 };
    let bytes = if rest.len() < 34 { marker + rest.len() } else { 34 };
    let mut pad: Vec<char> = Vec::new();
    if bytes < 34 {
        push_repeat(&mut pad, ' ', 34 - bytes);
    }
    assert(pad@ =~= fill(marker_bytes(selected) + (nat_digits(i as nat + 1) + ". "@ + tool_label(i as int)).len(), 34));
    push_segment(&mut r, segment_of(&pad, Tint::Plain));
    if i == 0 {
        push_segment(&mut r, segment("Delete branches already merged into a base branch", Tint::DarkGray));
    } else {
        push_segment(&mut r, segment("Delete branches with no activity for N days", Tint::DarkGray));
    }
    assert(line_view(r@) =~~= tool_row(i as nat, selected));
    r
}

/// The Git tools menu: the repositories it works on and the tools to choose from, or the
/// reason no repository could be found.
pub fn git_tools_menu_lines(app: &AppState) -> (r: Vec<Vec<Segment>>)
    ensures
        lines_view(r@) == spec_git_tools_menu_lines(app.git_tools),
{
    let t = &app.git_tools;
    let mut r: Vec<Vec<Segment>> = Vec::new();
    push_text(&mut r, " Git Tools", Tint::Bold);
    push_blank(&mut r);
    match &t.workspace_error {
        Some(e) => {
            let mut v: Vec<char> = Vec::new();
            push_str(&mut v, " ");
            push_str(&mut v, e.as_str());
            push_line(&mut r, line_of_chars(&v, Tint::Red));
            push_blank(&mut r);
            push_line(&mut r, home_quit_line());
        },
        None => {
            let n = t.repos.len();
            if n > 0 {
                let mut m: Vec<char> = Vec::new();
                if n == 1 {
                    push_str(&mut m, "Single repository");
                } else {
                    push_u64_digits(&mut m, n as u64);
                    push_str(&mut m, " repositories");
                }
                let mut l: Vec<Segment> = Vec::new();
                push_segment(&mut l, segment("   Repos:  ", Tint::DarkGray));
                push_segment(&mut l, segment_of(&m, Tint::Plain));
                push_line(&mut r, l);
                if t.selected_repos.len() > 0 {
                    let names = joined_names(&t.selected_repos);
                    let mut a: Vec<Segment> = Vec::new();
                    push_segment(&mut a, segment("   Active: ", Tint::DarkGray));
                    push_segment(&mut a, segment_of(&names, Tint::Plain));
                    push_line(&mut r, a);
                }
                push_blank(&mut r);
            }
            push_line(&mut r, tool_row_exec(0, t.selected == 0));
            push_line(&mut r, tool_row_exec(1, t.selected == 1));
            push_blank(&mut r);
            if n > 1 && t.selected_repos.len() > 0 {
                push_text(&mut r, " Esc Home to change repositories", Tint::DarkGray);
                push_blank(&mut r);
            }
            push_line(&mut r, menu_hints_line());
        },
    }
    assert(lines_view(r@) =~~= spec_git_tools_menu_lines(app.git_tools));
    r
}

/// `[x]` for a checked box, `[ ]` otherwise.
pub open spec fn check_box(checked: bool) -> Seq<char> {
    if checked { "[x]"@ } else { "[ ]"@ }
}

/// Row `i + 1` of the repository choice: checkbox, number, name and path.
pub open spec fn repo_row(i: nat, path: Seq<char>, checked: bool, cursor: bool) -> LineView {
    seq![
        (selection(cursor).0 + check_box(checked) + " "@ + nat_digits(i + 1) + ". "@ + spec_display_name(path), selection(cursor).1),
        ("  ("@ + path + ")"@, Tint::DarkGray),
    ]
}

pub open spec fn toggle_hints() -> Seq<(Seq<char>, Seq<char>)> {
    seq![
        hint("\u{2191}\u{2193}", "Navigate"),
        hint("Space", "Toggle"),
        hint("Enter", "Confirm"),
        hint("Esc", "Back"),
        hint("Q", "Quit"),
    ]
}

/// The lines of the repository choice.
pub open spec fn spec_repo_select_lines(t: GitToolsState) -> Seq<LineView> {
    let all = t.repo_checked@.len() > 0 && forall|i: int| 0 <= i < t.repo_checked@.len() ==> t.repo_checked@[i];
    seq![
        one(" Git Tools \u{2014} Select Repository"@, Tint::Bold),
        blank(),
        one(selection(t.repo_select_idx == 0).0 + check_box(all) + " 0. Select all"@, selection(t.repo_select_idx == 0).1),
    ] + Seq::new(t.repos@.len(), |i: int| repo_select_row(t, i)) + seq![blank(), spec_hints_line(toggle_hints())]
}

/// Row `i + 1` of the repository choice for the state `t`.
pub open spec fn repo_select_row(t: GitToolsState, i: int) -> LineView {
    repo_row(i as nat, t.repos@[i]@, i < t.repo_checked@.len() && t.repo_checked@[i], i + 1 == t.repo_select_idx)
}

/// The repository choice of the Git tools: a "select all" row and a checkbox per repository.
pub fn repo_select_lines(app: &AppState) -> (r: Vec<Vec<Segment>>)
    ensures
        lines_view(r@) == spec_repo_select_lines(app.git_tools),
{
    let t = &app.git_tools;
    let mut r: Vec<Vec<Segment>> = Vec::new();
    push_text(&mut r, " Git Tools \u{2014} Select Repository", Tint::Bold);
    push_blank(&mut r);
    let on_all = t.repo_select_idx == 0;
    let mut v: Vec<char> = Vec::new();
    if on_all {
        push_str(&mut v, "\u{27a4} ");
    } else {
        push_str(&mut v, "  ");
    }
    if t.all_repos_checked() {
        push_str(&mut v, "[x]");
    } else {
        push_str(&mut v, "[ ]");
    }
    push_str(&mut v, " 0. Select all");
    push_line(&mut r, line_of_chars(&v, if on_all { Tint::YellowBold } else { Tint::Plain }));
    let ghost head = lines_view(r@);
    let mut i: usize = 0;
    while i < t.repos.len()
        invariant
            i <= t.repos.len(),
            lines_view(r@) == head + Seq::new(i as nat, |k: int| repo_select_row(*t, k)),
        decreases t.repos.len() - i,
    {
        let checked = i < t.repo_checked.len() && t.repo_checked[i];
        let cursor = i + 1 == t.repo_select_idx;
        let mut a: Vec<char> = Vec::new();
        push_numbered_check(&mut a, cursor, checked, i);
        let target = RepositoryTarget { root: t.repos[i].clone() };
        let name = target.display_name();
        push_str(&mut a, name.as_str());
        let mut b: Vec<char> = Vec::new();
        push_str(&mut b, "  (");
        push_str(&mut b, t.repos[i].as_str());
        push_str(&mut b, ")");
        let mut l: Vec<Segment> = Vec::new();
        push_segment(&mut l, segment_of(&a, if cursor { Tint::YellowBold } else { Tint::Plain }));
        push_segment(&mut l, segment_of(&b, Tint::DarkGray));
        assert(target.root@ == t.repos@[i as int]@);
        assert(checked == (i < t.repo_checked@.len() && t.repo_checked@[i as int]));
        assert(a@ =~= selection(cursor).0 + check_box(checked) + " "@ + nat_digits(i as nat + 1) + ". "@
            + spec_display_name(t.repos@[i as int]@));
        assert(line_view(l@) =~~= repo_select_row(*t, i as int));
        push_line(&mut r, l);
        assert(Seq::new((i + 1) as nat, |k: int| repo_select_row(*t, k)) =~= Seq::new(
            i as nat,
            |k: int| repo_select_row(*t, k),
        ).push(repo_select_row(*t, i as int)));
        i = i + 1;
    }
    push_blank(&mut r);
    let h = [("\u{2191}\u{2193}", "Navigate"), ("Space", "Toggle"), ("Enter", "Confirm"), ("Esc", "Back"), ("Q", "Quit")];
    let hl = hints_line(&h);
    assert(hint_views(h@) =~= toggle_hints());
    push_line(&mut r, hl);
    assert(lines_view(r@) =~~= spec_repo_select_lines(app.git_tools));
    r
}

fn push_numbered_check(v: &mut Vec<char>, cursor: bool, checked: bool, i: usize)
    requires
        i < usize::MAX,
    ensures
        final(v)@ == old(v)@ + selection(cursor).0 + check_box(checked) + " "@ + nat_digits(i as nat + 1) + ". "@,
{
    if cursor {
        push_str(v, "\u{27a4} ");
    } else {
        push_str(v, "  ");
    }
    if checked {
        push_str(v, "[x]");
    } else {
        push_str(v, "[ ]");
    }
    push_str(v, " ");
    push_u64_digits(v, i as u64 + 1);
    push_str(v, ". ");
}

pub open spec fn input_title(mode: Option<GitToolsMode>) -> Seq<char> {
    match mode {
        Some(GitToolsMode::MergedBranches) => "Remove Merged Branches"@,
        Some(GitToolsMode::StaleBranches) => "Remove Stale Branches"@,
        None => "Git Tools"@,
    }
}

pub open spec fn input_prompt(mode: Option<GitToolsMode>) -> Seq<char> {
    match mode {
        Some(GitToolsMode::MergedBranches) => " Enter base branch name:"@,
        Some(GitToolsMode::StaleBranches) => " Enter number of days (default: 90):"@,
        None => " Input:"@,
    }
}

pub open spec fn confirm_back_hints() -> Seq<(Seq<char>, Seq<char>)> {
    seq![hint("Enter", "Confirm"), hint("Esc", "Back")]
}

/// The lines of the Git tools input screen.
pub open spec fn spec_git_tools_input_lines(t: GitToolsState, loading: bool, frame: nat) -> Seq<LineView> {
    let n = t.selected_repos@.len();
    let repos: Seq<LineView> = if n == 0 {
        Seq::empty()
    } else {
        seq![
            seq![(if n == 1 { "   Repo:  "@ } else { "   Repos:  "@ }, Tint::DarkGray), (join_comma(repo_names(t.selected_repos@)), Tint::Plain)],
            blank(),
        ]
    };
    let body: Seq<LineView> = if loading {
        seq![seq![(seq![' ', spinner(frame)], Tint::Cyan), (" Scanning branches..."@, Tint::Yellow)]]
    } else if t.error is Some {
        seq![one(" Error: "@ + t.error->0@, Tint::Red), blank(), spec_hints_line(back_hints())]
    } else {
        seq![
            one(input_prompt(t.mode), Tint::DarkGray),
            blank(),
            seq![(" > "@, Tint::Plain), (t.input@, Tint::Plain), ("_"@, Tint::Yellow)],
            blank(),
            spec_hints_line(confirm_back_hints()),
        ]
    };
    seq![one(" Git Tools \u{2014} "@ + input_title(t.mode), Tint::Bold), blank()] + repos + body
}

/// The input screen of a Git tool: the base branch or the number of days, with the
/// repositories it applies to; the scan in progress, or its error.
pub fn git_tools_input_lines(app: &AppState) -> (r: Vec<Vec<Segment>>)
    ensures
        lines_view(r@) == spec_git_tools_input_lines(app.git_tools, app.is_loading, app.spinner_frame as nat),
{
    let t = &app.git_tools;
    let mut r: Vec<Vec<Segment>> = Vec::new();
    let mut title: Vec<char> = Vec::new();
    push_str(&mut title, " Git Tools \u{2014} ");
    match t.mode {
        Some(GitToolsMode::MergedBranches) => push_str(&mut title, "Remove Merged Branches"),
        Some(GitToolsMode::StaleBranches) => push_str(&mut title, "Remove Stale Branches"),
        None => push_str(&mut title, "Git Tools"),
    }
    push_line(&mut r, line_of_chars(&title, Tint::Bold));
    push_blank(&mut r);
    if t.selected_repos.len() > 0 {
        let names = joined_names(&t.selected_repos);
        let mut l: Vec<Segment> = Vec::new();
        if t.selected_repos.len() == 1 {
            push_segment(&mut l, segment("   Repo:  ", Tint::DarkGray));
        } else {
            push_segment(&mut l, segment("   Repos:  ", Tint::DarkGray));
        }
        push_segment(&mut l, segment_of(&names, Tint::Plain));
        push_line(&mut r, l);
        push_blank(&mut r);
    }
    if app.is_loading {
        let mut v: Vec<char> = Vec::new();
        v.push(' ');
        v.push(spinner_exec(app.spinner_frame));
        let mut l: Vec<Segment> = Vec::new();
        push_segment(&mut l, segment_of(&v, Tint::Cyan));
        push_segment(&mut l, segment(" Scanning branches...", Tint::Yellow));
        push_line(&mut r, l);
    } else {
        match &t.error {
            Some(e) => {
                let mut v: Vec<char> = Vec::new();
                push_str(&mut v, " Error: ");
                push_str(&mut v, e.as_str());
                push_line(&mut r, line_of_chars(&v, Tint::Red));
                push_blank(&mut r);
                let h = [("Esc", "Back")];
                let hl = hints_line(&h);
                assert(hint_views(h@) =~= back_hints());
                push_line(&mut r, hl);
            },
            None => {
                match t.mode {
                    Some(GitToolsMode::MergedBranches) => push_text(&mut r, " Enter base branch name:", Tint::DarkGray),
                    Some(GitToolsMode::StaleBranches) => push_text(
                        &mut r,
                        " Enter number of days (default: 90):",
                        Tint::DarkGray,
                    ),
                    None => push_text(&mut r, " Input:", Tint::DarkGray),
                }
                push_blank(&mut r);
                let mut l: Vec<Segment> = Vec::new();
                push_segment(&mut l, segment(" > ", Tint::Plain));
                push_segment(&mut l, Segment { text: t.input.clone(), tint: Tint::Plain });
                push_segment(&mut l, segment("_", Tint::Yellow));
                push_line(&mut r, l);
                push_blank(&mut r);
                let h = [("Enter", "Confirm"), ("Esc", "Back")];
                let hl = hints_line(&h);
                assert(hint_views(h@) =~= confirm_back_hints());
                push_line(&mut r, hl);
            },
        }
    }
    assert(lines_view(r@) =~~= spec_git_tools_input_lines(app.git_tools, app.is_loading, app.spinner_frame as nat));
    r
}

} // verus!
