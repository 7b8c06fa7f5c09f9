//! Screens, menus and the state of the Git tools.
use vstd::prelude::*;

use crate::analytics::{BarChartData, TimelineData};
use crate::git::branches::BranchInfo;
use crate::git::repository::trimmed;
use crate::model::{ComparisonReport, HeatmapData, PartialFailure};
use crate::text::{
    contains_seq, lowercase, parse_u64_in, parse_u64_spec, range_contains, str_chars,
    string_of_str, string_views, to_lowercase, trim_seq,
};

verus! {

broadcast use vstd::string::group_string_axioms;

#[derive(Debug, Clone, Copy, PartialEq, Eq, Structural)]
pub enum Screen {
    Home,
    Help,
    AnalyzeMenu,
    Analyze,
    Metadata,
    UserSelect,
    GitToolsMenu,
    GitToolsRepoSelect,
    GitToolsInput,
    GitToolsBranchList,
    GitToolsProgress,
}

#[derive(Debug, Clone, Copy, PartialEq, Eq, Structural)]
pub enum AnalyzeView {
    All,
    Contribution,
    Activity,
    ActivityHeatmap,
    WeekdayChart,
    HourlyChart,
    TimelineChart,
    UserEffort,
    CompareRepos,
}

pub const ANALYZE_MENU_ITEMS: [(&'static str, AnalyzeView); 9] = [
    ("Full report", AnalyzeView::All),
    ("Contribution", AnalyzeView::Contribution),
    ("Most active days and hours", AnalyzeView::Activity),
    ("Activity heatmap", AnalyzeView::ActivityHeatmap),
    ("Commits by weekday", AnalyzeView::WeekdayChart),
    ("Commits by hour", AnalyzeView::HourlyChart),
    ("Commit timeline", AnalyzeView::TimelineChart),
    ("User effort", AnalyzeView::UserEffort),
    ("Compare repositories", AnalyzeView::CompareRepos),
];

#[derive(Debug, Clone, Copy, PartialEq, Eq, Structural)]
pub enum MenuItem {
    Analyze,
    GitTools,
    Help,
    Metadata,
}

pub open spec fn spec_menu_description(item: MenuItem) -> Seq<char> {
    match item {
        MenuItem::Analyze => "Analyze one or more repositories"@,
        MenuItem::GitTools => "Git repository maintenance tools"@,
        MenuItem::Help => "Keybindings and usage guide"@,
        MenuItem::Metadata => "Database info and table row counts"@,
    }
}

pub open spec fn spec_menu_screen(item: MenuItem) -> Screen {
    match item {
        MenuItem::Analyze => Screen::AnalyzeMenu,
        MenuItem::GitTools => Screen::GitToolsMenu,
        MenuItem::Help => Screen::Help,
        MenuItem::Metadata => Screen::Metadata,
    }
}

pub open spec fn spec_menu_label(item: MenuItem) -> Seq<char> {
    match item {
        MenuItem::Analyze => "Analyze"@,
        MenuItem::GitTools => "Git Tools"@,
        MenuItem::Help => "Help"@,
        MenuItem::Metadata => "Metadata"@,
    }
}

impl MenuItem {
    /// One line describing what the item opens.
    pub fn description(&self) -> (s: &'static str)
        ensures
            s@ == spec_menu_description(*self),
    {
        match self {
            MenuItem::Analyze => "Analyze one or more repositories",
            MenuItem::GitTools => "Git repository maintenance tools",
            MenuItem::Help => "Keybindings and usage guide",
            MenuItem::Metadata => "Database info and table row counts",
        }
    }

    /// The screen the item opens.
    pub fn screen(&self) -> (s: Screen)
        ensures
            s == spec_menu_screen(*self),
    {
        match self {
            MenuItem::Analyze => Screen::AnalyzeMenu,
            MenuItem::GitTools => Screen::GitToolsMenu,
            MenuItem::Help => Screen::Help,
            MenuItem::Metadata => Screen::Metadata,
        }
    }

    /// The item's name as the menu shows it.
    pub fn label(&self) -> (s: &'static str)
        ensures
            s@ == spec_menu_label(*self),
    {
        match self {
            MenuItem::Analyze => "Analyze",
            MenuItem::GitTools => "Git Tools",
            MenuItem::Help => "Help",
            MenuItem::Metadata => "Metadata",
        }
    }
}

#[derive(Debug, Clone, Copy, PartialEq, Eq, Structural)]
pub enum GitToolsMode {
    MergedBranches,
    StaleBranches,
}

pub const GIT_TOOLS_MENU_ITEMS: [(&'static str, &'static str, GitToolsMode); 2] = [
    (
        "Remove merged branches",
        "Delete branches already merged into a base branch",
        GitToolsMode::MergedBranches,
    ),
    ("Remove stale branches", "Delete branches with no activity for N days", GitToolsMode::StaleBranches),
];

/// Number of entries of the Git tools menu.
pub const GIT_TOOLS_MENU_LEN: usize = 2;

/// Rich progress info for a single branch deletion.
#[derive(Debug, Clone)]
pub struct BranchProgress {
    pub name: String,
    pub local_ok: Option<bool>,
    pub remote_ok: Option<bool>,
    pub processed: bool,
}

/// The state of the Git tools screens.
#[derive(Debug, Clone)]
pub struct GitToolsState {
    pub selected: usize,
    pub mode: Option<GitToolsMode>,
    pub input: String,
    pub branches: Vec<BranchInfo>,
    /// Protected branches found in selected repos: (repo_display_name, branch_name).
    pub protected_branches: Vec<(String, String)>,
    pub progress: Vec<BranchProgress>,
    /// Index of the branch currently being processed.
    pub current_index: usize,
    /// Display name of the repo currently being processed.
    pub current_repo: String,
    pub done: bool,
    pub error: Option<String>,
    pub scroll: u16,
    pub repos: Vec<String>,
    pub repo_checked: Vec<bool>,
    pub selected_repos: Vec<String>,
    /// Cursor position in repo picker. 0 = "Select all" row, 1.. = individual repos.
    pub repo_select_idx: usize,
    pub workspace_error: Option<String>,
}

/// The tool-specific part of the state is empty.
pub open spec fn tool_cleared(s: GitToolsState) -> bool {
    &&& s.mode is None
    &&& s.input@.len() == 0
    &&& s.branches@.len() == 0
    &&& s.protected_branches@.len() == 0
    &&& s.progress@.len() == 0
    &&& s.current_index == 0
    &&& s.current_repo@.len() == 0
    &&& !s.done
    &&& s.error is None
    &&& s.scroll == 0
    &&& s.repo_select_idx == 0
}

/// The state of a fresh Git tools session.
pub open spec fn is_fresh(s: GitToolsState) -> bool {
    &&& tool_cleared(s)
    &&& s.selected == 0
    &&& s.repos@.len() == 0
    &&& s.repo_checked@.len() == 0
    &&& s.selected_repos@.len() == 0
    &&& s.workspace_error is None
}

/// The checkboxes after toggling the row at `idx` (row 0 toggles them all).
pub open spec fn spec_toggle(checked: Seq<bool>, idx: int) -> Seq<bool> {
    if idx == 0 {
        spec_toggle_all(checked)
    } else if idx - 1 < checked.len() {
        checked.update(idx - 1, !checked[idx - 1])
    } else {
        checked
    }
}

/// All checkboxes cleared when all are checked, else all checked.
pub open spec fn spec_toggle_all(checked: Seq<bool>) -> Seq<bool> {
    let all = forall|i: int| 0 <= i < checked.len() ==> checked[i];
    Seq::new(checked.len(), |i: int| !all)
}

/// New scroll offset that keeps repo picker row `idx` (after 2 header lines) within a
/// viewport of `visible_height` lines, 2 of which are a footer.
pub open spec fn spec_repo_scroll(scroll: u16, idx: usize, visible_height: u16) -> u16 {
    let item_line = 2 + (idx as u16);
    let visible = if visible_height >= 2 { visible_height - 2 } else { 0 };
    if visible > 0 && item_line >= scroll + visible {
        (item_line - visible + 1) as u16
    } else if item_line < scroll {
        item_line as u16
    } else {
        scroll
    }
}

/// What `GitToolsState::clear_tool` does.
pub open spec fn tools_clear_tool(a: GitToolsState, b: GitToolsState) -> bool {
    &&& tool_cleared(b)
    &&& b.selected == a.selected
    &&& b.repos == a.repos
    &&& b.repo_checked == a.repo_checked
    &&& b.selected_repos == a.selected_repos
    &&& b.workspace_error == a.workspace_error
}

/// What `GitToolsState::menu_up` does.
pub open spec fn tools_menu_up(a: GitToolsState, b: GitToolsState) -> bool {
    &&& b == (GitToolsState { selected: if a.selected > 0 { (a.selected - 1) as usize } else { 0 }, ..a })
}

/// What `GitToolsState::menu_down` does.
pub open spec fn tools_menu_down(a: GitToolsState, b: GitToolsState) -> bool {
    &&& b == (GitToolsState {
        selected: if a.selected + 1 < GIT_TOOLS_MENU_LEN { (a.selected + 1) as usize } else { a.selected },
        ..a
    })
}

/// What `GitToolsState::scroll_up` does.
pub open spec fn tools_scroll_up(a: GitToolsState, b: GitToolsState) -> bool {
    &&& b == (GitToolsState { scroll: if a.scroll > 0 { (a.scroll - 1) as u16 } else { 0 }, ..a })
}

/// What `GitToolsState::repo_select_up` does.
pub open spec fn tools_repo_select_up(a: GitToolsState, b: GitToolsState) -> bool {
    &&& b == (GitToolsState {
        repo_select_idx: if a.repo_select_idx > 0 { (a.repo_select_idx - 1) as usize } else { 0 },
        ..a
    })
}

/// What `GitToolsState::repo_select_down` does.
pub open spec fn tools_repo_select_down(a: GitToolsState, b: GitToolsState) -> bool {
    &&& b == (GitToolsState {
        repo_select_idx: if a.repo_select_idx < a.repos.len() { (a.repo_select_idx + 1) as usize } else { a.repo_select_idx },
        ..a
    })
}

impl GitToolsState {
    pub fn new() -> (s: Self)
        ensures
            is_fresh(s),
    {
        GitToolsState {
            selected: 0,
            mode: None,
            input: String::new(),
            branches: Vec::new(),
            protected_branches: Vec::new(),
            progress: Vec::new(),
            current_index: 0,
            current_repo: String::new(),
            done: false,
            error: None,
            scroll: 0,
            repos: Vec::new(),
            repo_checked: Vec::new(),
            selected_repos: Vec::new(),
            repo_select_idx: 0,
            workspace_error: None,
        }
    }

    /// Full reset: used when leaving Git Tools entirely.
    pub fn clear(&mut self)
        ensures
            is_fresh(*final(self)),
    {
        *self = Self::new();
    }

    /// Reset tool-specific state but keep the workspace (repos, checkboxes, selected repos,
    /// workspace error) and the menu cursor.
    pub fn clear_tool(&mut self)
        ensures
            tools_clear_tool(*old(self), *final(self)),

    {
        self.mode = None;
        self.input = String::new();
        self.branches = Vec::new();
        self.protected_branches = Vec::new();
        self.progress = Vec::new();
        self.current_index = 0;
        self.current_repo = String::new();
        self.done = false;
        self.error = None;
        self.scroll = 0;
        self.repo_select_idx = 0;
    }

    pub fn menu_up(&mut self)
        ensures
            tools_menu_up(*old(self), *final(self)),

    {
        if self.selected > 0 {
            self.selected = self.selected - 1;
        }
    }

    pub fn menu_down(&mut self)
        ensures
            tools_menu_down(*old(self), *final(self)),

    {
        if self.selected < GIT_TOOLS_MENU_LEN - 1 {
            self.selected = self.selected + 1;
        }
    }

    pub fn scroll_up(&mut self)
        ensures
            tools_scroll_up(*old(self), *final(self)),

    {
        if self.scroll > 0 {
            self.scroll = self.scroll - 1;
        }
    }

    /// Scroll down one line, up to `content_height - visible_height`.
    pub fn scroll_down(&mut self, content_height: u16, visible_height: u16)
        ensures
            *final(self) == (GitToolsState {
                scroll: if old(self).scroll + visible_height < content_height {
                    (old(self).scroll + 1) as u16
                } else {
                    old(self).scroll
                },
                ..*old(self)
            }),
    {
        let max_offset: u16 = if content_height >= visible_height { content_height - visible_height } else { 0 };
        if self.scroll < max_offset {
            self.scroll = self.scroll + 1;
        }
    }

    pub fn repo_select_up(&mut self)
        ensures
            tools_repo_select_up(*old(self), *final(self)),

    {
        if self.repo_select_idx > 0 {
            self.repo_select_idx = self.repo_select_idx - 1;
        }
    }

    /// Row 0 is "Select all", rows `1..=repos.len()` are the repositories.
    pub fn repo_select_down(&mut self)
        ensures
            tools_repo_select_down(*old(self), *final(self)),

    {
        if self.repo_select_idx < self.repos.len() {
            self.repo_select_idx = self.repo_select_idx + 1;
        }
    }

    /// Toggle checkbox for the repo at the current cursor position.
    pub fn toggle_repo(&mut self)
        ensures
            final(self).repo_checked@ == spec_toggle(old(self).repo_checked@, old(self).repo_select_idx as int),
            *final(self) == (GitToolsState { repo_checked: final(self).repo_checked, ..*old(self) }),
    {
        if self.repo_select_idx == 0 {
            self.toggle_all_repos();
        } else {
            let i = self.repo_select_idx - 1;
            if i < self.repo_checked.len() {
                let v = !self.repo_checked[i];
                self.repo_checked.set(i, v);
            }
        }
    }

    /// If all repos are checked, uncheck all; otherwise check all.
    pub fn toggle_all_repos(&mut self)
        ensures
            final(self).repo_checked@ == spec_toggle_all(old(self).repo_checked@),
            *final(self) == (GitToolsState { repo_checked: final(self).repo_checked, ..*old(self) }),
    {
        let all_checked = self.all_checked();
        let new_val = !all_checked;
        let mut i: usize = 0;
        let ghost orig = self.repo_checked@;
        while i < self.repo_checked.len()
            invariant
                i <= self.repo_checked.len(),
                self.repo_checked.len() == orig.len(),
                forall|j: int| 0 <= j < i ==> self.repo_checked[j] == new_val,
                *self == (GitToolsState { repo_checked: self.repo_checked, ..*old(self) }),
            decreases self.repo_checked.len() - i,
        {
            self.repo_checked.set(i, new_val);
            i = i + 1;
        }
        assert(self.repo_checked@ =~= spec_toggle_all(orig));
    }

    /// Whether every checkbox is set (true for none).
    fn all_checked(&self) -> (b: bool)
        ensures
            b == forall|i: int| 0 <= i < self.repo_checked.len() ==> self.repo_checked[i],
    {
        let mut i: usize = 0;
        while i < self.repo_checked.len()
            invariant
                i <= self.repo_checked.len(),
                forall|j: int| 0 <= j < i ==> self.repo_checked[j],
            decreases self.repo_checked.len() - i,
        {
            if !self.repo_checked[i] {
                return false;
            }
            i = i + 1;
        }
        true
    }

    /// Returns true if there are repos and all are checked.
    pub fn all_repos_checked(&self) -> (b: bool)
        ensures
            b == (self.repo_checked.len() > 0 && forall|i: int| 0 <= i < self.repo_checked.len() ==> self.repo_checked[i]),
    {
        self.repo_checked.len() > 0 && self.all_checked()
    }

    /// Keep the selected repo visible in the scrollable viewport (2 header lines, 2 footer
    /// lines).
    pub fn ensure_repo_visible(&mut self, visible_height: u16)
        requires
            (old(self).repo_select_idx as u16) as int + 2 <= u16::MAX,
            old(self).scroll as int + (if visible_height >= 2 { visible_height - 2 } else { 0 }) <= u16::MAX,
        ensures
            *final(self) == (GitToolsState {
                scroll: spec_repo_scroll(old(self).scroll, old(self).repo_select_idx, visible_height),
                ..*old(self)
            }),
    {
        let header: u16 = 2;
        let footer: u16 = 2;
        let item_line = header + self.repo_select_idx as u16;
        let visible = if visible_height >= footer { visible_height - footer } else { 0 };
        if visible > 0 && item_line >= self.scroll + visible {
            self.scroll = item_line - visible + 1;
        } else if item_line < self.scroll {
            self.scroll = item_line;
        }
    }
}

/// Toggling the checkbox of one repository twice leaves the checkboxes as they were.
pub proof fn lemma_toggle_repo_twice(checked: Seq<bool>, idx: int)
    requires
        idx >= 1,
    ensures
        spec_toggle(spec_toggle(checked, idx), idx) == checked,
{
    assert(spec_toggle(spec_toggle(checked, idx), idx) =~= checked);
}

/// "Select all" makes every box alike, and toggling it twice gives back a list whose boxes
/// were all alike.
pub proof fn lemma_toggle_all_twice(checked: Seq<bool>)
    requires
        forall|i: int, j: int| 0 <= i < checked.len() && 0 <= j < checked.len() ==> checked[i] == checked[j],
    ensures
        spec_toggle_all(spec_toggle_all(checked)) == checked,
{
    let once = spec_toggle_all(checked);
    if checked.len() > 0 {
        if checked[0] {
            assert(forall|i: int| 0 <= i < once.len() ==> !once[i]);
            assert(!once[0]);
        } else {
            assert(!(forall|i: int| 0 <= i < checked.len() ==> checked[i]));
            assert(forall|i: int| 0 <= i < once.len() ==> once[i]);
        }
    }
    assert(spec_toggle_all(once) =~= checked);
}

/// The workspace the interface was started in.
#[derive(Debug, Clone)]
pub struct WorkspaceInfo {
    pub folder: String,
    pub is_single_repo: bool,
    pub repo_count: usize,
}

/// Work for the event loop to carry out.
#[derive(Debug, Clone, PartialEq, Eq)]
pub enum AppAction {
    StartAnalyze { paths: Vec<String>, view: AnalyzeView },
    RenderUserEffort,
    LoadMetadata,
    ProbeWorkspace,
    ListMergedBranches { base_branch: String },
    ListStaleBranches { days: u64 },
    DeleteBranches,
    ProbeGitToolsWorkspace,
    ExportMarkdown,
}


// ---------------------------------------------------------------------------
// The state of the interface
// ---------------------------------------------------------------------------

/// Everything the interface shows and remembers between two key presses.
#[derive(Debug, Clone)]
pub struct AppState {
    pub menu_items: Vec<MenuItem>,
    pub selected: usize,
    pub active_screen: Screen,
    pub should_quit: bool,
    pub analysis_result: Option<ComparisonReport>,
    pub errors: Vec<PartialFailure>,
    pub pending_action: Option<AppAction>,
    pub input_buffer: String,
    pub input_paths: Vec<String>,
    pub status_message: String,
    pub analyze_menu_selected: usize,
    pub selected_analyze_view: AnalyzeView,
    pub analysis_table: Option<String>,
    pub heatmap_data: Option<HeatmapData>,
    pub metadata_text: Option<String>,
    pub workspace_info: Option<WorkspaceInfo>,
    pub is_loading: bool,
    pub spinner_frame: usize,
    pub progress_log: Vec<String>,
    pub scroll_offset: u16,
    pub content_height: u16,
    pub visible_height: u16,
    pub contributor_list: Vec<(String, String)>,
    pub contributor_filter: String,
    pub contributor_selected: usize,
    pub selected_email: Option<String>,
    /// How long the last analysis took, in milliseconds.
    pub analysis_elapsed: u64,
    pub weekday_chart: Option<BarChartData>,
    pub hourly_chart: Option<BarChartData>,
    pub timeline_data: Option<TimelineData>,
    pub git_tools: GitToolsState,
}

/// The items of the home menu, in order.
pub open spec fn spec_home_menu() -> Seq<MenuItem> {
    seq![MenuItem::Analyze, MenuItem::GitTools, MenuItem::Help, MenuItem::Metadata]
}

/// The view of entry `i` of the analysis menu.
pub open spec fn analyze_menu_view(i: int) -> AnalyzeView {
    if i == 0 {
        AnalyzeView::All
    } else if i == 1 {
        AnalyzeView::Contribution
    } else if i == 2 {
        AnalyzeView::Activity
    } else if i == 3 {
        AnalyzeView::ActivityHeatmap
    } else if i == 4 {
        AnalyzeView::WeekdayChart
    } else if i == 5 {
        AnalyzeView::HourlyChart
    } else if i == 6 {
        AnalyzeView::TimelineChart
    } else if i == 7 {
        AnalyzeView::UserEffort
    } else {
        AnalyzeView::CompareRepos
    }
}

/// The analysis menu shows "Compare repositories" only in a workspace of several repositories.
pub open spec fn spec_effective_menu_len(w: Option<WorkspaceInfo>) -> usize {
    match w {
        Some(w) => if !w.is_single_repo && w.repo_count > 1 {
            9
        } else {
            8
        },
        None => 8,
    }
}

/// The (email, name) pairs of a contributor list.
pub open spec fn pair_views(v: Seq<(String, String)>) -> Seq<(Seq<char>, Seq<char>)> {
    v.map_values(|p: (String, String)| (p.0@, p.1@))
}

/// The contributors whose lowercased email or name holds the lowercased filter `f`.
pub open spec fn matching_contributors(v: Seq<(String, String)>, f: Seq<char>) -> Seq<(Seq<char>, Seq<char>)>
    decreases v.len(),
{
    if v.len() == 0 {
        Seq::empty()
    } else {
        let p = matching_contributors(v.drop_last(), f);
        let e = v.last();
        if contains_seq(lowercase(e.0@), f) || contains_seq(lowercase(e.1@), f) {
            p.push((e.0@, e.1@))
        } else {
            p
        }
    }
}

/// The contributor list as filtered by `filter` (all of it when the filter is empty).
pub open spec fn spec_filtered(v: Seq<(String, String)>, filter: Seq<char>) -> Seq<(Seq<char>, Seq<char>)> {
    if filter.len() == 0 {
        pair_views(v)
    } else {
        matching_contributors(v, lowercase(filter))
    }
}

/// The repositories whose checkbox is set (pairing the two lists up to the shorter one).
pub open spec fn checked_repos(repos: Seq<String>, checked: Seq<bool>) -> Seq<Seq<char>>
    decreases repos.len(),
{
    if repos.len() == 0 {
        Seq::empty()
    } else if repos.len() <= checked.len() && checked[repos.len() - 1] {
        checked_repos(repos.drop_last(), checked).push(repos.last()@)
    } else {
        checked_repos(repos.drop_last(), checked)
    }
}

/// The scroll offset that keeps contributor row `idx` (after 4 header lines) within a
/// viewport of `visible_height` lines, 2 of which are a footer.
pub open spec fn spec_contributor_scroll(scroll: u16, idx: usize, visible_height: u16) -> u16 {
    let item_line = 4 + (idx as u16);
    let visible = if visible_height >= 2 { visible_height - 2 } else { 0 };
    if visible > 0 && item_line >= scroll + visible {
        (item_line - visible + 1) as u16
    } else if item_line < scroll {
        item_line as u16
    } else {
        scroll
    }
}

/// What a stale-branch age field asks for: 90 days when empty, else a positive number.
pub open spec fn spec_stale_days(input: Seq<char>) -> Option<u64> {
    let t = trim_seq(input);
    if t.len() == 0 {
        Some(90)
    } else {
        match parse_u64_spec(t) {
            Some(d) => if d > 0 { Some(d) } else { None },
            None => None,
        }
    }
}

fn copy_strings(v: &Vec<String>) -> (r: Vec<String>)
    ensures
        string_views(r@) == string_views(v@),
{
    let mut r: Vec<String> = Vec::new();
    let mut i: usize = 0;
    while i < v.len()
        invariant
            i <= v.len(),
            r.len() == i,
            forall|j: int| 0 <= j < i ==> #[trigger] r@[j]@ == v@[j]@,
        decreases v.len() - i,
    {
        r.push(v[i].clone());
        i = i + 1;
    }
    assert(string_views(r@) =~= string_views(v@));
    r
}

fn copy_failures(v: &Vec<PartialFailure>) -> (r: Vec<PartialFailure>)
    ensures
        r.len() == v.len(),
        forall|j: int| #![trigger r@[j]] 0 <= j < v.len() ==> r@[j].path@ == v@[j].path@ && r@[j].reason@ == v@[j].reason@,
{
    let mut r: Vec<PartialFailure> = Vec::new();
    let mut i: usize = 0;
    while i < v.len()
        invariant
            i <= v.len(),
            r.len() == i,
            forall|j: int| #![trigger r@[j]] 0 <= j < i ==> r@[j].path@ == v@[j].path@ && r@[j].reason@ == v@[j].reason@,
        decreases v.len() - i,
    {
        r.push(PartialFailure { path: v[i].path.clone(), reason: v[i].reason.clone() });
        i = i + 1;
    }
    r
}

/// Whether the lowercased `s` holds `f`.
fn lower_contains(s: &String, f: &Vec<char>) -> (b: bool)
    ensures
        b == contains_seq(lowercase(s@), f@),
{
    let l = to_lowercase(s.as_str());
    let c = str_chars(l.as_str());
    assert(c@.subrange(0, c.len() as int) =~= c@);
    range_contains(&c, 0, c.len(), f)
}

/// What `AppState::move_up` does.
pub open spec fn app_move_up(a: AppState, b: AppState) -> bool {
    &&& b == (AppState { selected: if a.selected > 0 { (a.selected - 1) as usize } else { 0 }, ..a })
}

/// What `AppState::move_down` does.
pub open spec fn app_move_down(a: AppState, b: AppState) -> bool {
    &&& b == (AppState {
        selected: if a.selected + 1 < a.menu_items.len() { (a.selected + 1) as usize } else { a.selected },
        ..a
    })
}

/// What `AppState::activate_selected` does.
pub open spec fn app_activate_selected(a: AppState, b: AppState) -> bool {
    &&& a.selected >= a.menu_items.len() ==> b == a
    &&& a.selected < a.menu_items.len() ==> {
        let screen = spec_menu_screen(a.menu_items[a.selected as int]);
        &&& b.active_screen == screen
        &&& screen == Screen::Metadata ==> b == (AppState {
            active_screen: screen,
            pending_action: Some(AppAction::LoadMetadata),
            ..a
        })
        &&& screen == Screen::AnalyzeMenu ==> b == (AppState {
            active_screen: screen,
            pending_action: Some(AppAction::ProbeWorkspace),
            ..a
        })
        &&& screen == Screen::GitToolsMenu ==> {
            &&& is_fresh(b.git_tools)
            &&& b == (AppState {
                active_screen: screen,
                pending_action: Some(AppAction::ProbeGitToolsWorkspace),
                git_tools: b.git_tools,
                ..a
            })
        }
        &&& screen != Screen::Metadata && screen != Screen::AnalyzeMenu && screen != Screen::GitToolsMenu ==> b == (AppState {
            active_screen: screen,
            ..a
        })
    }
}

/// What `AppState::go_home` does.
pub open spec fn app_go_home(a: AppState, b: AppState) -> bool {
    &&& b.input_buffer@.len() == 0
    &&& b.input_paths@.len() == 0
    &&& b.status_message@ == "Ready"@
    &&& b.contributor_list@.len() == 0
    &&& b.contributor_filter@.len() == 0
    &&& is_fresh(b.git_tools)
    &&& b == (AppState {
        active_screen: Screen::Home,
        input_buffer: b.input_buffer,
        input_paths: b.input_paths,
        heatmap_data: None,
        weekday_chart: None,
        hourly_chart: None,
        timeline_data: None,
        metadata_text: None,
        workspace_info: None,
        is_loading: false,
        spinner_frame: 0,
        scroll_offset: 0,
        status_message: b.status_message,
        contributor_list: b.contributor_list,
        contributor_filter: b.contributor_filter,
        contributor_selected: 0,
        selected_email: None,
        git_tools: b.git_tools,
        ..a
    })
}

/// What `AppState::quit` does.
pub open spec fn app_quit(a: AppState, b: AppState) -> bool {
    &&& b == (AppState { should_quit: true, ..a })
}

/// What `AppState::dispatch_analyze` does.
pub open spec fn app_dispatch_analyze(a: AppState, b: AppState) -> bool {
    &&& a.input_paths@.len() == 0 ==> b == a
    &&& a.input_paths@.len() > 0 ==> {
        &&& b.pending_action matches Some(AppAction::StartAnalyze { paths, view }) && string_views(paths@) == string_views(a.input_paths@) && view == a.selected_analyze_view
        &&& b == (AppState {
            pending_action: b.pending_action,
            analysis_table: None,
            heatmap_data: None,
            weekday_chart: None,
            hourly_chart: None,
            timeline_data: None,
            ..a
        })
    }
}

/// What `AppState::select_analyze_view` does.
pub open spec fn app_select_analyze_view(a: AppState, b: AppState) -> bool {
    &&& a.analyze_menu_selected >= 9 ==> b == a
    &&& a.analyze_menu_selected < 9 ==> {
        let view = analyze_menu_view(a.analyze_menu_selected as int);
        &&& string_views(b.input_paths@) == seq!["."@]
        &&& b.input_buffer@.len() == 0
        &&& b.pending_action matches Some(AppAction::StartAnalyze { paths, view: v }) && string_views(paths@) == seq!["."@] && v == view
        &&& b == (AppState {
            selected_analyze_view: view,
            analysis_result: None,
            analysis_table: None,
            heatmap_data: None,
            weekday_chart: None,
            hourly_chart: None,
            timeline_data: None,
            scroll_offset: 0,
            input_paths: b.input_paths,
            input_buffer: b.input_buffer,
            active_screen: Screen::Analyze,
            pending_action: b.pending_action,
            ..a
        })
    }
}

/// What `AppState::analyze_menu_up` does.
pub open spec fn app_analyze_menu_up(a: AppState, b: AppState) -> bool {
    &&& b == (AppState {
        analyze_menu_selected: if a.analyze_menu_selected > 0 { (a.analyze_menu_selected - 1) as usize } else { 0 },
        ..a
    })
}

/// What `AppState::analyze_menu_down` does.
pub open spec fn app_analyze_menu_down(a: AppState, b: AppState) -> bool {
    &&& b == (AppState {
        analyze_menu_selected: if a.analyze_menu_selected + 1 < spec_effective_menu_len( a.workspace_info, ) { (a.analyze_menu_selected + 1) as usize } else { a.analyze_menu_selected },
        ..a
    })
}

/// What `AppState::add_input_path` does.
pub open spec fn app_add_input_path(a: AppState, b: AppState) -> bool {
    &&& trim_seq(a.input_buffer@).len() == 0 ==> b == a
    &&& trim_seq(a.input_buffer@).len() > 0 ==> {
        &&& string_views(b.input_paths@) == string_views(a.input_paths@).push( trim_seq(a.input_buffer@), )
        &&& b.input_buffer@.len() == 0
        &&& b == (AppState { input_paths: b.input_paths, input_buffer: b.input_buffer, ..a })
    }
}

/// What `AppState::scroll_up` does.
pub open spec fn app_scroll_up(a: AppState, b: AppState) -> bool {
    &&& b == (AppState {
        scroll_offset: if a.scroll_offset > 0 { (a.scroll_offset - 1) as u16 } else { 0 },
        ..a
    })
}

/// What `AppState::scroll_down` does.
pub open spec fn app_scroll_down(a: AppState, b: AppState) -> bool {
    &&& b == (AppState {
        scroll_offset: if a.scroll_offset + a.visible_height < a.content_height { (a.scroll_offset + 1) as u16 } else { a.scroll_offset },
        ..a
    })
}

/// What `AppState::request_export` does.
pub open spec fn app_request_export(a: AppState, b: AppState) -> bool {
    &&& a.analysis_result is Some && !a.is_loading ==> b == (AppState {
        pending_action: Some(AppAction::ExportMarkdown),
        ..a
    })
    &&& !(a.analysis_result is Some && !a.is_loading) ==> b == a
}

/// What `AppState::select_contributor` does.
pub open spec fn app_select_contributor(a: AppState, b: AppState) -> bool {
    &&& a.contributor_selected >= spec_filtered(a.contributor_list@, a.contributor_filter@).len() ==> b == a
    &&& a.contributor_selected < spec_filtered(a.contributor_list@, a.contributor_filter@).len() ==> {
        &&& b.selected_email matches Some(e) && e@ == spec_filtered( a.contributor_list@, a.contributor_filter@, )[a.contributor_selected as int].0
        &&& b == (AppState {
            selected_email: b.selected_email,
            active_screen: Screen::Analyze,
            pending_action: Some(AppAction::RenderUserEffort),
            ..a
        })
    }
}

/// What `AppState::contributor_select_up` does.
pub open spec fn app_contributor_select_up(a: AppState, b: AppState) -> bool {
    &&& b.contributor_selected == if a.contributor_selected > 0 { (a.contributor_selected - 1) as usize } else { 0 }
    &&& b == (AppState {
        contributor_selected: b.contributor_selected,
        scroll_offset: spec_contributor_scroll( a.scroll_offset, b.contributor_selected, a.visible_height, ),
        ..a
    })
}

/// What `AppState::contributor_select_down` does.
pub open spec fn app_contributor_select_down(a: AppState, b: AppState) -> bool {
    &&& b.contributor_selected == if a.contributor_selected + 1 < spec_filtered( a.contributor_list@, a.contributor_filter@, ).len() { (a.contributor_selected + 1) as usize } else { a.contributor_selected }
    &&& b == (AppState {
        contributor_selected: b.contributor_selected,
        scroll_offset: spec_contributor_scroll( a.scroll_offset, b.contributor_selected, a.visible_height, ),
        ..a
    })
}

/// What `AppState::git_tools_select` does.
pub open spec fn app_git_tools_select(a: AppState, b: AppState) -> bool {
    &&& a.git_tools.workspace_error is Some ==> b == a
    &&& a.git_tools.workspace_error is None ==> {
        let mode = if a.git_tools.selected == 0 { GitToolsMode::MergedBranches } else { GitToolsMode::StaleBranches };
        let g = b.git_tools;
        &&& g.mode == Some(mode)
        &&& g.input@ == (if mode == GitToolsMode::StaleBranches { "90"@ } else { Seq::empty() })
        &&& g.branches@.len() == 0
        &&& g.protected_branches@.len() == 0
        &&& g.progress@.len() == 0
        &&& g.current_index == 0
        &&& g.current_repo@.len() == 0
        &&& !g.done
        &&& g.error is None
        &&& g.scroll == 0
        &&& g.repo_select_idx == 0
        &&& g.selected == a.git_tools.selected
        &&& g.repos == a.git_tools.repos
        &&& g.repo_checked == a.git_tools.repo_checked
        &&& g.selected_repos == a.git_tools.selected_repos
        &&& g.workspace_error == a.git_tools.workspace_error
        &&& b == (AppState {
            git_tools: g,
            active_screen: if a.git_tools.repos.len() > 1 && a.git_tools.selected_repos.len() == 0 { Screen::GitToolsRepoSelect } else { Screen::GitToolsInput },
            ..a
        })
    }
}

/// What `AppState::git_tools_select_repo` does.
pub open spec fn app_git_tools_select_repo(a: AppState, b: AppState) -> bool {
    &&& checked_repos(a.git_tools.repos@, a.git_tools.repo_checked@).len() == 0 ==> b == a
    &&& checked_repos(a.git_tools.repos@, a.git_tools.repo_checked@).len() > 0 ==> {
        &&& string_views(b.git_tools.selected_repos@) == checked_repos( a.git_tools.repos@, a.git_tools.repo_checked@, )
        &&& b == (AppState {
            git_tools: GitToolsState { selected_repos: b.git_tools.selected_repos, ..a.git_tools },
            active_screen: Screen::GitToolsInput,
            ..a
        })
    }
}

/// What `AppState::git_tools_submit_input` does.
pub open spec fn app_git_tools_submit_input(a: AppState, b: AppState) -> bool {
    &&& a.git_tools.mode is None ==> b == a
    &&& a.git_tools.mode == Some(GitToolsMode::MergedBranches) ==> {
        &&& trim_seq(a.git_tools.input@).len() == 0 ==> b == a
        &&& trim_seq(a.git_tools.input@).len() > 0 ==> {
            &&& (b.pending_action matches Some(AppAction::ListMergedBranches { base_branch }) && base_branch@ == trim_seq(a.git_tools.input@))
            &&& b == (AppState { pending_action: b.pending_action, ..a })
        }
    }
    &&& a.git_tools.mode == Some(GitToolsMode::StaleBranches) ==> match spec_stale_days(a.git_tools.input@) { Some(d) => b == (AppState {
        pending_action: Some(AppAction::ListStaleBranches { days: d }),
        ..a
    }), None => b == a, }
}

/// What `AppState::git_tools_confirm_delete` does.
pub open spec fn app_git_tools_confirm_delete(a: AppState, b: AppState) -> bool {
    &&& a.git_tools.branches.len() == 0 ==> b == a
    &&& a.git_tools.branches.len() > 0 ==> {
        let g = b.git_tools;
        &&& g.progress.len() == a.git_tools.branches.len()
        &&& forall|j: int| 0 <= j < g.progress.len() ==> {
            &&& (#[trigger] g.progress@[j]).name@ == a.git_tools.branches@[j].name@
            &&& g.progress@[j].local_ok is None
            &&& g.progress@[j].remote_ok is None
            &&& !g.progress@[j].processed
        }
        &&& g.current_repo@.len() == 0
        &&& g == (GitToolsState {
            progress: g.progress,
            current_index: 0,
            current_repo: g.current_repo,
            done: false,
            scroll: 0,
            ..a.git_tools
        })
        &&& b == (AppState {
            git_tools: g,
            active_screen: Screen::GitToolsProgress,
            pending_action: Some(AppAction::DeleteBranches),
            ..a
        })
    }
}

/// What `AppState::git_tools_scroll_down` does.
pub open spec fn app_git_tools_scroll_down(a: AppState, b: AppState) -> bool {
    &&& b == (AppState {
        git_tools: GitToolsState { scroll: if a.git_tools.scroll + a.visible_height < a.content_height { (a.git_tools.scroll + 1) as u16 } else { a.git_tools.scroll }, ..a.git_tools },
        ..a
    })
}

impl Default for AppState {
    fn default() -> (s: Self)
        ensures
            s.menu_items@ == spec_home_menu(),
            s.selected == 0,
            s.active_screen == Screen::Home,
            !s.should_quit,
            s.pending_action is None,
            s.status_message@ == "Ready"@,
            is_fresh(s.git_tools),
    {
        Self::new()
    }
}

impl AppState {
    /// The state at start-up: the home screen with its four items, nothing loaded.
    pub fn new() -> (s: Self)
        ensures
            s.menu_items@ == spec_home_menu(),
            s.selected == 0,
            s.active_screen == Screen::Home,
            !s.should_quit,
            s.analysis_result is None,
            s.errors@.len() == 0,
            s.pending_action is None,
            s.input_buffer@.len() == 0,
            s.input_paths@.len() == 0,
            s.status_message@ == "Ready"@,
            s.analyze_menu_selected == 0,
            s.selected_analyze_view == AnalyzeView::All,
            s.analysis_table is None,
            s.heatmap_data is None,
            s.metadata_text is None,
            s.workspace_info is None,
            !s.is_loading,
            s.spinner_frame == 0,
            s.progress_log@.len() == 0,
            s.scroll_offset == 0,
            s.content_height == 0,
            s.visible_height == 0,
            s.contributor_list@.len() == 0,
            s.contributor_filter@.len() == 0,
            s.contributor_selected == 0,
            s.selected_email is None,
            s.analysis_elapsed == 0,
            s.weekday_chart is None,
            s.hourly_chart is None,
            s.timeline_data is None,
            is_fresh(s.git_tools),
    {
        let mut menu_items: Vec<MenuItem> = Vec::new();
        menu_items.push(MenuItem::Analyze);
        menu_items.push(MenuItem::GitTools);
        menu_items.push(MenuItem::Help);
        menu_items.push(MenuItem::Metadata);
        assert(menu_items@ =~= spec_home_menu());
        AppState {
            menu_items,
            selected: 0,
            active_screen: Screen::Home,
            should_quit: false,
            analysis_result: None,
            errors: Vec::new(),
            pending_action: None,
            input_buffer: String::new(),
            input_paths: Vec::new(),
            status_message: string_of_str("Ready"),
            analyze_menu_selected: 0,
            selected_analyze_view: AnalyzeView::All,
            analysis_table: None,
            heatmap_data: None,
            metadata_text: None,
            workspace_info: None,
            is_loading: false,
            spinner_frame: 0,
            progress_log: Vec::new(),
            scroll_offset: 0,
            content_height: 0,
            visible_height: 0,
            contributor_list: Vec::new(),
            contributor_filter: String::new(),
            contributor_selected: 0,
            selected_email: None,
            analysis_elapsed: 0,
            weekday_chart: None,
            hourly_chart: None,
            timeline_data: None,
            git_tools: GitToolsState::new(),
        }
    }

    pub fn move_up(&mut self)
        ensures
            app_move_up(*old(self), *final(self)),

    {
        if self.selected > 0 {
            self.selected = self.selected - 1;
        }
    }

    pub fn move_down(&mut self)
        ensures
            app_move_down(*old(self), *final(self)),

    {
        if self.selected < self.menu_items.len() && self.selected + 1 < self.menu_items.len() {
            self.selected = self.selected + 1;
        }
    }

    /// Opens the screen of the selected home item, asking for what that screen needs first.
    pub fn activate_selected(&mut self)
        ensures
            app_activate_selected(*old(self), *final(self)),

    {
        if self.selected < self.menu_items.len() {
            let screen = self.menu_items[self.selected].screen();
            match screen {
                Screen::Metadata => {
                    self.pending_action = Some(AppAction::LoadMetadata);
                },
                Screen::AnalyzeMenu => {
                    self.pending_action = Some(AppAction::ProbeWorkspace);
                },
                Screen::GitToolsMenu => {
                    self.git_tools.clear();
                    self.pending_action = Some(AppAction::ProbeGitToolsWorkspace);
                },
                _ => {},
            }
            self.active_screen = screen;
        }
    }

    /// Back to the home screen, dropping the inputs, charts, lists and the Git tools session.
    pub fn go_home(&mut self)
        ensures
            app_go_home(*old(self), *final(self)),

    {
        self.active_screen = Screen::Home;
        self.input_buffer = String::new();
        self.input_paths = Vec::new();
        self.heatmap_data = None;
        self.weekday_chart = None;
        self.hourly_chart = None;
        self.timeline_data = None;
        self.metadata_text = None;
        self.workspace_info = None;
        self.is_loading = false;
        self.spinner_frame = 0;
        self.scroll_offset = 0;
        self.status_message = string_of_str("Ready");
        self.contributor_list = Vec::new();
        self.contributor_filter = String::new();
        self.contributor_selected = 0;
        self.selected_email = None;
        self.git_tools.clear();
    }

    pub fn quit(&mut self)
        ensures
            app_quit(*old(self), *final(self)),

    {
        self.should_quit = true;
    }

    /// Asks for an analysis of the entered paths in the selected view, dropping the previous
    /// results; nothing happens without paths.
    pub fn dispatch_analyze(&mut self)
        ensures
            app_dispatch_analyze(*old(self), *final(self)),

    {
        if self.input_paths.len() > 0 {
            self.analysis_table = None;
            self.heatmap_data = None;
            self.weekday_chart = None;
            self.hourly_chart = None;
            self.timeline_data = None;
            let paths = copy_strings(&self.input_paths);
            self.pending_action = Some(AppAction::StartAnalyze { paths, view: self.selected_analyze_view });
        }
    }

    /// Starts the analysis chosen in the analysis menu, on the current directory.
    pub fn select_analyze_view(&mut self)
        ensures
            app_select_analyze_view(*old(self), *final(self)),

    {
        if self.analyze_menu_selected < 9 {
            let view = ANALYZE_MENU_ITEMS[self.analyze_menu_selected].1;
            assert(view == analyze_menu_view(self.analyze_menu_selected as int));
            self.selected_analyze_view = view;
            self.analysis_result = None;
            self.analysis_table = None;
            self.heatmap_data = None;
            self.weekday_chart = None;
            self.hourly_chart = None;
            self.timeline_data = None;
            self.scroll_offset = 0;
            self.input_paths = Vec::new();
            self.input_buffer = String::new();
            self.input_paths.push(string_of_str("."));
            assert(string_views(self.input_paths@) =~= seq!["."@]);
            self.active_screen = Screen::Analyze;
            self.dispatch_analyze();
        }
    }

    /// Number of entries of the analysis menu on show.
    pub fn effective_menu_len(&self) -> (n: usize)
        ensures
            n == spec_effective_menu_len(self.workspace_info),
    {
        let is_multi = match &self.workspace_info {
            Some(w) => !w.is_single_repo && w.repo_count > 1,
            None => false,
        };
        if is_multi {
            9
        } else {
            8
        }
    }

    pub fn analyze_menu_up(&mut self)
        ensures
            app_analyze_menu_up(*old(self), *final(self)),

    {
        if self.analyze_menu_selected > 0 {
            self.analyze_menu_selected = self.analyze_menu_selected - 1;
        }
    }

    pub fn analyze_menu_down(&mut self)
        ensures
            app_analyze_menu_down(*old(self), *final(self)),

    {
        let n = self.effective_menu_len();
        if self.analyze_menu_selected < n && self.analyze_menu_selected + 1 < n {
            self.analyze_menu_selected = self.analyze_menu_selected + 1;
        }
    }

    /// Hands the pending action to the event loop, leaving none.
    pub fn take_action(&mut self) -> (a: Option<AppAction>)
        ensures
            a == old(self).pending_action,
            *final(self) == (AppState { pending_action: None, ..*old(self) }),
    {
        let a = self.pending_action.take();
        a
    }

    /// Keeps a finished analysis and its failures.
    pub fn set_result(&mut self, report: ComparisonReport)
        ensures
            final(self).errors.len() == report.failures.len(),
            forall|j: int| #![trigger final(self).errors@[j]] 0 <= j < report.failures.len() ==> final(self).errors@[j].path@
                == report.failures@[j].path@ && final(self).errors@[j].reason@ == report.failures@[j].reason@,
            final(self).input_paths@.len() == 0,
            final(self).input_buffer@.len() == 0,
            final(self).status_message@ == "Analysis complete"@,
            *final(self) == (AppState {
                errors: final(self).errors,
                analysis_result: Some(report),
                input_paths: final(self).input_paths,
                input_buffer: final(self).input_buffer,
                status_message: final(self).status_message,
                ..*old(self)
            }),
    {
        self.errors = copy_failures(&report.failures);
        self.analysis_result = Some(report);
        self.input_paths = Vec::new();
        self.input_buffer = String::new();
        self.status_message = string_of_str("Analysis complete");
    }

    /// Adds the typed path, trimmed, unless it is blank.
    pub fn add_input_path(&mut self)
        ensures
            app_add_input_path(*old(self), *final(self)),

    {
        let path = trimmed(self.input_buffer.as_str());
        if !path.as_str().is_empty() {
            let ghost before = self.input_paths@;
            self.input_paths.push(path);
            assert(string_views(self.input_paths@) =~= string_views(before).push(trim_seq(old(self).input_buffer@)));
            self.input_buffer = String::new();
        }
    }

    pub fn scroll_up(&mut self)
        ensures
            app_scroll_up(*old(self), *final(self)),

    {
        if self.scroll_offset > 0 {
            self.scroll_offset = self.scroll_offset - 1;
        }
    }

    /// Scrolls down one line, up to `content_height - visible_height`.
    pub fn scroll_down(&mut self)
        ensures
            app_scroll_down(*old(self), *final(self)),

    {
        let max_offset: u16 = if self.content_height >= self.visible_height {
            self.content_height - self.visible_height
        } else {
            0
        };
        if self.scroll_offset < max_offset {
            self.scroll_offset = self.scroll_offset + 1;
        }
    }

    /// Asks for a Markdown export when an analysis is shown and none is running.
    pub fn request_export(&mut self)
        ensures
            app_request_export(*old(self), *final(self)),

    {
        if self.analysis_result.is_some() && !self.is_loading {
            self.pending_action = Some(AppAction::ExportMarkdown);
        }
    }

    /// The contributors whose email or name holds the filter, ignoring case.
    pub fn filtered_contributors(&self) -> (r: Vec<(String, String)>)
        ensures
            pair_views(r@) == spec_filtered(self.contributor_list@, self.contributor_filter@),
    {
        let list = &self.contributor_list;
        let mut r: Vec<(String, String)> = Vec::new();
        if self.contributor_filter.as_str().is_empty() {
            let mut i: usize = 0;
            while i < list.len()
                invariant
                    i <= list.len(),
                    pair_views(r@) == pair_views(list@.take(i as int)),
                decreases list.len() - i,
            {
                let ghost before = r@;
                assert(list@.take(i + 1) =~= list@.take(i as int).push(list@[i as int]));
                let a = list[i].0.clone();
                let b = list[i].1.clone();
                r.push((a, b));
                assert(pair_views(r@) =~= pair_views(before).push((list@[i as int].0@, list@[i as int].1@)));
                assert(pair_views(list@.take(i + 1)) =~= pair_views(list@.take(i as int)).push((list@[i as int].0@, list@[i as int].1@)));
                i = i + 1;
            }
            assert(list@.take(list.len() as int) =~= list@);
            return r;
        }
        let filter = to_lowercase(self.contributor_filter.as_str());
        let fc = str_chars(filter.as_str());
        let mut i: usize = 0;
        while i < list.len()
            invariant
                i <= list.len(),
                fc@ == lowercase(self.contributor_filter@),
                pair_views(r@) == matching_contributors(list@.take(i as int), fc@),
            decreases list.len() - i,
        {
            assert(list@.take(i + 1).drop_last() =~= list@.take(i as int));
            assert(list@.take(i + 1).last() == list@[i as int]);
            let hit = lower_contains(&list[i].0, &fc) || lower_contains(&list[i].1, &fc);
            if hit {
                let ghost before = r@;
                let a = list[i].0.clone();
                let b = list[i].1.clone();
                r.push((a, b));
                assert(pair_views(r@) =~= pair_views(before).push((list@[i as int].0@, list@[i as int].1@)));
            }
            i = i + 1;
        }
        assert(list@.take(list.len() as int) =~= list@);
        r
    }

    /// Opens the effort view of the contributor under the cursor in the filtered list.
    pub fn select_contributor(&mut self)
        ensures
            app_select_contributor(*old(self), *final(self)),

    {
        let filtered = self.filtered_contributors();
        if self.contributor_selected < filtered.len() {
            assert(pair_views(filtered@)[self.contributor_selected as int].0 == filtered@[self.contributor_selected as int].0@);
            let e = filtered[self.contributor_selected].0.clone();
            self.selected_email = Some(e);
            self.active_screen = Screen::Analyze;
            self.pending_action = Some(AppAction::RenderUserEffort);
        }
    }

    pub fn contributor_select_up(&mut self)
        requires
            (if old(self).contributor_selected > 0 { (old(self).contributor_selected - 1) as usize } else { 0usize }) as u16 + 4
                <= u16::MAX,
            old(self).scroll_offset + (if old(self).visible_height >= 2 { old(self).visible_height - 2 } else { 0 })
                <= u16::MAX,
        ensures
            app_contributor_select_up(*old(self), *final(self)),

    {
        if self.contributor_selected > 0 {
            self.contributor_selected = self.contributor_selected - 1;
        }
        self.ensure_contributor_visible();
    }

    pub fn contributor_select_down(&mut self)
        requires
            (if old(self).contributor_selected + 1 < spec_filtered(old(self).contributor_list@, old(self).contributor_filter@).len() {
                (old(self).contributor_selected + 1) as usize
            } else {
                old(self).contributor_selected
            }) as u16 + 4 <= u16::MAX,
            old(self).scroll_offset + (if old(self).visible_height >= 2 { old(self).visible_height - 2 } else { 0 })
                <= u16::MAX,
        ensures
            app_contributor_select_down(*old(self), *final(self)),

    {
        let len = self.filtered_contributors().len();
        if self.contributor_selected < len && self.contributor_selected + 1 < len {
            self.contributor_selected = self.contributor_selected + 1;
        }
        self.ensure_contributor_visible();
    }

    /// Opens the selected Git tool: its input (prefilled with 90 days for stale branches), or
    /// first the repository picker in a workspace of several repositories with none chosen.
    pub fn git_tools_select(&mut self)
        requires
            old(self).git_tools.workspace_error is None ==> old(self).git_tools.selected < GIT_TOOLS_MENU_LEN,
        ensures
            app_git_tools_select(*old(self), *final(self)),

    {
        if self.git_tools.workspace_error.is_some() {
            return;
        }
        let mode = GIT_TOOLS_MENU_ITEMS[self.git_tools.selected].2;
        self.git_tools.clear_tool();
        self.git_tools.mode = Some(mode);
        if mode == GitToolsMode::StaleBranches {
            self.git_tools.input = string_of_str("90");
        }
        if self.git_tools.repos.len() > 1 && self.git_tools.selected_repos.len() == 0 {
            self.active_screen = Screen::GitToolsRepoSelect;
        } else {
            self.active_screen = Screen::GitToolsInput;
        }
        assert(self.git_tools.mode == Some(mode));
        assert(self.git_tools.branches@.len() == 0);
        assert(self.git_tools.selected == old(self).git_tools.selected);
        assert(self.git_tools.input@ == (if mode == GitToolsMode::StaleBranches { "90"@ } else { Seq::<char>::empty() }));
    }

    /// Confirms the repository picker: the checked repositories become the selection; nothing
    /// happens when none is checked.
    pub fn git_tools_select_repo(&mut self)
        ensures
            app_git_tools_select_repo(*old(self), *final(self)),

    {
        let repos = &self.git_tools.repos;
        let checked = &self.git_tools.repo_checked;
        let mut picked: Vec<String> = Vec::new();
        let mut i: usize = 0;
        while i < repos.len()
            invariant
                i <= repos.len(),
                string_views(picked@) == checked_repos(repos@.take(i as int), checked@),
            decreases repos.len() - i,
        {
            assert(repos@.take(i + 1).drop_last() =~= repos@.take(i as int));
            assert(repos@.take(i + 1).last() == repos@[i as int]);
            if i < checked.len() && checked[i] {
                let ghost before = picked@;
                picked.push(repos[i].clone());
                assert(string_views(picked@) =~= string_views(before).push(repos@[i as int]@));
            }
            i = i + 1;
        }
        assert(repos@.take(repos.len() as int) =~= repos@);
        if picked.len() == 0 {
            return;
        }
        self.git_tools.selected_repos = picked;
        self.active_screen = Screen::GitToolsInput;
    }

    /// Asks for the branch list of the current tool: merged into the typed base branch, or
    /// stale for the typed number of days; a blank base or a bad number is ignored.
    pub fn git_tools_submit_input(&mut self)
        ensures
            app_git_tools_submit_input(*old(self), *final(self)),

    {
        match self.git_tools.mode {
            Some(GitToolsMode::MergedBranches) => {
                let base = trimmed(self.git_tools.input.as_str());
                if base.as_str().is_empty() {
                    return;
                }
                self.pending_action = Some(AppAction::ListMergedBranches { base_branch: base });
            },
            Some(GitToolsMode::StaleBranches) => {
                let t = trimmed(self.git_tools.input.as_str());
                let tc = str_chars(t.as_str());
                assert(tc@.subrange(0, tc.len() as int) =~= tc@);
                let days: u64 = if tc.len() == 0 {
                    90
                } else {
                    match parse_u64_in(&tc, 0, tc.len()) {
                        Some(d) => if d > 0 {
                            d
                        } else {
                            return;
                        },
                        None => return,
                    }
                };
                self.pending_action = Some(AppAction::ListStaleBranches { days });
            },
            None => {},
        }
    }

    /// Starts deleting the listed branches: one progress row per branch, nothing done yet.
    pub fn git_tools_confirm_delete(&mut self)
        ensures
            app_git_tools_confirm_delete(*old(self), *final(self)),

    {
        if self.git_tools.branches.len() > 0 {
            let branches = &self.git_tools.branches;
            let mut progress: Vec<BranchProgress> = Vec::new();
            let mut i: usize = 0;
            while i < branches.len()
                invariant
                    i <= branches.len(),
                    progress.len() == i,
                    forall|j: int| 0 <= j < i ==> {
                        &&& (#[trigger] progress@[j]).name@ == branches@[j].name@
                        &&& progress@[j].local_ok is None
                        &&& progress@[j].remote_ok is None
                        &&& !progress@[j].processed
                    },
                decreases branches.len() - i,
            {
                progress.push(BranchProgress { name: branches[i].name.clone(), local_ok: None, remote_ok: None, processed: false });
                i = i + 1;
            }
            self.git_tools.progress = progress;
            self.git_tools.current_index = 0;
            self.git_tools.current_repo = String::new();
            self.git_tools.done = false;
            self.git_tools.scroll = 0;
            self.active_screen = Screen::GitToolsProgress;
            self.pending_action = Some(AppAction::DeleteBranches);
        }
    }

    pub fn git_tools_scroll_down(&mut self)
        ensures
            app_git_tools_scroll_down(*old(self), *final(self)),

    {
        let c = self.content_height;
        let v = self.visible_height;
        self.git_tools.scroll_down(c, v);
    }

    fn ensure_contributor_visible(&mut self)
        requires
            (old(self).contributor_selected as u16) as int + 4 <= u16::MAX,
            old(self).scroll_offset + (if old(self).visible_height >= 2 { old(self).visible_height - 2 } else { 0 })
                <= u16::MAX,
        ensures
            *final(self) == (AppState {
                scroll_offset: spec_contributor_scroll(
                    old(self).scroll_offset,
                    old(self).contributor_selected,
                    old(self).visible_height,
                ),
                ..*old(self)
            }),
    {
        let header: u16 = 4;
        let footer: u16 = 2;
        let item_line = header + self.contributor_selected as u16;
        let visible = if self.visible_height >= footer { self.visible_height - footer } else { 0 };
        if visible > 0 && item_line >= self.scroll_offset + visible {
            self.scroll_offset = item_line - visible + 1;
        } else if item_line < self.scroll_offset {
            self.scroll_offset = item_line;
        }
    }
}

} // verus!
