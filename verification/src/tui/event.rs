//! Keyboard layouts.
use vstd::prelude::*;

use crate::text::{str_chars, string_from_chars};
use crate::tui::app::{
    AppState, GitToolsState, Screen, app_activate_selected, app_analyze_menu_down, app_analyze_menu_up,
    app_contributor_select_down, app_contributor_select_up, app_git_tools_confirm_delete,
    app_git_tools_scroll_down, app_git_tools_select, app_git_tools_select_repo,
    app_git_tools_submit_input, app_go_home, app_move_down, app_move_up, app_quit,
    app_request_export, app_scroll_down, app_scroll_up, app_select_analyze_view,
    app_select_contributor, spec_filtered, spec_repo_scroll, tools_clear_tool, tools_menu_down,
    tools_menu_up, tools_repo_select_down, tools_repo_select_up, tools_scroll_up,
};

verus! {

/// The QWERTY key at the position of a Russian ЙЦУКЕН letter; other characters unchanged.
pub open spec fn spec_normalize_to_qwerty(c: char) -> char {
    if c == 'й' { 'q' }
    else if c == 'ц' { 'w' }
    else if c == 'у' { 'e' }
    else if c == 'к' { 'r' }
    else if c == 'е' { 't' }
    else if c == 'н' { 'y' }
    else if c == 'г' { 'u' }
    else if c == 'ш' { 'i' }
    else if c == 'щ' { 'o' }
    else if c == 'з' { 'p' }
    else if c == 'ф' { 'a' }
    else if c == 'ы' { 's' }
    else if c == 'в' { 'd' }
    else if c == 'а' { 'f' }
    else if c == 'п' { 'g' }
    else if c == 'р' { 'h' }
    else if c == 'о' { 'j' }
    else if c == 'л' { 'k' }
    else if c == 'д' { 'l' }
    else if c == 'я' { 'z' }
    else if c == 'ч' { 'x' }
    else if c == 'с' { 'c' }
    else if c == 'м' { 'v' }
    else if c == 'и' { 'b' }
    else if c == 'т' { 'n' }
    else if c == 'ь' { 'm' }
    else { c }
}

/// Map non-Latin characters to their QWERTY physical-key equivalents, so that shortcuts
/// work regardless of keyboard layout.
pub fn normalize_to_qwerty(c: char) -> (r: char)
    ensures
        r == spec_normalize_to_qwerty(c),
{
    match c {
        'й' => 'q',
        'ц' => 'w',
        'у' => 'e',
        'к' => 'r',
        'е' => 't',
        'н' => 'y',
        'г' => 'u',
        'ш' => 'i',
        'щ' => 'o',
        'з' => 'p',
        'ф' => 'a',
        'ы' => 's',
        'в' => 'd',
        'а' => 'f',
        'п' => 'g',
        'р' => 'h',
        'о' => 'j',
        'л' => 'k',
        'д' => 'l',
        'я' => 'z',
        'ч' => 'x',
        'с' => 'c',
        'м' => 'v',
        'и' => 'b',
        'т' => 'n',
        'ь' => 'm',
        _ => c,
    }
}


/// A key press as the interface reads it.
#[derive(Debug, Clone, Copy, PartialEq, Eq, Structural)]
pub enum Key {
    Char(char),
    Up,
    Down,
    Enter,
    Esc,
    Backspace,
    Other,
}

/// Text-input screens take characters as typed; elsewhere a Russian-layout letter stands for
/// the QWERTY key at its place.
pub open spec fn spec_normalized_key(screen: Screen, key: Key) -> Key {
    if screen == Screen::UserSelect || screen == Screen::GitToolsInput {
        key
    } else {
        match key {
            Key::Char(c) => Key::Char(spec_normalize_to_qwerty(c)),
            _ => key,
        }
    }
}

pub open spec fn is_up(k: Key) -> bool {
    k == Key::Up || k == Key::Char('k')
}

pub open spec fn is_down(k: Key) -> bool {
    k == Key::Down || k == Key::Char('j')
}

/// `b` is `a` with the Git tools state replaced by `g`.
pub open spec fn with_tools(a: AppState, b: AppState, g: GitToolsState) -> bool {
    b == (AppState { git_tools: g, ..a })
}

/// The Git tools session back at its menu: tool state cleared, menu screen on show.
pub open spec fn back_to_tools_menu(a: AppState, b: AppState) -> bool {
    &&& tools_clear_tool(a.git_tools, b.git_tools)
    &&& b == (AppState { git_tools: b.git_tools, active_screen: Screen::GitToolsMenu, ..a })
}

/// A cursor move in the repository picker, then the scroll that keeps it in view.
pub open spec fn repo_cursor_moved(a: AppState, b: AppState, g1: GitToolsState) -> bool {
    with_tools(
        a,
        b,
        GitToolsState { scroll: spec_repo_scroll(g1.scroll, g1.repo_select_idx, a.visible_height), ..g1 },
    )
}

/// The filter text of the contributor picker changed to `f`, with the cursor and the scroll
/// back at the top.
pub open spec fn filter_changed(a: AppState, b: AppState, f: Seq<char>) -> bool {
    &&& b.contributor_filter@ == f
    &&& b == (AppState { contributor_filter: b.contributor_filter, contributor_selected: 0, scroll_offset: 0, ..a })
}

/// The Git tools input changed to `t`.
pub open spec fn tools_input_changed(a: AppState, b: AppState, t: Seq<char>) -> bool {
    &&& b.git_tools.input@ == t
    &&& b == (AppState { git_tools: GitToolsState { input: b.git_tools.input, ..a.git_tools }, ..a })
}

pub open spec fn pop_seq(s: Seq<char>) -> Seq<char> {
    if s.len() > 0 {
        s.drop_last()
    } else {
        s
    }
}

/// What a key press does on each screen, after normalization.
pub open spec fn key_effect(a: AppState, b: AppState, code: Key) -> bool {
    let same = b == a;
    match a.active_screen {
        Screen::Home => if code == Key::Char('q') {
            app_quit(a, b)
        } else if is_up(code) {
            app_move_up(a, b)
        } else if is_down(code) {
            app_move_down(a, b)
        } else if code == Key::Enter {
            app_activate_selected(a, b)
        } else if code == Key::Char('?') {
            b == (AppState { active_screen: Screen::Help, ..a })
        } else {
            same
        },
        Screen::Help | Screen::Metadata => if code == Key::Char('q') {
            app_quit(a, b)
        } else if code == Key::Esc {
            app_go_home(a, b)
        } else if code == Key::Char('?') {
            b == (AppState { active_screen: Screen::Help, ..a })
        } else {
            same
        },
        Screen::AnalyzeMenu => if code == Key::Char('q') {
            app_quit(a, b)
        } else if is_up(code) {
            app_analyze_menu_up(a, b)
        } else if is_down(code) {
            app_analyze_menu_down(a, b)
        } else if code == Key::Enter {
            app_select_analyze_view(a, b)
        } else if code == Key::Esc {
            app_go_home(a, b)
        } else {
            same
        },
        Screen::Analyze => if code == Key::Char('q') {
            app_quit(a, b)
        } else if code == Key::Esc {
            app_go_home(a, b)
        } else if is_up(code) {
            app_scroll_up(a, b)
        } else if is_down(code) {
            app_scroll_down(a, b)
        } else if code == Key::Char('e') {
            app_request_export(a, b)
        } else {
            same
        },
        Screen::UserSelect => match code {
            Key::Esc => app_go_home(a, b),
            Key::Up => app_contributor_select_up(a, b),
            Key::Down => app_contributor_select_down(a, b),
            Key::Enter => app_select_contributor(a, b),
            Key::Backspace => filter_changed(a, b, pop_seq(a.contributor_filter@)),
            Key::Char(c) => filter_changed(a, b, a.contributor_filter@.push(c)),
            Key::Other => same,
        },
        Screen::GitToolsMenu => if code == Key::Char('q') {
            app_quit(a, b)
        } else if is_up(code) {
            tools_menu_up(a.git_tools, b.git_tools) && with_tools(a, b, b.git_tools)
        } else if is_down(code) {
            tools_menu_down(a.git_tools, b.git_tools) && with_tools(a, b, b.git_tools)
        } else if code == Key::Enter {
            app_git_tools_select(a, b)
        } else if code == Key::Esc {
            app_go_home(a, b)
        } else {
            same
        },
        Screen::GitToolsInput => if a.is_loading {
            same
        } else {
            match code {
                Key::Esc => {
                    &&& b.git_tools.input@.len() == 0
                    &&& b == (AppState {
                        git_tools: GitToolsState { input: b.git_tools.input, ..a.git_tools },
                        active_screen: Screen::GitToolsMenu,
                        ..a
                    })
                },
                Key::Enter => app_git_tools_submit_input(a, b),
                Key::Backspace => tools_input_changed(a, b, pop_seq(a.git_tools.input@)),
                Key::Char(c) => tools_input_changed(a, b, a.git_tools.input@.push(c)),
                _ => same,
            }
        },
        Screen::GitToolsRepoSelect => if code == Key::Char('q') {
            app_quit(a, b)
        } else if is_up(code) {
            exists|g1: GitToolsState| tools_repo_select_up(a.git_tools, g1) && repo_cursor_moved(a, b, g1)
        } else if is_down(code) {
            exists|g1: GitToolsState| tools_repo_select_down(a.git_tools, g1) && repo_cursor_moved(a, b, g1)
        } else if code == Key::Enter {
            app_git_tools_select_repo(a, b)
        } else if code == Key::Esc {
            back_to_tools_menu(a, b)
        } else {
            same
        },
        Screen::GitToolsBranchList => if code == Key::Char('y') || code == Key::Enter {
            app_git_tools_confirm_delete(a, b)
        } else if code == Key::Char('n') || code == Key::Esc {
            back_to_tools_menu(a, b)
        } else if is_up(code) {
            tools_scroll_up(a.git_tools, b.git_tools) && with_tools(a, b, b.git_tools)
        } else if is_down(code) {
            app_git_tools_scroll_down(a, b)
        } else if code == Key::Char('q') {
            app_quit(a, b)
        } else {
            same
        },
        Screen::GitToolsProgress => if a.git_tools.done {
            if code == Key::Enter || code == Key::Esc {
                back_to_tools_menu(a, b)
            } else if code == Key::Char('q') {
                app_quit(a, b)
            } else if is_up(code) {
                tools_scroll_up(a.git_tools, b.git_tools) && with_tools(a, b, b.git_tools)
            } else if is_down(code) {
                app_git_tools_scroll_down(a, b)
            } else {
                same
            }
        } else {
            if code == Key::Esc {
                with_tools(a, b, GitToolsState { done: true, ..a.git_tools })
            } else if is_up(code) {
                tools_scroll_up(a.git_tools, b.git_tools) && with_tools(a, b, b.git_tools)
            } else if is_down(code) {
                app_git_tools_scroll_down(a, b)
            } else {
                same
            }
        },
    }
}

/// The repository picker's cursor row after a move, as `u16` arithmetic stays in range.
pub open spec fn repo_move_fits(g: GitToolsState, visible_height: u16) -> bool {
    &&& (g.repo_select_idx as u16) as int + 2 <= u16::MAX
    &&& g.scroll as int + (if visible_height >= 2 { visible_height - 2 } else { 0 }) <= u16::MAX
}

/// The key presses on which the `u16` screen arithmetic stays in range and the Git tools
/// menu cursor is on an entry.
pub open spec fn key_defined(a: AppState, code: Key) -> bool {
    match a.active_screen {
        Screen::UserSelect => {
            let vis = if a.visible_height >= 2 { a.visible_height - 2 } else { 0 };
            let n = spec_filtered(a.contributor_list@, a.contributor_filter@).len();
            &&& code == Key::Up ==> ((if a.contributor_selected > 0 { (a.contributor_selected - 1) as usize } else { 0usize }) as u16)
                + 4 <= u16::MAX && a.scroll_offset + vis <= u16::MAX
            &&& code == Key::Down ==> ((if a.contributor_selected + 1 < n { (a.contributor_selected + 1) as usize } else { a.contributor_selected }) as u16)
                + 4 <= u16::MAX && a.scroll_offset + vis <= u16::MAX
        },
        Screen::GitToolsMenu => code == Key::Enter && a.git_tools.workspace_error is None ==> a.git_tools.selected < 2,
        Screen::GitToolsRepoSelect => {
            let g = a.git_tools;
            &&& is_up(code) ==> repo_move_fits(
                GitToolsState { repo_select_idx: if g.repo_select_idx > 0 { (g.repo_select_idx - 1) as usize } else { 0 }, ..g },
                a.visible_height,
            )
            &&& is_down(code) ==> repo_move_fits(
                GitToolsState {
                    repo_select_idx: if g.repo_select_idx < g.repos.len() { (g.repo_select_idx + 1) as usize } else { g.repo_select_idx },
                    ..g
                },
                a.visible_height,
            )
        },
        _ => true,
    }
}

fn push_char(s: &mut String, c: char)
    ensures
        final(s)@ == old(s)@.push(c),
{
    let mut v = str_chars(s.as_str());
    v.push(c);
    *s = string_from_chars(&v);
}

fn pop_char(s: &mut String)
    ensures
        final(s)@ == pop_seq(old(s)@),
{
    let mut v = str_chars(s.as_str());
    if v.len() > 0 {
        v.pop();
    }
    *s = string_from_chars(&v);
}

fn normalized_key(screen: Screen, key: Key) -> (r: Key)
    ensures
        r == spec_normalized_key(screen, key),
{
    match (screen, key) {
        (Screen::UserSelect, _) | (Screen::GitToolsInput, _) => key,
        (_, Key::Char(c)) => Key::Char(normalize_to_qwerty(c)),
        _ => key,
    }
}

fn repo_move_fits_exec(idx: usize, scroll: u16, visible_height: u16) -> (b: bool)
    ensures
        b == ((idx as u16) as int + 2 <= u16::MAX && scroll as int + (if visible_height >= 2 {
            visible_height - 2
        } else {
            0
        }) <= u16::MAX),
{
    let vis: u32 = if visible_height >= 2 { (visible_height - 2) as u32 } else { 0 };
    ((idx as u16) as u32) + 2 <= 65535 && (scroll as u32) + vis <= 65535
}

/// Whether `key_defined` holds for the key `code` in the state `a`.
pub fn key_defined_exec(a: &AppState, code: Key) -> (b: bool)
    ensures
        b == key_defined(*a, code),
{
    match a.active_screen {
        Screen::UserSelect => {
            let vis: u32 = if a.visible_height >= 2 { (a.visible_height - 2) as u32 } else { 0 };
            let n = a.filtered_contributors().len();
            let scroll_ok = (a.scroll_offset as u32) + vis <= 65535;
            let up = if a.contributor_selected > 0 { a.contributor_selected - 1 } else { 0 };
            let down = if n > 0 && a.contributor_selected < n - 1 {
                a.contributor_selected + 1
            } else {
                a.contributor_selected
            };
            let up_ok = ((up as u16) as u32) + 4 <= 65535 && scroll_ok;
            let down_ok = ((down as u16) as u32) + 4 <= 65535 && scroll_ok;
            (code != Key::Up || up_ok) && (code != Key::Down || down_ok)
        },
        Screen::GitToolsMenu => !(code == Key::Enter && a.git_tools.workspace_error.is_none()) || a.git_tools.selected < 2,
        Screen::GitToolsRepoSelect => {
            let g = &a.git_tools;
            let up = if g.repo_select_idx > 0 { g.repo_select_idx - 1 } else { 0 };
            let down = if g.repo_select_idx < g.repos.len() { g.repo_select_idx + 1 } else { g.repo_select_idx };
            let is_up_key = code == Key::Up || code == Key::Char('k');
            let is_down_key = code == Key::Down || code == Key::Char('j');
            (!is_up_key || repo_move_fits_exec(up, g.scroll, a.visible_height)) && (!is_down_key || repo_move_fits_exec(
                down,
                g.scroll,
                a.visible_height,
            ))
        },
        _ => true,
    }
}

/// Applies a key press when the screen arithmetic allows it (see `handle_key`); otherwise
/// the state stays as it is. Returns whether the key was applied.
pub fn handle_key_checked(app: &mut AppState, key: Key, ctrl: bool) -> (applied: bool)
    ensures
        applied == (ctrl && key == Key::Char('c') || key_defined(*old(app), spec_normalized_key(old(app).active_screen, key))),
        applied && ctrl && key == Key::Char('c') ==> app_quit(*old(app), *final(app)),
        applied && !(ctrl && key == Key::Char('c')) ==> key_effect(
            *old(app),
            *final(app),
            spec_normalized_key(old(app).active_screen, key),
        ),
        !applied ==> *final(app) == *old(app),
{
    if ctrl && key == Key::Char('c') {
        handle_key(app, key, ctrl);
        return true;
    }
    let code = normalized_key(app.active_screen, key);
    if key_defined_exec(app, code) {
        handle_key(app, key, ctrl);
        true
    } else {
        false
    }
}

/// Applies a key press to the interface state: Ctrl+C quits anywhere, other keys act as
/// the screen on show defines.
pub fn handle_key(app: &mut AppState, key: Key, ctrl: bool)
    requires
        !(ctrl && key == Key::Char('c')) ==> key_defined(*old(app), spec_normalized_key(old(app).active_screen, key)),
    ensures
        ctrl && key == Key::Char('c') ==> app_quit(*old(app), *final(app)),
        !(ctrl && key == Key::Char('c')) ==> key_effect(
            *old(app),
            *final(app),
            spec_normalized_key(old(app).active_screen, key),
        ),
{
    if ctrl && key == Key::Char('c') {
        app.quit();
        return;
    }
    let code = match (app.active_screen, key) {
        (Screen::UserSelect, _) | (Screen::GitToolsInput, _) => key,
        (_, Key::Char(c)) => Key::Char(normalize_to_qwerty(c)),
        _ => key,
    };
    match app.active_screen {
        Screen::Home => handle_home(app, code),
        Screen::Help | Screen::Metadata => handle_static_screen(app, code),
        Screen::AnalyzeMenu => handle_analyze_menu(app, code),
        Screen::Analyze => handle_results_screen(app, code),
        Screen::UserSelect => handle_user_select(app, code),
        Screen::GitToolsMenu => handle_git_tools_menu(app, code),
        Screen::GitToolsRepoSelect => handle_git_tools_repo_select(app, code),
        Screen::GitToolsInput => handle_git_tools_input(app, code),
        Screen::GitToolsBranchList => handle_git_tools_branch_list(app, code),
        Screen::GitToolsProgress => handle_git_tools_progress(app, code),
    }
}

fn handle_home(app: &mut AppState, code: Key)
    requires
        old(app).active_screen == Screen::Home,
    ensures
        key_effect(*old(app), *final(app), code),
{
    if code == Key::Char('q') {
        app.quit();
    } else if code == Key::Up || code == Key::Char('k') {
        app.move_up();
    } else if code == Key::Down || code == Key::Char('j') {
        app.move_down();
    } else if code == Key::Enter {
        app.activate_selected();
    } else if code == Key::Char('?') {
        app.active_screen = Screen::Help;
    }
}

fn handle_static_screen(app: &mut AppState, code: Key)
    requires
        old(app).active_screen == Screen::Help || old(app).active_screen == Screen::Metadata,
    ensures
        key_effect(*old(app), *final(app), code),
{
    if code == Key::Char('q') {
        app.quit();
    } else if code == Key::Esc {
        app.go_home();
    } else if code == Key::Char('?') {
        app.active_screen = Screen::Help;
    }
}

fn handle_analyze_menu(app: &mut AppState, code: Key)
    requires
        old(app).active_screen == Screen::AnalyzeMenu,
    ensures
        key_effect(*old(app), *final(app), code),
{
    if code == Key::Char('q') {
        app.quit();
    } else if code == Key::Up || code == Key::Char('k') {
        app.analyze_menu_up();
    } else if code == Key::Down || code == Key::Char('j') {
        app.analyze_menu_down();
    } else if code == Key::Enter {
        app.select_analyze_view();
    } else if code == Key::Esc {
        app.go_home();
    }
}

fn handle_results_screen(app: &mut AppState, code: Key)
    requires
        old(app).active_screen == Screen::Analyze,
    ensures
        key_effect(*old(app), *final(app), code),
{
    if code == Key::Char('q') {
        app.quit();
    } else if code == Key::Esc {
        app.go_home();
    } else if code == Key::Up || code == Key::Char('k') {
        app.scroll_up();
    } else if code == Key::Down || code == Key::Char('j') {
        app.scroll_down();
    } else if code == Key::Char('e') {
        app.request_export();
    }
}

/// Every character goes to the filter: quit with Ctrl+C, go home with Esc.
fn handle_user_select(app: &mut AppState, code: Key)
    requires
        old(app).active_screen == Screen::UserSelect,
        key_defined(*old(app), code),
    ensures
        key_effect(*old(app), *final(app), code),
{
    match code {
        Key::Esc => app.go_home(),
        Key::Up => app.contributor_select_up(),
        Key::Down => app.contributor_select_down(),
        Key::Enter => app.select_contributor(),
        Key::Backspace => {
            pop_char(&mut app.contributor_filter);
            app.contributor_selected = 0;
            app.scroll_offset = 0;
        },
        Key::Char(c) => {
            push_char(&mut app.contributor_filter, c);
            app.contributor_selected = 0;
            app.scroll_offset = 0;
        },
        Key::Other => {},
    }
}

fn handle_git_tools_menu(app: &mut AppState, code: Key)
    requires
        old(app).active_screen == Screen::GitToolsMenu,
        key_defined(*old(app), code),
    ensures
        key_effect(*old(app), *final(app), code),
{
    if code == Key::Char('q') {
        app.quit();
    } else if code == Key::Up || code == Key::Char('k') {
        app.git_tools.menu_up();
    } else if code == Key::Down || code == Key::Char('j') {
        app.git_tools.menu_down();
    } else if code == Key::Enter {
        app.git_tools_select();
    } else if code == Key::Esc {
        app.go_home();
    }
}

/// Every character goes to the input; nothing happens while a listing is loading.
fn handle_git_tools_input(app: &mut AppState, code: Key)
    requires
        old(app).active_screen == Screen::GitToolsInput,
    ensures
        key_effect(*old(app), *final(app), code),
{
    if app.is_loading {
        return;
    }
    match code {
        Key::Esc => {
            app.git_tools.input = String::new();
            app.active_screen = Screen::GitToolsMenu;
        },
        Key::Enter => app.git_tools_submit_input(),
        Key::Backspace => {
            pop_char(&mut app.git_tools.input);
        },
        Key::Char(c) => {
            push_char(&mut app.git_tools.input, c);
        },
        _ => {},
    }
}

fn handle_git_tools_repo_select(app: &mut AppState, code: Key)
    requires
        old(app).active_screen == Screen::GitToolsRepoSelect,
        key_defined(*old(app), code),
    ensures
        key_effect(*old(app), *final(app), code),
{
    if code == Key::Char('q') {
        app.quit();
    } else if code == Key::Up || code == Key::Char('k') {
        app.git_tools.repo_select_up();
        let ghost g1 = app.git_tools;
        let h = app.visible_height;
        app.git_tools.ensure_repo_visible(h);
        assert(tools_repo_select_up(old(app).git_tools, g1) && repo_cursor_moved(*old(app), *app, g1));
    } else if code == Key::Down || code == Key::Char('j') {
        app.git_tools.repo_select_down();
        let ghost g1 = app.git_tools;
        let h = app.visible_height;
        app.git_tools.ensure_repo_visible(h);
        assert(tools_repo_select_down(old(app).git_tools, g1) && repo_cursor_moved(*old(app), *app, g1));
    } else if code == Key::Enter {
        app.git_tools_select_repo();
    } else if code == Key::Esc {
        app.git_tools.clear_tool();
        app.active_screen = Screen::GitToolsMenu;
    }
}

fn handle_git_tools_branch_list(app: &mut AppState, code: Key)
    requires
        old(app).active_screen == Screen::GitToolsBranchList,
    ensures
        key_effect(*old(app), *final(app), code),
{
    if code == Key::Char('y') || code == Key::Enter {
        app.git_tools_confirm_delete();
    } else if code == Key::Char('n') || code == Key::Esc {
        app.git_tools.clear_tool();
        app.active_screen = Screen::GitToolsMenu;
    } else if code == Key::Up || code == Key::Char('k') {
        app.git_tools.scroll_up();
    } else if code == Key::Down || code == Key::Char('j') {
        app.git_tools_scroll_down();
    } else if code == Key::Char('q') {
        app.quit();
    }
}

/// Once deletion is done: Enter or Esc leaves; while it runs, Esc stops it.
fn handle_git_tools_progress(app: &mut AppState, code: Key)
    requires
        old(app).active_screen == Screen::GitToolsProgress,
    ensures
        key_effect(*old(app), *final(app), code),
{
    if app.git_tools.done {
        if code == Key::Enter || code == Key::Esc {
            app.git_tools.clear_tool();
            app.active_screen = Screen::GitToolsMenu;
        } else if code == Key::Char('q') {
            app.quit();
        } else if code == Key::Up || code == Key::Char('k') {
            app.git_tools.scroll_up();
        } else if code == Key::Down || code == Key::Char('j') {
            app.git_tools_scroll_down();
        }
    } else {
        if code == Key::Esc {
            app.git_tools.done = true;
        } else if code == Key::Up || code == Key::Char('k') {
            app.git_tools.scroll_up();
        } else if code == Key::Down || code == Key::Char('j') {
            app.git_tools_scroll_down();
        }
    }
}
} // verus!
