//! The terminal interface's state and decisions: which lines are visible,
//! how keys change the interface and the core, and the colors of levels.
//! Drawing is left to the frontend.
use vstd::prelude::*;
use crate::ansi::TermColor;
use crate::appcore::{core_rest_same, filter_error_of, lemma_six_levels, same_settings, AppCore, DisplayLine};
use crate::clock::utc_now;
use crate::models::{LogEntryModel, LogLevel, Timestamp};
use crate::source::SourceCommand;
use crate::text::{
    contains, contains_str, lowercase, pop_char, push_char, sorted_strings, sorted_strs, str_eq, string_views,
    to_lowercase,
};

verus! {

/// What keys are read as.
#[derive(Clone, Copy, Debug, PartialEq, Eq, Structural)]
pub enum Mode {
    Normal,
    Filter,
    Search,
}

/// The interface's state.
pub struct Ui {
    /// Position of the selected source among the sorted source names.
    pub tab: usize,
    /// Position of the first visible line among the lines that pass.
    pub scroll: usize,
    /// Whether the view sticks to the newest line.
    pub follow: bool,
    pub mode: Mode,
    pub search: String,
    /// Positions (among the lines that pass) of search matches.
    pub matches: Vec<usize>,
    pub current_match: Option<usize>,
    pub show_help: bool,
    /// Rows for log lines at the last draw.
    pub viewport: usize,
}

impl Default for Ui {
    fn default() -> (r: Ui)
        ensures
            r.tab == 0,
            r.scroll == 0,
            r.follow,
            r.mode == Mode::Normal,
            r.search@ == Seq::<char>::empty(),
            r.matches@.len() == 0,
            r.current_match is None,
            !r.show_help,
            r.viewport == 20,
    {
        Ui {
            tab: 0,
            scroll: 0,
            follow: true,
            mode: Mode::Normal,
            search: String::new(),
            matches: Vec::new(),
            current_match: None,
            show_help: false,
            viewport: 20,
        }
    }
}

/// A key as the interface reads it.
#[derive(Clone, Copy, Debug, PartialEq, Eq, Structural)]
pub enum Key {
    Char(char),
    Esc,
    Enter,
    Backspace,
    Up,
    Down,
    PageUp,
    PageDown,
    Home,
    End,
    Tab,
    BackTab,
    Other,
}

/// What the frontend does after a key.
pub enum KeyOutcome {
    Continue,
    Quit,
    /// Send this command to the sources, then continue.
    Send(SourceCommand),
}

/// The interface's state as values.
#[verifier::ext_equal]
pub struct UiModel {
    pub tab: usize,
    pub scroll: usize,
    pub follow: bool,
    pub mode: Mode,
    pub search: Seq<char>,
    pub matches: Seq<usize>,
    pub current_match: Option<usize>,
    pub show_help: bool,
    pub viewport: usize,
}

impl View for Ui {
    type V = UiModel;

    open spec fn view(&self) -> UiModel {
        UiModel {
            tab: self.tab,
            scroll: self.scroll,
            follow: self.follow,
            mode: self.mode,
            search: self.search@,
            matches: self.matches@,
            current_match: self.current_match,
            show_help: self.show_help,
            viewport: self.viewport,
        }
    }
}

/// The scroll position `delta` lines away from `scroll`, not above the top.
pub open spec fn scrolled(scroll: usize, delta: int) -> int {
    if scroll + delta < 0 {
        0
    } else {
        scroll + delta
    }
}

/// The interface after scrolling by `delta` lines: no longer following.
pub open spec fn scrolled_view(u: UiModel, delta: int) -> UiModel {
    UiModel { follow: false, scroll: scrolled(u.scroll, delta) as usize, ..u }
}

/// Scrolls by `delta` lines (down when positive) and stops following.
pub fn scroll_by(ui: &mut Ui, delta: isize)
    requires
        old(ui).scroll <= isize::MAX,
        isize::MIN <= old(ui).scroll + delta <= isize::MAX,
    ensures
        final(ui)@ == scrolled_view(old(ui)@, delta as int),
{
    ui.follow = false;
    let cur = ui.scroll as isize;
    let next = cur + delta;
    ui.scroll = if next < 0 {
        0
    } else {
        next as usize
    };
}

/// The position, among `len` search matches, that `n` (forward) or `N`
/// moves to from `cur`: the next or previous one, wrapping around; the
/// first or last when there is no current match.
pub open spec fn next_match_index(len: nat, cur: Option<usize>, forward: bool) -> int {
    if cur is Some && cur->0 < len {
        if forward {
            if cur->0 + 1 == len {
                0
            } else {
                cur->0 + 1
            }
        } else if cur->0 == 0 {
            len - 1
        } else {
            cur->0 - 1
        }
    } else if forward {
        0
    } else {
        len - 1
    }
}

/// The interface after `n` (forward) or `N`: with matches, the next or
/// previous match becomes current and the view stops following and scrolls
/// to it; without matches nothing changes.
pub open spec fn search_step(u: UiModel, forward: bool) -> UiModel {
    if u.matches.len() == 0 {
        u
    } else {
        let i = next_match_index(u.matches.len(), u.current_match, forward);
        UiModel { current_match: Some(i as usize), scroll: u.matches[i], follow: false, ..u }
    }
}

/// Moves to the next (`forward`) or previous search match.
pub fn search_next(ui: &mut Ui, forward: bool)
    ensures
        final(ui)@ == search_step(old(ui)@, forward),
{
    let len = ui.matches.len();
    if len == 0 {
        return;
    }
    let i: usize = match ui.current_match {
        Some(c) => if c < len {
            if forward {
                if c + 1 == len {
                    0
                } else {
                    c + 1
                }
            } else if c == 0 {
                len - 1
            } else {
                c - 1
            }
        } else if forward {
            0
        } else {
            len - 1
        },
        None => if forward {
            0
        } else {
            len - 1
        },
    };
    ui.current_match = Some(i);
    ui.scroll = ui.matches[i];
    ui.follow = false;
}

/// `n` moves to the match after the current one and `N` to the one before,
/// wrapping around at the ends; with no current match `n` starts at the
/// first and `N` at the last. The view scrolls to the new match and stops
/// following.
pub proof fn lemma_search_direction(u: UiModel)
    requires
        0 < u.matches.len() <= usize::MAX,
    ensures
        u.current_match is Some && u.current_match->0 + 1 < u.matches.len() ==> search_step(u, true).current_match
            == Some((u.current_match->0 + 1) as usize),
        u.current_match is Some && u.current_match->0 + 1 == u.matches.len() ==> search_step(u, true).current_match
            == Some(0usize),
        u.current_match is Some && 0 < u.current_match->0 < u.matches.len() ==> search_step(u, false).current_match
            == Some((u.current_match->0 - 1) as usize),
        u.current_match == Some(0usize) ==> search_step(u, false).current_match == Some((u.matches.len() - 1) as usize),
        u.current_match is None ==> search_step(u, true).current_match == Some(0usize),
        u.current_match is None ==> search_step(u, false).current_match == Some((u.matches.len() - 1) as usize),
        forall|forward: bool| #![trigger search_step(u, forward)]
            search_step(u, forward).current_match is Some && search_step(u, forward).current_match->0 < u.matches.len()
                && search_step(u, forward).scroll == u.matches[search_step(u, forward).current_match->0 as int]
                && !search_step(u, forward).follow,
{
}

/// Moving to the next search match and then back to the previous one
/// returns to the match it started from.
pub proof fn lemma_next_then_previous(u: UiModel)
    requires
        0 < u.matches.len() <= usize::MAX,
        u.current_match is Some,
        u.current_match->0 < u.matches.len(),
    ensures
        search_step(search_step(u, true), false).current_match == u.current_match,
{
    let len = u.matches.len();
    let c = u.current_match->0;
    let i = next_match_index(len, u.current_match, true);
    assert(0 <= i < len);
    let u1 = search_step(u, true);
    assert(u1.matches == u.matches);
    assert(u1.current_match == Some(i as usize));
    assert((i as usize) as int == i);
    let j = next_match_index(len, u1.current_match, false);
    assert(j == c);
}

/// Pressing a level's digit twice leaves the level toggles as they were.
pub proof fn lemma_toggle_twice(levels: Seq<bool>, i: int)
    requires
        0 <= i < levels.len(),
    ensures
        levels.update(i, !levels[i]).update(i, !levels.update(i, !levels[i])[i]) == levels,
{
    assert(levels.update(i, !levels[i]).update(i, !levels.update(i, !levels[i])[i]) =~= levels);
}

/// The number of tabs: the number of sources, and at least one.
pub open spec fn tab_count(core: AppCore) -> nat {
    if core.spec_sources().view().dom().len() == 0 {
        1
    } else {
        core.spec_sources().view().dom().len()
    }
}

/// The position of the level toggled by the digit key `c` ('1' to '6').
pub open spec fn digit_level(c: char) -> int {
    (c as int) - ('1' as int)
}

/// What a key does to the interface in normal mode with help closed (the
/// core's changes are stated by `handle_key`).
pub open spec fn normal_key_view(key: Key, control: bool, u: UiModel, n_tabs: nat) -> UiModel {
    match key {
        Key::Char('?') => UiModel { show_help: true, ..u },
        Key::Char('f') => UiModel { mode: Mode::Filter, ..u },
        Key::Char('/') => UiModel { mode: Mode::Search, search: seq![], ..u },
        Key::Char('c') => UiModel { scroll: 0, ..u },
        Key::Char(' ') => UiModel { follow: !u.follow, ..u },
        Key::Char('j') | Key::Down => scrolled_view(u, 1),
        Key::Char('k') | Key::Up => scrolled_view(u, -1),
        Key::Char('d') => if control {
            scrolled_view(u, (u.viewport / 2) as int)
        } else {
            u
        },
        Key::Char('u') => if control {
            scrolled_view(u, -((u.viewport / 2) as int))
        } else {
            u
        },
        Key::PageDown => scrolled_view(u, u.viewport as int),
        Key::PageUp => scrolled_view(u, -(u.viewport as int)),
        Key::Char('g') | Key::Home => UiModel { follow: false, scroll: 0, ..u },
        Key::Char('G') | Key::End => UiModel { follow: true, ..u },
        Key::Char('n') => search_step(u, true),
        Key::Char('N') => search_step(u, false),
        Key::Tab => UiModel { tab: ((u.tab + 1) % (n_tabs as int)) as usize, ..u },
        Key::BackTab => UiModel { tab: ((u.tab + n_tabs - 1) % (n_tabs as int)) as usize, ..u },
        _ => u,
    }
}

/// Whether `key` quits in normal mode with help closed.
pub open spec fn quits(key: Key) -> bool {
    key == Key::Char('q') || key == Key::Esc
}

/// Whether `c` is one of the level toggle keys '1' to '6'.
pub open spec fn is_level_digit(c: char) -> bool {
    '1' <= c && c <= '6'
}

/// The core after the live filter text became `t` (through
/// `AppCore::update_filter`): the live filter and its regex error follow the
/// text; everything else stays.
pub open spec fn filter_text_set(a: AppCore, b: AppCore, t: Seq<char>) -> bool {
    &&& a.spec_filter_text() == t
    &&& a.spec_filters().live() == (if t.len() == 0 {
        None
    } else {
        Some(t)
    })
    &&& a.spec_filter_error() == filter_error_of(t)
    &&& a.spec_filters().inclusions() == b.spec_filters().inclusions()
    &&& a.spec_filters().exclusions() == b.spec_filters().exclusions()
    &&& a.spec_log() == b.spec_log()
    &&& a.spec_show_levels() == b.spec_show_levels()
    &&& core_rest_same(a, b)
}

/// The core after the log was emptied: a fresh history on the same bound,
/// one version later; everything else stays.
pub open spec fn log_emptied(a: AppCore, b: AppCore) -> bool {
    &&& a.spec_log().history() == Seq::<LogEntryModel>::empty()
    &&& a.spec_log().max_lines() == b.spec_log().max_lines()
    &&& a.spec_log().spec_version() == b.spec_log().spec_version() + 1
    &&& same_settings(a, b)
    &&& core_rest_same(a, b)
}

/// Handles a key: edits the filter or the search text in those modes, and in
/// normal mode closes help, quits, switches modes, scrolls, moves between
/// search matches, switches source, toggles levels, clears the buffer or
/// asks the sources to reload.
pub fn handle_key(key: Key, control: bool, core: &mut AppCore, ui: &mut Ui) -> (r: KeyOutcome)
    requires
        old(core).wf(),
        old(core).spec_log().spec_version() < u64::MAX,
        old(ui).scroll + old(ui).viewport < isize::MAX,
        old(ui).tab + tab_count(*old(core)) <= usize::MAX,
    ensures
        final(core).wf(),
        final(core).spec_show_levels().len() == 6,
        match old(ui).mode {
            Mode::Filter => {
                &&& r is Continue
                &&& match key {
                    Key::Esc | Key::Enter => final(ui)@ == (UiModel { mode: Mode::Normal, ..old(ui)@ })
                        && *final(core) == *old(core),
                    Key::Backspace => final(ui)@ == old(ui)@ && filter_text_set(
                        *final(core),
                        *old(core),
                        if old(core).spec_filter_text().len() == 0 {
                            old(core).spec_filter_text()
                        } else {
                            old(core).spec_filter_text().drop_last()
                        },
                    ),
                    Key::Char(c) => final(ui)@ == old(ui)@ && filter_text_set(
                        *final(core),
                        *old(core),
                        old(core).spec_filter_text().push(c),
                    ),
                    _ => final(ui)@ == old(ui)@ && *final(core) == *old(core),
                }
            },
            Mode::Search => {
                &&& r is Continue
                &&& *final(core) == *old(core)
                &&& final(ui)@ == match key {
                    Key::Esc => UiModel { mode: Mode::Normal, search: seq![], ..old(ui)@ },
                    Key::Enter => UiModel { mode: Mode::Normal, ..old(ui)@ },
                    Key::Backspace => UiModel {
                        search: if old(ui)@.search.len() == 0 {
                            old(ui)@.search
                        } else {
                            old(ui)@.search.drop_last()
                        },
                        ..old(ui)@
                    },
                    Key::Char(c) => UiModel { search: old(ui)@.search.push(c), ..old(ui)@ },
                    _ => old(ui)@,
                }
            },
            Mode::Normal => if old(ui).show_help {
                &&& r is Continue
                &&& final(ui)@ == (UiModel { show_help: false, ..old(ui)@ })
                &&& *final(core) == *old(core)
            } else if quits(key) {
                &&& r is Quit
                &&& final(ui)@ == old(ui)@
                &&& *final(core) == *old(core)
            } else {
                &&& final(ui)@ == normal_key_view(key, control, old(ui)@, tab_count(*old(core)))
                &&& match key {
                    Key::Char('r') => r matches KeyOutcome::Send(SourceCommand::Reload { names })
                        && string_views(names@) == old(core).spec_sources().key_list()
                        && log_emptied(*final(core), *old(core)),
                    Key::Char('c') => r is Continue && log_emptied(*final(core), *old(core)),
                    Key::Char(c) => r is Continue && if is_level_digit(c) {
                        &&& final(core).spec_show_levels() == old(core).spec_show_levels().update(
                            digit_level(c),
                            !old(core).spec_show_levels()[digit_level(c)],
                        )
                        &&& final(core).spec_log() == old(core).spec_log()
                        &&& final(core).spec_filters() == old(core).spec_filters()
                        &&& final(core).spec_filter_text() == old(core).spec_filter_text()
                        &&& final(core).spec_filter_error() == old(core).spec_filter_error()
                        &&& core_rest_same(*final(core), *old(core))
                    } else {
                        *final(core) == *old(core)
                    },
                    _ => r is Continue && *final(core) == *old(core),
                }
            },
        },
{
    proof {
        lemma_six_levels(*old(core));
    }
    match ui.mode {
        Mode::Filter => {
            match key {
                Key::Esc => {
                    ui.mode = Mode::Normal;
                },
                Key::Enter => {
                    ui.mode = Mode::Normal;
                },
                Key::Backspace => {
                    core.pop_filter_char();
                },
                Key::Char(c) => {
                    core.push_filter_char(c);
                },
                _ => {},
            }
            return KeyOutcome::Continue;
        },
        Mode::Search => {
            match key {
                Key::Esc => {
                    ui.search = String::new();
                    ui.mode = Mode::Normal;
                },
                Key::Enter => {
                    ui.mode = Mode::Normal;
                },
                Key::Backspace => {
                    pop_char(&mut ui.search);
                },
                Key::Char(c) => {
                    push_char(&mut ui.search, c);
                },
                _ => {},
            }
            return KeyOutcome::Continue;
        },
        Mode::Normal => {},
    }
    if ui.show_help {
        ui.show_help = false;
        return KeyOutcome::Continue;
    }
    match key {
        Key::Char('q') | Key::Esc => {
            return KeyOutcome::Quit;
        },
        Key::Char('?') => {
            ui.show_help = true;
        },
        Key::Char('f') => {
            ui.mode = Mode::Filter;
        },
        Key::Char('/') => {
            ui.search = String::new();
            ui.mode = Mode::Search;
        },
        Key::Char('r') => {
            let cmd = core.reload();
            return KeyOutcome::Send(cmd);
        },
        Key::Char('c') => {
            core.clear_log();
            ui.scroll = 0;
        },
        Key::Char(' ') => {
            ui.follow = !ui.follow;
        },
        Key::Char('j') | Key::Down => scroll_by(ui, 1),
        Key::Char('k') | Key::Up => scroll_by(ui, -1),
        Key::Char('d') => {
            if control {
                scroll_by(ui, (ui.viewport / 2) as isize);
            }
        },
        Key::Char('u') => {
            if control {
                scroll_by(ui, -((ui.viewport / 2) as isize));
            }
        },
        Key::PageDown => scroll_by(ui, ui.viewport as isize),
        Key::PageUp => scroll_by(ui, -(ui.viewport as isize)),
        Key::Char('g') | Key::Home => {
            ui.follow = false;
            ui.scroll = 0;
        },
        Key::Char('G') | Key::End => {
            ui.follow = true;
        },
        Key::Char('n') => search_next(ui, true),
        Key::Char('N') => search_next(ui, false),
        Key::Tab => {
            let len = core.source_count();
            let n = if len == 0 {
                1
            } else {
                len
            };
            ui.tab = (ui.tab + 1) % n;
        },
        Key::BackTab => {
            let len = core.source_count();
            let n = if len == 0 {
                1
            } else {
                len
            };
            ui.tab = (ui.tab + n - 1) % n;
        },
        Key::Char(d) => {
            if '1' <= d && d <= '6' {
                let idx = (d as u32 - '1' as u32) as usize;
                core.toggle_level(idx);
            }
        },
        _ => {},
    }
    KeyOutcome::Continue
}

// ---------------------------------------------------------------------------
// The visible lines

/// Whether a line is shown: it comes from the selected source (if one is
/// selected) and passes the core's level toggles and filters at `now`.
pub open spec fn line_shown(core: AppCore, selected: Option<Seq<char>>, line: DisplayLine, now: Timestamp) -> bool {
    &&& match selected {
        Some(s) => line.entry.source@ == s,
        None => true,
    }
    &&& core.spec_passes(line.entry@, now)
}

/// Positions, among the first `k` buffered lines, of the lines shown.
pub open spec fn shown_positions(core: AppCore, selected: Option<Seq<char>>, now: Timestamp, k: nat) -> Seq<int>
    decreases k,
{
    if k == 0 {
        seq![]
    } else {
        let rest = shown_positions(core, selected, now, (k - 1) as nat);
        if line_shown(core, selected, core.spec_log().lines()[k - 1], now) {
            rest.push(k - 1)
        } else {
            rest
        }
    }
}

proof fn lemma_shown_positions_bounded(core: AppCore, selected: Option<Seq<char>>, now: Timestamp, k: nat)
    ensures
        shown_positions(core, selected, now, k).len() <= k,
        forall|j: int| 0 <= j < shown_positions(core, selected, now, k).len() ==> 0 <= #[trigger] shown_positions(core, selected, now, k)[j] < k,
    decreases k,
{
    if k > 0 {
        lemma_shown_positions_bounded(core, selected, now, (k - 1) as nat);
        let rest = shown_positions(core, selected, now, (k - 1) as nat);
        let all = shown_positions(core, selected, now, k);
        assert forall|j: int| 0 <= j < all.len() implies 0 <= #[trigger] all[j] < k by {
            if j < rest.len() {
                assert(all[j] == rest[j]);
            }
        }
    }
}

/// The first shown line in view: the last screenful when following, else
/// the scroll position, but not past the last screenful.
pub open spec fn first_in_view(total: nat, height: nat, follow: bool, scroll: nat) -> nat {
    let max_first: nat = if total >= height {
        (total - height) as nat
    } else {
        0
    };
    if follow || scroll > max_first {
        max_first
    } else {
        scroll
    }
}

/// An optional string's characters.
pub open spec fn opt_str_view(s: Option<&str>) -> Option<Seq<char>> {
    match s {
        Some(t) => Some(t@),
        None => None,
    }
}

/// `r` is the number of shown lines at `now` and the positions of those in
/// view, and `scroll_after` the first in view, given the scroll position
/// `scroll_before`.
pub open spec fn view_result(
    core: AppCore,
    sel: Option<Seq<char>>,
    follow: bool,
    scroll_before: usize,
    scroll_after: usize,
    height: usize,
    now: Timestamp,
    r: (usize, Vec<usize>),
) -> bool {
    let shown = shown_positions(core, sel, now, core.spec_log().lines().len());
    let first = first_in_view(shown.len(), height as nat, follow, scroll_before as nat);
    &&& r.0 == shown.len()
    &&& scroll_after == first
    &&& r.1@.len() == if first + height <= shown.len() {
        height as int
    } else {
        shown.len() - first
    }
    &&& forall|j: int| 0 <= j < r.1@.len() ==> #[trigger] r.1@[j] == shown[first + j]
}

/// The positions (in the buffer) of the lines shown at time `now`, in order.
pub fn shown_lines_at(core: &AppCore, selected: Option<&str>, now: Timestamp) -> (r: Vec<usize>)
    requires
        core.wf(),
    ensures
        r@.len() == shown_positions(*core, opt_str_view(selected), now, core.spec_log().lines().len()).len(),
        forall|j: int| 0 <= j < r@.len() ==> #[trigger] r@[j] == shown_positions(
            *core,
            opt_str_view(selected),
            now,
            core.spec_log().lines().len(),
        )[j],
        forall|j: int| 0 <= j < r@.len() ==> #[trigger] r@[j] < core.spec_log().lines().len(),
{
    let ghost sel = opt_str_view(selected);
    let n = core.log_state().line_count();
    let mut shown: Vec<usize> = Vec::new();
    let mut i: usize = 0;
    while i < n
        invariant
            core.wf(),
            n == core.spec_log().lines().len(),
            sel == opt_str_view(selected),
            i <= n,
            shown@.len() == shown_positions(*core, sel, now, i as nat).len(),
            forall|j: int| 0 <= j < shown@.len() ==> #[trigger] shown@[j] == shown_positions(*core, sel, now, i as nat)[j],
        decreases n - i,
    {
        let line = core.log_state().line(i);
        let from_selected = match selected {
            Some(s) => str_eq(line.entry.source.as_str(), s),
            None => true,
        };
        let ghost prev = shown@;
        let pass = from_selected && core.passes_filter_at(line, now);
        assert(pass == line_shown(*core, sel, core.spec_log().lines()[i as int], now));
        if pass {
            shown.push(i);
        }
        proof {
            let p0 = shown_positions(*core, sel, now, i as nat);
            let p1 = shown_positions(*core, sel, now, (i + 1) as nat);
            assert(p1 == if line_shown(*core, sel, core.spec_log().lines()[i as int], now) {
                p0.push(i as int)
            } else {
                p0
            });
            assert forall|j: int| 0 <= j < shown@.len() implies #[trigger] shown@[j] == p1[j] by {
                if j < prev.len() {
                    assert(shown@[j] == prev[j]);
                }
            }
        }
        i += 1;
    }
    proof {
        lemma_shown_positions_bounded(*core, sel, now, n as nat);
    }
    shown
}

/// The positions of the shown lines (at the current time), in order.
pub fn shown_lines(core: &AppCore, selected: Option<&str>) -> (r: Vec<usize>)
    requires
        core.wf(),
    ensures
        exists|now: Timestamp| #![trigger shown_positions(*core, opt_str_view(selected), now, core.spec_log().lines().len())]
            r@.len() == shown_positions(*core, opt_str_view(selected), now, core.spec_log().lines().len()).len()
            && forall|j: int| 0 <= j < r@.len() ==> #[trigger] r@[j] == shown_positions(
                *core,
                opt_str_view(selected),
                now,
                core.spec_log().lines().len(),
            )[j],
        forall|j: int| 0 <= j < r@.len() ==> #[trigger] r@[j] < core.spec_log().lines().len(),
{
    let now = utc_now();
    shown_lines_at(core, selected, now)
}

/// Of the shown lines `shown`, the count and those in view: at most
/// `height` of them from the first in view; the scroll position becomes the
/// first in view.
pub fn window_of(shown: &Vec<usize>, follow: bool, scroll: &mut usize, height: usize) -> (r: (usize, Vec<usize>))
    ensures
        r.0 == shown@.len(),
        *final(scroll) == first_in_view(shown@.len(), height as nat, follow, *old(scroll) as nat),
        r.1@.len() == if *final(scroll) + height <= shown@.len() {
            height as int
        } else {
            shown@.len() - *final(scroll)
        },
        forall|j: int| 0 <= j < r.1@.len() ==> #[trigger] r.1@[j] == shown@[*final(scroll) + j],
{
    let total = shown.len();
    let max_first = if total >= height {
        total - height
    } else {
        0
    };
    let first = if follow || *scroll > max_first {
        max_first
    } else {
        *scroll
    };
    *scroll = first;
    let end = if height <= total - first {
        first + height
    } else {
        total
    };
    let mut window: Vec<usize> = Vec::new();
    let mut k = first;
    while k < end
        invariant
            first <= k <= end <= total,
            total == shown@.len(),
            window@.len() == k - first,
            forall|j: int| 0 <= j < window@.len() ==> #[trigger] window@[j] == shown@[first + j],
        decreases end - k,
    {
        window.push(shown[k]);
        k += 1;
    }
    (total, window)
}

/// The number of shown lines and the positions (in the buffer) of those in
/// view, at most `height` of them from the first in view, at time `now`;
/// the scroll position becomes the first in view.
pub fn compute_view_at(
    core: &AppCore,
    selected: Option<&str>,
    follow: bool,
    scroll: &mut usize,
    height: usize,
    now: Timestamp,
) -> (r: (usize, Vec<usize>))
    requires
        core.wf(),
    ensures
        view_result(*core, opt_str_view(selected), follow, *old(scroll), *final(scroll), height, now, r),
{
    let shown = shown_lines_at(core, selected, now);
    let r = window_of(&shown, follow, scroll, height);
    r
}

/// Of the shown lines `shown` (buffer positions), the positions among the
/// first `k` whose message, in lowercase, contains `needle`.
pub open spec fn matching_positions(core: AppCore, shown: Seq<usize>, needle: Seq<char>, k: nat) -> Seq<usize>
    decreases k,
{
    if k == 0 {
        seq![]
    } else {
        let rest = matching_positions(core, shown, needle, (k - 1) as nat);
        if contains(lowercase(core.spec_log().lines()[shown[k - 1] as int].entry.message@), needle) {
            rest.push((k - 1) as usize)
        } else {
            rest
        }
    }
}

/// The interface with its search matches `m` set: none without a search
/// text; a current match past the end moves to the first (or to none).
pub open spec fn with_matches(u: UiModel, m: Seq<usize>) -> UiModel {
    if u.search.len() == 0 {
        UiModel { matches: seq![], current_match: None, ..u }
    } else {
        UiModel {
            matches: m,
            current_match: if u.current_match is Some && u.current_match->0 >= m.len() {
                if m.len() == 0 {
                    None
                } else {
                    Some(0)
                }
            } else {
                u.current_match
            },
            ..u
        }
    }
}

/// Sets the search matches: the positions, among the shown lines `shown`,
/// of those whose message contains the search text, ignoring case.
pub fn refresh_matches(core: &AppCore, shown: &Vec<usize>, ui: &mut Ui)
    requires
        forall|j: int| 0 <= j < shown@.len() ==> #[trigger] shown@[j] < core.spec_log().lines().len(),
    ensures
        final(ui)@ == with_matches(
            old(ui)@,
            matching_positions(*core, shown@, lowercase(old(ui).search@), shown@.len()),
        ),
{
    if ui.search.as_str().is_empty() {
        ui.matches = Vec::new();
        ui.current_match = None;
        return;
    }
    let needle = to_lowercase(ui.search.as_str());
    let ghost nd = lowercase(old(ui).search@);
    let mut m: Vec<usize> = Vec::new();
    let mut j: usize = 0;
    while j < shown.len()
        invariant
            j <= shown@.len(),
            needle@ == nd,
            forall|i: int| 0 <= i < shown@.len() ==> #[trigger] shown@[i] < core.spec_log().lines().len(),
            m@ == matching_positions(*core, shown@, nd, j as nat),
        decreases shown@.len() - j,
    {
        let line = core.log_state().line(shown[j]);
        let msg = to_lowercase(line.entry.message.as_str());
        if contains_str(msg.as_str(), needle.as_str()) {
            m.push(j);
        }
        j += 1;
    }
    let len = m.len();
    match ui.current_match {
        Some(c) => {
            if c >= len {
                ui.current_match = if len == 0 {
                    None
                } else {
                    Some(0)
                };
            }
        },
        None => {},
    }
    ui.matches = m;
}

/// [`compute_view_at`] at the current time (the clock is read once).
pub fn compute_view(
    core: &AppCore,
    selected: Option<&str>,
    follow: bool,
    scroll: &mut usize,
    height: usize,
) -> (r: (usize, Vec<usize>))
    requires
        core.wf(),
    ensures
        exists|now: Timestamp| #[trigger] view_result(*core, opt_str_view(selected), follow, *old(scroll), *final(scroll), height, now, r),
{
    let now = utc_now();
    let r = compute_view_at(core, selected, follow, scroll, height, now);
    assert(view_result(*core, opt_str_view(selected), follow, *old(scroll), *scroll, height, now, r));
    r
}

/// The names of the known sources, sorted (the tabs, in order).
pub fn sorted_sources(core: &AppCore) -> (r: Vec<String>)
    requires
        core.wf(),
    ensures
        sorted_strs(string_views(r@)),
        string_views(r@).to_multiset() == core.spec_sources().key_list().to_multiset(),
{
    let names = core.source_infos().keys();
    sorted_strings(&names)
}

/// The color lines of a level are drawn in; `None` for the terminal's
/// default color.
pub fn level_color(level: Option<LogLevel>) -> (r: Option<TermColor>)
    ensures
        r == (match level {
            Some(LogLevel::Trace) => Some(TermColor::DarkGray),
            Some(LogLevel::Debug) => Some(TermColor::Gray),
            Some(LogLevel::Info) => Some(TermColor::Cyan),
            Some(LogLevel::Warn) => Some(TermColor::Yellow),
            Some(LogLevel::Error) => Some(TermColor::Red),
            Some(LogLevel::Fatal) => Some(TermColor::Magenta),
            None => None,
        }),
{
    match level {
        Some(LogLevel::Trace) => Some(TermColor::DarkGray),
        Some(LogLevel::Debug) => Some(TermColor::Gray),
        Some(LogLevel::Info) => Some(TermColor::Cyan),
        Some(LogLevel::Warn) => Some(TermColor::Yellow),
        Some(LogLevel::Error) => Some(TermColor::Red),
        Some(LogLevel::Fatal) => Some(TermColor::Magenta),
        None => None,
    }
}

} // verus!
