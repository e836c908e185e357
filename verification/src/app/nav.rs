//! Moving through the panels and their lists.
use vstd::prelude::*;
use crate::app::{slot_of, App, ListState, NavState, SyncState};
use crate::device::DeviceState;
use crate::format::{first_char_upper, first_upper};
use crate::tracks::AlbumInfo;
use crate::types::{BrowseMode, DeviceStatus, Panel, SidebarEntry, SidebarMode};

verus! {

/// The start of the run of equal groups that `at` stands in.
pub open spec fn run_start<G>(groups: Seq<G>, at: int) -> int
    decreases at,
{
    if at <= 0 || groups[at - 1] != groups[at] {
        at
    } else {
        run_start(groups, at - 1)
    }
}

/// The next place from `from` on that is not of group `g`, or the top.
pub open spec fn next_other<G>(groups: Seq<G>, g: G, from: int) -> int
    decreases groups.len() - from,
{
    if from >= groups.len() {
        0
    } else if groups[from] != g {
        from
    } else {
        next_other(groups, g, from + 1)
    }
}

/// Where a skip forward lands: the next group, or the top after the last one.
pub open spec fn next_group<G>(groups: Seq<G>, at: int) -> int {
    next_other(groups, groups[at], at + 1)
}

/// Where a skip back lands: the start of the group before, or the end from the
/// first one.
pub open spec fn prev_group<G>(groups: Seq<G>, at: int) -> int {
    let start = run_start(groups, at);
    if at == 0 || start == 0 {
        groups.len() - 1
    } else {
        run_start(groups, start - 1)
    }
}

proof fn run_start_bounds<G>(groups: Seq<G>, at: int)
    requires
        0 <= at < groups.len(),
    ensures
        0 <= run_start(groups, at) <= at,
        run_start(groups, at) == 0 || groups[run_start(groups, at) - 1] != groups[run_start(groups, at)],
        groups[run_start(groups, at)] == groups[at],
    decreases at,
{
    if at > 0 && groups[at - 1] == groups[at] {
        run_start_bounds(groups, at - 1);
    }
}

proof fn next_other_facts<G>(groups: Seq<G>, g: G, from: int)
    requires
        0 < from <= groups.len(),
        groups[from - 1] == g,
    ensures
        0 <= next_other(groups, g, from) < groups.len(),
        next_other(groups, g, from) == 0 || (groups[next_other(groups, g, from) - 1] == g
            && groups[next_other(groups, g, from)] != g),
    decreases groups.len() - from,
{
    if from < groups.len() && groups[from] == g {
        next_other_facts(groups, g, from + 1);
    }
}

/// A skip forward lands on the first entry of a group, within the list.
pub proof fn skip_lands_on_a_group<G>(groups: Seq<G>, at: int)
    requires
        0 <= at < groups.len(),
    ensures
        0 <= next_group(groups, at) < groups.len(),
        run_start(groups, next_group(groups, at)) == next_group(groups, at),
{
    next_other_facts(groups, groups[at], at + 1);
}

/// A skip back that does not wrap lands on the first entry of the group before.
pub proof fn skip_back_lands_on_a_group<G>(groups: Seq<G>, at: int)
    requires
        0 <= at < groups.len(),
    ensures
        0 <= prev_group(groups, at) < groups.len(),
        run_start(groups, at) > 0 ==> {
            let p = prev_group(groups, at);
            &&& p < run_start(groups, at)
            &&& run_start(groups, p) == p
            &&& groups[p] == groups[run_start(groups, at) - 1]
        },
{
    run_start_bounds(groups, at);
    if run_start(groups, at) > 0 {
        run_start_bounds(groups, run_start(groups, at) - 1);
    }
}

/// The letters of the sidebar's entries.
pub open spec fn entry_letters(s: Seq<SidebarEntry>) -> Seq<char> {
    s.map_values(|e: SidebarEntry| first_upper(e@.jump_text()))
}

/// The years of the albums.
pub open spec fn album_groups(s: Seq<AlbumInfo>) -> Seq<Option<u32>> {
    s.map_values(|a: AlbumInfo| a.year)
}

fn letter_of(e: &SidebarEntry) -> (c: char)
    ensures
        c == first_upper(e@.jump_text()),
{
    first_char_upper(e.nav_key())
}

fn years_of(s: &Vec<AlbumInfo>) -> (r: Vec<u64>)
    ensures
        r@.len() == s@.len(),
        forall|i: int, j: int|
            0 <= i < s@.len() && 0 <= j < s@.len() ==> ((#[trigger] r@[i] == #[trigger] r@[j]) <==> s@[i].year
                == s@[j].year),
{
    let mut r: Vec<u64> = Vec::new();
    let mut i: usize = 0;
    while i < s.len()
        invariant
            i <= s.len(),
            r.len() == i,
            forall|k: int| 0 <= k < i ==> #[trigger] r@[k] == year_number(s@[k].year),
        decreases s.len() - i,
    {
        let n: u64 = match s[i].year {
            Some(y) => y as u64 + 1,
            None => 0,
        };
        r.push(n);
        i = i + 1;
    }
    r
}

spec fn year_number(y: Option<u32>) -> u64 {
    match y {
        Some(y) => (y + 1) as u64,
        None => 0,
    }
}

fn find_next(groups: &Vec<u64>, at: usize) -> (r: usize)
    requires
        at < groups.len(),
    ensures
        r == next_group(groups@, at as int),
        r < groups.len(),
{
    let mut i: usize = at + 1;
    while i < groups.len()
        invariant
            at < i <= groups.len(),
            next_group(groups@, at as int) == next_other(groups@, groups@[at as int], i as int),
        decreases groups.len() - i,
    {
        if groups[i] != groups[at] {
            return i;
        }
        i = i + 1;
    }
    0
}

fn find_run(groups: &Vec<u64>, at: usize) -> (r: usize)
    requires
        at < groups.len(),
    ensures
        r == run_start(groups@, at as int),
        r <= at,
{
    let mut i: usize = at;
    while i > 0 && groups[i - 1] == groups[i]
        invariant
            i <= at < groups.len(),
            run_start(groups@, at as int) == run_start(groups@, i as int),
        decreases i,
    {
        i = i - 1;
    }
    i
}

fn find_prev(groups: &Vec<u64>, at: usize) -> (r: usize)
    requires
        at < groups.len(),
    ensures
        r == prev_group(groups@, at as int),
        r < groups.len(),
{
    let start = find_run(groups, at);
    if at == 0 || start == 0 {
        groups.len() - 1
    } else {
        find_run(groups, start - 1)
    }
}

/// Groupings that tell the same entries apart have the same runs.
proof fn same_runs<G, H>(a: Seq<G>, b: Seq<H>, at: int)
    requires
        a.len() == b.len(),
        0 <= at < a.len(),
        forall|i: int, j: int|
            0 <= i < a.len() && 0 <= j < a.len() ==> ((#[trigger] a[i] == #[trigger] a[j]) <==> b[i] == b[j]),
    ensures
        run_start(a, at) == run_start(b, at),
    decreases at,
{
    if at > 0 {
        assert((a[at - 1] == a[at]) <==> b[at - 1] == b[at]);
        same_runs(a, b, at - 1);
    }
}

proof fn same_next<G, H>(a: Seq<G>, b: Seq<H>, at: int, from: int)
    requires
        a.len() == b.len(),
        0 <= at < a.len(),
        at < from <= a.len(),
        forall|i: int, j: int|
            0 <= i < a.len() && 0 <= j < a.len() ==> ((#[trigger] a[i] == #[trigger] a[j]) <==> b[i] == b[j]),
    ensures
        next_other(a, a[at], from) == next_other(b, b[at], from),
    decreases a.len() - from,
{
    if from < a.len() {
        assert((a[from] == a[at]) <==> b[from] == b[at]);
        same_next(a, b, at, from + 1);
    }
}

proof fn same_groups<G, H>(a: Seq<G>, b: Seq<H>, at: int)
    requires
        a.len() == b.len(),
        0 <= at < a.len(),
        forall|i: int, j: int|
            0 <= i < a.len() && 0 <= j < a.len() ==> ((#[trigger] a[i] == #[trigger] a[j]) <==> b[i] == b[j]),
    ensures
        next_group(a, at) == next_group(b, at),
        prev_group(a, at) == prev_group(b, at),
{
    same_next(a, b, at, at + 1);
    same_runs(a, b, at);
    run_start_bounds(a, at);
    if run_start(a, at) > 0 {
        same_runs(a, b, run_start(a, at) - 1);
    }
}

fn letter_numbers(s: &Vec<SidebarEntry>) -> (r: Vec<u64>)
    ensures
        r@.len() == s@.len(),
        forall|i: int, j: int|
            0 <= i < s@.len() && 0 <= j < s@.len() ==> ((#[trigger] r@[i] == #[trigger] r@[j])
                <==> entry_letters(s@)[i] == entry_letters(s@)[j]),
{
    let mut r: Vec<u64> = Vec::new();
    let mut i: usize = 0;
    while i < s.len()
        invariant
            i <= s.len(),
            r.len() == i,
            forall|k: int| 0 <= k < i ==> #[trigger] r@[k] == entry_letters(s@)[k] as u64,
        decreases s.len() - i,
    {
        let c = letter_of(&s[i]);
        r.push(c as u64);
        i = i + 1;
    }
    r
}

/// The panel after one press of the panel key.
pub open spec fn panel_after(p: Panel, has_albums: bool) -> Panel {
    match p {
        Panel::Library => if has_albums {
            Panel::Albums
        } else {
            Panel::TrackList
        },
        Panel::Albums => Panel::TrackList,
        Panel::TrackList => Panel::Device,
        Panel::Device => Panel::SyncQueue,
        Panel::SyncQueue => Panel::Library,
    }
}

/// The panel after one press of the key that goes back.
pub open spec fn panel_ahead(p: Panel, has_albums: bool) -> Panel {
    match p {
        Panel::Library => Panel::SyncQueue,
        Panel::Albums => Panel::Library,
        Panel::TrackList => if has_albums {
            Panel::Albums
        } else {
            Panel::Library
        },
        Panel::Device => Panel::TrackList,
        Panel::SyncQueue => Panel::Device,
    }
}

/// Going on and going back undo each other, from any panel that is there.
pub proof fn panel_cycles_are_inverse(p: Panel, has_albums: bool)
    requires
        p != Panel::Albums || has_albums,
    ensures
        panel_ahead(panel_after(p, has_albums), has_albums) == p,
        panel_after(panel_ahead(p, has_albums), has_albums) == p,
{
}

/// The mode after one press: library, device (where one is connected),
/// playlists, library.
pub open spec fn next_mode(m: BrowseMode, connected: bool) -> BrowseMode {
    match m {
        BrowseMode::Library => if connected {
            BrowseMode::Device
        } else {
            BrowseMode::Playlists
        },
        BrowseMode::Device => BrowseMode::Playlists,
        BrowseMode::Playlists => BrowseMode::Library,
    }
}

/// Every mode that can be reached is reached again after one round, and the
/// playlists can always be reached.
pub proof fn modes_cycle(m: BrowseMode, connected: bool)
    ensures
        connected ==> next_mode(next_mode(next_mode(m, true), true), true) == m,
        !connected && m != BrowseMode::Device ==> next_mode(next_mode(m, false), false) == m,
        !connected ==> next_mode(m, false) != BrowseMode::Device,
        m == BrowseMode::Playlists || next_mode(m, connected) == BrowseMode::Playlists || next_mode(
            next_mode(m, connected),
            connected,
        ) == BrowseMode::Playlists,
{
}

impl App {
    /// The sidebar selection was put on an entry, saved, and (in artist mode)
    /// listed.
    pub open spec fn sidebar_at(&self, before: &App, i: int) -> bool {
        exists|mid: App| #[trigger]
            mid.sidebar_put(before, i) && if before.nav.sidebar_mode == SidebarMode::Artists {
                self.item_listed(&mid)
            } else {
                *self == mid
            }
    }

    /// The sidebar selection was put on an entry and saved.
    pub open spec fn sidebar_put(&self, before: &App, i: int) -> bool {
        &&& *self == (App { nav: self.nav, ..*before })
        &&& self.nav == (NavState {
            sidebar_selected: i as usize,
            saved_sidebar_pos: self.nav.saved_sidebar_pos,
            ..before.nav
        })
        &&& self.nav.saved_sidebar_pos.slots@ == before.nav.saved_sidebar_pos.slots@.update(
            slot_of(before.nav.browse_mode, before.nav.sidebar_mode),
            Some(i as usize),
        )
    }

    /// The album selection was put on an album, which was listed.
    pub open spec fn album_at(&self, before: &App, i: int) -> bool {
        self.album_listed(
            &(App { lists: ListState { album_selected: i as usize, ..before.lists }, ..*before }),
        )
    }

    fn go_to_entry(&mut self, i: usize)
        ensures
            final(self).sidebar_at(old(self), i as int),
    {
        self.nav.sidebar_selected = i;
        self.save_sidebar_pos();
        let ghost mid = *self;
        proof {
            assert(mid.sidebar_put(old(self), i as int));
        }
        if self.nav.sidebar_mode == SidebarMode::Artists {
            self.select_sidebar_item();
        }
    }

    fn go_to_album(&mut self, i: usize)
        ensures
            final(self).album_at(old(self), i as int),
    {
        self.lists.album_selected = i;
        self.select_album();
    }

    /// The track selection was put on a row, and the popup closed.
    pub open spec fn track_at(before: App, i: int) -> App {
        App {
            lists: ListState { track_selected: i as usize, ..before.lists },
            popup: before.popup.without_info(),
            ..before
        }
    }

    /// What one step up does in the active panel.
    pub open spec fn stepped_up(&self, before: &App) -> bool {
        match before.nav.active_panel {
            Panel::Library => if before.nav.sidebar_selected > 0 {
                self.sidebar_at(before, before.nav.sidebar_selected - 1)
            } else {
                *self == *before
            },
            Panel::Albums => if before.lists.album_selected > 0 {
                self.album_at(before, before.lists.album_selected - 1)
            } else {
                *self == *before
            },
            Panel::TrackList => if before.lists.track_selected > 0 {
                *self == App::track_at(*before, before.lists.track_selected - 1)
            } else {
                *self == *before
            },
            Panel::Device => *self == (App {
                device: DeviceState {
                    selected: if before.device.selected > 0 {
                        (before.device.selected - 1) as usize
                    } else {
                        0
                    },
                    ..before.device
                },
                ..*before
            }),
            Panel::SyncQueue => *self == (App {
                sync: SyncState {
                    queue_selected: if before.sync.queue_selected > 0 {
                        (before.sync.queue_selected - 1) as usize
                    } else {
                        0
                    },
                    ..before.sync
                },
                ..*before
            }),
        }
    }

    /// One step up in the active panel.
    pub fn move_up(&mut self)
        ensures
            final(self).stepped_up(old(self)),
            old(self).valid() ==> final(self).valid(),
    {
        match self.nav.active_panel {
            Panel::Library => {
                if self.nav.sidebar_selected > 0 {
                    self.go_to_entry(self.nav.sidebar_selected - 1);
                }
            },
            Panel::Albums => {
                if self.lists.album_selected > 0 {
                    self.go_to_album(self.lists.album_selected - 1);
                }
            },
            Panel::TrackList => {
                if self.lists.track_selected > 0 {
                    self.lists.track_selected = self.lists.track_selected - 1;
                    self.close_track_info();
                }
            },
            Panel::Device => {
                if self.device.selected > 0 {
                    self.device.selected = self.device.selected - 1;
                }
            },
            Panel::SyncQueue => {
                if self.sync.queue_selected > 0 {
                    self.sync.queue_selected = self.sync.queue_selected - 1;
                }
            },
        }
    }

    /// What one step down does in the active panel.
    pub open spec fn stepped_down(&self, before: &App) -> bool {
        match before.nav.active_panel {
            Panel::Library => if before.nav.sidebar_selected + 1 < before.nav.sidebar_items@.len() {
                self.sidebar_at(before, before.nav.sidebar_selected + 1)
            } else {
                *self == *before
            },
            Panel::Albums => if before.lists.album_selected + 1 < before.lists.album_list@.len() {
                self.album_at(before, before.lists.album_selected + 1)
            } else {
                *self == *before
            },
            Panel::TrackList => if before.lists.track_selected + 1 < before.lists.track_list@.len() {
                *self == App::track_at(*before, before.lists.track_selected + 1)
            } else {
                *self == *before
            },
            Panel::Device => if before.device.selected + 1 < before.device.tracks@.len() {
                *self == (App {
                    device: DeviceState {
                        selected: (before.device.selected + 1) as usize,
                        ..before.device
                    },
                    ..*before
                })
            } else {
                *self == *before
            },
            Panel::SyncQueue => if before.sync.queue_selected + 1 < before.sync.queue@.len() {
                *self == (App {
                    sync: SyncState {
                        queue_selected: (before.sync.queue_selected + 1) as usize,
                        ..before.sync
                    },
                    ..*before
                })
            } else {
                *self == *before
            },
        }
    }

    /// One step down in the active panel.
    pub fn move_down(&mut self)
        ensures
            final(self).stepped_down(old(self)),
            old(self).valid() ==> final(self).valid(),
    {
        match self.nav.active_panel {
            Panel::Library => {
                let n = self.nav.sidebar_items.len();
                if n > 0 && self.nav.sidebar_selected < n - 1 {
                    self.go_to_entry(self.nav.sidebar_selected + 1);
                }
            },
            Panel::Albums => {
                let n = self.lists.album_list.len();
                if n > 0 && self.lists.album_selected < n - 1 {
                    self.go_to_album(self.lists.album_selected + 1);
                }
            },
            Panel::TrackList => {
                let n = self.lists.track_list.len();
                if n > 0 && self.lists.track_selected < n - 1 {
                    self.lists.track_selected = self.lists.track_selected + 1;
                    self.close_track_info();
                }
            },
            Panel::Device => {
                let n = self.device.tracks.len();
                if n > 0 && self.device.selected < n - 1 {
                    self.device.selected = self.device.selected + 1;
                }
            },
            Panel::SyncQueue => {
                let n = self.sync.queue.len();
                if n > 0 && self.sync.queue_selected < n - 1 {
                    self.sync.queue_selected = self.sync.queue_selected + 1;
                }
            },
        }
    }

    /// What a skip to another group does: the sidebar by letter, the albums by
    /// year.
    pub open spec fn skipped(&self, before: &App, forward: bool) -> bool {
        match before.nav.active_panel {
            Panel::Library => if before.nav.sidebar_items@.len() == 0 {
                *self == *before
            } else {
                let letters = entry_letters(before.nav.sidebar_items@);
                let at = before.nav.sidebar_selected as int;
                self.sidebar_at(
                    before,
                    if forward {
                        next_group(letters, at)
                    } else {
                        prev_group(letters, at)
                    },
                )
            },
            Panel::Albums => if before.lists.album_list@.len() == 0 {
                *self == *before
            } else {
                let years = album_groups(before.lists.album_list@);
                let at = before.lists.album_selected as int;
                self.album_at(
                    before,
                    if forward {
                        next_group(years, at)
                    } else {
                        prev_group(years, at)
                    },
                )
            },
            _ => *self == *before,
        }
    }

    /// The list that a skip moves in has its selection on an entry.
    pub open spec fn can_skip(&self) -> bool {
        match self.nav.active_panel {
            Panel::Library => self.nav.valid(),
            Panel::Albums => self.lists.valid(),
            _ => true,
        }
    }

    /// Jump forward to the next letter group in the sidebar, or the next year
    /// group in the album browser.
    pub fn skip_forward(&mut self)
        requires
            old(self).can_skip(),
        ensures
            final(self).skipped(old(self), true),
            old(self).valid() ==> final(self).valid(),
    {
        match self.nav.active_panel {
            Panel::Library => {
                if self.nav.sidebar_items.len() == 0 {
                    return;
                }
                let groups = letter_numbers(&self.nav.sidebar_items);
                proof {
                    same_groups(
                        groups@,
                        entry_letters(self.nav.sidebar_items@),
                        self.nav.sidebar_selected as int,
                    );
                }
                let i = find_next(&groups, self.nav.sidebar_selected);
                self.go_to_entry(i);
            },
            Panel::Albums => {
                if self.lists.album_list.len() == 0 {
                    return;
                }
                let groups = years_of(&self.lists.album_list);
                proof {
                    same_groups(
                        groups@,
                        album_groups(self.lists.album_list@),
                        self.lists.album_selected as int,
                    );
                }
                let i = find_next(&groups, self.lists.album_selected);
                self.go_to_album(i);
            },
            _ => {},
        }
    }

    /// Jump backward to the previous letter group in the sidebar, or the
    /// previous year group in the album browser.
    pub fn skip_back(&mut self)
        requires
            old(self).can_skip(),
        ensures
            final(self).skipped(old(self), false),
            old(self).valid() ==> final(self).valid(),
    {
        match self.nav.active_panel {
            Panel::Library => {
                if self.nav.sidebar_items.len() == 0 {
                    return;
                }
                let groups = letter_numbers(&self.nav.sidebar_items);
                proof {
                    same_groups(
                        groups@,
                        entry_letters(self.nav.sidebar_items@),
                        self.nav.sidebar_selected as int,
                    );
                }
                let i = find_prev(&groups, self.nav.sidebar_selected);
                self.go_to_entry(i);
            },
            Panel::Albums => {
                if self.lists.album_list.len() == 0 {
                    return;
                }
                let groups = years_of(&self.lists.album_list);
                proof {
                    same_groups(
                        groups@,
                        album_groups(self.lists.album_list@),
                        self.lists.album_selected as int,
                    );
                }
                let i = find_prev(&groups, self.lists.album_selected);
                self.go_to_album(i);
            },
            _ => {},
        }
    }

    /// Another panel, with the popup closed.
    pub open spec fn in_panel(before: App, p: Panel) -> App {
        App {
            nav: NavState { active_panel: p, ..before.nav },
            popup: before.popup.without_info(),
            ..before
        }
    }

    pub fn cycle_panel(&mut self)
        ensures
            *final(self) == App::in_panel(
                *old(self),
                panel_after(old(self).nav.active_panel, old(self).lists.album_list@.len() > 0),
            ),
            old(self).valid() ==> final(self).valid(),
    {
        self.close_track_info();
        self.nav.active_panel = match self.nav.active_panel {
            Panel::Library => if self.has_album_browser() {
                Panel::Albums
            } else {
                Panel::TrackList
            },
            Panel::Albums => Panel::TrackList,
            Panel::TrackList => Panel::Device,
            Panel::Device => Panel::SyncQueue,
            Panel::SyncQueue => Panel::Library,
        };
    }

    pub fn cycle_panel_back(&mut self)
        ensures
            *final(self) == App::in_panel(
                *old(self),
                panel_ahead(old(self).nav.active_panel, old(self).lists.album_list@.len() > 0),
            ),
            old(self).valid() ==> final(self).valid(),
    {
        self.close_track_info();
        self.nav.active_panel = match self.nav.active_panel {
            Panel::Library => Panel::SyncQueue,
            Panel::Albums => Panel::Library,
            Panel::TrackList => if self.has_album_browser() {
                Panel::Albums
            } else {
                Panel::Library
            },
            Panel::Device => Panel::TrackList,
            Panel::SyncQueue => Panel::Device,
        };
    }

    /// The selection was saved and the mode switched.
    pub open spec fn mode_put(&self, before: &App, mode: BrowseMode) -> bool {
        &&& *self == (App { nav: self.nav, ..*before })
        &&& self.nav == (NavState {
            browse_mode: mode,
            active_panel: Panel::Library,
            saved_sidebar_pos: self.nav.saved_sidebar_pos,
            ..before.nav
        })
        &&& self.nav.saved_sidebar_pos.slots@ == before.nav.saved_sidebar_pos.slots@.update(
            slot_of(before.nav.browse_mode, before.nav.sidebar_mode),
            Some(before.nav.sidebar_selected),
        )
    }

    /// The browse mode moved on, and the sidebar was made anew.
    pub open spec fn mode_cycled(&self, before: &App) -> bool {
        let mode = next_mode(before.nav.browse_mode, before.device.status == DeviceStatus::Connected);
        exists|mid: App| #[trigger] mid.mode_put(before, mode) && self.resided(&mid)
    }

    /// Cycle the browse mode: library, device, playlists. The device is skipped
    /// when none is connected.
    pub fn toggle_browse_mode(&mut self)
        ensures
            final(self).mode_cycled(old(self)),
            old(self).valid() ==> final(self).valid(),
    {
        self.save_sidebar_pos();
        let connected = self.device.status == DeviceStatus::Connected;
        self.nav.browse_mode = match self.nav.browse_mode {
            BrowseMode::Library => if connected {
                BrowseMode::Device
            } else {
                BrowseMode::Playlists
            },
            BrowseMode::Device => BrowseMode::Playlists,
            BrowseMode::Playlists => BrowseMode::Library,
        };
        self.nav.active_panel = Panel::Library;
        let ghost mid = *self;
        proof {
            assert(mid.mode_put(
                old(self),
                next_mode(
                    old(self).nav.browse_mode,
                    old(self).device.status == DeviceStatus::Connected,
                ),
            ));
        }
        self.refresh_sidebar();
    }
}

proof fn entry_move_keeps_valid(before: App, after: App, i: int)
    requires
        before.valid(),
        after.sidebar_at(&before, i),
        0 <= i < before.nav.sidebar_items@.len(),
    ensures
        after.valid(),
{
    let mid = choose|mid: App| #[trigger]
        mid.sidebar_put(&before, i) && if before.nav.sidebar_mode == SidebarMode::Artists {
            after.item_listed(&mid)
        } else {
            after == mid
        };
    assert(mid.valid());
    if before.nav.sidebar_mode == SidebarMode::Artists {
        crate::app::select::listing_keeps_valid(mid, after);
    }
}

/// Moving and skipping keep every selection within its list.
pub proof fn moving_keeps_valid(before: App, after: App)
    requires
        before.valid(),
        after.stepped_up(&before) || after.stepped_down(&before) || after.skipped(&before, true)
            || after.skipped(&before, false),
    ensures
        after.valid(),
{
    let at = before.nav.sidebar_selected as int;
    let n = before.nav.sidebar_items@.len();
    match before.nav.active_panel {
        Panel::Library => {
            let letters = entry_letters(before.nav.sidebar_items@);
            if n > 0 {
                skip_lands_on_a_group(letters, at);
                skip_back_lands_on_a_group(letters, at);
            }
            if after != before {
                if after.stepped_up(&before) && at > 0 && n > 0 {
                    entry_move_keeps_valid(before, after, at - 1);
                } else if after.stepped_up(&before) && at > 0 {
                    let mid = choose|mid: App| #[trigger]
                        mid.sidebar_put(&before, at - 1) && if before.nav.sidebar_mode
                            == SidebarMode::Artists {
                            after.item_listed(&mid)
                        } else {
                            after == mid
                        };
                    assert(mid.valid());
                } else if after.stepped_down(&before) {
                    entry_move_keeps_valid(before, after, at + 1);
                } else if after.skipped(&before, true) {
                    entry_move_keeps_valid(before, after, next_group(letters, at));
                } else {
                    entry_move_keeps_valid(before, after, prev_group(letters, at));
                }
            }
        },
        Panel::Albums => {
            let years = album_groups(before.lists.album_list@);
            let i = before.lists.album_selected as int;
            if before.lists.album_list@.len() > 0 {
                skip_lands_on_a_group(years, i);
                skip_back_lands_on_a_group(years, i);
            }
        },
        _ => {},
    }
}

} // verus!
