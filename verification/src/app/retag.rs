//! What happens once tags were written, and the keys of the tag manager.
use vstd::prelude::*;
use crate::app::modals::{goes_down, goes_up, is_down, is_up};
use crate::app::select::listing_keeps_valid;
use crate::app::{App, ListState, NavState, PopupState, SyncState, TagState};
use crate::commands::{one_more, BgCommand};
use crate::format::{concat2, concat3, texts};
use crate::input::{type_key, typed, KeyCode, KeyEvent};
use crate::library::{first_index, first_index_facts, first_index_is, first_index_none, Library};
use crate::tag_model::{
    any_enabled, clamped_focus, renamed_anchor, ReleaseDiff, SearchInputField, SelectionAnchor,
    TagManagerOverlay, TagManagerPhase, TrackTagDiff,
};
use crate::text::{lowercase_of, str_eq, to_lowercase};
use crate::tracks::{AlbumInfo, TrackInfo};
use crate::types::SidebarEntry;

verus! {

/// The paths of the tracks of a diff.
pub open spec fn diff_paths(diff: Option<ReleaseDiff>) -> Seq<Seq<char>> {
    match diff {
        Some(d) => d.tracks@.map_values(|t: TrackTagDiff| t.src_path@),
        None => Seq::empty(),
    }
}

/// What a track is called in the log.
pub open spec fn path_at(paths: Seq<Seq<char>>, i: int) -> Seq<char> {
    if i < paths.len() {
        paths[i]
    } else {
        "<unknown track>"@
    }
}

/// One line for each track whose tags could not be written.
pub open spec fn failure_lines(results: Seq<Result<(), String>>, paths: Seq<Seq<char>>) -> Seq<
    Seq<char>,
>
    decreases results.len(),
{
    if results.len() == 0 {
        Seq::empty()
    } else {
        let rest = failure_lines(results.drop_last(), paths);
        match results.last() {
            Ok(_) => rest,
            Err(e) => rest.push(
                "tag-manager: "@ + path_at(paths, results.len() - 1) + ": "@ + e@,
            ),
        }
    }
}

/// The position of the first match, or the first position.
pub open spec fn position_or_first<T>(s: Seq<T>, p: spec_fn(T) -> bool) -> nat {
    match first_index(s, p) {
        Some(i) => i,
        None => 0,
    }
}

/// The entry belongs to the artist, whatever the case.
pub open spec fn is_entry_of(e: SidebarEntry, artist: Seq<char>) -> bool {
    match e {
        SidebarEntry::Artist(a) => lowercase_of(a@) == lowercase_of(artist),
        SidebarEntry::Album { artist: a, .. } => lowercase_of(a@) == lowercase_of(artist),
        SidebarEntry::Playlist { .. } => false,
    }
}

/// That position is one of the sequence, where there is any.
pub proof fn position_is_inside<T>(s: Seq<T>, p: spec_fn(T) -> bool)
    ensures
        s.len() > 0 ==> position_or_first(s, p) < s.len(),
{
    first_index_facts(s, p);
}

fn find_entry(items: &Vec<SidebarEntry>, artist: &str) -> (r: usize)
    ensures
        r == position_or_first(items@, |e: SidebarEntry| is_entry_of(e, artist@)),
{
    let ghost p = |e: SidebarEntry| is_entry_of(e, artist@);
    let lower = to_lowercase(artist);
    let mut i: usize = 0;
    while i < items.len()
        invariant
            i <= items.len(),
            lower@ == lowercase_of(artist@),
            p == |e: SidebarEntry| is_entry_of(e, artist@),
            forall|k: int| 0 <= k < i ==> !p(#[trigger] items@[k]),
        decreases items.len() - i,
    {
        let hit: bool = match &items[i] {
            SidebarEntry::Artist(a) => {
                let l = to_lowercase(a.as_str());
                str_eq(l.as_str(), lower.as_str())
            },
            SidebarEntry::Album { artist: a, .. } => {
                let l = to_lowercase(a.as_str());
                str_eq(l.as_str(), lower.as_str())
            },
            SidebarEntry::Playlist { .. } => false,
        };
        if hit {
            proof {
                assert(p(items@[i as int]));
                first_index_is(items@, p, i as int);
            }
            return i;
        }
        i = i + 1;
    }
    proof {
        first_index_none(items@, p);
    }
    0
}

fn find_album(albums: &Vec<AlbumInfo>, name: &str) -> (r: usize)
    ensures
        r == position_or_first(
            albums@,
            |a: AlbumInfo| lowercase_of(a.name@) == lowercase_of(name@),
        ),
{
    let ghost p = |a: AlbumInfo| lowercase_of(a.name@) == lowercase_of(name@);
    let lower = to_lowercase(name);
    let mut i: usize = 0;
    while i < albums.len()
        invariant
            i <= albums.len(),
            lower@ == lowercase_of(name@),
            p == |a: AlbumInfo| lowercase_of(a.name@) == lowercase_of(name@),
            forall|k: int| 0 <= k < i ==> !p(#[trigger] albums@[k]),
        decreases albums.len() - i,
    {
        let l = to_lowercase(albums[i].name.as_str());
        if str_eq(l.as_str(), lower.as_str()) {
            proof {
                assert(p(albums@[i as int]));
                first_index_is(albums@, p, i as int);
            }
            return i;
        }
        i = i + 1;
    }
    proof {
        first_index_none(albums@, p);
    }
    0
}

fn find_track(rows: &Vec<TrackInfo>, name: &str) -> (r: usize)
    ensures
        r == position_or_first(
            rows@,
            |t: TrackInfo| lowercase_of(t.name@) == lowercase_of(name@),
        ),
{
    let ghost p = |t: TrackInfo| lowercase_of(t.name@) == lowercase_of(name@);
    let lower = to_lowercase(name);
    let mut i: usize = 0;
    while i < rows.len()
        invariant
            i <= rows.len(),
            lower@ == lowercase_of(name@),
            p == |t: TrackInfo| lowercase_of(t.name@) == lowercase_of(name@),
            forall|k: int| 0 <= k < i ==> !p(#[trigger] rows@[k]),
        decreases rows.len() - i,
    {
        let l = to_lowercase(rows[i].name.as_str());
        if str_eq(l.as_str(), lower.as_str()) {
            proof {
                assert(p(rows@[i as int]));
                first_index_is(rows@, p, i as int);
            }
            return i;
        }
        i = i + 1;
    }
    proof {
        first_index_none(rows@, p);
    }
    0
}

impl App {
    /// The paths that the overlay gives to the results of a write.
    pub open spec fn written_paths(&self, token: u64) -> Seq<Seq<char>> {
        if self.awaits(token) {
            diff_paths(self.tags.manager->0.diff)
        } else {
            Seq::empty()
        }
    }

    fn written_path(&self, token: u64, i: usize) -> (r: String)
        ensures
            r@ == path_at(self.written_paths(token), i as int),
    {
        if let Some(o) = &self.tags.manager {
            if o.accepts_token(token) {
                if let Some(d) = &o.diff {
                    if i < d.tracks.len() {
                        return d.tracks[i].src_path.clone();
                    }
                }
            }
        }
        "<unknown track>".to_owned()
    }

    /// What the result of a write does: each failure is logged, and the renames
    /// are kept where the overlay still waits.
    pub open spec fn write_answered(
        &self,
        before: &App,
        token: u64,
        results: Seq<Result<(), String>>,
        renames: Vec<(String, String)>,
    ) -> bool {
        &&& *self == (App { sync: self.sync, tags: self.tags, ..*before })
        &&& self.sync == (SyncState { log: self.sync.log, ..before.sync })
        &&& texts(self.sync.log@) == texts(before.sync.log@) + failure_lines(
            results,
            before.written_paths(token),
        )
        &&& self.tags == if before.awaits(token) {
            TagState {
                manager: Some(
                    TagManagerOverlay { last_rename_map: renames, ..before.tags.manager->0 },
                ),
                ..before.tags
            }
        } else {
            before.tags
        }
    }

    /// The worker wrote tags. Failures are logged track by track, also when
    /// nobody waits for the answer any more: the writes happened.
    pub fn handle_tags_applied(
        &mut self,
        token: u64,
        results: Vec<Result<(), String>>,
        rename_map: Vec<(String, String)>,
    )
        ensures
            final(self).write_answered(old(self), token, results@, rename_map),
            old(self).valid() ==> final(self).valid(),
    {
        let ghost paths = self.written_paths(token);
        let mut i: usize = 0;
        proof {
            assert(texts(self.sync.log@) + failure_lines(results@.take(0), paths) =~= texts(
                self.sync.log@,
            ));
        }
        while i < results.len()
            invariant
                i <= results.len(),
                paths == old(self).written_paths(token),
                *self == (App { sync: self.sync, ..*old(self) }),
                self.sync == (SyncState { log: self.sync.log, ..old(self).sync }),
                texts(self.sync.log@) == texts(old(self).sync.log@) + failure_lines(
                    results@.take(i as int),
                    paths,
                ),
            decreases results.len() - i,
        {
            proof {
                assert(results@.take(i + 1).drop_last() =~= results@.take(i as int));
            }
            if let Err(e) = &results[i] {
                let path = self.written_path(token, i);
                let mut line = concat3("tag-manager: ", path.as_str(), ": ");
                line.append(e.as_str());
                let ghost before = texts(self.sync.log@);
                let ghost text = line@;
                self.sync.log.push(line);
                proof {
                    assert(texts(self.sync.log@) =~= before.push(text));
                    assert(texts(self.sync.log@) =~= texts(old(self).sync.log@) + failure_lines(
                        results@.take(i + 1),
                        paths,
                    ));
                }
            }
            i = i + 1;
        }
        proof {
            assert(results@.take(results@.len() as int) =~= results@);
        }
        if let Some(o) = &mut self.tags.manager {
            if o.accepts_token(token) {
                o.last_rename_map = rename_map;
            }
        }
    }

    /// Another library, with the track-info popup read anew from it.
    pub open spec fn with_library(before: App, lib: Library) -> App {
        let app = App { library: Some(lib), ..before };
        App {
            popup: PopupState {
                track_info_lib: if before.popup.show_track_info {
                    app.selected_library_row()
                } else {
                    None
                },
                ..before.popup
            },
            ..app
        }
    }

    /// The library was swapped, and the marks and the sidebar made anew.
    pub open spec fn library_swapped(&self, before: &App, lib: Library) -> bool {
        exists|mid: App| #[trigger]
            mid.presence_rebuilt(&App::with_library(*before, lib)) && self.resided(&mid)
    }

    /// The track of the anchor was selected.
    pub open spec fn with_anchor_track(before: App, anchor: SelectionAnchor) -> App {
        match anchor.track_name {
            Some(name) => App {
                lists: ListState {
                    track_selected: position_or_first(
                        before.lists.track_list@,
                        |t: TrackInfo| lowercase_of(t.name@) == lowercase_of(name@),
                    ) as usize,
                    ..before.lists
                },
                ..before
            },
            None => before,
        }
    }

    /// The artist of the anchor was selected in the sidebar.
    pub open spec fn with_anchor_artist(before: App, anchor: SelectionAnchor) -> App {
        App {
            nav: NavState {
                sidebar_selected: position_or_first(
                    before.nav.sidebar_items@,
                    |e: SidebarEntry| is_entry_of(e, anchor.artist@),
                ) as usize,
                ..before.nav
            },
            ..before
        }
    }

    /// An album of that name was selected.
    pub open spec fn with_anchor_album(before: App, name: Seq<char>) -> App {
        App {
            lists: ListState {
                album_selected: position_or_first(
                    before.lists.album_list@,
                    |a: AlbumInfo| lowercase_of(a.name@) == lowercase_of(name),
                ) as usize,
                ..before.lists
            },
            ..before
        }
    }

    /// The selection was put back on the anchor.
    pub open spec fn anchor_restored(&self, before: &App) -> bool {
        match before.tags.manager {
            None => *self == *before,
            Some(o) => exists|mid: App| #[trigger]
                mid.item_listed(&App::with_anchor_artist(*before, o.anchor)) && match o.anchor.album {
                    Some(name) => exists|sel: App| #[trigger]
                        sel.album_listed(&App::with_anchor_album(mid, name@)) && *self
                            == App::with_anchor_track(sel, o.anchor),
                    None => *self == App::with_anchor_track(mid, o.anchor),
                },
        }
    }

    /// Walk sidebar, albums and track list to find the saved anchor, falling
    /// back to the first row at each level when the target is gone.
    pub fn restore_selection_anchor(&mut self)
        ensures
            final(self).anchor_restored(old(self)),
            old(self).valid() ==> final(self).valid(),
    {
        let anchor: SelectionAnchor = match &self.tags.manager {
            Some(o) => o.anchor.clone(),
            None => {
                return;
            },
        };
        self.nav.sidebar_selected = find_entry(&self.nav.sidebar_items, anchor.artist.as_str());
        let ghost pointed = *self;
        self.select_sidebar_item();
        let ghost mid = *self;
        proof {
            assert(pointed == App::with_anchor_artist(*old(self), anchor));
            assert(mid.item_listed(&pointed));
            position_is_inside(
                old(self).nav.sidebar_items@,
                |e: SidebarEntry| is_entry_of(e, anchor.artist@),
            );
            if old(self).valid() {
                listing_keeps_valid(pointed, mid);
            }
        }
        if let Some(name) = &anchor.album {
            self.lists.album_selected = find_album(&self.lists.album_list, name.as_str());
            let ghost pointed = *self;
            self.select_album();
            let ghost sel = *self;
            proof {
                assert(pointed == App::with_anchor_album(mid, name@));
                assert(sel.album_listed(&pointed));
                position_is_inside(
                    mid.lists.album_list@,
                    |a: AlbumInfo| lowercase_of(a.name@) == lowercase_of(name@),
                );
                if old(self).valid() {
                    listing_keeps_valid(pointed, sel);
                }
            }
        }
        if let Some(name) = &anchor.track_name {
            self.lists.track_selected = find_track(&self.lists.track_list, name.as_str());
        }
    }

    /// The anchor points at what the selection is called after the write.
    pub open spec fn anchor_renamed(before: App) -> App {
        match before.tags.manager {
            Some(o) => App::with_manager(
                before,
                Some(TagManagerOverlay { anchor: renamed_anchor(o), ..o }),
            ),
            None => before,
        }
    }

    /// Point the anchor at artist, album and title as the enabled proposals of
    /// the diff name them, so that navigation lands on the renamed row.
    pub fn rewrite_anchor_post_rename(&mut self)
        ensures
            *final(self) == App::anchor_renamed(*old(self)),
            old(self).valid() ==> final(self).valid(),
    {
        if let Some(o) = &mut self.tags.manager {
            o.rename_anchor();
        }
    }

    /// The overlay with its work done.
    pub open spec fn manager_done(before: App) -> App {
        match before.tags.manager {
            Some(o) => App::with_manager(
                before,
                Some(TagManagerOverlay { phase: TagManagerPhase::Done, ..o }),
            ),
            None => before,
        }
    }

    /// What a finished reread of the library does.
    pub open spec fn reread_answered(
        &self,
        before: &App,
        token: u64,
        result: Result<Library, String>,
    ) -> bool {
        match result {
            Ok(lib) => if before.awaits(token) {
                exists|mid: App| #[trigger]
                    mid.library_swapped(before, lib) && exists|sel: App| #[trigger]
                        sel.anchor_restored(&App::anchor_renamed(mid)) && *self == App::manager_done(sel)
            } else {
                self.library_swapped(before, lib)
            },
            Err(e) => if before.awaits(token) {
                self.manager_failed(before, e@)
            } else {
                &&& *self == (App { toast_message: self.toast_message, ..*before })
                &&& self.says("library reread failed: "@ + e@, true)
            },
        }
    }

    /// The library was read again after a write. It is swapped in whoever is
    /// looking; only an overlay that still waits has its selection restored.
    pub fn handle_library_reread_complete(&mut self, token: u64, result: Result<Library, String>)
        ensures
            final(self).reread_answered(old(self), token, result),
            old(self).valid() ==> final(self).valid(),
    {
        let waits = match &self.tags.manager {
            Some(o) => o.accepts_token(token),
            None => false,
        };
        match result {
            Ok(lib) => {
                self.library = Some(lib);
                self.refresh_track_info_lib();
                proof {
                    assert(*self == App::with_library(*old(self), lib));
                }
                self.rebuild_artist_device_status();
                let ghost marked = *self;
                proof {
                    assert(marked.presence_rebuilt(&App::with_library(*old(self), lib)));
                }
                self.refresh_sidebar();
                let ghost mid = *self;
                proof {
                    assert(mid.library_swapped(old(self), lib));
                }
                if waits {
                    self.rewrite_anchor_post_rename();
                    self.restore_selection_anchor();
                    let ghost sel = *self;
                    proof {
                        assert(sel.anchor_restored(&App::anchor_renamed(mid)));
                    }
                    if let Some(o) = &mut self.tags.manager {
                        o.phase = TagManagerPhase::Done;
                    }
                    proof {
                        assert(*self == App::manager_done(sel));
                    }
                }
            },
            Err(e) => {
                if waits {
                    if let Some(o) = &mut self.tags.manager {
                        o.error = Some(e);
                        o.phase = TagManagerPhase::Error;
                    }
                } else {
                    let msg = concat2("library reread failed: ", e.as_str());
                    self.set_toast(msg, true);
                }
            },
        }
    }
}

// ---------------------------------------------------------------------------
// Keys
// ---------------------------------------------------------------------------
/// The other field of the search form.
pub open spec fn other_field(f: SearchInputField) -> SearchInputField {
    match f {
        SearchInputField::Artist => SearchInputField::Album,
        SearchInputField::Album => SearchInputField::Artist,
    }
}

impl TagManagerOverlay {
    /// A key was typed into the field of the search form that has the focus.
    pub open spec fn query_typed(&self, before: &Self, code: KeyCode) -> bool {
        match before.search_input_field {
            SearchInputField::Artist => {
                &&& *self == (TagManagerOverlay { query_artist: self.query_artist, ..*before })
                &&& self.query_artist@ == typed(before.query_artist@, code)
            },
            SearchInputField::Album => {
                &&& *self == (TagManagerOverlay { query_album: self.query_album, ..*before })
                &&& self.query_album@ == typed(before.query_album@, code)
            },
        }
    }

    fn type_query(&mut self, code: KeyCode)
        ensures
            final(self).query_typed(old(self), code),
    {
        match self.search_input_field {
            SearchInputField::Artist => {
                type_key(&mut self.query_artist, code);
            },
            SearchInputField::Album => {
                type_key(&mut self.query_album, code);
            },
        }
    }

    /// The focus moved by some rows, held within the table.
    pub open spec fn focus_moved(&self, before: &Self, delta: int) -> bool {
        &&& *self == (TagManagerOverlay { focused_row: self.focused_row, ..*before })
        &&& self.focused_row == clamped_focus(
            before.focused_row as int,
            delta,
            before.rows@.len() as int,
        )
    }

    /// What the keys of the diff table do to it.
    pub open spec fn diff_edited(&self, before: &Self, code: KeyCode) -> bool {
        match code {
            KeyCode::Up => self.focus_moved(before, -1),
            KeyCode::Down => self.focus_moved(before, 1),
            KeyCode::PageUp => self.focus_moved(before, -10),
            KeyCode::PageDown => self.focus_moved(before, 10),
            KeyCode::Home => *self == (TagManagerOverlay { focused_row: 0, ..*before }),
            KeyCode::End => {
                &&& *self == (TagManagerOverlay { focused_row: self.focused_row, ..*before })
                &&& self.focused_row == if before.rows@.len() == 0 {
                    0
                } else {
                    before.rows@.len() - 1
                }
            },
            KeyCode::Char(c) => if c == 'k' {
                self.focus_moved(before, -1)
            } else if c == 'j' {
                self.focus_moved(before, 1)
            } else if c == ' ' {
                self.field_toggled(before)
            } else if c == 'a' {
                self.all_set(before, true)
            } else if c == 'n' {
                self.all_set(before, false)
            } else if c == 'c' {
                self.fold_toggled(before)
            } else if c == 'C' {
                self.all_folded(before)
            } else if c == 'X' || c == 'E' {
                self.all_unfolded(before)
            } else {
                *self == *before
            },
            _ => *self == *before,
        }
    }

    fn edit_diff(&mut self, code: KeyCode)
        ensures
            final(self).diff_edited(old(self), code),
    {
        match code {
            KeyCode::Up => {
                self.move_focus(-1);
            },
            KeyCode::Down => {
                self.move_focus(1);
            },
            KeyCode::PageUp => {
                self.move_focus(-10);
            },
            KeyCode::PageDown => {
                self.move_focus(10);
            },
            KeyCode::Home => {
                self.focus_first();
            },
            KeyCode::End => {
                self.focus_last();
            },
            KeyCode::Char(c) => {
                if c == 'k' {
                    self.move_focus(-1);
                } else if c == 'j' {
                    self.move_focus(1);
                } else if c == ' ' {
                    self.toggle_focused_field();
                } else if c == 'a' {
                    self.set_all_enabled(true);
                } else if c == 'n' {
                    self.set_all_enabled(false);
                } else if c == 'c' {
                    self.toggle_collapse_focused_track();
                } else if c == 'C' {
                    self.collapse_all_tracks();
                } else if c == 'X' || c == 'E' {
                    self.expand_all_tracks();
                }
            },
            _ => {},
        }
    }
}

impl App {
    /// The overlay in another phase, waiting for the answer to a new request.
    pub open spec fn manager_asks(before: App, phase: TagManagerPhase) -> App {
        let token = (before.tags.token + 1) as u64;
        App {
            tags: TagState {
                manager: Some(
                    TagManagerOverlay {
                        phase,
                        pending_request_token: token,
                        ..before.tags.manager->0
                    },
                ),
                token,
                ..before.tags
            },
            ..before
        }
    }

    fn ask_as_manager(&mut self, phase: TagManagerPhase) -> (token: u64)
        requires
            old(self).tags.manager is Some,
            old(self).tags.token < u64::MAX,
        ensures
            *final(self) == App::manager_asks(*old(self), phase),
            token == old(self).tags.token + 1,
            old(self).valid() ==> final(self).valid(),
    {
        let token: u64 = self.tags.token + 1;
        self.tags.token = token;
        if let Some(o) = &mut self.tags.manager {
            o.phase = phase;
            o.pending_request_token = token;
        }
        token
    }

    /// The overlay in another phase, and nothing else.
    pub open spec fn manager_turned(before: App, phase: TagManagerPhase) -> App {
        App::with_manager(before, Some(TagManagerOverlay { phase, ..before.tags.manager->0 }))
    }

    /// What a key does to the search form.
    pub open spec fn search_form_pressed(
        &self,
        before: &App,
        code: KeyCode,
        sent: Seq<BgCommand>,
        sent_after: Seq<BgCommand>,
    ) -> bool {
        let o = before.tags.manager->0;
        match code {
            KeyCode::Enter => {
                &&& *self == App::manager_asks(*before, TagManagerPhase::SearchPending)
                &&& one_more(sent, sent_after)
                &&& before.is_search_request(
                    sent_after.last(),
                    self.tags.token,
                    o.query_artist@,
                    o.query_album@,
                )
            },
            KeyCode::Esc => *self == App::with_manager(*before, None) && sent_after == sent,
            KeyCode::Tab | KeyCode::BackTab => {
                &&& *self == App::with_manager(
                    *before,
                    Some(
                        TagManagerOverlay {
                            search_input_field: other_field(o.search_input_field),
                            ..o
                        },
                    ),
                )
                &&& sent_after == sent
            },
            _ => {
                &&& *self == App::with_manager(*before, self.tags.manager)
                &&& self.tags.manager matches Some(n) && n.query_typed(&o, code)
                &&& sent_after == sent
            },
        }
    }

    fn handle_tag_manager_key_search_input(&mut self, key: KeyEvent, cmd_tx: &mut Vec<BgCommand>)
        requires
            old(self).tags.token < u64::MAX,
        ensures
            old(self).tags.manager is None ==> *final(self) == *old(self) && final(cmd_tx)@ == old(
                cmd_tx,
            )@,
            old(self).tags.manager is Some ==> final(self).search_form_pressed(
                old(self),
                key.code,
                old(cmd_tx)@,
                final(cmd_tx)@,
            ),
            old(self).valid() ==> final(self).valid(),
    {
        if self.tags.manager.is_none() {
            return;
        }
        match key.code {
            KeyCode::Esc => {
                self.close_tag_manager();
            },
            KeyCode::Tab | KeyCode::BackTab => {
                if let Some(o) = &mut self.tags.manager {
                    o.search_input_field = match o.search_input_field {
                        SearchInputField::Artist => SearchInputField::Album,
                        SearchInputField::Album => SearchInputField::Artist,
                    };
                }
            },
            KeyCode::Enter => {
                let (artist, album): (String, String) = match &self.tags.manager {
                    Some(o) => (o.query_artist.clone(), o.query_album.clone()),
                    None => (String::new(), String::new()),
                };
                let token = self.ask_as_manager(TagManagerPhase::SearchPending);
                let mb_base_url = self.tags.mb_base_url.clone();
                let mb_user_agent = self.tags.mb_user_agent.clone();
                cmd_tx.push(
                    BgCommand::MbSearchReleases {
                        token,
                        artist,
                        album,
                        mb_base_url,
                        mb_user_agent,
                    },
                );
                proof {
                    assert(cmd_tx@.drop_last() =~= old(cmd_tx)@);
                }
            },
            _ => {
                if let Some(o) = &mut self.tags.manager {
                    o.type_query(key.code);
                }
            },
        }
    }

    /// What a key does to the list of hits.
    pub open spec fn hits_pressed(
        &self,
        before: &App,
        code: KeyCode,
        sent: Seq<BgCommand>,
        sent_after: Seq<BgCommand>,
    ) -> bool {
        let o = before.tags.manager->0;
        if code == KeyCode::Esc || code == KeyCode::Char('s') {
            *self == App::manager_turned(*before, TagManagerPhase::SearchInput) && sent_after == sent
        } else if is_up(code) || is_down(code) && o.search_hits@.len() > 0 {
            &&& sent_after == sent
            &&& *self == App::with_manager(*before, self.tags.manager)
            &&& self.tags.manager matches Some(n) && n == (TagManagerOverlay {
                hit_idx: n.hit_idx,
                ..o
            }) && n.hit_idx == if is_up(code) {
                if o.hit_idx == 0 {
                    0
                } else {
                    o.hit_idx - 1
                }
            } else if o.hit_idx + 1 < o.search_hits@.len() {
                o.hit_idx + 1
            } else {
                o.search_hits@.len() - 1
            }
        } else if code == KeyCode::Enter && o.hit_idx < o.search_hits@.len() {
            &&& *self == App::manager_asks(*before, TagManagerPhase::LoadingRelease)
            &&& one_more(sent, sent_after)
            &&& before.is_details_request(
                sent_after.last(),
                self.tags.token,
                o.search_hits@[o.hit_idx as int].id@,
            )
        } else {
            *self == *before && sent_after == sent
        }
    }

    fn handle_tag_manager_key_search_results(&mut self, key: KeyEvent, cmd_tx: &mut Vec<BgCommand>)
        requires
            old(self).tags.token < u64::MAX,
        ensures
            old(self).tags.manager is None ==> *final(self) == *old(self) && final(cmd_tx)@ == old(
                cmd_tx,
            )@,
            old(self).tags.manager is Some ==> final(self).hits_pressed(
                old(self),
                key.code,
                old(cmd_tx)@,
                final(cmd_tx)@,
            ),
            old(self).valid() ==> final(self).valid(),
    {
        if self.tags.manager.is_none() {
            return;
        }
        let code = key.code;
        if code == KeyCode::Esc || code == KeyCode::Char('s') {
            if let Some(o) = &mut self.tags.manager {
                o.phase = TagManagerPhase::SearchInput;
            }
        } else if goes_up(code) {
            if let Some(o) = &mut self.tags.manager {
                if o.hit_idx > 0 {
                    o.hit_idx = o.hit_idx - 1;
                }
            }
        } else if goes_down(code) {
            if let Some(o) = &mut self.tags.manager {
                let n = o.search_hits.len();
                if n > 0 {
                    o.hit_idx = if o.hit_idx < n - 1 {
                        o.hit_idx + 1
                    } else {
                        n - 1
                    };
                }
            }
        } else if code == KeyCode::Enter {
            let mbid: Option<String> = match &self.tags.manager {
                Some(o) => if o.hit_idx < o.search_hits.len() {
                    Some(o.search_hits[o.hit_idx].id.clone())
                } else {
                    None
                },
                None => None,
            };
            if let Some(mbid) = mbid {
                let token = self.ask_as_manager(TagManagerPhase::LoadingRelease);
                let mb_base_url = self.tags.mb_base_url.clone();
                let mb_user_agent = self.tags.mb_user_agent.clone();
                cmd_tx.push(
                    BgCommand::MbReleaseDetails { token, mbid, mb_base_url, mb_user_agent },
                );
                proof {
                    assert(cmd_tx@.drop_last() =~= old(cmd_tx)@);
                }
            }
        }
    }

    /// What confirming the diff does: it is written where a field is enabled
    /// and the music directory known.
    pub open spec fn diff_confirmed(
        &self,
        before: &App,
        sent: Seq<BgCommand>,
        sent_after: Seq<BgCommand>,
    ) -> bool {
        let o = before.tags.manager->0;
        if o.diff is None {
            *self == *before && sent_after == sent
        } else if !any_enabled(o.diff->0@) {
            *self == App::with_manager(*before, None) && sent_after == sent
        } else {
            match before.music_root() {
                None => self.manager_failed(before, "music directory unknown"@) && sent_after == sent,
                Some(dir) => {
                    &&& *self == App::manager_asks(*before, TagManagerPhase::Applying)
                    &&& one_more(sent, sent_after)
                    &&& sent_after.last() matches BgCommand::ApplyTagDiff {
                        token,
                        diff,
                        music_dir,
                        fingerprint,
                    } && token == self.tags.token && diff@ == o.diff->0@ && music_dir == dir
                        && fingerprint == before.scan.scan_fingerprint
                },
            }
        }
    }

    fn confirm_diff(&mut self, cmd_tx: &mut Vec<BgCommand>)
        requires
            old(self).tags.manager is Some,
            old(self).tags.token < u64::MAX,
        ensures
            final(self).diff_confirmed(old(self), old(cmd_tx)@, final(cmd_tx)@),
            old(self).valid() ==> final(self).valid(),
    {
        let diff: ReleaseDiff = match &self.tags.manager {
            Some(o) => match &o.diff {
                Some(d) => d.clone(),
                None => {
                    return;
                },
            },
            None => {
                return;
            },
        };
        if !diff.has_any_enabled() {
            self.close_tag_manager();
            return;
        }
        match self.find_music_root() {
            None => {
                self.fail_manager("music directory unknown".to_owned());
            },
            Some(music_dir) => {
                let fingerprint = self.scan.scan_fingerprint;
                let token = self.ask_as_manager(TagManagerPhase::Applying);
                cmd_tx.push(BgCommand::ApplyTagDiff { token, diff, music_dir, fingerprint });
                proof {
                    assert(cmd_tx@.drop_last() =~= old(cmd_tx)@);
                }
            },
        }
    }

    /// What a key does to the diff preview.
    pub open spec fn preview_pressed(
        &self,
        before: &App,
        code: KeyCode,
        sent: Seq<BgCommand>,
        sent_after: Seq<BgCommand>,
    ) -> bool {
        let o = before.tags.manager->0;
        if code == KeyCode::Enter {
            self.diff_confirmed(before, sent, sent_after)
        } else if code == KeyCode::Esc && o.search_hits@.len() > 0 {
            *self == App::manager_turned(*before, TagManagerPhase::SearchResults) && sent_after == sent
        } else if code == KeyCode::Esc || code == KeyCode::Char('s') {
            *self == App::manager_turned(*before, TagManagerPhase::SearchInput) && sent_after == sent
        } else {
            &&& *self == App::with_manager(*before, self.tags.manager)
            &&& self.tags.manager matches Some(n) && n.diff_edited(&o, code)
            &&& sent_after == sent
        }
    }

    fn handle_tag_manager_key_diff_preview(&mut self, key: KeyEvent, cmd_tx: &mut Vec<BgCommand>)
        requires
            old(self).tags.token < u64::MAX,
        ensures
            old(self).tags.manager is None ==> *final(self) == *old(self) && final(cmd_tx)@ == old(
                cmd_tx,
            )@,
            old(self).tags.manager is Some ==> final(self).preview_pressed(
                old(self),
                key.code,
                old(cmd_tx)@,
                final(cmd_tx)@,
            ),
            old(self).valid() ==> final(self).valid(),
    {
        if self.tags.manager.is_none() {
            return;
        }
        let code = key.code;
        if code == KeyCode::Enter {
            self.confirm_diff(cmd_tx);
        } else if code == KeyCode::Esc {
            if let Some(o) = &mut self.tags.manager {
                o.phase = if o.search_hits.len() == 0 {
                    TagManagerPhase::SearchInput
                } else {
                    TagManagerPhase::SearchResults
                };
            }
        } else if code == KeyCode::Char('s') {
            if let Some(o) = &mut self.tags.manager {
                o.phase = TagManagerPhase::SearchInput;
            }
        } else if let Some(o) = &mut self.tags.manager {
            o.edit_diff(code);
        }
    }

    /// What a key does to the tag manager.
    pub open spec fn manager_pressed(
        &self,
        before: &App,
        code: KeyCode,
        sent: Seq<BgCommand>,
        sent_after: Seq<BgCommand>,
    ) -> bool {
        match before.tags.manager {
            None => *self == *before && sent_after == sent,
            Some(o) => match o.phase {
                TagManagerPhase::Applying => *self == *before && sent_after == sent,
                _ => if code == KeyCode::Char('q') {
                    *self == App::with_manager(*before, None) && sent_after == sent
                } else {
                    match o.phase {
                        TagManagerPhase::SearchInput => self.search_form_pressed(
                            before,
                            code,
                            sent,
                            sent_after,
                        ),
                        TagManagerPhase::SearchResults => self.hits_pressed(
                            before,
                            code,
                            sent,
                            sent_after,
                        ),
                        TagManagerPhase::DiffPreview => self.preview_pressed(
                            before,
                            code,
                            sent,
                            sent_after,
                        ),
                        TagManagerPhase::SearchPending | TagManagerPhase::LoadingRelease => {
                            &&& sent_after == sent
                            &&& *self == if code == KeyCode::Esc {
                                App::with_manager(*before, None)
                            } else {
                                *before
                            }
                        },
                        TagManagerPhase::Error => {
                            &&& sent_after == sent
                            &&& *self == if code == KeyCode::Esc {
                                App::with_manager(
                                    *before,
                                    Some(
                                        TagManagerOverlay {
                                            error: None,
                                            phase: TagManagerPhase::SearchInput,
                                            ..o
                                        },
                                    ),
                                )
                            } else {
                                App::with_manager(*before, None)
                            }
                        },
                        _ => *self == App::with_manager(*before, None) && sent_after == sent,
                    }
                },
            },
        }
    }

    /// Dispatch a key when the tag manager is open: then every key goes here.
    /// While tags are written no key does anything.
    pub fn handle_tag_manager_key(&mut self, key: KeyEvent, cmd_tx: &mut Vec<BgCommand>)
        requires
            old(self).tags.token < u64::MAX,
        ensures
            final(self).manager_pressed(old(self), key.code, old(cmd_tx)@, final(cmd_tx)@),
            old(self).valid() ==> final(self).valid(),
    {
        let phase: TagManagerPhase = match &self.tags.manager {
            Some(o) => o.phase,
            None => {
                return;
            },
        };
        if key.code == KeyCode::Char('q') {
            if phase != TagManagerPhase::Applying {
                self.close_tag_manager();
            }
            return;
        }
        match phase {
            TagManagerPhase::SearchInput => {
                self.handle_tag_manager_key_search_input(key, cmd_tx);
            },
            TagManagerPhase::SearchResults => {
                self.handle_tag_manager_key_search_results(key, cmd_tx);
            },
            TagManagerPhase::DiffPreview => {
                self.handle_tag_manager_key_diff_preview(key, cmd_tx);
            },
            TagManagerPhase::SearchPending | TagManagerPhase::LoadingRelease => {
                if key.code == KeyCode::Esc {
                    self.close_tag_manager();
                }
            },
            TagManagerPhase::Applying => {},
            TagManagerPhase::Error => {
                if key.code == KeyCode::Esc {
                    if let Some(o) = &mut self.tags.manager {
                        o.error = None;
                        o.phase = TagManagerPhase::SearchInput;
                    }
                } else {
                    self.close_tag_manager();
                }
            },
            TagManagerPhase::Done => {
                self.close_tag_manager();
            },
        }
    }
}

/// An answer that nobody waits for leaves the tag manager, and all but the log,
/// as it was.
pub proof fn stale_answers_are_dropped(
    before: App,
    after: App,
    token: u64,
    recording: Result<crate::tag_model::RecordingLookupResponse, String>,
    matches: Result<Vec<crate::tag_model::AcoustIdHit>, String>,
    hits: Result<Vec<crate::tag_model::ReleaseSearchHit>, String>,
    diff: Result<ReleaseDiff, String>,
)
    requires
        !before.awaits(token),
        after.recording_answered(&before, token, recording) || after.acoustid_answered(
            &before,
            token,
            matches,
        ) || after.search_answered(&before, token, hits) || after.release_answered(
            &before,
            token,
            diff,
        ),
    ensures
        after.tags == before.tags,
        after.only_log(&before),
{
}

/// A request is told apart from every earlier one of the session: its answer
/// is the only one that the overlay accepts, and no earlier number comes again.
pub proof fn tag_requests_are_told_apart(
    before: App,
    after: App,
    code: KeyCode,
    sent: Seq<BgCommand>,
    sent_after: Seq<BgCommand>,
)
    requires
        before.tags.token < u64::MAX,
        after.manager_pressed(&before, code, sent, sent_after) || after.manager_opened(
            &before,
            sent,
            sent_after,
        ),
    ensures
        after.tags.token >= before.tags.token,
        sent_after != sent ==> after.tags.token > before.tags.token && after.awaits(after.tags.token)
            && !after.awaits(before.tags.token),
{
}

/// Behind the open tag manager the rest of the state is read-only: a key changes
/// the tag manager at most.
pub proof fn only_the_tag_manager_changes(
    before: App,
    after: App,
    code: KeyCode,
    sent: Seq<BgCommand>,
    sent_after: Seq<BgCommand>,
)
    requires
        after.manager_pressed(&before, code, sent, sent_after),
    ensures
        after == (App { tags: after.tags, ..before }),
        before.tags.manager is None ==> after == before && sent_after == sent,
{
}

/// While tags are written, no key closes the tag manager or does anything else.
pub proof fn writing_cannot_be_left(
    before: App,
    after: App,
    code: KeyCode,
    sent: Seq<BgCommand>,
    sent_after: Seq<BgCommand>,
)
    requires
        before.tags.manager is Some,
        before.tags.manager->0.phase == TagManagerPhase::Applying,
        after.manager_pressed(&before, code, sent, sent_after),
    ensures
        after == before,
        sent_after == sent,
{
}

} // verus!
