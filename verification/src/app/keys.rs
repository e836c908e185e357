//! Keyboard dispatch.
//!
//! `App::handle_key` is the dispatcher the run loop feeds every key through.
//! Modals are tried first, in priority order; an open modal claims every key.
//! Only when no modal claims the key does the global key map run.
use vstd::prelude::*;
use crate::app::player::{flipped, next_show_player, show_player_label};
use crate::app::nav::{moving_keeps_valid, panel_after, panel_ahead};
use crate::app::select::{column_sorted, next_column};
use crate::app::{
    AnimState, App, ListState, NavState, PlayerState, PlaylistUi, PopupState, RemovalState,
};
use crate::commands::{one_more, AudioCommand, BgCommand, HostRequest};
use crate::device::DeviceState;
use crate::format::{concat3, decimal, decimal_of};
use crate::input::{KeyCode, KeyEvent};
use crate::types::{
    BrowseMode, DeviceStatus, KeyOutcome, Panel, SidebarEntry, SidebarMode, SyncStatus,
};

verus! {

// ---------------------------------------------------------------------------
// Views
// ---------------------------------------------------------------------------
/// The character is bound to a view: overlays, panels, modes, sorting.
pub open spec fn is_view_char(c: char) -> bool {
    c == '?' || c == 'h' || c == '1' || c == '2' || c == '4' || c == 'o' || c == 't' || c == 'T' || c
        == 'I' || c == 'P' || c == 'v' || c == 'i' || c == '/' || c == 's' || c == 'L' || c == 'X'
}

impl App {
    /// The selection was saved and the sidebar mode switched.
    pub open spec fn sidebar_mode_put(&self, before: &App, mode: SidebarMode) -> bool {
        &&& *self == (App { nav: self.nav, ..*before })
        &&& exists|saved: NavState| #[trigger]
            saved.saved(&before.nav) && self.nav == (NavState { sidebar_mode: mode, ..saved })
    }

    /// The sidebar shows artists or albums.
    pub open spec fn sidebar_set(&self, before: &App, mode: SidebarMode) -> bool {
        exists|mid: App| #[trigger]
            mid.sidebar_mode_put(before, mode) && exists|made: App| #[trigger]
                made.resided(&mid) && *self == App::with_focus(made, Panel::Library)
    }

    /// Another panel has the focus, and nothing else changed.
    pub open spec fn with_focus(before: App, panel: Panel) -> App {
        App { nav: NavState { active_panel: panel, ..before.nav }, ..before }
    }

    /// `1`/`2` switch the sidebar between artists and albums.
    pub fn set_sidebar_mode(&mut self, mode: SidebarMode)
        ensures
            final(self).sidebar_set(old(self), mode),
            old(self).valid() ==> final(self).valid(),
    {
        self.save_sidebar_pos();
        let ghost saved = self.nav;
        self.nav.sidebar_mode = mode;
        let ghost mid = *self;
        proof {
            assert(saved.saved(&old(self).nav));
            assert(mid.sidebar_mode_put(old(self), mode));
        }
        self.refresh_sidebar();
        let ghost made = *self;
        proof {
            assert(made.resided(&mid));
        }
        self.nav.active_panel = Panel::Library;
    }

    /// The player panel's preference moved on, and is shown and to be saved.
    pub open spec fn player_cycled(&self, before: &App) -> bool {
        &&& *self == (App {
            player: PlayerState {
                show_player: next_show_player(before.player.show_player),
                ..before.player
            },
            out: self.out,
            toast_message: self.toast_message,
            ..*before
        })
        &&& self.out.asks(&before.out, HostRequest::SaveShowPlayer)
        &&& self.says(show_player_label(next_show_player(before.player.show_player)), false)
    }

    /// The track-info popup opened on the selected row, if there is one.
    pub open spec fn info_opened(before: App) -> App {
        if before.lists.track_selected < before.lists.track_list@.len() {
            App {
                popup: PopupState {
                    track_info_lib: before.selected_library_row(),
                    track_info_scroll: 0,
                    show_track_info: true,
                    ..before.popup
                },
                ..before
            }
        } else {
            before
        }
    }

    /// The next column orders the tracks.
    pub open spec fn sort_moved(&self, before: &App) -> bool {
        &&& *self == (App { lists: self.lists, ..*before })
        &&& self.lists == (ListState {
            sort_column: next_column(before.lists.sort_column),
            sort_ascending: true,
            track_list: self.lists.track_list,
            ..before.lists
        })
        &&& self.lists.track_list@ == column_sorted(
            before.lists.track_list@,
            next_column(before.lists.sort_column),
            true,
        )
    }

    /// The host is asked for something, and nothing else changed.
    pub open spec fn only_asks(&self, before: &App, request: HostRequest) -> bool {
        *self == (App { out: self.out, ..*before }) && self.out.asks(&before.out, request)
    }

    /// What a view key does.
    pub open spec fn view_pressed(&self, before: &App, c: char) -> bool {
        if c == '?' {
            *self == (App { popup: PopupState { show_help: true, ..before.popup }, ..*before })
        } else if c == 'h' {
            *self == (App {
                popup: PopupState { show_keys: !before.popup.show_keys, ..before.popup },
                ..*before
            })
        } else if c == '1' {
            self.sidebar_set(before, SidebarMode::Artists)
        } else if c == '2' {
            self.sidebar_set(before, SidebarMode::Albums)
        } else if c == '4' && before.sync.queue@.len() > 0 {
            *self == App::with_focus(*before, Panel::SyncQueue)
        } else if c == 'o' {
            self.panel_opened(before)
        } else if c == 't' {
            *self == (App { themes: before.themes.opened(), ..*before })
        } else if c == 'T' {
            &&& *self == (App { art: flipped(before.art), out: self.out, ..*before })
            &&& self.out.asks(&before.out, HostRequest::SaveAlbumArtStyle)
        } else if c == 'I' && before.nav.active_panel == Panel::TrackList {
            *self == App::info_opened(*before)
        } else if c == 'P' {
            self.player_cycled(before)
        } else if c == 'v' {
            self.mode_cycled(before)
        } else if c == 'i' {
            self.import_opened(before)
        } else if c == '/' {
            &&& *self == (App { nav: self.nav, ..*before })
            &&& self.nav.query_put(&before.nav, true, Seq::empty())
        } else if c == 's' && before.nav.active_panel == Panel::TrackList {
            self.sort_moved(before)
        } else if c == 'L' {
            self.only_asks(before, HostRequest::DumpLog)
        } else if c == 'X' {
            *self == (App {
                popup: PopupState { pending_cache_clear: true, ..before.popup },
                ..*before
            })
        } else {
            *self == *before
        }
    }

    #[verifier::rlimit(40)]
    fn handle_view_key(&mut self, c: char)
        requires
            old(self).cd.valid(),
        ensures
            final(self).view_pressed(old(self), c),
            old(self).valid() ==> final(self).valid(),
    {
        if c == '?' {
            self.popup.show_help = true;
        } else if c == 'h' {
            self.popup.show_keys = !self.popup.show_keys;
        } else if c == '1' {
            self.set_sidebar_mode(SidebarMode::Artists);
        } else if c == '2' {
            self.set_sidebar_mode(SidebarMode::Albums);
        } else if c == '4' {
            if self.sync.queue.len() > 0 {
                self.nav.active_panel = Panel::SyncQueue;
            }
        } else if c == 'o' {
            self.open_stem_panel();
        } else if c == 't' {
            self.open_theme_picker();
        } else if c == 'T' {
            self.toggle_album_art_style();
        } else if c == 'I' {
            if self.nav.active_panel == Panel::TrackList {
                self.open_track_info();
            }
        } else if c == 'P' {
            let label = self.cycle_show_player();
            self.set_toast(label.to_owned(), false);
        } else if c == 'v' {
            self.toggle_browse_mode();
        } else if c == 'i' {
            self.handle_cd_import_key();
        } else if c == '/' {
            self.nav.search_active = true;
            self.nav.search_query = String::new();
        } else if c == 's' {
            if self.nav.active_panel == Panel::TrackList {
                self.cycle_sort();
            }
        } else if c == 'L' {
            self.dump_log_to_file();
        } else if c == 'X' {
            self.popup.pending_cache_clear = true;
        }
    }

    /// `L` asks for the sync log to be written to a file and the path to be
    /// copied to the clipboard.
    pub fn dump_log_to_file(&mut self)
        ensures
            final(self).only_asks(old(self), HostRequest::DumpLog),
            old(self).valid() ==> final(self).valid(),
    {
        self.ask_host(HostRequest::DumpLog);
    }
}

// ---------------------------------------------------------------------------
// Edits
// ---------------------------------------------------------------------------
/// The character is bound to an edit: playlists, stems, the queues.
pub open spec fn is_edit_char(c: char) -> bool {
    c == 'N' || c == 'e' || c == '+' || c == 'G' || c == 'R' || c == 'M' || c == 'a' || c == 'A' || c
        == 'D' || c == 'C'
}

impl App {
    /// The playlist-name input opened.
    pub open spec fn with_name_input(before: App, text: Option<String>, target: Option<u64>) -> App {
        App {
            playlists: PlaylistUi { name_input: text, rename_target: target, ..before.playlists },
            ..before
        }
    }

    /// The sidebar stands on an album of the library.
    pub open spec fn on_album_entry(&self) -> bool {
        &&& self.nav.browse_mode == BrowseMode::Library
        &&& self.nav.active_panel == Panel::Library
        &&& self.nav.sidebar_selected < self.nav.sidebar_items@.len()
        &&& self.nav.sidebar_items@[self.nav.sidebar_selected as int] is Album
    }

    /// What `e` does: the selected playlist is renamed.
    pub open spec fn rename_opened(&self, before: &App) -> bool {
        if before.nav.browse_mode == BrowseMode::Playlists && before.nav.sidebar_selected
            < before.nav.sidebar_items@.len() {
            match before.nav.sidebar_items@[before.nav.sidebar_selected as int] {
                SidebarEntry::Playlist { id, name } => *self == App::with_name_input(
                    *before,
                    Some(name),
                    Some(id),
                ),
                _ => *self == *before,
            }
        } else {
            *self == *before
        }
    }

    fn open_rename(&mut self)
        ensures
            final(self).rename_opened(old(self)),
            old(self).valid() ==> final(self).valid(),
    {
        if self.nav.browse_mode == BrowseMode::Playlists && self.nav.sidebar_selected
            < self.nav.sidebar_items.len() {
            if let SidebarEntry::Playlist { id, name } = &self.nav.sidebar_items[self.nav.sidebar_selected] {
                let id: u64 = *id;
                self.playlists.name_input = Some(name.clone());
                self.playlists.rename_target = Some(id);
            }
        }
    }

    /// What `a` does.
    pub open spec fn add_pressed(&self, before: &App) -> bool {
        if before.nav.browse_mode == BrowseMode::Device {
            self.removal_queued(before)
        } else {
            match before.nav.active_panel {
                Panel::TrackList => self.track_added(before),
                Panel::Library => self.selection_added(before),
                Panel::Albums => self.visible_added(before),
                _ => *self == *before,
            }
        }
    }

    /// `a` queues for removal in device mode, and otherwise adds the selection
    /// (track, sidebar item, or visible album) to the sync queue.
    pub fn handle_add_key(&mut self)
        ensures
            final(self).add_pressed(old(self)),
            old(self).valid() ==> final(self).valid(),
    {
        if self.nav.browse_mode == BrowseMode::Device {
            self.queue_device_removal();
        } else {
            match self.nav.active_panel {
                Panel::TrackList => {
                    self.add_selected_track_to_queue();
                },
                Panel::Library => {
                    self.add_sidebar_item_to_queue();
                },
                Panel::Albums => {
                    self.add_all_visible_to_queue();
                },
                _ => {},
            }
        }
    }

    /// What `C` does.
    pub open spec fn clear_pressed(&self, before: &App) -> bool {
        if before.nav.browse_mode == BrowseMode::Device {
            &&& *self == (App {
                removal: self.removal,
                toast_message: self.toast_message,
                ..*before
            })
            &&& self.removal == (RemovalState {
                removal_queue: self.removal.removal_queue,
                ..before.removal
            })
            &&& self.removal.removal_queue@.len() == 0
            &&& if before.removal.removal_queue@.len() > 0 {
                self.says(
                    "Cleared "@ + decimal(before.removal.removal_queue@.len())
                        + " queued removal(s)"@,
                    false,
                )
            } else {
                self.toast_message == before.toast_message
            }
        } else if before.nav.active_panel == Panel::SyncQueue {
            self.queue_cleared(before)
        } else {
            *self == *before
        }
    }

    /// `C` clears the removal queue in device mode, and otherwise the sync queue.
    pub fn handle_clear_key(&mut self)
        ensures
            final(self).clear_pressed(old(self)),
            old(self).valid() ==> final(self).valid(),
    {
        if self.nav.browse_mode == BrowseMode::Device {
            let count = self.removal.removal_queue.len();
            self.clear_removal_queue();
            if count > 0 {
                let n = decimal_of(count as u64);
                let msg = concat3("Cleared ", n.as_str(), " queued removal(s)");
                self.set_toast(msg, false);
            }
        } else if self.nav.active_panel == Panel::SyncQueue {
            self.clear_queue();
        }
    }

    /// What `D` does: the queued removals wait for a confirmation.
    pub open spec fn removal_asked(&self, before: &App) -> bool {
        if before.nav.browse_mode == BrowseMode::Device && before.removal.removal_queue@.len() > 0 {
            &&& *self == (App { removal: self.removal, ..*before })
            &&& self.removal == (RemovalState {
                pending_removal: self.removal.pending_removal,
                ..before.removal
            })
            &&& self.removal.pending_removal matches Some(items) && items@
                == before.removal.removal_queue@
        } else {
            *self == *before
        }
    }

    fn ask_removal(&mut self)
        ensures
            final(self).removal_asked(old(self)),
            old(self).valid() ==> final(self).valid(),
    {
        if self.nav.browse_mode == BrowseMode::Device && self.removal.removal_queue.len() > 0 {
            let mut items: Vec<(String, u64)> = Vec::new();
            let mut i: usize = 0;
            while i < self.removal.removal_queue.len()
                invariant
                    *self == *old(self),
                    i <= self.removal.removal_queue.len(),
                    items@ == self.removal.removal_queue@.take(i as int),
                decreases self.removal.removal_queue.len() - i,
            {
                items.push(
                    (self.removal.removal_queue[i].0.clone(), self.removal.removal_queue[i].1),
                );
                proof {
                    assert(items@ =~= self.removal.removal_queue@.take(i + 1));
                }
                i = i + 1;
            }
            proof {
                assert(items@ =~= self.removal.removal_queue@);
            }
            self.removal.pending_removal = Some(items);
        }
    }

    /// What an edit key does.
    pub open spec fn edit_pressed(&self, before: &App, c: char) -> bool {
        if c == 'N' && before.nav.browse_mode == BrowseMode::Playlists {
            &&& *self == App::with_name_input(*before, self.playlists.name_input, None)
            &&& self.playlists.name_input matches Some(text) && text@.len() == 0
        } else if c == 'e' {
            self.rename_opened(before)
        } else if c == '+' && before.nav.browse_mode == BrowseMode::Library && before.nav.active_panel
            == Panel::TrackList {
            self.picker_opened(before)
        } else if c == 'G' {
            self.form_opened(before)
        } else if c == 'R' {
            self.regenerate_opened(before)
        } else if c == 'M' {
            if before.on_album_entry() {
                self.album_split_pressed(before)
            } else {
                self.split_pressed(before)
            }
        } else if c == 'a' {
            self.add_pressed(before)
        } else if c == 'A' {
            if before.nav.browse_mode == BrowseMode::Device {
                self.removal_queued(before)
            } else if before.nav.active_panel == Panel::TrackList {
                self.visible_added(before)
            } else {
                *self == *before
            }
        } else if c == 'D' {
            self.removal_asked(before)
        } else if c == 'C' {
            self.clear_pressed(before)
        } else {
            *self == *before
        }
    }

    fn is_on_album_entry(&self) -> (r: bool)
        ensures
            r == self.on_album_entry(),
    {
        if self.nav.browse_mode != BrowseMode::Library || self.nav.active_panel != Panel::Library {
            return false;
        }
        if self.nav.sidebar_selected >= self.nav.sidebar_items.len() {
            return false;
        }
        match &self.nav.sidebar_items[self.nav.sidebar_selected] {
            SidebarEntry::Album { .. } => true,
            _ => false,
        }
    }

    fn handle_edit_key(&mut self, c: char)
        requires
            old(self).has_room(),
        ensures
            final(self).edit_pressed(old(self), c),
            old(self).valid() ==> final(self).valid(),
    {
        if c == 'N' {
            if self.nav.browse_mode == BrowseMode::Playlists {
                self.playlists.name_input = Some(String::new());
                self.playlists.rename_target = None;
            }
        } else if c == 'e' {
            self.open_rename();
        } else if c == '+' {
            if self.nav.browse_mode == BrowseMode::Library && self.nav.active_panel == Panel::TrackList {
                self.open_add_to_playlist_picker();
            }
        } else if c == 'G' {
            self.open_generation_form();
        } else if c == 'R' {
            self.open_generation_form_for_regenerate();
        } else if c == 'M' {
            if self.is_on_album_entry() {
                self.press_stem_mode_on_album();
            } else {
                self.press_stem_mode();
            }
        } else if c == 'a' {
            self.handle_add_key();
        } else if c == 'A' {
            if self.nav.browse_mode == BrowseMode::Device {
                self.queue_device_removal();
            } else if self.nav.active_panel == Panel::TrackList {
                self.add_all_visible_to_queue();
            }
        } else if c == 'D' {
            self.ask_removal();
        } else if c == 'C' {
            self.handle_clear_key();
        }
    }
}

// ---------------------------------------------------------------------------
// The worker
// ---------------------------------------------------------------------------
/// The character is bound to a command for the worker.
pub open spec fn is_worker_char(c: char) -> bool {
    c == 'm' || c == 'c' || c == 'd' || c == 'r' || c == 'S' || c == 'U'
}

impl App {
    /// The device is gone, and late events of its session are ignored.
    pub open spec fn unplugged(&self, before: &App) -> bool {
        &&& *self == (App { device: self.device, ..*before })
        &&& self.device == (DeviceState {
            status: DeviceStatus::Disconnected,
            name: None,
            tracks: self.device.tracks,
            ignore_session_events: true,
            ..before.device
        })
        &&& self.device.tracks@.len() == 0
    }

    /// The device was disconnected, and all that came from it forgotten.
    pub open spec fn disconnected(&self, before: &App, sent: Seq<BgCommand>, sent_after: Seq<BgCommand>) -> bool {
        &&& one_more(sent, sent_after)
        &&& sent_after.last() == BgCommand::Disconnect
        &&& exists|mid: App| #[trigger]
            mid.unplugged(before) && exists|bare: App| #[trigger]
                bare.index_cleared(&mid) && self.only_says(&bare, "Disconnected"@, false)
    }

    /// Disconnect the device: drop the worker session and clear all
    /// device-side state.
    pub fn disconnect_device(&mut self, cmd_tx: &mut Vec<BgCommand>)
        ensures
            final(self).disconnected(old(self), old(cmd_tx)@, final(cmd_tx)@),
            old(self).valid() ==> final(self).valid(),
    {
        cmd_tx.push(BgCommand::Disconnect);
        proof {
            assert(cmd_tx@.drop_last() =~= old(cmd_tx)@);
        }
        self.device.status = DeviceStatus::Disconnected;
        self.device.name = None;
        self.device.tracks = Vec::new();
        self.device.ignore_session_events = true;
        let ghost mid = *self;
        proof {
            assert(mid.unplugged(old(self)));
        }
        self.clear_device_index();
        let ghost bare = *self;
        proof {
            assert(bare.index_cleared(&mid));
        }
        self.set_toast("Disconnected".to_owned(), false);
    }

    /// A deletion of the selected playlist waits for an answer.
    pub open spec fn deletion_asked(&self, before: &App) -> bool {
        if before.nav.sidebar_selected < before.nav.sidebar_items@.len() {
            match before.nav.sidebar_items@[before.nav.sidebar_selected as int] {
                SidebarEntry::Playlist { id, .. } => *self == (App {
                    playlists: PlaylistUi { pending_delete: Some(id), ..before.playlists },
                    ..*before
                }),
                _ => *self == *before,
            }
        } else {
            *self == *before
        }
    }

    fn ask_deletion(&mut self)
        ensures
            final(self).deletion_asked(old(self)),
            old(self).valid() ==> final(self).valid(),
    {
        if self.nav.sidebar_selected < self.nav.sidebar_items.len() {
            if let SidebarEntry::Playlist { id, .. } = &self.nav.sidebar_items[self.nav.sidebar_selected] {
                let id: u64 = *id;
                self.playlists.pending_delete = Some(id);
            }
        }
    }

    /// What `d` does.
    pub open spec fn delete_pressed(&self, before: &App, sent: Seq<BgCommand>, sent_after: Seq<BgCommand>) -> bool {
        let lists = before.nav.browse_mode == BrowseMode::Playlists;
        if before.nav.active_panel == Panel::SyncQueue {
            self.entry_dropped(before) && sent_after == sent
        } else if before.nav.active_panel == Panel::Library && lists {
            self.deletion_asked(before) && sent_after == sent
        } else if before.nav.active_panel == Panel::TrackList && lists {
            self.track_dropped(before) && sent_after == sent
        } else if before.device.status != DeviceStatus::Disconnected {
            self.disconnected(before, sent, sent_after)
        } else {
            *self == *before && sent_after == sent
        }
    }

    /// `d` deletes by panel: it dequeues a sync item or deletes a playlist or a
    /// playlist track. On any panel that has no use for it, it disconnects the
    /// device.
    pub fn handle_delete_key(&mut self, cmd_tx: &mut Vec<BgCommand>)
        requires
            old(self).nav.active_panel == Panel::SyncQueue ==> old(self).sync.on_entry(),
        ensures
            final(self).delete_pressed(old(self), old(cmd_tx)@, final(cmd_tx)@),
            old(self).valid() ==> final(self).valid(),
    {
        let lists = self.nav.browse_mode == BrowseMode::Playlists;
        if self.nav.active_panel == Panel::SyncQueue {
            self.remove_queue_item();
        } else if self.nav.active_panel == Panel::Library && lists {
            self.ask_deletion();
        } else if self.nav.active_panel == Panel::TrackList && lists {
            self.remove_selected_track_from_playlist();
        } else if self.device.status != DeviceStatus::Disconnected {
            self.disconnect_device(cmd_tx);
        }
    }

    /// A connection is being sought.
    pub open spec fn connecting(before: App) -> App {
        App {
            device: DeviceState {
                status: DeviceStatus::Detecting,
                ignore_session_events: false,
                ..before.device
            },
            anim: AnimState {
                connection_anim_start: Some(before.anim.anim_frame),
                ..before.anim
            },
            ..before
        }
    }

    /// What `c` does: a running rip is cancelled, else a device sought.
    pub open spec fn connect_pressed(&self, before: &App, sent: Seq<BgCommand>, sent_after: Seq<BgCommand>) -> bool {
        if before.cd.rip is Some {
            self.rip_cancelled(before) && sent_after == sent
        } else if before.device.status == DeviceStatus::Disconnected {
            &&& *self == App::connecting(*before)
            &&& one_more(sent, sent_after)
            &&& sent_after.last() == BgCommand::Connect
        } else {
            *self == *before && sent_after == sent
        }
    }

    fn handle_connect_key(&mut self, cmd_tx: &mut Vec<BgCommand>)
        ensures
            final(self).connect_pressed(old(self), old(cmd_tx)@, final(cmd_tx)@),
            old(self).valid() ==> final(self).valid(),
    {
        if self.cd.rip.is_some() {
            self.cancel_rip();
        } else if self.device.status == DeviceStatus::Disconnected {
            self.device.status = DeviceStatus::Detecting;
            self.device.ignore_session_events = false;
            self.anim.connection_anim_start = Some(self.anim.anim_frame);
            cmd_tx.push(BgCommand::Connect);
            proof {
                assert(cmd_tx@.drop_last() =~= old(cmd_tx)@);
            }
        }
    }

    /// What a key for the worker does.
    pub open spec fn worker_pressed(
        &self,
        before: &App,
        c: char,
        sent: Seq<BgCommand>,
        sent_after: Seq<BgCommand>,
    ) -> bool {
        if c == 'm' {
            self.manager_opened(before, sent, sent_after)
        } else if c == 'c' {
            self.connect_pressed(before, sent, sent_after)
        } else if c == 'd' {
            self.delete_pressed(before, sent, sent_after)
        } else if c == 'r' && before.device.status == DeviceStatus::Connected {
            &&& self.only_says(before, "Refreshing device tracks..."@, false)
            &&& one_more(sent, sent_after)
            &&& sent_after.last() == BgCommand::LoadDeviceTracks
        } else if c == 'S' && before.sync.queue@.len() > 0 {
            self.synced(&App::with_focus(*before, Panel::SyncQueue), sent, sent_after)
        } else if c == 'U' && before.nav.browse_mode == BrowseMode::Device {
            self.deduped(before, sent, sent_after)
        } else {
            *self == *before && sent_after == sent
        }
    }

    fn handle_worker_key(&mut self, c: char, cmd_tx: &mut Vec<BgCommand>)
        requires
            old(self).sync.valid(),
            old(self).has_room(),
        ensures
            final(self).worker_pressed(old(self), c, old(cmd_tx)@, final(cmd_tx)@),
            old(self).valid() ==> final(self).valid(),
    {
        if c == 'm' {
            self.open_tag_manager(cmd_tx);
        } else if c == 'c' {
            self.handle_connect_key(cmd_tx);
        } else if c == 'd' {
            self.handle_delete_key(cmd_tx);
        } else if c == 'r' {
            if self.device.status == DeviceStatus::Connected {
                cmd_tx.push(BgCommand::LoadDeviceTracks);
                proof {
                    assert(cmd_tx@.drop_last() =~= old(cmd_tx)@);
                }
                self.set_toast("Refreshing device tracks...".to_owned(), false);
            }
        } else if c == 'S' {
            if self.sync.queue.len() > 0 {
                self.nav.active_panel = Panel::SyncQueue;
                self.execute_sync(cmd_tx);
            }
        } else if c == 'U' {
            if self.nav.browse_mode == BrowseMode::Device {
                self.dedupe_device(cmd_tx);
            }
        }
    }
}

// ---------------------------------------------------------------------------
// Playback
// ---------------------------------------------------------------------------
impl App {
    /// What a playback key does.
    pub open spec fn player_pressed(
        &self,
        before: &App,
        c: char,
        audio: Seq<AudioCommand>,
        audio_after: Seq<AudioCommand>,
    ) -> bool {
        if c == ' ' {
            self.playback_toggled(before, audio, audio_after)
        } else if (c == '<' || c == ',') && before.player.now_playing is Some {
            *self == *before && audio_after == audio.push(
                AudioCommand::Scrub { delta_ms: -5000 as i64 },
            )
        } else if (c == '>' || c == '.') && before.player.now_playing is Some {
            *self == *before && audio_after == audio.push(AudioCommand::Scrub { delta_ms: 5000 })
        } else if c == 'n' {
            self.next_played(before, audio, audio_after)
        } else if c == 'p' {
            self.previous_played(before, audio, audio_after)
        } else {
            *self == *before && audio_after == audio
        }
    }

    fn handle_player_key(&mut self, c: char, audio_tx: &mut Vec<AudioCommand>)
        requires
            old(self).stems.state.can_let_go(),
            old(self).player.can_restart(),
            old(self).player.valid(),
        ensures
            final(self).player_pressed(old(self), c, old(audio_tx)@, final(audio_tx)@),
            old(self).valid() ==> final(self).valid(),
    {
        if c == ' ' {
            self.toggle_playback(audio_tx);
        } else if c == '<' || c == ',' {
            if self.player.now_playing.is_some() {
                audio_tx.push(AudioCommand::Scrub { delta_ms: -5000 });
            }
        } else if c == '>' || c == '.' {
            if self.player.now_playing.is_some() {
                audio_tx.push(AudioCommand::Scrub { delta_ms: 5000 });
            }
        } else if c == 'n' {
            proof {
                if let Some(np) = &self.player.now_playing {
                    assert(np.playlist.len() <= usize::MAX);
                }
            }
            self.next_track(audio_tx);
        } else if c == 'p' {
            self.prev_track(audio_tx);
        }
    }

    /// What Enter does.
    pub open spec fn enter_pressed(
        &self,
        before: &App,
        sent: Seq<BgCommand>,
        sent_after: Seq<BgCommand>,
        audio: Seq<AudioCommand>,
        audio_after: Seq<AudioCommand>,
    ) -> bool {
        match before.nav.active_panel {
            Panel::Library => {
                &&& sent_after == sent && audio_after == audio
                &&& exists|mid: App| #[trigger]
                    mid.item_listed(before) && *self == App::with_focus(
                        mid,
                        if mid.lists.album_list@.len() > 0 {
                            Panel::Albums
                        } else {
                            Panel::TrackList
                        },
                    )
            },
            Panel::Albums => {
                &&& sent_after == sent && audio_after == audio
                &&& *self == App::with_focus(*before, Panel::TrackList)
            },
            Panel::TrackList => sent_after == sent && self.selected_played(before, audio, audio_after),
            Panel::SyncQueue => audio_after == audio && self.synced(before, sent, sent_after),
            Panel::Device => *self == *before && sent_after == sent && audio_after == audio,
        }
    }

    /// Enter activates by panel: it opens the sidebar selection, plays the
    /// selected track, or starts the queued sync.
    pub fn handle_enter_key(
        &mut self,
        cmd_tx: &mut Vec<BgCommand>,
        audio_tx: &mut Vec<AudioCommand>,
    )
        requires
            old(self).stems.state.can_let_go(),
            old(self).player.can_restart(),
        ensures
            final(self).enter_pressed(
                old(self),
                old(cmd_tx)@,
                final(cmd_tx)@,
                old(audio_tx)@,
                final(audio_tx)@,
            ),
            old(self).valid() ==> final(self).valid(),
    {
        match self.nav.active_panel {
            Panel::Library => {
                self.select_sidebar_item();
                let ghost mid = *self;
                proof {
                    assert(mid.item_listed(old(self)));
                }
                if self.has_album_browser() {
                    self.nav.active_panel = Panel::Albums;
                } else {
                    self.nav.active_panel = Panel::TrackList;
                }
            },
            Panel::Albums => {
                self.nav.active_panel = Panel::TrackList;
            },
            Panel::TrackList => {
                self.play_selected_track(audio_tx);
            },
            Panel::SyncQueue => {
                self.execute_sync(cmd_tx);
            },
            Panel::Device => {},
        }
    }

    /// What Esc does.
    pub open spec fn escape_pressed(&self, before: &App, sent: Seq<BgCommand>, sent_after: Seq<BgCommand>) -> bool {
        if before.sync.status is Running {
            &&& *self == (App {
                playlists: PlaylistUi {
                    pending_imports: self.playlists.pending_imports,
                    ..before.playlists
                },
                toast_message: None,
                ..*before
            })
            &&& self.playlists.pending_imports@.len() == 0
            &&& one_more(sent, sent_after)
            &&& sent_after.last() == BgCommand::CancelSync
        } else {
            *self == (App { toast_message: None, ..*before }) && sent_after == sent
        }
    }

    /// Esc cancels a running sync, with the playlists that were to follow it,
    /// and dismisses any message.
    pub fn handle_escape_key(&mut self, cmd_tx: &mut Vec<BgCommand>)
        ensures
            final(self).escape_pressed(old(self), old(cmd_tx)@, final(cmd_tx)@),
            old(self).valid() ==> final(self).valid(),
    {
        let running = match self.sync.status {
            SyncStatus::Running { .. } => true,
            _ => false,
        };
        if running {
            cmd_tx.push(BgCommand::CancelSync);
            proof {
                assert(cmd_tx@.drop_last() =~= old(cmd_tx)@);
            }
            self.playlists.pending_imports = Vec::new();
        }
        self.toast_message = None;
    }
}

// ---------------------------------------------------------------------------
// Dispatch
// ---------------------------------------------------------------------------
/// The key quits when nothing else claims it.
pub open spec fn is_quit(key: KeyEvent) -> bool {
    key.code == KeyCode::Char('q') || key.code == KeyCode::Char('c') && key.ctrl
}

/// What was sent to the worker and to the audio thread before and after a key.
pub struct Sent {
    pub bg: Seq<BgCommand>,
    pub audio: Seq<AudioCommand>,
}

impl App {
    /// What a character of the global key map does.
    pub open spec fn char_pressed(&self, before: &App, c: char, sent: Sent, after: Sent) -> bool {
        if is_view_char(c) {
            self.view_pressed(before, c) && after == sent
        } else if is_edit_char(c) {
            self.edit_pressed(before, c) && after == sent
        } else if is_worker_char(c) {
            self.worker_pressed(before, c, sent.bg, after.bg) && after.audio == sent.audio
        } else {
            self.player_pressed(before, c, sent.audio, after.audio) && after.bg == sent.bg
        }
    }

    /// The log was scrolled, and nothing else changed.
    pub open spec fn log_moved(&self, before: &App, up: bool) -> bool {
        &&& *self == (App { sync: self.sync, ..*before })
        &&& if up {
            self.sync.scrolled_up(&before.sync, 10)
        } else {
            self.sync.scrolled_down(&before.sync, 10)
        }
    }

    /// What the global key map does.
    pub open spec fn global_pressed(
        &self,
        before: &App,
        key: KeyEvent,
        sent: Sent,
        after: Sent,
        outcome: KeyOutcome,
    ) -> bool {
        if is_quit(key) {
            &&& *self == (App { should_quit: true, ..*before })
            &&& after == sent
            &&& outcome == KeyOutcome::Quit
        } else {
            &&& outcome == KeyOutcome::Continue
            &&& match key.code {
                KeyCode::Char(c) => self.char_pressed(before, c, sent, after),
                KeyCode::Enter => self.enter_pressed(
                    before,
                    sent.bg,
                    after.bg,
                    sent.audio,
                    after.audio,
                ),
                KeyCode::Esc => after.audio == sent.audio && self.escape_pressed(
                    before,
                    sent.bg,
                    after.bg,
                ),
                code => after == sent && self.moved(before, code),
            }
        }
    }

    /// What the keys that move about do.
    pub open spec fn moved(&self, before: &App, code: KeyCode) -> bool {
        let browses = before.lists.album_list@.len() > 0;
        match code {
            KeyCode::Tab => *self == App::in_panel(
                *before,
                panel_after(before.nav.active_panel, browses),
            ),
            KeyCode::BackTab => *self == App::in_panel(
                *before,
                panel_ahead(before.nav.active_panel, browses),
            ),
            KeyCode::Up => self.stepped_up(before),
            KeyCode::Down => self.stepped_down(before),
            KeyCode::PageUp => self.log_moved(before, true),
            KeyCode::PageDown => self.log_moved(before, false),
            KeyCode::Right => self.skipped(before, true),
            KeyCode::Left => self.skipped(before, false),
            _ => *self == *before,
        }
    }

    fn handle_move_key(&mut self, code: KeyCode)
        requires
            old(self).valid(),
        ensures
            final(self).moved(old(self), code),
            old(self).valid() ==> final(self).valid(),
    {
        match code {
            KeyCode::Tab => {
                self.cycle_panel();
            },
            KeyCode::BackTab => {
                self.cycle_panel_back();
            },
            KeyCode::Up => {
                self.move_up();
            },
            KeyCode::Down => {
                self.move_down();
            },
            KeyCode::PageUp => {
                self.sync.log_scroll_up(10);
            },
            KeyCode::PageDown => {
                self.sync.log_scroll_down(10);
            },
            KeyCode::Right => {
                self.skip_forward();
            },
            KeyCode::Left => {
                self.skip_back();
            },
            _ => {},
        }
        proof {
            if self.stepped_up(old(self)) || self.stepped_down(old(self)) || self.skipped(
                old(self),
                true,
            ) || self.skipped(old(self), false) {
                moving_keeps_valid(*old(self), *self);
            }
        }
    }

    fn handle_char_key(
        &mut self,
        c: char,
        cmd_tx: &mut Vec<BgCommand>,
        audio_tx: &mut Vec<AudioCommand>,
    )
        requires
            old(self).valid(),
            old(self).has_room(),
            old(self).player.can_restart(),
        ensures
            final(self).char_pressed(
                old(self),
                c,
                (Sent { bg: old(cmd_tx)@, audio: old(audio_tx)@ }),
                (Sent { bg: final(cmd_tx)@, audio: final(audio_tx)@ }),
            ),
            old(self).valid() ==> final(self).valid(),
    {
        if c == '?' || c == 'h' || c == '1' || c == '2' || c == '4' || c == 'o' || c == 't' || c == 'T'
            || c == 'I' || c == 'P' || c == 'v' || c == 'i' || c == '/' || c == 's' || c == 'L' || c
            == 'X' {
            self.handle_view_key(c);
        } else if c == 'N' || c == 'e' || c == '+' || c == 'G' || c == 'R' || c == 'M' || c == 'a' || c
            == 'A' || c == 'D' || c == 'C' {
            self.handle_edit_key(c);
        } else if c == 'm' || c == 'c' || c == 'd' || c == 'r' || c == 'S' || c == 'U' {
            self.handle_worker_key(c, cmd_tx);
        } else {
            self.handle_player_key(c, audio_tx);
        }
    }

    /// The global key map: everything that runs when no modal is open.
    pub fn handle_global_key(
        &mut self,
        key: KeyEvent,
        cmd_tx: &mut Vec<BgCommand>,
        audio_tx: &mut Vec<AudioCommand>,
    ) -> (outcome: KeyOutcome)
        requires
            old(self).valid(),
            old(self).has_room(),
            old(self).player.can_restart(),
        ensures
            final(self).global_pressed(
                old(self),
                key,
                (Sent { bg: old(cmd_tx)@, audio: old(audio_tx)@ }),
                (Sent { bg: final(cmd_tx)@, audio: final(audio_tx)@ }),
                outcome,
            ),
            old(self).valid() ==> final(self).valid(),
    {
        if key.code == KeyCode::Char('q') || key.code == KeyCode::Char('c') && key.ctrl {
            self.should_quit = true;
            return KeyOutcome::Quit;
        }
        match key.code {
            KeyCode::Char(c) => {
                self.handle_char_key(c, cmd_tx, audio_tx);
            },
            KeyCode::Enter => {
                self.handle_enter_key(cmd_tx, audio_tx);
            },
            KeyCode::Esc => {
                self.handle_escape_key(cmd_tx);
            },
            code => {
                self.handle_move_key(code);
            },
        }
        KeyOutcome::Continue
    }

    /// A modal below the import overlay is open, other than those that need the
    /// worker.
    pub open spec fn has_plain_modal(&self) -> bool {
        ||| self.playlists.name_input is Some
        ||| self.playlists.form is Some
        ||| self.playlists.picker is Some
        ||| self.playlists.pending_delete is Some
        ||| self.nav.search_active
        ||| self.themes.show_picker
        ||| self.stems.panel is Some
        ||| self.popup.pending_cache_clear
        ||| self.stems.state.consent is Some
        ||| self.stems.bulk_confirm is Some
    }

    /// What a key does to the first of those modals that is open.
    pub open spec fn plain_modal_pressed(&self, before: &App, code: KeyCode) -> bool {
        if before.playlists.name_input is Some {
            self.name_pressed(before, code)
        } else if before.playlists.form is Some {
            self.form_pressed(before, code)
        } else if before.playlists.picker is Some {
            self.picker_pressed(before, code)
        } else if before.playlists.pending_delete is Some {
            self.deletion_pressed(before, code)
        } else if before.nav.search_active {
            self.search_pressed(before, code)
        } else if before.themes.show_picker {
            self.theme_pressed(before, code)
        } else if before.stems.panel is Some {
            self.panel_pressed(before, code)
        } else if before.popup.pending_cache_clear {
            self.cache_pressed(before, code)
        } else if before.stems.state.consent is Some {
            self.consent_pressed(before, code)
        } else {
            self.bulk_pressed(before, code)
        }
    }

    fn handle_plain_modal_key(&mut self, key: KeyEvent) -> (r: bool)
        requires
            old(self).valid(),
            old(self).has_room(),
        ensures
            r == old(self).has_plain_modal(),
            r ==> final(self).plain_modal_pressed(old(self), key.code),
            !r ==> *final(self) == *old(self),
            old(self).valid() ==> final(self).valid(),
    {
        self.handle_playlist_name_input_key(key) || self.handle_generation_form_key(key)
            || self.handle_add_to_playlist_picker_key(key) || self.handle_playlist_delete_key(key)
            || self.handle_search_key(key) || self.handle_theme_picker_key(key)
            || self.handle_stem_panel_key(key) || self.handle_cache_clear_key(key)
            || self.handle_stem_consent_key(key) || self.handle_stem_bulk_confirm_key(key)
    }

    /// A modal is open.
    pub open spec fn has_modal(&self) -> bool {
        ||| self.has_plain_modal()
        ||| self.removal.pending_removal is Some
        ||| self.popup.show_help
        ||| self.tags.manager is Some
        ||| self.popup.show_track_info
    }

    /// What a key does to the first modal that is open.
    pub open spec fn modal_pressed(
        &self,
        before: &App,
        code: KeyCode,
        sent: Seq<BgCommand>,
        sent_after: Seq<BgCommand>,
    ) -> bool {
        if before.has_plain_modal() {
            self.plain_modal_pressed(before, code) && sent_after == sent
        } else if before.removal.pending_removal is Some {
            self.removal_pressed(before, code, sent, sent_after)
        } else if before.popup.show_help {
            self.help_pressed(before, code) && sent_after == sent
        } else if before.tags.manager is Some {
            self.manager_pressed(before, code, sent, sent_after)
        } else {
            self.info_pressed(before, code) && sent_after == sent
        }
    }

    fn handle_modal_key(&mut self, key: KeyEvent, cmd_tx: &mut Vec<BgCommand>) -> (r: bool)
        requires
            old(self).valid(),
            old(self).has_room(),
        ensures
            r == old(self).has_modal(),
            r ==> final(self).modal_pressed(old(self), key.code, old(cmd_tx)@, final(cmd_tx)@),
            !r ==> *final(self) == *old(self) && final(cmd_tx)@ == old(cmd_tx)@,
            old(self).valid() ==> final(self).valid(),
    {
        if self.handle_plain_modal_key(key) {
            return true;
        }
        if self.handle_removal_confirm_key(key, cmd_tx) {
            return true;
        }
        if self.handle_help_key(key) {
            return true;
        }
        if self.tags.manager.is_some() {
            self.handle_tag_manager_key(key, cmd_tx);
            return true;
        }
        self.handle_track_info_key(key)
    }

    /// What a key does.
    pub open spec fn key_handled(
        &self,
        before: &App,
        key: KeyEvent,
        sent: Sent,
        after: Sent,
        outcome: KeyOutcome,
    ) -> bool {
        if before.overlay_claims(key) {
            &&& self.overlay_pressed(before, key.code)
            &&& after == sent
            &&& outcome == KeyOutcome::Continue
        } else if before.has_modal() {
            &&& self.modal_pressed(before, key.code, sent.bg, after.bg)
            &&& after.audio == sent.audio
            &&& outcome == KeyOutcome::Continue
        } else if before.stem_of_key(key.code) is Some {
            &&& self.stem_switched(before, before.stem_of_key(key.code)->0)
            &&& after == sent
            &&& outcome == KeyOutcome::Continue
        } else {
            self.global_pressed(before, key, sent, after, outcome)
        }
    }

    /// Single-source-of-truth keyboard dispatcher. The import overlay comes
    /// first, and lets Ctrl-C through; then the other modals in order, the
    /// digits of the stem strip, and the global key map. Returns
    /// `KeyOutcome::Quit` for `q` and Ctrl-C, so that the run loop can break.
    pub fn handle_key(
        &mut self,
        key: KeyEvent,
        cmd_tx: &mut Vec<BgCommand>,
        audio_tx: &mut Vec<AudioCommand>,
    ) -> (outcome: KeyOutcome)
        requires
            old(self).valid(),
            old(self).has_room(),
            old(self).player.can_restart(),
        ensures
            final(self).key_handled(
                old(self),
                key,
                (Sent { bg: old(cmd_tx)@, audio: old(audio_tx)@ }),
                (Sent { bg: final(cmd_tx)@, audio: final(audio_tx)@ }),
                outcome,
            ),
            old(self).valid() ==> final(self).valid(),
    {
        if self.import.overlay.is_some() {
            if self.handle_import_overlay_key(key) {
                return KeyOutcome::Continue;
            }
        }
        if self.handle_modal_key(key, cmd_tx) {
            return KeyOutcome::Continue;
        }
        if self.handle_stem_key(key) {
            return KeyOutcome::Continue;
        }
        self.handle_global_key(key, cmd_tx, audio_tx)
    }
}

impl App {
    /// The track-info popup stands over the track list only, and not over a
    /// search.
    pub open spec fn info_in_place(&self) -> bool {
        self.popup.show_track_info ==> self.nav.active_panel == Panel::TrackList
            && !self.nav.search_active
    }

    /// The key did not quit, did not open the track-info popup, and moved to
    /// another panel only if it closed it.
    pub open spec fn in_place_since(&self, before: &App) -> bool {
        &&& self.should_quit == before.should_quit
        &&& self.popup.show_track_info ==> {
            &&& before.popup.show_track_info
            &&& self.nav.active_panel == before.nav.active_panel
            &&& self.nav.search_active == before.nav.search_active
        }
    }
}

proof fn name_key_keeps_place(before: App, after: App, code: KeyCode)
    requires
        after.name_pressed(&before, code),
    ensures
        after.in_place_since(&before),
{
}

proof fn form_key_keeps_place(before: App, after: App, code: KeyCode)
    requires
        after.form_pressed(&before, code),
    ensures
        after.in_place_since(&before),
{
}

proof fn picker_key_keeps_place(before: App, after: App, code: KeyCode)
    requires
        after.picker_pressed(&before, code),
    ensures
        after.in_place_since(&before),
{
}

proof fn deletion_key_keeps_place(before: App, after: App, code: KeyCode)
    requires
        after.deletion_pressed(&before, code),
    ensures
        after.in_place_since(&before),
{
}

proof fn theme_key_keeps_place(before: App, after: App, code: KeyCode)
    requires
        after.theme_pressed(&before, code),
    ensures
        after.in_place_since(&before),
{
}

proof fn panel_key_keeps_place(before: App, after: App, code: KeyCode)
    requires
        after.panel_pressed(&before, code),
    ensures
        after.in_place_since(&before),
{
}

proof fn cache_key_keeps_place(before: App, after: App, code: KeyCode)
    requires
        after.cache_pressed(&before, code),
    ensures
        after.in_place_since(&before),
{
}

proof fn consent_key_keeps_place(before: App, after: App, code: KeyCode)
    requires
        after.consent_pressed(&before, code),
    ensures
        after.in_place_since(&before),
{
}

proof fn bulk_key_keeps_place(before: App, after: App, code: KeyCode)
    requires
        after.bulk_pressed(&before, code),
    ensures
        after.in_place_since(&before),
{
}

proof fn overlay_key_keeps_place(before: App, after: App, code: KeyCode)
    requires
        after.overlay_pressed(&before, code),
    ensures
        after.in_place_since(&before),
{
}

proof fn help_key_keeps_place(before: App, after: App, code: KeyCode)
    requires
        after.help_pressed(&before, code),
    ensures
        after.in_place_since(&before),
{
}

proof fn info_key_keeps_place(before: App, after: App, code: KeyCode)
    requires
        after.info_pressed(&before, code),
    ensures
        after.in_place_since(&before),
{
}

proof fn search_key_keeps_place(before: App, after: App, code: KeyCode)
    requires
        after.search_pressed(&before, code),
    ensures
        after.should_quit == before.should_quit,
        before.popup.show_track_info || after.in_place_since(&before),
{
}

proof fn plain_modal_keeps_place(before: App, after: App, code: KeyCode)
    requires
        after.plain_modal_pressed(&before, code),
        before.has_plain_modal(),
    ensures
        after.should_quit == before.should_quit,
        before.info_in_place() ==> after.in_place_since(&before),
{
    if before.playlists.name_input is Some {
        name_key_keeps_place(before, after, code);
    } else if before.playlists.form is Some {
        form_key_keeps_place(before, after, code);
    } else if before.playlists.picker is Some {
        picker_key_keeps_place(before, after, code);
    } else if before.playlists.pending_delete is Some {
        deletion_key_keeps_place(before, after, code);
    } else if before.nav.search_active {
        search_key_keeps_place(before, after, code);
    } else if before.themes.show_picker {
        theme_key_keeps_place(before, after, code);
    } else if before.stems.panel is Some {
        panel_key_keeps_place(before, after, code);
    } else if before.popup.pending_cache_clear {
        cache_key_keeps_place(before, after, code);
    } else if before.stems.state.consent is Some {
        consent_key_keeps_place(before, after, code);
    } else {
        bulk_key_keeps_place(before, after, code);
    }
}

proof fn manager_key_keeps_place(
    before: App,
    after: App,
    code: KeyCode,
    sent: Seq<BgCommand>,
    sent_after: Seq<BgCommand>,
)
    requires
        after.manager_pressed(&before, code, sent, sent_after),
    ensures
        after.in_place_since(&before),
{
}

proof fn view_key_keeps_place(before: App, after: App, c: char)
    requires
        after.view_pressed(&before, c),
        !before.popup.show_track_info,
        !before.nav.search_active,
    ensures
        after.should_quit == before.should_quit,
        after.info_in_place(),
{
}

proof fn edit_key_keeps_place(before: App, after: App, c: char)
    requires
        after.edit_pressed(&before, c),
        !before.popup.show_track_info,
    ensures
        after.in_place_since(&before),
{
}

proof fn worker_key_keeps_place(
    before: App,
    after: App,
    c: char,
    sent: Seq<BgCommand>,
    sent_after: Seq<BgCommand>,
)
    requires
        after.worker_pressed(&before, c, sent, sent_after),
        !before.popup.show_track_info,
    ensures
        after.in_place_since(&before),
{
}

proof fn player_key_keeps_place(
    before: App,
    after: App,
    c: char,
    audio: Seq<AudioCommand>,
    audio_after: Seq<AudioCommand>,
)
    requires
        after.player_pressed(&before, c, audio, audio_after),
        !before.popup.show_track_info,
    ensures
        after.in_place_since(&before),
{
}

proof fn enter_key_keeps_place(before: App, after: App, sent: Sent, sent_after: Sent)
    requires
        after.enter_pressed(&before, sent.bg, sent_after.bg, sent.audio, sent_after.audio),
        !before.popup.show_track_info,
    ensures
        after.in_place_since(&before),
{
}

proof fn move_key_keeps_place(before: App, after: App, code: KeyCode)
    requires
        after.moved(&before, code),
        !before.popup.show_track_info,
    ensures
        after.in_place_since(&before),
{
}

proof fn global_key_keeps_place(
    before: App,
    after: App,
    key: KeyEvent,
    sent: Sent,
    sent_after: Sent,
    outcome: KeyOutcome,
)
    requires
        after.global_pressed(&before, key, sent, sent_after, outcome),
        !is_quit(key),
        !before.has_modal(),
    ensures
        after.should_quit == before.should_quit,
        after.info_in_place(),
{
    match key.code {
        KeyCode::Char(c) => {
            if is_view_char(c) {
                view_key_keeps_place(before, after, c);
            } else if is_edit_char(c) {
                edit_key_keeps_place(before, after, c);
            } else if is_worker_char(c) {
                worker_key_keeps_place(before, after, c, sent.bg, sent_after.bg);
            } else {
                player_key_keeps_place(before, after, c, sent.audio, sent_after.audio);
            }
        },
        KeyCode::Enter => {
            enter_key_keeps_place(before, after, sent, sent_after);
        },
        KeyCode::Esc => {},
        code => {
            move_key_keeps_place(before, after, code);
        },
    }
}

/// An open modal claims every key: the program is not quit, and nothing goes to
/// the audio thread.
pub proof fn modals_claim_every_key(
    before: App,
    after: App,
    key: KeyEvent,
    sent: Sent,
    sent_after: Sent,
    outcome: KeyOutcome,
)
    requires
        after.key_handled(&before, key, sent, sent_after, outcome),
        before.overlay_claims(key) || before.has_modal(),
    ensures
        outcome == KeyOutcome::Continue,
        after.should_quit == before.should_quit,
        sent_after.audio == sent.audio,
{
    let code = key.code;
    if before.overlay_claims(key) {
        overlay_key_keeps_place(before, after, code);
    } else if before.has_plain_modal() {
        plain_modal_keeps_place(before, after, code);
    } else if before.removal.pending_removal is None && !before.popup.show_help
        && before.tags.manager is Some {
        manager_key_keeps_place(before, after, code, sent.bg, sent_after.bg);
    }
}

/// `q` and Ctrl-C quit, and no other key does; each only while no modal claims
/// it.
pub proof fn only_quit_keys_quit(
    before: App,
    after: App,
    key: KeyEvent,
    sent: Sent,
    sent_after: Sent,
    outcome: KeyOutcome,
)
    requires
        after.key_handled(&before, key, sent, sent_after, outcome),
    ensures
        outcome == KeyOutcome::Quit <==> is_quit(key) && !before.overlay_claims(key)
            && !before.has_modal(),
        outcome == KeyOutcome::Quit ==> after.should_quit && sent_after == sent,
        outcome == KeyOutcome::Continue ==> after.should_quit == before.should_quit,
{
    if before.overlay_claims(key) || before.has_modal() {
        modals_claim_every_key(before, after, key, sent, sent_after, outcome);
    } else if before.stem_of_key(key.code) is None && !is_quit(key) {
        global_key_keeps_place(before, after, key, sent, sent_after, outcome);
    }
}

/// The track-info popup stands over the track list only, whatever key is
/// pressed: a key that leaves the list closes it, and no other list opens it.
pub proof fn info_stays_on_the_track_list(
    before: App,
    after: App,
    key: KeyEvent,
    sent: Sent,
    sent_after: Sent,
    outcome: KeyOutcome,
)
    requires
        after.key_handled(&before, key, sent, sent_after, outcome),
        before.info_in_place(),
    ensures
        after.info_in_place(),
{
    let code = key.code;
    if before.overlay_claims(key) {
        overlay_key_keeps_place(before, after, code);
    } else if before.has_plain_modal() {
        plain_modal_keeps_place(before, after, code);
    } else if before.removal.pending_removal is Some {
    } else if before.popup.show_help {
        help_key_keeps_place(before, after, code);
    } else if before.tags.manager is Some {
        manager_key_keeps_place(before, after, code, sent.bg, sent_after.bg);
    } else if before.popup.show_track_info {
        info_key_keeps_place(before, after, code);
    } else if before.stem_of_key(code) is None && !is_quit(key) {
        global_key_keeps_place(before, after, key, sent, sent_after, outcome);
    }
}

/// The import overlay lets Ctrl-C through, so that there is always a way out of
/// it.
pub proof fn import_overlay_can_be_quit(before: App, after: App, sent: Sent, sent_after: Sent, outcome: KeyOutcome)
    requires
        !before.has_modal(),
        after.key_handled(
            &before,
            (KeyEvent { code: KeyCode::Char('c'), ctrl: true }),
            sent,
            sent_after,
            outcome,
        ),
    ensures
        outcome == KeyOutcome::Quit,
{
}

} // verus!
