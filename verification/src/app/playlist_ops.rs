//! Playlists: naming, deleting and filling them.
use vstd::prelude::*;
use crate::app::{App, NavState, PlaylistUi};
use crate::commands::HostRequest;
use crate::format::{concat3, concat5};
use crate::library::{first_index, first_index_facts, first_index_is, first_index_none};
use crate::playlists::{playlist_index, AddToPlaylistPicker, Playlist, PlaylistStore};
use crate::text::{trim, trimmed};
use crate::types::SidebarEntry;

verus! {

/// The entry of a playlist.
pub open spec fn is_entry_of(e: SidebarEntry, playlist: u64) -> bool {
    e matches SidebarEntry::Playlist { id, .. } && id == playlist
}

/// Where the sidebar lists a playlist.
pub open spec fn entry_of(items: Seq<SidebarEntry>, playlist: u64) -> Option<nat> {
    first_index(items, |e: SidebarEntry| is_entry_of(e, playlist))
}

/// The text between quotes after a verb.
pub open spec fn quoted(verb: Seq<char>, name: Seq<char>) -> Seq<char> {
    verb + " \""@ + name + "\""@
}

pub(crate) fn quote(verb: &str, name: &str) -> (r: String)
    ensures
        r@ == quoted(verb@, name@),
{
    let mut s = verb.to_owned();
    s.append(" \"");
    s.append(name);
    s.append("\"");
    s
}

impl App {
    /// Puts the sidebar selection on a playlist, where it is listed.
    fn select_playlist(&mut self, id: u64)
        ensures
            *final(self) == App::on_playlist(*old(self), id),
    {
        let ghost p = |e: SidebarEntry| is_entry_of(e, id);
        let ghost items = self.nav.sidebar_items@;
        let mut i: usize = 0;
        while i < self.nav.sidebar_items.len()
            invariant
                i <= self.nav.sidebar_items.len(),
                items == self.nav.sidebar_items@,
                p == |e: SidebarEntry| is_entry_of(e, id),
                *self == *old(self),
                forall|k: int| 0 <= k < i ==> !p(#[trigger] items[k]),
            decreases self.nav.sidebar_items.len() - i,
        {
            let here = match &self.nav.sidebar_items[i] {
                SidebarEntry::Playlist { id: other, .. } => *other == id,
                _ => false,
            };
            if here {
                proof {
                    assert(p(items[i as int]));
                    first_index_is(items, p, i as int);
                }
                self.nav.sidebar_selected = i;
                return;
            }
            i = i + 1;
        }
        proof {
            first_index_none(items, p);
        }
    }

    /// The selection on a playlist, where it is listed.
    pub open spec fn on_playlist(before: App, id: u64) -> App {
        match entry_of(before.nav.sidebar_items@, id) {
            Some(i) => App {
                nav: NavState { sidebar_selected: i as usize, ..before.nav },
                ..before
            },
            None => before,
        }
    }

    /// The playlists were changed, which the host is asked to write.
    pub open spec fn store_put(&self, before: &App, store: PlaylistStore) -> bool {
        &&& *self == (App {
            playlists: PlaylistUi { store, ..before.playlists },
            out: self.out,
            ..*before
        })
        &&& self.out.asks(&before.out, HostRequest::SavePlaylists)
    }

    /// A playlist was added, the sidebar made anew, and the selection put on it.
    pub open spec fn playlist_added(&self, before: &App, p: Playlist, msg: Seq<char>) -> bool {
        exists|mid: App, shown: App|
            mid.playlists.store.next_id == before.playlists.store.next_id + 1
                && mid.playlists.store.playlists@ == before.playlists.store.playlists@.push(
                Playlist { id: before.playlists.store.next_id, ..p },
            ) && #[trigger] mid.store_put(before, mid.playlists.store) && #[trigger] shown.resided(&mid)
                && *self == (App {
                toast_message: self.toast_message,
                ..App::on_playlist(shown, before.playlists.store.next_id)
            }) && self.says(msg, false)
    }

    pub(crate) fn add_playlist(&mut self, p: Playlist, msg: String)
        requires
            old(self).playlists.store.next_id < u64::MAX,
        ensures
            final(self).playlist_added(old(self), p, msg@),
            old(self).valid() ==> final(self).valid(),
    {
        let id = self.playlists.store.add(p);
        self.persist_playlists();
        let ghost mid = *self;
        self.refresh_sidebar();
        let ghost shown = *self;
        self.select_playlist(id);
        self.set_toast(msg, false);
        proof {
            assert(mid.store_put(old(self), mid.playlists.store));
            assert(shown.resided(&mid));
            first_index_facts(shown.nav.sidebar_items@, |e: SidebarEntry| is_entry_of(e, id));
        }
    }

    /// The name input closed.
    pub open spec fn input_closed(before: App) -> App {
        App {
            playlists: PlaylistUi { name_input: None, rename_target: None, ..before.playlists },
            ..before
        }
    }

    /// A playlist was given another name, and the sidebar made anew.
    pub open spec fn playlist_renamed(&self, before: &App, i: int, name: Seq<char>) -> bool {
        exists|mid: App, shown: App|
            {
                let was = before.playlists.store.playlists@[i];
                let now = mid.playlists.store.playlists@[i];
                &&& mid.playlists.store.next_id == before.playlists.store.next_id
                &&& mid.playlists.store.playlists@ == before.playlists.store.playlists@.update(
                    i,
                    Playlist { name: now.name, updated_at_ms: before.host.unix_ms, ..was },
                )
                &&& now.name@ == name
                &&& #[trigger] mid.store_put(before, mid.playlists.store)
                &&& #[trigger] shown.resided(&mid)
                &&& *self == (App { toast_message: self.toast_message, ..shown })
                &&& self.says(quoted("Renamed to"@, name), false)
            }
    }

    /// What committing the name input does.
    pub open spec fn name_committed(&self, before: &App) -> bool {
        match before.playlists.name_input {
            None => *self == *before,
            Some(raw) => {
                let name = trimmed(raw@);
                let closed = App::input_closed(*before);
                if name.len() == 0 {
                    &&& *self == (App { toast_message: self.toast_message, ..closed })
                    &&& self.says("Playlist name cannot be empty"@, true)
                } else {
                    match before.playlists.rename_target {
                        Some(id) => match playlist_index(before.playlists.store.playlists@, id) {
                            Some(i) => self.playlist_renamed(&closed, i as int, name),
                            None => {
                                &&& *self == (App { toast_message: self.toast_message, ..closed })
                                &&& self.says("Rename failed: playlist not found"@, true)
                            },
                        },
                        None => exists|p: Playlist|
                            p.name@ == name && p.kind is Manual && p.track_ids@.len() == 0
                                && p.previously_recommended@.len() == 0 && p.updated_at_ms
                                == before.host.unix_ms && #[trigger] self.playlist_added(
                                &closed,
                                p,
                                quoted("Created"@, name),
                            ),
                    }
                }
            },
        }
    }

    /// Commit the in-progress playlist name input: create, or rename. A blank
    /// name cancels the modal with an error message.
    pub fn commit_playlist_name_input(&mut self)
        requires
            old(self).playlists.store.next_id < u64::MAX,
        ensures
            final(self).name_committed(old(self)),
            old(self).valid() ==> final(self).valid(),
    {
        let taken = self.playlists.name_input.take();
        let raw = match taken {
            Some(s) => s,
            None => {
                return;
            },
        };
        let name = trim(raw.as_str());
        let target = self.playlists.rename_target.take();
        if name.as_str().is_empty() {
            self.set_toast("Playlist name cannot be empty".to_owned(), true);
            return;
        }
        let ghost closed = *self;
        proof {
            assert(closed == App::input_closed(*old(self)));
        }
        let now: u64 = self.host.unix_ms;
        match target {
            Some(id) => {
                if self.playlists.store.rename(id, name.as_str(), now) {
                    self.persist_playlists();
                    let ghost mid = *self;
                    self.refresh_sidebar();
                    let ghost shown = *self;
                    let msg = quote("Renamed to", name.as_str());
                    self.set_toast(msg, false);
                    proof {
                        assert(mid.store_put(&closed, mid.playlists.store));
                        assert(shown.resided(&mid));
                    }
                } else {
                    self.set_toast("Rename failed: playlist not found".to_owned(), true);
                }
            },
            None => {
                let msg = quote("Created", name.as_str());
                let p = Playlist::new_manual(name, now);
                self.add_playlist(p, msg);
                proof {
                    assert(self.playlist_added(&closed, p, msg@));
                }
            },
        }
    }

    /// A playlist was deleted; the selection stays near where it was.
    pub open spec fn playlist_deleted(&self, before: &App, id: u64) -> bool {
        match playlist_index(before.playlists.store.playlists@, id) {
            None => *self == *before,
            Some(i) => exists|mid: App, shown: App|
                {
                    let n = shown.nav.sidebar_items@.len();
                    &&& mid.playlists.store.next_id == before.playlists.store.next_id
                    &&& mid.playlists.store.playlists@ == before.playlists.store.playlists@.remove(
                        i as int,
                    )
                    &&& #[trigger] mid.store_put(before, mid.playlists.store)
                    &&& #[trigger] shown.resided(&mid)
                    &&& *self == (App {
                        nav: NavState {
                            sidebar_selected: if n == 0 {
                                shown.nav.sidebar_selected
                            } else if before.nav.sidebar_selected < n {
                                before.nav.sidebar_selected
                            } else {
                                (n - 1) as usize
                            },
                            ..shown.nav
                        },
                        toast_message: self.toast_message,
                        ..shown
                    })
                    &&& self.says(
                        quoted("Deleted"@, before.playlists.store.playlists@[i as int].name@),
                        false,
                    )
                },
        }
    }

    /// Apply a confirmed playlist deletion.
    pub fn commit_playlist_delete(&mut self, id: u64)
        ensures
            final(self).playlist_deleted(old(self), id),
            old(self).valid() ==> final(self).valid(),
    {
        let msg: String = match self.playlists.store.get(id) {
            Some(p) => quote("Deleted", p.name.as_str()),
            None => {
                return;
            },
        };
        let _ = self.playlists.store.remove(id);
        self.persist_playlists();
        let prior: usize = self.nav.sidebar_selected;
        let ghost mid = *self;
        self.refresh_sidebar();
        let ghost shown = *self;
        let n = self.nav.sidebar_items.len();
        if n > 0 {
            self.nav.sidebar_selected = if prior < n {
                prior
            } else {
                n - 1
            };
        }
        self.set_toast(msg, false);
        proof {
            assert(mid.store_put(old(self), mid.playlists.store));
            assert(shown.resided(&mid));
        }
    }

    /// The playlist under the sidebar selection.
    pub open spec fn selected_playlist(&self) -> Option<u64> {
        if self.nav.sidebar_selected < self.nav.sidebar_items@.len() {
            match self.nav.sidebar_items@[self.nav.sidebar_selected as int] {
                SidebarEntry::Playlist { id, .. } => Some(id),
                _ => None,
            }
        } else {
            None
        }
    }

    pub(crate) fn selected_playlist_id(&self) -> (r: Option<u64>)
        ensures
            r == self.selected_playlist(),
    {
        if self.nav.sidebar_selected < self.nav.sidebar_items.len() {
            match &self.nav.sidebar_items[self.nav.sidebar_selected] {
                SidebarEntry::Playlist { id, .. } => Some(*id),
                _ => None,
            }
        } else {
            None
        }
    }

    /// The library track under the selection, and its name.
    pub open spec fn selected_track_id(&self) -> Option<u64> {
        if self.lists.track_selected < self.lists.track_list@.len() {
            self.lists.track_list@[self.lists.track_selected as int].library_id
        } else {
            None
        }
    }

    /// The selected playlist has the selected track.
    pub open spec fn can_drop_track(&self) -> bool {
        match (self.selected_playlist(), self.selected_track_id()) {
            (Some(p), Some(t)) => match playlist_index(self.playlists.store.playlists@, p) {
                Some(i) => self.playlists.store.playlists@[i as int].track_ids@.contains(t),
                None => false,
            },
            _ => false,
        }
    }

    /// The selected track was taken out of the selected playlist, which was
    /// listed again.
    pub open spec fn track_dropped(&self, before: &App) -> bool {
        if before.can_drop_track() {
            let p = before.selected_playlist()->0;
            let t = before.selected_track_id()->0;
            let i = playlist_index(before.playlists.store.playlists@, p)->0 as int;
            let name = before.lists.track_list@[before.lists.track_selected as int].name@;
            exists|mid: App, listed: App|
                {
                    let was = before.playlists.store.playlists@[i];
                    let now = mid.playlists.store.playlists@[i];
                    let n = listed.lists.track_list@.len();
                    &&& mid.playlists.store.next_id == before.playlists.store.next_id
                    &&& mid.playlists.store.playlists@ == before.playlists.store.playlists@.update(
                        i,
                        Playlist {
                            track_ids: now.track_ids,
                            updated_at_ms: before.host.unix_ms,
                            ..was
                        },
                    )
                    &&& now.track_ids@ == crate::playlists::without_id(was.track_ids@, t)
                    &&& #[trigger] mid.store_put(before, mid.playlists.store)
                    &&& #[trigger] listed.item_listed(&mid)
                    &&& *self == (App {
                        lists: crate::app::ListState {
                            track_selected: if n > 0 && listed.lists.track_selected >= n {
                                (n - 1) as usize
                            } else {
                                listed.lists.track_selected
                            },
                            ..listed.lists
                        },
                        toast_message: self.toast_message,
                        ..listed
                    })
                    &&& self.says("Removed \""@ + name + "\" from playlist"@, false)
                }
        } else {
            *self == *before
        }
    }

    /// Drop the selected track from the currently-viewed playlist.
    pub fn remove_selected_track_from_playlist(&mut self)
        ensures
            final(self).track_dropped(old(self)),
            old(self).valid() ==> final(self).valid(),
    {
        let playlist_id: u64 = match self.selected_playlist_id() {
            Some(id) => id,
            None => {
                return;
            },
        };
        if self.lists.track_selected >= self.lists.track_list.len() {
            return;
        }
        let track_id: u64 = match self.lists.track_list[self.lists.track_selected].library_id {
            Some(id) => id,
            None => {
                return;
            },
        };
        let msg = concat3(
            "Removed \"",
            self.lists.track_list[self.lists.track_selected].name.as_str(),
            "\" from playlist",
        );
        let now: u64 = self.host.unix_ms;
        let ghost before = *self;
        if self.playlists.store.remove_track(playlist_id, track_id, now) {
            self.persist_playlists();
            let ghost mid = *self;
            self.select_sidebar_item();
            let ghost listed = *self;
            let n = self.lists.track_list.len();
            if n > 0 && self.lists.track_selected >= n {
                self.lists.track_selected = n - 1;
            }
            self.set_toast(msg, false);
            proof {
                assert(mid.store_put(&before, mid.playlists.store));
                assert(listed.item_listed(&mid));
            }
        }
    }

    /// What the picker lists: id and name of every playlist.
    pub open spec fn picker_options(store: PlaylistStore) -> Seq<(u64, String)> {
        store.playlists@.map_values(|p: Playlist| (p.id, p.name))
    }

    /// What opening the picker does.
    pub open spec fn picker_opened(&self, before: &App) -> bool {
        if before.lists.track_selected >= before.lists.track_list@.len() {
            *self == *before
        } else {
            let t = before.lists.track_list@[before.lists.track_selected as int];
            match t.library_id {
                None => {
                    &&& *self == (App { toast_message: self.toast_message, ..*before })
                    &&& self.says("Track has no library ID"@, true)
                },
                Some(id) => if before.playlists.store.playlists@.len() == 0 {
                    &&& *self == (App { toast_message: self.toast_message, ..*before })
                    &&& self.says(
                        "No playlists yet \u{2014} switch to Playlists (v) and press N"@,
                        true,
                    )
                } else {
                    &&& *self == (App {
                        playlists: PlaylistUi {
                            picker: self.playlists.picker,
                            ..before.playlists
                        },
                        ..*before
                    })
                    &&& self.playlists.picker matches Some(p) && p.track_id == id
                        && p.track_label@ == t.artist@ + " \u{2014} "@ + t.name@ && p.options@
                        == App::picker_options(before.playlists.store) && p.selected == 0
                },
            }
        }
    }

    /// Open the "add this track to a playlist" picker on the playlists as they
    /// are now.
    pub fn open_add_to_playlist_picker(&mut self)
        ensures
            final(self).picker_opened(old(self)),
            old(self).valid() ==> final(self).valid(),
    {
        if self.lists.track_selected >= self.lists.track_list.len() {
            return;
        }
        let t = &self.lists.track_list[self.lists.track_selected];
        let track_id: u64 = match t.library_id {
            Some(id) => id,
            None => {
                self.set_toast("Track has no library ID".to_owned(), true);
                return;
            },
        };
        let track_label = concat3(t.artist.as_str(), " \u{2014} ", t.name.as_str());
        if self.playlists.store.is_empty() {
            self.set_toast(
                "No playlists yet \u{2014} switch to Playlists (v) and press N".to_owned(),
                true,
            );
            return;
        }
        let mut options: Vec<(u64, String)> = Vec::new();
        let ghost all = App::picker_options(self.playlists.store);
        let n = self.playlists.store.playlists.len();
        let mut i: usize = 0;
        while i < n
            invariant
                i <= n,
                n == self.playlists.store.playlists@.len(),
                all == App::picker_options(self.playlists.store),
                options@ == all.take(i as int),
            decreases n - i,
        {
            let p = &self.playlists.store.playlists[i];
            options.push((p.id, p.name.clone()));
            proof {
                assert(options@ =~= all.take(i + 1));
            }
            i = i + 1;
        }
        proof {
            assert(all.take(n as int) =~= all);
        }
        self.playlists.picker = Some(
            AddToPlaylistPicker { track_id, track_label, options, selected: 0 },
        );
    }

    /// The picker closed.
    pub open spec fn picker_closed(before: App) -> App {
        App { playlists: PlaylistUi { picker: None, ..before.playlists }, ..before }
    }

    /// The chosen playlist takes the track.
    pub open spec fn takes_track(&self, playlist: u64, track: u64) -> bool {
        match playlist_index(self.playlists.store.playlists@, playlist) {
            Some(i) => !self.playlists.store.playlists@[i as int].track_ids@.contains(track),
            None => false,
        }
    }

    /// What confirming the picker does: the track goes to the end of the chosen
    /// playlist, once.
    pub open spec fn picker_confirmed(&self, before: &App) -> bool {
        match before.playlists.picker {
            None => *self == *before,
            Some(p) => {
                let closed = App::picker_closed(*before);
                if p.selected >= p.options@.len() {
                    *self == closed
                } else {
                    let (id, name) = p.options@[p.selected as int];
                    if before.takes_track(id, p.track_id) {
                        let i = playlist_index(before.playlists.store.playlists@, id)->0 as int;
                        exists|mid: App|
                            {
                                let was = before.playlists.store.playlists@[i];
                                let now = mid.playlists.store.playlists@[i];
                                &&& mid.playlists.store.next_id == before.playlists.store.next_id
                                &&& mid.playlists.store.playlists@
                                    == before.playlists.store.playlists@.update(
                                    i,
                                    Playlist {
                                        track_ids: now.track_ids,
                                        updated_at_ms: before.host.unix_ms,
                                        ..was
                                    },
                                )
                                &&& now.track_ids@ == was.track_ids@.push(p.track_id)
                                &&& #[trigger] mid.store_put(&closed, mid.playlists.store)
                                &&& *self == (App { toast_message: self.toast_message, ..mid })
                                &&& self.says(
                                    "Added \""@ + p.track_label@ + "\" to \""@ + name@ + "\""@,
                                    false,
                                )
                            }
                    } else {
                        &&& *self == (App { toast_message: self.toast_message, ..closed })
                        &&& self.says(
                            "\""@ + p.track_label@ + "\" already in \""@ + name@ + "\""@,
                            false,
                        )
                    }
                }
            },
        }
    }

    /// Apply the picker's selection, adding the track to the chosen playlist.
    pub fn confirm_add_to_playlist(&mut self)
        ensures
            final(self).picker_confirmed(old(self)),
            old(self).valid() ==> final(self).valid(),
    {
        let taken = self.playlists.picker.take();
        let p = match taken {
            Some(p) => p,
            None => {
                return;
            },
        };
        if p.selected >= p.options.len() {
            return;
        }
        let ghost closed = *self;
        proof {
            assert(closed == App::picker_closed(*old(self)));
        }
        let id: u64 = p.options[p.selected].0;
        let name = p.options[p.selected].1.as_str();
        let now: u64 = self.host.unix_ms;
        if self.playlists.store.add_track(id, p.track_id, now) {
            self.persist_playlists();
            let ghost mid = *self;
            let msg = concat5("Added \"", p.track_label.as_str(), "\" to \"", name, "\"");
            self.set_toast(msg, false);
            proof {
                assert(mid.store_put(&closed, mid.playlists.store));
            }
        } else {
            let msg = concat5("\"", p.track_label.as_str(), "\" already in \"", name, "\"");
            self.set_toast(msg, false);
        }
    }
}

} // verus!
