//! The device index as the lists show it, and what is to be removed from the
//! device.
use vstd::prelude::*;
use crate::app::{App, ListState, NavState};
use crate::copies::{target_of, targets, targets_of};
use crate::device::{empty_index, index_add_all, is_on_device, list_at, track_rows, DeviceState};
use crate::format::texts;
use crate::library::Library;
use crate::model::{DeviceEntry, Track};
use crate::ordmap::{MapKey, OrdMap};
use crate::text::{match_key, str_eq};
use crate::tracks::TrackInfo;
use crate::types::{
    presence, presence_from_counts, BrowseMode, DevicePresence, DeviceStatus, DeviceTrackInfo,
    DeviceTrackRow, Panel, SidebarEntry,
};

verus! {

/// How many marks the key has.
pub open spec fn mark_total<V>(marks: Seq<(V, bool)>, k: V) -> nat
    decreases marks.len(),
{
    if marks.len() == 0 {
        0
    } else {
        mark_total(marks.drop_last(), k) + if marks.last().0 == k {
            1nat
        } else {
            0
        }
    }
}

/// How many marks of the key are set.
pub open spec fn mark_on<V>(marks: Seq<(V, bool)>, k: V) -> nat
    decreases marks.len(),
{
    if marks.len() == 0 {
        0
    } else {
        mark_on(marks.drop_last(), k) + if marks.last().0 == k && marks.last().1 {
            1nat
        } else {
            0
        }
    }
}

proof fn mark_bounds<V>(marks: Seq<(V, bool)>, k: V)
    ensures
        mark_on(marks, k) <= mark_total(marks, k) <= marks.len(),
    decreases marks.len(),
{
    if marks.len() > 0 {
        mark_bounds(marks.drop_last(), k);
    }
}

/// Whether everything under a key is on the device, or some, or (no entry)
/// nothing.
pub open spec fn is_presence<V>(m: Map<V, DevicePresence>, marks: Seq<(V, bool)>) -> bool {
    forall|k: V|
        {
            let p = presence(mark_on(marks, k), mark_total(marks, k));
            &&& #[trigger] m.contains_key(k) <==> p != DevicePresence::Absent
            &&& m.contains_key(k) ==> m[k] == p
        }
}

/// The library track is on the device.
pub open spec fn is_synced(t: Track, device: DeviceState) -> bool {
    device.holds(match_key(t.artist@), match_key(t.name@))
}

/// The artists of the tracks, marked where the track is on the device.
pub open spec fn artist_marks(tracks: Seq<Track>, device: DeviceState) -> Seq<(Seq<char>, bool)> {
    tracks.map_values(|t: Track| (t.artist@, is_synced(t, device)))
}

/// The albums of the tracks, marked where the track is on the device.
pub open spec fn album_marks(tracks: Seq<Track>, device: DeviceState) -> Seq<
    ((Seq<char>, Seq<char>), bool),
> {
    tracks.map_values(|t: Track| ((t.artist@, t.album@), is_synced(t, device)))
}

/// The counts are those of the marks.
pub open spec fn are_counts<V>(m: Map<V, (usize, usize)>, marks: Seq<(V, bool)>) -> bool {
    forall|k: V|
        {
            &&& #[trigger] m.contains_key(k) <==> mark_total(marks, k) > 0
            &&& m.contains_key(k) ==> m[k].0 == mark_on(marks, k) && m[k].1 == mark_total(marks, k)
        }
}

fn count_mark<K: MapKey>(counts: &mut OrdMap<K, (usize, usize)>, key: K, on: bool, marks: Ghost<
    Seq<(K::V, bool)>,
>)
    requires
        are_counts(old(counts)@, marks@),
        marks@.len() < usize::MAX,
    ensures
        are_counts(final(counts)@, marks@.push((key.deep_view(), on))),
{
    let ghost kv = key.deep_view();
    let ghost more = marks@.push((kv, on));
    let (a, b): (usize, usize) = match counts.get(&key) {
        Some(c) => (c.0, c.1),
        None => (0, 0),
    };
    proof {
        mark_bounds(marks@, kv);
        assert(more.drop_last() =~= marks@);
        assert forall|k: K::V| mark_total(more, k) == mark_total(marks@, k) + (if k == kv {
            1nat
        } else {
            0
        }) by {}
        assert forall|k: K::V| mark_on(more, k) == mark_on(marks@, k) + (if k == kv && on {
            1nat
        } else {
            0
        }) by {}
        if !old(counts)@.contains_key(kv) {
            assert(mark_total(marks@, kv) == 0);
        }
    }
    let more_on: usize = if on {
        a + 1
    } else {
        a
    };
    counts.insert(key, (more_on, b + 1));
}

fn presences<K: MapKey>(counts: &OrdMap<K, (usize, usize)>, marks: Ghost<Seq<(K::V, bool)>>) -> (r: OrdMap<
    K,
    DevicePresence,
>)
    requires
        are_counts(counts@, marks@),
    ensures
        is_presence(r@, marks@),
{
    let mut r: OrdMap<K, DevicePresence> = OrdMap::new();
    let n = counts.len();
    let ghost keys = counts.keys();
    let mut i: usize = 0;
    while i < n
        invariant
            i <= n,
            n == keys.len(),
            keys == counts.keys(),
            keys.no_duplicates(),
            are_counts(counts@, marks@),
            forall|k: K::V| #[trigger] counts@.contains_key(k) <==> keys.contains(k),
            forall|k: K::V|
                {
                    let p = presence(mark_on(marks@, k), mark_total(marks@, k));
                    &&& #[trigger] r@.contains_key(k) <==> keys.take(i as int).contains(k) && p
                        != DevicePresence::Absent
                    &&& r@.contains_key(k) ==> r@[k] == p
                },
        decreases n - i,
    {
        let key = counts.key_at(i);
        let c = counts.value_at(i);
        let ghost kv = keys[i as int];
        let ghost before = r@;
        proof {
            assert forall|k: K::V| keys.take(i + 1).contains(k) <==> (keys.take(i as int).contains(k)
                || k == kv) by {
                if keys.take(i as int).contains(k) {
                    let j = keys.take(i as int).index_of(k);
                    assert(keys.take(i + 1)[j] == k);
                }
                if k == kv {
                    assert(keys.take(i + 1)[i as int] == k);
                }
                if keys.take(i + 1).contains(k) {
                    let j = keys.take(i + 1).index_of(k);
                    if j < i {
                        assert(keys.take(i as int)[j] == k);
                    }
                }
            }
            assert(counts@.contains_key(kv));
        }
        let status = presence_from_counts(c.0, c.1);
        if status != DevicePresence::Absent {
            r.insert(key.again(), status);
        }
        i = i + 1;
    }
    proof {
        assert(keys.take(n as int) =~= keys);
        assert forall|k: K::V| !keys.contains(k) implies presence(
            mark_on(marks@, k),
            mark_total(marks@, k),
        ) == DevicePresence::Absent by {
            assert(!counts@.contains_key(k));
        }
        assert forall|k: K::V|
            {
                let p = presence(mark_on(marks@, k), mark_total(marks@, k));
                &&& #[trigger] r@.contains_key(k) <==> p != DevicePresence::Absent
                &&& r@.contains_key(k) ==> r@[k] == p
            } by {
            assert(counts@.contains_key(k) <==> keys.contains(k));
        }
    }
    r
}

proof fn no_marks_no_presence<V>(marks: Seq<(V, bool)>, k: V)
    requires
        forall|i: int| 0 <= i < marks.len() ==> !(#[trigger] marks[i]).1,
    ensures
        mark_on(marks, k) == 0,
    decreases marks.len(),
{
    if marks.len() > 0 {
        no_marks_no_presence(marks.drop_last(), k);
    }
}

/// A row, marked by whether its track is on the device.
pub open spec fn retagged(r: TrackInfo, device: DeviceState) -> TrackInfo {
    TrackInfo { on_device: device.holds(r.artist_key@, r.name_key@), ..r }
}

/// The targets of an artist's albums, album by album.
pub open spec fn artist_targets(
    m: Map<(Seq<char>, Seq<char>), Seq<DeviceTrackRow>>,
    artist: Seq<char>,
    albums: Seq<Seq<char>>,
) -> Seq<(Seq<char>, u64)>
    decreases albums.len(),
{
    if albums.len() == 0 {
        Seq::empty()
    } else {
        artist_targets(m, artist, albums.drop_last()) + targets_of(list_at(m, (artist, albums.last())))
    }
}

/// The target of the first row of that name.
pub open spec fn named_target(rows: Seq<DeviceTrackRow>, name: Seq<char>) -> Seq<(Seq<char>, u64)> {
    match crate::library::first_where(rows, |r: DeviceTrackRow| r.name == name) {
        Some(r) => seq![target_of(r)],
        None => Seq::empty(),
    }
}

fn extend_targets(list: &mut Vec<(String, u64)>, tracks: &Vec<DeviceTrackInfo>)
    ensures
        targets(final(list)@) == targets(old(list)@) + targets_of(track_rows(tracks@)),
{
    let ghost before = targets(list@);
    let mut i: usize = 0;
    proof {
        assert(targets(list@) =~= before + targets_of(track_rows(tracks@)).take(0));
    }
    while i < tracks.len()
        invariant
            i <= tracks.len(),
            targets(list@) == before + targets_of(track_rows(tracks@)).take(i as int),
        decreases tracks.len() - i,
    {
        let ghost now = targets(list@);
        list.push((tracks[i].device_path.clone(), tracks[i].object_id));
        proof {
            assert(targets(list@) =~= now.push(target_of(tracks@[i as int]@)));
            assert(targets(list@) =~= before + targets_of(track_rows(tracks@)).take(i + 1));
        }
        i = i + 1;
    }
    proof {
        assert(targets_of(track_rows(tracks@)).take(tracks@.len() as int) =~= targets_of(
            track_rows(tracks@),
        ));
    }
}

fn album_targets(device: &DeviceState, artist: &String, album: &String) -> (r: Vec<(String, u64)>)
    ensures
        targets(r@) == targets_of(list_at(device.index().album_tracks, (artist@, album@))),
{
    let mut r: Vec<(String, u64)> = Vec::new();
    let key = (artist.clone(), album.clone());
    proof {
        assert(targets(r@) =~= Seq::<(Seq<char>, u64)>::empty());
    }
    match device.album_tracks.get(&key) {
        Some(tracks) => {
            extend_targets(&mut r, tracks);
            proof {
                assert(list_at(device.index().album_tracks, (artist@, album@)) =~= track_rows(tracks@));
                assert(targets(r@) =~= targets_of(track_rows(tracks@)));
            }
        },
        None => {
            proof {
                assert(targets(r@) =~= targets_of(
                    list_at(device.index().album_tracks, (artist@, album@)),
                ));
            }
        },
    }
    r
}

impl App {
    /// The lists with their rows marked by what is on the device.
    pub open spec fn rows_retagged(&self, before: &App) -> bool {
        &&& *self == (App { lists: self.lists, ..*before })
        &&& self.lists == (ListState { track_list: self.lists.track_list, ..before.lists })
        &&& self.lists.track_list@ == before.lists.track_list@.map_values(
            |r: TrackInfo| retagged(r, before.device),
        )
    }

    /// Re-tag the currently displayed track list.
    pub fn retag_on_device(&mut self)
        ensures
            final(self).rows_retagged(old(self)),
            old(self).valid() ==> final(self).valid(),
    {
        let ghost rows = self.lists.track_list@;
        let ghost all = rows.map_values(|r: TrackInfo| retagged(r, self.device));
        let ghost before = *self;
        let n = self.lists.track_list.len();
        let mut i: usize = 0;
        while i < n
            invariant
                i <= n,
                n == rows.len(),
                rows == before.lists.track_list@,
                *self == (App { lists: self.lists, ..before }),
                self.lists == (ListState { track_list: self.lists.track_list, ..before.lists }),
                all == rows.map_values(|r: TrackInfo| retagged(r, before.device)),
                self.lists.track_list@ =~= all.take(i as int) + rows.skip(i as int),
            decreases n - i,
        {
            let on = self.device.contains_track(
                self.lists.track_list[i].artist_key.as_str(),
                self.lists.track_list[i].name_key.as_str(),
            );
            let t = &mut self.lists.track_list[i];
            t.on_device = on;
            i = i + 1;
        }
        proof {
            assert(all.take(n as int) + rows.skip(n as int) =~= all);
        }
    }

    /// The presence marks are those of the library against the device.
    pub open spec fn presence_rebuilt(&self, before: &App) -> bool {
        &&& *self == (App { lists: self.lists, ..*before })
        &&& self.lists == (ListState {
            artist_device_status: self.lists.artist_device_status,
            album_device_status: self.lists.album_device_status,
            ..before.lists
        })
        &&& match before.library {
            Some(lib) => {
                &&& is_presence(
                    self.lists.artist_device_status@,
                    artist_marks(lib.tracks@, before.device),
                )
                &&& is_presence(
                    self.lists.album_device_status@,
                    album_marks(lib.tracks@, before.device),
                )
            },
            None => {
                &&& self.lists.artist_device_status@ == Map::<Seq<char>, DevicePresence>::empty()
                &&& self.lists.album_device_status@ == Map::<
                    (Seq<char>, Seq<char>),
                    DevicePresence,
                >::empty()
            },
        }
    }

    /// Compute per-artist and per-album device presence by checking every track
    /// in the library against the device.
    pub fn rebuild_artist_device_status(&mut self)
        ensures
            final(self).presence_rebuilt(old(self)),
            old(self).valid() ==> final(self).valid(),
    {
        self.lists.artist_device_status = OrdMap::new();
        self.lists.album_device_status = OrdMap::new();
        let lib = match &self.library {
            Some(l) => l,
            None => {
                return;
            },
        };
        let ghost am = artist_marks(lib.tracks@, self.device);
        let ghost bm = album_marks(lib.tracks@, self.device);
        if self.device.status != DeviceStatus::Connected || self.device.track_set.is_empty() {
            proof {
                assert forall|i: int| 0 <= i < lib.tracks@.len() implies !is_synced(
                    #[trigger] lib.tracks@[i],
                    self.device,
                ) by {}
                assert forall|k: Seq<char>| mark_on(am, k) == 0 by {
                    no_marks_no_presence(am, k);
                }
                assert forall|k: (Seq<char>, Seq<char>)| mark_on(bm, k) == 0 by {
                    no_marks_no_presence(bm, k);
                }
            }
            return;
        }
        let mut artists: OrdMap<String, (usize, usize)> = OrdMap::new();
        let mut albums: OrdMap<(String, String), (usize, usize)> = OrdMap::new();
        let mut i: usize = 0;
        while i < lib.tracks.len()
            invariant
                i <= lib.tracks.len(),
                am == artist_marks(lib.tracks@, self.device),
                bm == album_marks(lib.tracks@, self.device),
                are_counts(artists@, am.take(i as int)),
                are_counts(albums@, bm.take(i as int)),
            decreases lib.tracks.len() - i,
        {
            let t = &lib.tracks[i];
            let on = is_on_device(t.artist.as_str(), t.name.as_str(), &self.device);
            count_mark(&mut artists, t.artist.clone(), on, Ghost(am.take(i as int)));
            count_mark(
                &mut albums,
                (t.artist.clone(), t.album.clone()),
                on,
                Ghost(bm.take(i as int)),
            );
            proof {
                assert(am.take(i as int).push((t.artist@, on)) =~= am.take(i + 1));
                assert(bm.take(i as int).push(((t.artist@, t.album@), on)) =~= bm.take(i + 1));
            }
            i = i + 1;
        }
        proof {
            assert(am.take(lib.tracks@.len() as int) =~= am);
            assert(bm.take(lib.tracks@.len() as int) =~= bm);
        }
        self.lists.artist_device_status = presences(&artists, Ghost(am));
        self.lists.album_device_status = presences(&albums, Ghost(bm));
    }

    /// The presence marks were rebuilt and the lists follow: the sidebar in
    /// device mode, the marked rows otherwise.
    pub open spec fn index_flushed(&self, before: &App) -> bool {
        if before.device_index_dirty {
            exists|mid: App| #[trigger]
                mid.presence_rebuilt(&(App { device_index_dirty: false, ..*before }))
                    && if before.nav.browse_mode == BrowseMode::Device {
                    self.resided(&mid)
                } else {
                    self.rows_retagged(&mid)
                }
        } else {
            *self == *before
        }
    }

    /// Re-run UI-level derivations after incremental index changes.
    pub fn flush_device_index(&mut self)
        ensures
            final(self).index_flushed(old(self)),
            old(self).valid() ==> final(self).valid(),
    {
        if self.device_index_dirty {
            self.device_index_dirty = false;
            self.rebuild_artist_device_status();
            if self.nav.browse_mode == BrowseMode::Device {
                self.refresh_sidebar();
            } else {
                self.retag_on_device();
            }
        }
    }

    /// Full rebuild of the device index from the device's tracks.
    pub fn build_device_index(&mut self)
        ensures
            *final(self) == (App { device: final(self).device, ..*old(self) }),
            final(self).device.same_but_index(&old(self).device),
            final(self).device.index() == index_add_all(empty_index(), old(self).device.tracks@),
            old(self).valid() ==> final(self).valid(),
    {
        let ghost tracks = self.device.tracks@;
        let ghost before = *self;
        self.device.clear_index();
        let n = self.device.tracks.len();
        let mut i: usize = 0;
        proof {
            assert(tracks.take(0) =~= Seq::<DeviceEntry>::empty());
        }
        while i < n
            invariant
                i <= n,
                n == tracks.len(),
                tracks == before.device.tracks@,
                *self == (App { device: self.device, ..before }),
                self.device.same_but_index(&before.device),
                self.device.index() == index_add_all(empty_index(), tracks.take(i as int)),
            decreases n - i,
        {
            let entry = self.device.tracks[i].clone();
            self.device.add_indexed_track(&entry);
            proof {
                assert(tracks.take(i + 1).drop_last() =~= tracks.take(i as int));
            }
            i = i + 1;
        }
        proof {
            assert(tracks.take(n as int) =~= tracks);
        }
    }

    /// The device's index and the marks made from it are gone.
    pub open spec fn index_dropped(&self, before: &App) -> bool {
        &&& *self == (App {
            device: self.device,
            lists: self.lists,
            nav: self.nav,
            popup: before.popup.without_info(),
            ..*before
        })
        &&& self.device.index() == empty_index()
        &&& self.device.same_but_index(&(DeviceState { acquired_items: 0, ..before.device }))
        &&& self.lists == (ListState {
            artist_device_status: self.lists.artist_device_status,
            album_device_status: self.lists.album_device_status,
            ..before.lists
        })
        &&& self.lists.artist_device_status@ == Map::<Seq<char>, DevicePresence>::empty()
        &&& self.lists.album_device_status@ == Map::<(Seq<char>, Seq<char>), DevicePresence>::empty()
        &&& self.nav == (NavState {
            browse_mode: if before.nav.browse_mode == BrowseMode::Device {
                BrowseMode::Library
            } else {
                before.nav.browse_mode
            },
            ..before.nav
        })
    }

    /// The device's index was dropped; a sidebar that showed it goes back to
    /// the library.
    pub open spec fn index_cleared(&self, before: &App) -> bool {
        if before.nav.browse_mode == BrowseMode::Device {
            exists|mid: App| #[trigger] mid.index_dropped(before) && self.resided(&mid)
        } else {
            self.index_dropped(before)
        }
    }

    /// Forgets what is on the device.
    pub fn clear_device_index(&mut self)
        ensures
            final(self).index_cleared(old(self)),
            old(self).valid() ==> final(self).valid(),
    {
        self.close_track_info();
        self.device.clear_index();
        self.device.acquired_items = 0;
        self.lists.artist_device_status = OrdMap::new();
        self.lists.album_device_status = OrdMap::new();
        if self.nav.browse_mode == BrowseMode::Device {
            self.nav.browse_mode = BrowseMode::Library;
            let ghost mid = *self;
            proof {
                assert(mid.device.index() =~= empty_index());
                assert(mid.index_dropped(old(self)));
            }
            self.refresh_sidebar();
        } else {
            proof {
                assert(self.device.index() =~= empty_index());
            }
        }
    }

    /// The artist and album that a sidebar entry stands for on the device.
    pub open spec fn device_pair(&self, entry: SidebarEntry) -> (Seq<char>, Seq<char>) {
        match entry {
            SidebarEntry::Artist(artist) => (
                artist@,
                if self.lists.album_selected < self.lists.album_list@.len() {
                    self.lists.album_list@[self.lists.album_selected as int].name@
                } else {
                    Seq::empty()
                },
            ),
            SidebarEntry::Album { artist, album } => (artist@, album@),
            SidebarEntry::Playlist { .. } => (Seq::empty(), Seq::empty()),
        }
    }

    /// Resolve a sidebar entry to an `(artist, album)` pair using the current
    /// album-browser selection when the entry is artist-scoped.
    pub fn resolve_device_artist_album(&self, entry: &SidebarEntry) -> (r: (String, String))
        ensures
            (r.0@, r.1@) == self.device_pair(*entry),
    {
        match entry {
            SidebarEntry::Artist(artist) => {
                let album = if self.lists.album_selected < self.lists.album_list.len() {
                    self.lists.album_list[self.lists.album_selected].name.clone()
                } else {
                    String::new()
                };
                (artist.clone(), album)
            },
            SidebarEntry::Album { artist, album } => (artist.clone(), album.clone()),
            SidebarEntry::Playlist { .. } => (String::new(), String::new()),
        }
    }

    /// What of the device a sidebar entry stands for.
    pub open spec fn entry_targets(&self, entry: SidebarEntry) -> Seq<(Seq<char>, u64)> {
        let m = self.device.index().album_tracks;
        match entry {
            SidebarEntry::Artist(artist) => if self.device.index().albums.contains_key(artist@) {
                artist_targets(m, artist@, self.device.index().albums[artist@])
            } else {
                Seq::empty()
            },
            SidebarEntry::Album { artist, album } => targets_of(list_at(m, (artist@, album@))),
            SidebarEntry::Playlist { .. } => Seq::empty(),
        }
    }

    /// The device tracks of a sidebar entry.
    pub fn collect_sidebar_removal_paths(&self, entry: &SidebarEntry) -> (r: Vec<(String, u64)>)
        ensures
            targets(r@) == self.entry_targets(*entry),
    {
        let mut items: Vec<(String, u64)> = Vec::new();
        proof {
            assert(targets(items@) =~= Seq::<(Seq<char>, u64)>::empty());
        }
        match entry {
            SidebarEntry::Artist(artist) => {
                let ghost m = self.device.index().album_tracks;
                if let Some(albums) = self.device.albums.get(artist) {
                    let ghost names = texts(albums@);
                    let mut i: usize = 0;
                    proof {
                        assert(self.device.index().albums[artist@] =~= names);
                        assert(names.take(0) =~= Seq::<Seq<char>>::empty());
                    }
                    while i < albums.len()
                        invariant
                            i <= albums.len(),
                            names == texts(albums@),
                            m == self.device.index().album_tracks,
                            targets(items@) == artist_targets(m, artist@, names.take(i as int)),
                        decreases albums.len() - i,
                    {
                        let mut more = album_targets(&self.device, artist, &albums[i]);
                        let ghost a = items@;
                        let ghost b = more@;
                        items.append(&mut more);
                        proof {
                            assert(targets(items@) =~= targets(a) + targets(b));
                            assert(names.take(i + 1).drop_last() =~= names.take(i as int));
                            assert(names.take(i + 1).last() == albums@[i as int]@);
                        }
                        i = i + 1;
                    }
                    proof {
                        assert(names.take(names.len() as int) =~= names);
                    }
                }
                items
            },
            SidebarEntry::Album { artist, album } => album_targets(&self.device, artist, album),
            SidebarEntry::Playlist { .. } => items,
        }
    }

    /// The device tracks that the selection stands for.
    pub open spec fn selected_targets(&self) -> Seq<(Seq<char>, u64)> {
        if self.nav.browse_mode != BrowseMode::Device {
            Seq::empty()
        } else {
            let m = self.device.index().album_tracks;
            match self.nav.active_panel {
                Panel::TrackList => if self.lists.track_selected < self.lists.track_list@.len()
                    && self.nav.sidebar_selected < self.nav.sidebar_items@.len() {
                    named_target(
                        list_at(
                            m,
                            self.device_pair(
                                self.nav.sidebar_items@[self.nav.sidebar_selected as int],
                            ),
                        ),
                        self.lists.track_list@[self.lists.track_selected as int].name@,
                    )
                } else {
                    Seq::empty()
                },
                Panel::Albums => if self.lists.album_selected < self.lists.album_list@.len() {
                    let album = self.lists.album_list@[self.lists.album_selected as int];
                    targets_of(list_at(m, (album.artist@, album.name@)))
                } else {
                    Seq::empty()
                },
                Panel::Library => if self.nav.sidebar_selected < self.nav.sidebar_items@.len() {
                    self.entry_targets(self.nav.sidebar_items@[self.nav.sidebar_selected as int])
                } else {
                    Seq::empty()
                },
                _ => Seq::empty(),
            }
        }
    }

    fn selected_track_targets(&self) -> (r: Vec<(String, u64)>)
        requires
            self.lists.track_selected < self.lists.track_list@.len(),
            self.nav.sidebar_selected < self.nav.sidebar_items@.len(),
        ensures
            targets(r@) == named_target(
                list_at(
                    self.device.index().album_tracks,
                    self.device_pair(self.nav.sidebar_items@[self.nav.sidebar_selected as int]),
                ),
                self.lists.track_list@[self.lists.track_selected as int].name@,
            ),
    {
        let mut r: Vec<(String, u64)> = Vec::new();
        let name = &self.lists.track_list[self.lists.track_selected].name;
        let key = self.resolve_device_artist_album(
            &self.nav.sidebar_items[self.nav.sidebar_selected],
        );
        let ghost kv = (key.0@, key.1@);
        let ghost rows = list_at(self.device.index().album_tracks, kv);
        let ghost p = |r: DeviceTrackRow| r.name == name@;
        match self.device.album_tracks.get(&key) {
            Some(tracks) => {
                proof {
                    assert(rows =~= track_rows(tracks@));
                }
                let mut i: usize = 0;
                while i < tracks.len()
                    invariant
                        i <= tracks.len(),
                        r@.len() == 0,
                        rows == track_rows(tracks@),
                        rows == list_at(
                            self.device.index().album_tracks,
                            self.device_pair(
                                self.nav.sidebar_items@[self.nav.sidebar_selected as int],
                            ),
                        ),
                        *name == self.lists.track_list@[self.lists.track_selected as int].name,
                        p == |r: DeviceTrackRow| r.name == name@,
                        forall|k: int| 0 <= k < i ==> !p(#[trigger] rows[k]),
                    decreases tracks.len() - i,
                {
                    if str_eq(tracks[i].name.as_str(), name.as_str()) {
                        proof {
                            assert(p(rows[i as int]));
                            crate::library::first_index_is(rows, p, i as int);
                        }
                        r.push((tracks[i].device_path.clone(), tracks[i].object_id));
                        proof {
                            assert(targets(r@) =~= seq![target_of(rows[i as int])]);
                        }
                        return r;
                    }
                    i = i + 1;
                }
            },
            None => {},
        }
        proof {
            crate::library::first_index_none(rows, p);
            assert(targets(r@) =~= Seq::<(Seq<char>, u64)>::empty());
        }
        r
    }

    /// Collect device paths for the currently selected item(s) based on active
    /// panel.
    pub fn collect_device_removal_paths(&self) -> (r: Vec<(String, u64)>)
        ensures
            targets(r@) == self.selected_targets(),
    {
        let none: Vec<(String, u64)> = Vec::new();
        proof {
            assert(targets(none@) =~= Seq::<(Seq<char>, u64)>::empty());
        }
        if self.nav.browse_mode != BrowseMode::Device {
            return none;
        }
        match self.nav.active_panel {
            Panel::TrackList => {
                if self.lists.track_selected < self.lists.track_list.len()
                    && self.nav.sidebar_selected < self.nav.sidebar_items.len() {
                    self.selected_track_targets()
                } else {
                    none
                }
            },
            Panel::Albums => {
                if self.lists.album_selected < self.lists.album_list.len() {
                    let album = &self.lists.album_list[self.lists.album_selected];
                    album_targets(&self.device, &album.artist, &album.name)
                } else {
                    none
                }
            },
            Panel::Library => {
                if self.nav.sidebar_selected < self.nav.sidebar_items.len() {
                    self.collect_sidebar_removal_paths(
                        &self.nav.sidebar_items[self.nav.sidebar_selected],
                    )
                } else {
                    none
                }
            },
            _ => none,
        }
    }
}

} // verus!
