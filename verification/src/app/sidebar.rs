//! The sidebar: where its entries come from, the search filter, and the saved
//! positions.
use vstd::prelude::*;
use crate::app::{App, ListState, NavState};
use crate::device::DeviceState;
use crate::format::texts;
use crate::library::Library;
use crate::ordmap::OrdMap;
use crate::playlists::{Playlist, PlaylistStore};
use crate::sort::{sorted, stable_sort, Order};
use crate::text::{contains_str, has_substring, lowercase_of, str_eq, str_lt, text_lt, to_lowercase};
use crate::tracks::{AlbumInfo, TrackInfo};
use crate::types::{BrowseMode, SidebarEntry, SidebarMode, SidebarRow};

verus! {

/// What the entries say.
pub open spec fn entry_rows(s: Seq<SidebarEntry>) -> Seq<SidebarRow> {
    s.map_values(|e: SidebarEntry| e@)
}

/// What of a playlist decides its place in the sidebar, and its entry.
pub struct PlaylistKey {
    pub id: u64,
    pub name: String,
    pub generated: bool,
    pub updated_at_ms: u64,
}

pub open spec fn key_of(p: Playlist) -> PlaylistKey {
    PlaylistKey {
        id: p.id,
        name: p.name,
        generated: p.generated(),
        updated_at_ms: p.updated_at_ms,
    }
}

/// Generated playlists first, then those touched last.
pub open spec fn playlist_before(a: PlaylistKey, b: PlaylistKey) -> bool {
    if a.generated != b.generated {
        a.generated
    } else {
        a.updated_at_ms > b.updated_at_ms
    }
}

/// The playlists in the order of the sidebar.
pub open spec fn playlist_keys(s: Seq<Playlist>) -> Seq<PlaylistKey> {
    sorted(
        s.map_values(|p: Playlist| key_of(p)),
        |a: PlaylistKey, b: PlaylistKey| playlist_before(a, b),
    )
}

pub struct PlaylistOrder;

impl Order<PlaylistKey> for PlaylistOrder {
    open spec fn before(&self, a: PlaylistKey, b: PlaylistKey) -> bool {
        playlist_before(a, b)
    }

    fn is_before(&self, a: &PlaylistKey, b: &PlaylistKey) -> (r: bool) {
        if a.generated != b.generated {
            a.generated
        } else {
            a.updated_at_ms > b.updated_at_ms
        }
    }
}

/// The order of playlists meets the condition under which sorting sorts.
pub proof fn playlist_order_is_an_order()
    ensures
        crate::sort::is_order(|a: PlaylistKey, b: PlaylistKey| playlist_before(a, b)),
{
}

/// In the sidebar no manual playlist stands before a generated one, and of two
/// of a kind the one touched last stands first.
pub proof fn playlists_are_in_order(s: Seq<Playlist>, i: int, j: int)
    requires
        0 <= i < j < playlist_keys(s).len(),
    ensures
        playlist_keys(s)[j].generated ==> playlist_keys(s)[i].generated,
        playlist_keys(s)[i].generated == playlist_keys(s)[j].generated
            ==> playlist_keys(s)[i].updated_at_ms >= playlist_keys(s)[j].updated_at_ms,
{
    let before = |a: PlaylistKey, b: PlaylistKey| playlist_before(a, b);
    playlist_order_is_an_order();
    crate::sort::sorting_sorts(s.map_values(|p: Playlist| key_of(p)), before);
    assert(!before(playlist_keys(s)[j], playlist_keys(s)[i]));
}

/// The entries of the playlists.
pub open spec fn playlist_rows(s: Seq<Playlist>) -> Seq<SidebarRow> {
    playlist_keys(s).map_values(|k: PlaylistKey| SidebarRow::Playlist(k.id, k.name@))
}

/// The albums of the device, artist by artist, of the first `n` artists.
pub open spec fn album_pairs(
    artists: Seq<Seq<char>>,
    albums: Map<Seq<char>, Vec<String>>,
    n: int,
) -> Seq<SidebarRow>
    decreases n,
{
    if n <= 0 {
        Seq::empty()
    } else {
        album_pairs(artists, albums, n - 1) + texts(albums[artists[n - 1]]@).map_values(
            |album: Seq<char>| SidebarRow::Album(artists[n - 1], album),
        )
    }
}

/// Album entries by artist, then by album.
pub open spec fn entry_before(a: SidebarEntry, b: SidebarEntry) -> bool {
    match (a, b) {
        (
            SidebarEntry::Album { artist: aa, album: ab },
            SidebarEntry::Album { artist: ba, album: bb },
        ) => if aa@ != ba@ {
            text_lt(aa@, ba@)
        } else {
            text_lt(ab@, bb@)
        },
        _ => false,
    }
}

pub struct EntryOrder;

impl Order<SidebarEntry> for EntryOrder {
    open spec fn before(&self, a: SidebarEntry, b: SidebarEntry) -> bool {
        entry_before(a, b)
    }

    fn is_before(&self, a: &SidebarEntry, b: &SidebarEntry) -> (r: bool) {
        match a {
            SidebarEntry::Album { artist: aa, album: ab } => match b {
                SidebarEntry::Album { artist: ba, album: bb } => {
                    if !str_eq(aa.as_str(), ba.as_str()) {
                        str_lt(aa.as_str(), ba.as_str())
                    } else {
                        str_lt(ab.as_str(), bb.as_str())
                    }
                },
                _ => false,
            },
            _ => false,
        }
    }
}

/// The entries are the device's albums, sorted by artist and album.
pub open spec fn are_device_albums(entries: Seq<SidebarEntry>, albums: OrdMap<String, Vec<String>>) -> bool {
    exists|raw: Seq<SidebarEntry>|
        #[trigger] entry_rows(raw) == album_pairs(
            albums.keys(),
            albums@,
            albums.keys().len() as int,
        ) && entries == sorted(raw, |a: SidebarEntry, b: SidebarEntry| entry_before(a, b))
}

/// The entries that one mode of the sidebar shows when nothing is searched for.
pub open spec fn is_source(
    browse: BrowseMode,
    sidebar: SidebarMode,
    library: Option<Library>,
    device: DeviceState,
    store: PlaylistStore,
    entries: Seq<SidebarEntry>,
) -> bool {
    match browse {
        BrowseMode::Playlists => entry_rows(entries) == playlist_rows(store.playlists@),
        BrowseMode::Library => match library {
            None => entries.len() == 0,
            Some(l) => match sidebar {
                SidebarMode::Artists => entry_rows(entries) == texts(l.artists@).map_values(
                    |a: Seq<char>| SidebarRow::Artist(a),
                ),
                SidebarMode::Albums => entry_rows(entries) == l.albums@.map_values(
                    |p: (String, String)| SidebarRow::Album(p.0@, p.1@),
                ),
            },
        },
        BrowseMode::Device => match sidebar {
            SidebarMode::Artists => entry_rows(entries) == texts(device.artists@).map_values(
                |a: Seq<char>| SidebarRow::Artist(a),
            ),
            SidebarMode::Albums => are_device_albums(entries, device.albums),
        },
    }
}

/// The texts that a search looks in.
pub open spec fn search_texts(rows: Seq<SidebarRow>) -> Seq<Seq<char>> {
    rows.map_values(|r: SidebarRow| r.search_text())
}

/// Of the first `n` entries, those whose text holds the query.
pub open spec fn found(
    rows: Seq<SidebarRow>,
    lower: Seq<Seq<char>>,
    query: Seq<char>,
    n: int,
) -> Seq<SidebarRow>
    decreases n,
{
    if n <= 0 {
        Seq::empty()
    } else if has_substring(lower[n - 1], query) {
        found(rows, lower, query, n - 1).push(rows[n - 1])
    } else {
        found(rows, lower, query, n - 1)
    }
}

/// A search shows entries of the full list only, each of which holds the query.
pub proof fn search_only_narrows(
    rows: Seq<SidebarRow>,
    lower: Seq<Seq<char>>,
    query: Seq<char>,
    n: int,
    k: int,
)
    requires
        0 <= k < found(rows, lower, query, n).len(),
    ensures
        exists|i: int|
            0 <= i < n && #[trigger] rows[i] == found(rows, lower, query, n)[k] && has_substring(
                lower[i],
                query,
            ),
    decreases n,
{
    let rest = found(rows, lower, query, n - 1);
    if k < rest.len() {
        search_only_narrows(rows, lower, query, n - 1, k);
    } else {
        assert(rows[n - 1] == found(rows, lower, query, n)[k]);
    }
}

/// A search shows every entry of the full list that holds the query.
pub proof fn search_finds_all(
    rows: Seq<SidebarRow>,
    lower: Seq<Seq<char>>,
    query: Seq<char>,
    n: int,
    i: int,
)
    requires
        0 <= i < n,
        has_substring(lower[i], query),
    ensures
        found(rows, lower, query, n).contains(rows[i]),
    decreases n,
{
    let rest = found(rows, lower, query, n - 1);
    if i == n - 1 {
        assert(found(rows, lower, query, n).last() == rows[i]);
    } else {
        search_finds_all(rows, lower, query, n - 1, i);
        let k = rest.index_of(rows[i]);
        assert(found(rows, lower, query, n)[k] == rows[i]);
    }
}

/// The length of the shorter list.
pub open spec fn shorter(a: nat, b: nat) -> int {
    if a <= b {
        a as int
    } else {
        b as int
    }
}

impl NavState {
    /// What the sidebar shows of its full list.
    pub open spec fn shown(&self) -> Seq<SidebarRow> {
        if self.search_active && self.search_query@.len() > 0 {
            found(
                entry_rows(self.sidebar_items_full@),
                texts(self.sidebar_lowercase_full@),
                lowercase_of(self.search_query@),
                shorter(self.sidebar_items_full@.len(), self.sidebar_lowercase_full@.len()),
            )
        } else {
            entry_rows(self.sidebar_items_full@)
        }
    }

    /// The saved selection of the modes, held within a list of `len` entries.
    pub open spec fn restored(&self, len: nat) -> usize {
        let saved = match self.saved_sidebar_pos.at(self.browse_mode, self.sidebar_mode) {
            Some(p) => p,
            None => 0,
        };
        if len == 0 {
            0
        } else if saved < len {
            saved
        } else {
            (len - 1) as usize
        }
    }

    /// The filter was applied.
    pub open spec fn refiltered(&self, before: &NavState) -> bool {
        &&& *self == (NavState {
            sidebar_items: self.sidebar_items,
            sidebar_selected: before.restored(self.sidebar_items@.len()),
            sidebar_scroll: 0,
            ..*before
        })
        &&& entry_rows(self.sidebar_items@) == before.shown()
    }
}

fn artist_entries(names: &Vec<String>) -> (r: Vec<SidebarEntry>)
    ensures
        entry_rows(r@) == texts(names@).map_values(|a: Seq<char>| SidebarRow::Artist(a)),
{
    let mut r: Vec<SidebarEntry> = Vec::new();
    let mut i: usize = 0;
    while i < names.len()
        invariant
            i <= names.len(),
            r.len() == i,
            forall|k: int| 0 <= k < i ==> (#[trigger] r@[k])@ == SidebarRow::Artist(names@[k]@),
        decreases names.len() - i,
    {
        r.push(SidebarEntry::Artist(names[i].clone()));
        i = i + 1;
    }
    proof {
        assert(entry_rows(r@) =~= texts(names@).map_values(|a: Seq<char>| SidebarRow::Artist(a)));
    }
    r
}

fn album_entries(pairs: &Vec<(String, String)>) -> (r: Vec<SidebarEntry>)
    ensures
        entry_rows(r@) == pairs@.map_values(
            |p: (String, String)| SidebarRow::Album(p.0@, p.1@),
        ),
{
    let mut r: Vec<SidebarEntry> = Vec::new();
    let mut i: usize = 0;
    while i < pairs.len()
        invariant
            i <= pairs.len(),
            r.len() == i,
            forall|k: int|
                0 <= k < i ==> (#[trigger] r@[k])@ == SidebarRow::Album(pairs@[k].0@, pairs@[k].1@),
        decreases pairs.len() - i,
    {
        r.push(SidebarEntry::Album { artist: pairs[i].0.clone(), album: pairs[i].1.clone() });
        i = i + 1;
    }
    proof {
        assert(entry_rows(r@) =~= pairs@.map_values(
            |p: (String, String)| SidebarRow::Album(p.0@, p.1@),
        ));
    }
    r
}

fn playlist_entries(store: &PlaylistStore) -> (r: Vec<SidebarEntry>)
    ensures
        entry_rows(r@) == playlist_rows(store.playlists@),
{
    let mut keys: Vec<PlaylistKey> = Vec::new();
    let mut i: usize = 0;
    while i < store.playlists.len()
        invariant
            i <= store.playlists.len(),
            keys.len() == i,
            forall|k: int| 0 <= k < i ==> #[trigger] keys@[k] == key_of(store.playlists@[k]),
        decreases store.playlists.len() - i,
    {
        let p = &store.playlists[i];
        keys.push(
            PlaylistKey {
                id: p.id,
                name: p.name.clone(),
                generated: p.is_generated(),
                updated_at_ms: p.updated_at_ms,
            },
        );
        i = i + 1;
    }
    proof {
        assert(keys@ =~= store.playlists@.map_values(|p: Playlist| key_of(p)));
        assert((|a: PlaylistKey, b: PlaylistKey| PlaylistOrder.before(a, b)) =~= (
            |a: PlaylistKey, b: PlaylistKey| playlist_before(a, b)));
    }
    stable_sort(&mut keys, &PlaylistOrder);
    let mut r: Vec<SidebarEntry> = Vec::new();
    let mut j: usize = 0;
    while j < keys.len()
        invariant
            j <= keys.len(),
            r.len() == j,
            forall|k: int|
                0 <= k < j ==> (#[trigger] r@[k])@ == SidebarRow::Playlist(keys@[k].id, keys@[k].name@),
        decreases keys.len() - j,
    {
        r.push(SidebarEntry::Playlist { id: keys[j].id, name: keys[j].name.clone() });
        j = j + 1;
    }
    proof {
        assert(entry_rows(r@) =~= playlist_rows(store.playlists@));
    }
    r
}

fn device_album_entries(albums: &OrdMap<String, Vec<String>>) -> (r: Vec<SidebarEntry>)
    ensures
        are_device_albums(r@, *albums),
{
    let mut r: Vec<SidebarEntry> = Vec::new();
    let n = albums.len();
    let mut i: usize = 0;
    while i < n
        invariant
            i <= n,
            n == albums.keys().len(),
            entry_rows(r@) == album_pairs(albums.keys(), albums@, i as int),
        decreases n - i,
    {
        let artist = albums.key_at(i);
        let names = albums.value_at(i);
        let ghost before = entry_rows(r@);
        let ghost key = albums.keys()[i as int];
        let mut j: usize = 0;
        while j < names.len()
            invariant
                j <= names.len(),
                artist@ == key,
                entry_rows(r@) == before + texts(names@).take(j as int).map_values(
                    |album: Seq<char>| SidebarRow::Album(key, album),
                ),
            decreases names.len() - j,
        {
            let ghost so_far = entry_rows(r@);
            r.push(SidebarEntry::Album { artist: artist.clone(), album: names[j].clone() });
            proof {
                assert(entry_rows(r@) =~= so_far.push(
                    SidebarRow::Album(key, names@[j as int]@),
                ));
                assert(texts(names@).take(j + 1) =~= texts(names@).take(j as int).push(names@[j as int]@));
                assert(entry_rows(r@) =~= before + texts(names@).take(j + 1).map_values(
                    |album: Seq<char>| SidebarRow::Album(key, album),
                ));
            }
            j = j + 1;
        }
        proof {
            assert(texts(names@).take(names@.len() as int) =~= texts(names@));
        }
        i = i + 1;
    }
    let ghost raw = r@;
    stable_sort(&mut r, &EntryOrder);
    proof {
        assert((|a: SidebarEntry, b: SidebarEntry| EntryOrder.before(a, b)) =~= (
            |a: SidebarEntry, b: SidebarEntry| entry_before(a, b)));
        assert(entry_rows(raw) == album_pairs(albums.keys(), albums@, albums.keys().len() as int));
    }
    r
}

fn search_keys(entries: &Vec<SidebarEntry>) -> (r: Vec<String>)
    ensures
        texts(r@) == search_texts(entry_rows(entries@)),
{
    let mut r: Vec<String> = Vec::new();
    let mut i: usize = 0;
    while i < entries.len()
        invariant
            i <= entries.len(),
            r.len() == i,
            forall|k: int|
                0 <= k < i ==> (#[trigger] r@[k])@ == entries@[k]@.search_text(),
        decreases entries.len() - i,
    {
        r.push(entries[i].lowercase_key());
        i = i + 1;
    }
    proof {
        assert(texts(r@) =~= search_texts(entry_rows(entries@)));
    }
    r
}

fn copy_entries(entries: &Vec<SidebarEntry>) -> (r: Vec<SidebarEntry>)
    ensures
        entry_rows(r@) == entry_rows(entries@),
{
    let mut r: Vec<SidebarEntry> = Vec::new();
    let mut i: usize = 0;
    while i < entries.len()
        invariant
            i <= entries.len(),
            r.len() == i,
            forall|k: int| 0 <= k < i ==> (#[trigger] r@[k])@ == entries@[k]@,
        decreases entries.len() - i,
    {
        r.push(entries[i].clone());
        i = i + 1;
    }
    proof {
        assert(entry_rows(r@) =~= entry_rows(entries@));
    }
    r
}

fn matching_entries(entries: &Vec<SidebarEntry>, lower: &Vec<String>, query: &str) -> (r: Vec<
    SidebarEntry,
>)
    ensures
        entry_rows(r@) == found(
            entry_rows(entries@),
            texts(lower@),
            query@,
            shorter(entries@.len(), lower@.len()),
        ),
{
    let mut r: Vec<SidebarEntry> = Vec::new();
    let mut i: usize = 0;
    while i < entries.len() && i < lower.len()
        invariant
            i <= entries.len(),
            i <= lower.len(),
            entry_rows(r@) == found(entry_rows(entries@), texts(lower@), query@, i as int),
        decreases entries.len() - i,
    {
        if contains_str(lower[i].as_str(), query) {
            let ghost before = entry_rows(r@);
            r.push(entries[i].clone());
            proof {
                assert(entry_rows(r@) =~= before.push(entries@[i as int]@));
            }
        }
        i = i + 1;
    }
    r
}

impl App {
    /// Save the current sidebar selection for the active mode.
    pub fn save_sidebar_pos(&mut self)
        ensures
            *final(self) == (App { nav: final(self).nav, ..*old(self) }),
            final(self).nav.saved(&old(self).nav),
            old(self).valid() ==> final(self).valid(),
    {
        self.nav.saved_sidebar_pos.set(
            self.nav.browse_mode,
            self.nav.sidebar_mode,
            self.nav.sidebar_selected,
        );
    }

    /// Restore the saved sidebar selection for the active mode, clamped to list
    /// bounds.
    pub fn restore_sidebar_pos(&mut self)
        ensures
            *final(self) == (App { nav: final(self).nav, ..*old(self) }),
            final(self).nav == (NavState {
                sidebar_selected: old(self).nav.restored(old(self).nav.sidebar_items@.len()),
                ..old(self).nav
            }),
            final(self).nav.valid(),
    {
        let saved: usize = match self.nav.saved_sidebar_pos.get(
            self.nav.browse_mode,
            self.nav.sidebar_mode,
        ) {
            Some(p) => p,
            None => 0,
        };
        let n = self.nav.sidebar_items.len();
        self.nav.sidebar_selected = if n == 0 {
            0
        } else if saved < n {
            saved
        } else {
            n - 1
        };
    }

    /// The sidebar's source was made anew.
    pub open spec fn resourced(&self, before: &App) -> bool {
        &&& *self == (App { nav: self.nav, ..*before })
        &&& self.nav == (NavState {
            sidebar_items: self.nav.sidebar_items,
            sidebar_items_full: self.nav.sidebar_items_full,
            sidebar_lowercase_full: self.nav.sidebar_lowercase_full,
            ..before.nav
        })
        &&& is_source(
            before.nav.browse_mode,
            before.nav.sidebar_mode,
            before.library,
            before.device,
            before.playlists.store,
            self.nav.sidebar_items_full@,
        )
        &&& texts(self.nav.sidebar_lowercase_full@) == search_texts(
            entry_rows(self.nav.sidebar_items_full@),
        )
        &&& if before.nav.browse_mode == BrowseMode::Library && before.library is None {
            self.nav.sidebar_items@.len() == 0
        } else {
            self.nav.sidebar_items == before.nav.sidebar_items
        }
    }

    /// Rebuild the full sidebar source (expensive: scans the library or device
    /// index). Call when the underlying data changes, not on every keystroke.
    pub fn rebuild_sidebar_source(&mut self)
        ensures
            final(self).resourced(old(self)),
            old(self).valid() ==> final(self).valid(),
    {
        let full: Vec<SidebarEntry> = match self.nav.browse_mode {
            BrowseMode::Playlists => playlist_entries(&self.playlists.store),
            BrowseMode::Library => match &self.library {
                None => {
                    self.nav.sidebar_items_full = Vec::new();
                    self.nav.sidebar_lowercase_full = Vec::new();
                    self.nav.sidebar_items = Vec::new();
                    proof {
                        assert(texts(self.nav.sidebar_lowercase_full@) =~= search_texts(
                            entry_rows(self.nav.sidebar_items_full@),
                        ));
                    }
                    return;
                },
                Some(lib) => match self.nav.sidebar_mode {
                    SidebarMode::Artists => artist_entries(&lib.artists),
                    SidebarMode::Albums => album_entries(&lib.albums),
                },
            },
            BrowseMode::Device => match self.nav.sidebar_mode {
                SidebarMode::Artists => artist_entries(&self.device.artists),
                SidebarMode::Albums => device_album_entries(&self.device.albums),
            },
        };
        self.nav.sidebar_lowercase_full = search_keys(&full);
        self.nav.sidebar_items_full = full;
    }

    /// Apply the search filter to the cached source, producing the visible
    /// entries. The source itself is not touched.
    pub fn apply_sidebar_filter(&mut self)
        ensures
            *final(self) == (App { nav: final(self).nav, ..*old(self) }),
            final(self).nav.refiltered(&old(self).nav),
            final(self).nav.valid(),
    {
        let items: Vec<SidebarEntry> = if self.nav.search_active && !self.nav.search_query.as_str().is_empty() {
            let q = to_lowercase(self.nav.search_query.as_str());
            matching_entries(
                &self.nav.sidebar_items_full,
                &self.nav.sidebar_lowercase_full,
                q.as_str(),
            )
        } else {
            copy_entries(&self.nav.sidebar_items_full)
        };
        self.nav.sidebar_items = items;
        self.restore_sidebar_pos();
        self.nav.sidebar_scroll = 0;
    }

    /// The sidebar was made anew, filtered, and nothing is listed.
    pub open spec fn resided(&self, before: &App) -> bool {
        &&& *self == (App { nav: self.nav, lists: self.lists, ..*before })
        &&& self.nav == (NavState {
            sidebar_items: self.nav.sidebar_items,
            sidebar_items_full: self.nav.sidebar_items_full,
            sidebar_lowercase_full: self.nav.sidebar_lowercase_full,
            sidebar_selected: before.nav.restored(self.nav.sidebar_items@.len()),
            sidebar_scroll: 0,
            ..before.nav
        })
        &&& is_source(
            before.nav.browse_mode,
            before.nav.sidebar_mode,
            before.library,
            before.device,
            before.playlists.store,
            self.nav.sidebar_items_full@,
        )
        &&& texts(self.nav.sidebar_lowercase_full@) == search_texts(
            entry_rows(self.nav.sidebar_items_full@),
        )
        &&& entry_rows(self.nav.sidebar_items@) == self.nav.shown()
        &&& self.nav.valid()
        &&& self.lists.emptied(&before.lists)
    }

    /// Makes the sidebar anew and clears the lists.
    pub fn refresh_sidebar(&mut self)
        ensures
            final(self).resided(old(self)),
            old(self).valid() ==> final(self).valid(),
    {
        self.rebuild_sidebar_source();
        self.apply_sidebar_filter();
        self.lists.album_list = Vec::new();
        self.lists.track_list = Vec::new();
        self.lists.track_selected = 0;
        self.lists.track_scroll = 0;
    }
}

impl ListState {
    /// Nothing is listed.
    pub open spec fn emptied(&self, before: &ListState) -> bool {
        &&& *self == (ListState {
            album_list: self.album_list,
            track_list: self.track_list,
            track_selected: 0,
            track_scroll: 0,
            ..*before
        })
        &&& self.album_list@ == Seq::<AlbumInfo>::empty()
        &&& self.track_list@ == Seq::<TrackInfo>::empty()
    }
}

impl NavState {
    /// The selection was saved under the modes.
    pub open spec fn saved(&self, before: &NavState) -> bool {
        &&& *self == (NavState { saved_sidebar_pos: self.saved_sidebar_pos, ..*before })
        &&& self.saved_sidebar_pos.slots@ == before.saved_sidebar_pos.slots@.update(
            crate::app::slot_of(before.browse_mode, before.sidebar_mode),
            Some(before.sidebar_selected),
        )
    }
}

/// A saved selection comes back when its mode does, within the list of then, and
/// those of the other modes are left alone.
pub proof fn saved_selections_come_back(before: NavState, saved: NavState, later: NavState, n: nat)
    requires
        saved.saved(&before),
        later.saved_sidebar_pos == saved.saved_sidebar_pos,
        later.browse_mode == before.browse_mode,
        later.sidebar_mode == before.sidebar_mode,
    ensures
        before.sidebar_selected < n ==> later.restored(n) == before.sidebar_selected,
        before.sidebar_selected >= n > 0 ==> later.restored(n) == n - 1,
        forall|b: BrowseMode, s: SidebarMode|
            b != before.browse_mode || s != before.sidebar_mode
                ==> #[trigger] saved.saved_sidebar_pos.at(b, s) == before.saved_sidebar_pos.at(b, s),
{
}

} // verus!
