//! What the selection lists: the albums of an artist, the tracks of an album or
//! of a playlist, and their art.
use vstd::prelude::*;
use crate::app::{App, ArtState, ListState, Outbox};
use crate::commands::BgCommand;
use crate::format::{concat3, opt_text, texts};
use crate::library::{track_with_id, Library};
use crate::model::Track;
use crate::ordmap::OrdMap;
use crate::playlists::playlist_index;
use crate::plays::{baseline_key, device_baseline_key};
use crate::sort::{reverse, sorted, stable_sort, Order};
use crate::text::{str_eq, text_lt};
use crate::tracks::{
    album_before, are_device_rows, are_library_rows, column_before, device_tracks_to_info,
    sort_album_tracks, tracks_to_info, year_before, AlbumInfo, ColumnOrder, TrackInfo, YearOrder,
};
use crate::types::{BrowseMode, SidebarEntry, SortColumn};

verus! {

/// The files of the rows that have one.
pub open spec fn row_paths(rows: Seq<TrackInfo>) -> Seq<Seq<char>>
    decreases rows.len(),
{
    if rows.len() == 0 {
        Seq::empty()
    } else {
        let rest = row_paths(rows.drop_last());
        match rows.last().location {
            Some(p) => rest.push(p@),
            None => rest,
        }
    }
}

fn collect_paths(rows: &Vec<TrackInfo>) -> (r: Vec<String>)
    ensures
        texts(r@) == row_paths(rows@),
{
    let mut r: Vec<String> = Vec::new();
    let mut i: usize = 0;
    while i < rows.len()
        invariant
            i <= rows.len(),
            texts(r@) == row_paths(rows@.take(i as int)),
        decreases rows.len() - i,
    {
        proof {
            assert(rows@.take(i + 1).drop_last() =~= rows@.take(i as int));
        }
        if let Some(p) = &rows[i].location {
            let ghost before = texts(r@);
            r.push(p.clone());
            proof {
                assert(texts(r@) =~= before.push(p@));
            }
        }
        i = i + 1;
    }
    proof {
        assert(rows@.take(rows@.len() as int) =~= rows@);
    }
    r
}

impl ArtState {
    /// No art under the given key.
    pub open spec fn unloaded(&self, before: &ArtState, key: Seq<char>) -> bool {
        &&& *self == (ArtState {
            album_art: None,
            album_art_key: self.album_art_key,
            album_art_cache: None,
            album_art_size: (0u16, 0u16),
            ..*before
        })
        &&& self.album_art_key@ == key
    }
}

/// The art key of a row.
pub open spec fn art_key(t: TrackInfo) -> Seq<char> {
    t.artist@ + "/"@ + t.album@
}

/// A request for the art of the listed tracks.
pub open spec fn is_art_request(cmd: BgCommand, rows: Seq<TrackInfo>) -> bool {
    match cmd {
        BgCommand::LoadAlbumArt { key, artist, album, paths } => {
            &&& key@ == art_key(rows[0])
            &&& artist == rows[0].artist
            &&& album == rows[0].album
            &&& texts(paths@) == row_paths(rows)
        },
        _ => false,
    }
}

/// What becomes of the art when the rows are listed: nothing is shown without
/// rows, art that is there stays, and other art is asked for once.
pub open spec fn art_follows(
    rows: Seq<TrackInfo>,
    art: ArtState,
    out: Outbox,
    art_after: ArtState,
    out_after: Outbox,
) -> bool {
    if rows.len() == 0 {
        art_after.unloaded(&art, Seq::empty()) && out_after == out
    } else if art_key(rows[0]) == art.album_art_key@ {
        art_after == art && out_after == out
    } else {
        &&& art_after.unloaded(&art, art_key(rows[0]))
        &&& out_after.sends(&out)
        &&& is_art_request(out_after.pending_bg_commands@.last(), rows)
    }
}

/// The albums of the tracks, each with the first year that one of its tracks
/// has.
pub open spec fn album_years(tracks: Seq<Track>) -> Map<Seq<char>, Option<u32>>
    decreases tracks.len(),
{
    if tracks.len() == 0 {
        Map::empty()
    } else {
        let m = album_years(tracks.drop_last());
        let t = tracks.last();
        if m.contains_key(t.album@) && m[t.album@] is Some {
            m
        } else {
            m.insert(t.album@, t.year)
        }
    }
}

/// The albums of a table, by name.
pub open spec fn are_albums(list: Seq<AlbumInfo>, years: Map<Seq<char>, Option<u32>>, artist: String) -> bool {
    &&& forall|i: int|
        0 <= i < list.len() ==> {
            &&& years.contains_key((#[trigger] list[i]).name@)
            &&& list[i].year == years[list[i].name@]
            &&& list[i].artist == artist
        }
    &&& forall|i: int, j: int|
        0 <= i < j < list.len() ==> text_lt((#[trigger] list[i]).name@, (#[trigger] list[j]).name@)
    &&& forall|name: Seq<char>| #[trigger]
        years.contains_key(name) ==> exists|i: int|
            0 <= i < list.len() && (#[trigger] list[i]).name@ == name
}

/// The albums of an artist, oldest first.
pub open spec fn are_artist_albums(list: Seq<AlbumInfo>, tracks: Seq<Track>, artist: String) -> bool {
    exists|raw: Seq<AlbumInfo>|
        #[trigger] are_albums(raw, album_years(tracks), artist) && list == sorted(
            raw,
            |a: AlbumInfo, b: AlbumInfo| year_before(a, b),
        )
}

fn years_of(tracks: &Vec<Track>) -> (m: OrdMap<String, Option<u32>>)
    ensures
        m@ == album_years(tracks@),
{
    let mut m: OrdMap<String, Option<u32>> = OrdMap::new();
    let mut i: usize = 0;
    while i < tracks.len()
        invariant
            i <= tracks.len(),
            m@ == album_years(tracks@.take(i as int)),
        decreases tracks.len() - i,
    {
        proof {
            assert(tracks@.take(i + 1).drop_last() =~= tracks@.take(i as int));
        }
        let t = &tracks[i];
        let known = match m.get(&t.album) {
            Some(y) => y.is_some(),
            None => false,
        };
        if !known {
            m.insert(t.album.clone(), t.year);
        }
        i = i + 1;
    }
    proof {
        assert(tracks@.take(tracks@.len() as int) =~= tracks@);
    }
    m
}

fn artist_albums(tracks: &Vec<Track>, artist: &String) -> (r: Vec<AlbumInfo>)
    ensures
        are_artist_albums(r@, tracks@, *artist),
{
    let years = years_of(tracks);
    let n = years.len();
    let mut r: Vec<AlbumInfo> = Vec::new();
    let mut i: usize = 0;
    while i < n
        invariant
            i <= n,
            n == years.keys().len(),
            r.len() == i,
            forall|k: int|
                0 <= k < i ==> {
                    &&& (#[trigger] r@[k]).name@ == years.keys()[k]
                    &&& r@[k].year == years@[years.keys()[k]]
                    &&& r@[k].artist == *artist
                },
        decreases n - i,
    {
        r.push(
            AlbumInfo {
                name: years.key_at(i).clone(),
                artist: artist.clone(),
                year: *years.value_at(i),
            },
        );
        i = i + 1;
    }
    let ghost raw = r@;
    proof {
        assert forall|k: int| 0 <= k < raw.len() implies years@.contains_key(
            (#[trigger] raw[k]).name@,
        ) by {
            assert(years.keys().contains(years.keys()[k]));
        }
        assert forall|name: Seq<char>| #[trigger] years@.contains_key(name) implies exists|k: int|
            0 <= k < raw.len() && (#[trigger] raw[k]).name@ == name by {
            let k = years.keys().index_of(name);
            assert(raw[k].name@ == name);
        }
        assert forall|k: int, j: int| 0 <= k < j < raw.len() implies text_lt(
            (#[trigger] raw[k]).name@,
            (#[trigger] raw[j]).name@,
        ) by {
            assert(<String as crate::ordmap::MapKey>::key_lt(years.keys()[k], years.keys()[j]));
        }
        assert(are_albums(raw, album_years(tracks@), *artist));
    }
    stable_sort(&mut r, &YearOrder);
    proof {
        assert((|a: AlbumInfo, b: AlbumInfo| YearOrder.before(a, b)) =~= (
            |a: AlbumInfo, b: AlbumInfo| year_before(a, b)));
    }
    r
}

fn device_album_infos(names: &Vec<String>, artist: &String) -> (r: Vec<AlbumInfo>)
    ensures
        are_listed(r@, names@, *artist),
{
    let mut r: Vec<AlbumInfo> = Vec::new();
    let mut i: usize = 0;
    while i < names.len()
        invariant
            i <= names.len(),
            r.len() == i,
            forall|k: int|
                0 <= k < i ==> #[trigger] r@[k] == (AlbumInfo {
                    name: names@[k],
                    artist: *artist,
                    year: None,
                }),
        decreases names.len() - i,
    {
        r.push(AlbumInfo { name: names[i].clone(), artist: artist.clone(), year: None });
        i = i + 1;
    }
    proof {
        assert(r@ =~= names@.map_values(
            |n: String| AlbumInfo { name: n, artist: *artist, year: None },
        ));
    }
    r
}

/// The albums that the device lists for an artist.
pub open spec fn are_listed(list: Seq<AlbumInfo>, names: Seq<String>, artist: String) -> bool {
    list == names.map_values(|n: String| AlbumInfo { name: n, artist, year: None })
}

/// The tracks of a playlist that the library still has, in the playlist's
/// order.
pub open spec fn resolved(ids: Seq<u64>, tracks: Seq<Track>) -> Seq<Track>
    decreases ids.len(),
{
    if ids.len() == 0 {
        Seq::empty()
    } else {
        let rest = resolved(ids.drop_last(), tracks);
        match track_with_id(tracks, ids.last()) {
            Some(t) => rest.push(t),
            None => rest,
        }
    }
}

pub(crate) fn resolve_ids(ids: &Vec<u64>, lib: &Library) -> (r: Vec<Track>)
    ensures
        r@ == resolved(ids@, lib.tracks@),
{
    let mut r: Vec<Track> = Vec::new();
    let mut i: usize = 0;
    while i < ids.len()
        invariant
            i <= ids.len(),
            r@ == resolved(ids@.take(i as int), lib.tracks@),
        decreases ids.len() - i,
    {
        proof {
            assert(ids@.take(i + 1).drop_last() =~= ids@.take(i as int));
        }
        if let Some(t) = lib.find_id(ids[i]) {
            r.push(t.clone());
        }
        i = i + 1;
    }
    proof {
        assert(ids@.take(ids@.len() as int) =~= ids@);
    }
    r
}

/// The rows in the order of a column.
pub open spec fn column_sorted(rows: Seq<TrackInfo>, column: SortColumn, ascending: bool) -> Seq<TrackInfo> {
    let up = sorted(rows, |a: TrackInfo, b: TrackInfo| column_before(column, a, b));
    if ascending {
        up
    } else {
        up.reverse()
    }
}

fn sort_rows(rows: &mut Vec<TrackInfo>, column: SortColumn, ascending: bool)
    ensures
        final(rows)@ == column_sorted(old(rows)@, column, ascending),
{
    let order = ColumnOrder { column };
    proof {
        assert((|a: TrackInfo, b: TrackInfo| order.before(a, b)) =~= (
            |a: TrackInfo, b: TrackInfo| column_before(column, a, b)));
    }
    stable_sort(rows, &order);
    if !ascending {
        reverse(rows);
    }
}

/// The column after one press.
pub open spec fn next_column(c: SortColumn) -> SortColumn {
    match c {
        SortColumn::Number => SortColumn::Name,
        SortColumn::Name => SortColumn::Artist,
        SortColumn::Artist => SortColumn::Album,
        SortColumn::Album => SortColumn::Duration,
        SortColumn::Duration => SortColumn::Format,
        SortColumn::Format => SortColumn::Number,
    }
}

/// Six presses come back to the same column.
pub proof fn sort_columns_cycle(c: SortColumn)
    ensures
        next_column(next_column(next_column(next_column(next_column(next_column(c)))))) == c,
{
}

impl App {
    /// The key of the connected device's baselines.
    pub open spec fn device_key(&self) -> Option<Seq<char>> {
        match self.device.family {
            Some(f) => Some(baseline_key(f, opt_text(self.device.serial), opt_text(self.device.firmware))),
            None => None,
        }
    }

    /// Build the per-device baseline key for the currently-connected device, or
    /// `None` when no device is connected.
    pub fn current_device_baseline_key(&self) -> (r: Option<String>)
        ensures
            opt_text(r) == self.device_key(),
    {
        match self.device.family {
            Some(family) => Some(
                device_baseline_key(family, &self.device.serial, &self.device.firmware),
            ),
            None => None,
        }
    }

    /// The rows of library tracks.
    pub open spec fn lists_tracks(&self, rows: Seq<TrackInfo>, tracks: Seq<Track>) -> bool {
        are_library_rows(rows, tracks, self.device, self.player.local_plays@, self.device_key())
    }

    /// The rows of an album of the device.
    pub open spec fn lists_device_album(
        &self,
        rows: Seq<TrackInfo>,
        artist: Seq<char>,
        album: Seq<char>,
    ) -> bool {
        if self.device.album_tracks@.contains_key((artist, album)) {
            are_device_rows(
                rows,
                self.device.album_tracks@[(artist, album)]@,
                self.library,
                self.player.local_plays@,
                self.device_key(),
            )
        } else {
            rows.len() == 0
        }
    }

    fn library_rows(&self, tracks: &Vec<Track>) -> (r: Vec<TrackInfo>)
        ensures
            self.lists_tracks(r@, tracks@),
    {
        let key = self.current_device_baseline_key();
        tracks_to_info(tracks, &self.device, &self.player.local_plays, &key)
    }

    fn device_album_rows(&self, artist: &String, album: &String) -> (r: Vec<TrackInfo>)
        ensures
            self.lists_device_album(r@, artist@, album@),
    {
        let key = (artist.clone(), album.clone());
        let device_key = self.current_device_baseline_key();
        match self.device.album_tracks.get(&key) {
            Some(tracks) => device_tracks_to_info(
                tracks,
                &self.library,
                &self.player.local_plays,
                &device_key,
            ),
            None => Vec::new(),
        }
    }

    /// Request album art extraction in the background.
    pub fn refresh_album_art(&mut self)
        ensures
            *final(self) == (App { art: final(self).art, out: final(self).out, ..*old(self) }),
            art_follows(
                old(self).lists.track_list@,
                old(self).art,
                old(self).out,
                final(self).art,
                final(self).out,
            ),
            old(self).valid() ==> final(self).valid(),
    {
        if self.lists.track_list.len() == 0 {
            self.art.album_art = None;
            self.art.album_art_key = String::new();
            self.art.album_art_cache = None;
            self.art.album_art_size = (0, 0);
            return;
        }
        let t = &self.lists.track_list[0];
        let key = concat3(t.artist.as_str(), "/", t.album.as_str());
        if str_eq(key.as_str(), self.art.album_art_key.as_str()) {
            return;
        }
        let artist = t.artist.clone();
        let album = t.album.clone();
        let paths = collect_paths(&self.lists.track_list);
        self.art.album_art_key = key.clone();
        self.art.album_art = None;
        self.art.album_art_cache = None;
        self.art.album_art_size = (0, 0);
        self.out.pending_bg_commands.push(BgCommand::LoadAlbumArt { key, artist, album, paths });
        proof {
            assert(self.out.pending_bg_commands@.drop_last() =~= old(self).out.pending_bg_commands@);
        }
    }

    /// Sorts the listed tracks by the chosen column.
    pub fn sort_tracks(&mut self)
        ensures
            *final(self) == (App { lists: final(self).lists, ..*old(self) }),
            final(self).lists.resorted(&old(self).lists),
            old(self).valid() ==> final(self).valid(),
    {
        let column = self.lists.sort_column;
        let ascending = self.lists.sort_ascending;
        sort_rows(&mut self.lists.track_list, column, ascending);
    }

    /// Sorts by the next column, ascending.
    pub fn cycle_sort(&mut self)
        ensures
            *final(self) == (App { lists: final(self).lists, ..*old(self) }),
            final(self).lists == (ListState {
                sort_column: next_column(old(self).lists.sort_column),
                sort_ascending: true,
                track_list: final(self).lists.track_list,
                ..old(self).lists
            }),
            final(self).lists.track_list@ == column_sorted(
                old(self).lists.track_list@,
                next_column(old(self).lists.sort_column),
                true,
            ),
            old(self).valid() ==> final(self).valid(),
    {
        self.lists.sort_column = match self.lists.sort_column {
            SortColumn::Number => SortColumn::Name,
            SortColumn::Name => SortColumn::Artist,
            SortColumn::Artist => SortColumn::Album,
            SortColumn::Album => SortColumn::Duration,
            SortColumn::Duration => SortColumn::Format,
            SortColumn::Format => SortColumn::Number,
        };
        self.lists.sort_ascending = true;
        self.sort_tracks();
    }

    /// The rows of an album in the order of its discs and tracks.
    pub open spec fn are_album_rows(&self, rows: Seq<TrackInfo>, album: AlbumInfo) -> bool {
        exists|raw: Seq<TrackInfo>|
            #[trigger] self.are_raw_album_rows(raw, album) && rows == sorted(
                raw,
                |a: TrackInfo, b: TrackInfo| album_before(a, b),
            )
    }

    /// The rows of an album as the library or the device has them.
    pub open spec fn are_raw_album_rows(&self, raw: Seq<TrackInfo>, album: AlbumInfo) -> bool {
        if self.nav.browse_mode == BrowseMode::Device {
            self.lists_device_album(raw, album.artist@, album.name@)
        } else {
            self.library is Some && self.lists_tracks(
                raw,
                self.library->0.by_artist_album(album.artist@, album.name@),
            )
        }
    }

    /// The selected album was listed.
    pub open spec fn album_listed(&self, before: &App) -> bool {
        &&& *self == (App {
            lists: self.lists,
            art: self.art,
            out: self.out,
            popup: before.popup.without_info(),
            ..*before
        })
        &&& if before.lists.album_selected >= before.lists.album_list@.len() {
            &&& self.lists == (ListState { track_list: self.lists.track_list, ..before.lists })
            &&& self.lists.track_list@.len() == 0
            &&& self.art == before.art && self.out == before.out
        } else if before.nav.browse_mode != BrowseMode::Device && before.library is None {
            self.lists == before.lists && self.art == before.art && self.out == before.out
        } else {
            &&& self.lists == (ListState {
                track_list: self.lists.track_list,
                track_selected: 0,
                track_scroll: 0,
                ..before.lists
            })
            &&& before.are_album_rows(
                self.lists.track_list@,
                before.lists.album_list@[before.lists.album_selected as int],
            )
            &&& if before.nav.browse_mode == BrowseMode::Device {
                self.art == before.art && self.out == before.out
            } else {
                art_follows(self.lists.track_list@, before.art, before.out, self.art, self.out)
            }
        }
    }

    /// Lists the tracks of the selected album.
    pub fn select_album(&mut self)
        ensures
            final(self).album_listed(old(self)),
            old(self).valid() ==> final(self).valid(),
    {
        self.close_track_info();
        if self.lists.album_selected >= self.lists.album_list.len() {
            self.lists.track_list = Vec::new();
            return;
        }
        let album = self.lists.album_list[self.lists.album_selected].clone();
        if self.nav.browse_mode == BrowseMode::Device {
            let mut rows = self.device_album_rows(&album.artist, &album.name);
            proof {
                assert(old(self).are_raw_album_rows(rows@, album));
            }
            sort_album_tracks(&mut rows);
            self.lists.track_list = rows;
            self.lists.track_selected = 0;
            self.lists.track_scroll = 0;
            return;
        }
        let tracks = match &self.library {
            Some(lib) => lib.album_tracks_by_artist(album.artist.as_str(), album.name.as_str()),
            None => {
                return;
            },
        };
        let mut rows = self.library_rows(&tracks);
        proof {
            assert(old(self).are_raw_album_rows(rows@, album));
        }
        sort_album_tracks(&mut rows);
        self.lists.track_list = rows;
        self.lists.track_selected = 0;
        self.lists.track_scroll = 0;
        self.refresh_album_art();
    }

    /// Whether there are albums to browse.
    pub fn has_album_browser(&self) -> (r: bool)
        ensures
            r == (self.lists.album_list@.len() > 0),
    {
        self.lists.album_list.len() > 0
    }
}

/// The track-info popup closed, and nothing else.
pub open spec fn info_closed(before: App) -> App {
    App { popup: before.popup.without_info(), ..before }
}

impl App {
    /// Albums were put up for browsing, the first one selected.
    pub open spec fn albums_put(&self, before: &App) -> bool {
        &&& *self == (App { lists: self.lists, popup: before.popup.without_info(), ..*before })
        &&& self.lists == (ListState {
            album_list: self.lists.album_list,
            album_selected: 0,
            ..before.lists
        })
    }

    /// The albums of a library artist were put up, and the first one listed.
    pub open spec fn artist_listed(&self, before: &App, artist: String) -> bool {
        exists|mid: App| #[trigger]
            mid.albums_put(before) && are_artist_albums(
                mid.lists.album_list@,
                before.library->0.by_artist(artist@),
                artist,
            ) && self.album_listed(&mid)
    }

    /// The albums of an artist of the device were put up, and the first one
    /// listed.
    pub open spec fn device_artist_listed(&self, before: &App, artist: String) -> bool {
        exists|mid: App| #[trigger]
            mid.albums_put(before) && are_listed(
                mid.lists.album_list@,
                before.device.albums@[artist@]@,
                artist,
            ) && self.album_listed(&mid)
    }

    /// Rows were listed, with no albums to browse and the first row selected.
    pub open spec fn rows_put(&self, before: &App) -> bool {
        &&& *self == (App {
            lists: self.lists,
            art: self.art,
            out: self.out,
            popup: before.popup.without_info(),
            ..*before
        })
        &&& self.lists == (ListState {
            album_list: self.lists.album_list,
            track_list: self.lists.track_list,
            track_selected: 0,
            track_scroll: 0,
            ..before.lists
        })
        &&& self.lists.album_list@.len() == 0
    }

    /// The tracks of an album of the library were listed by the chosen column.
    pub open spec fn library_album_listed(&self, before: &App, album: String) -> bool {
        &&& self.rows_put(before)
        &&& exists|raw: Seq<TrackInfo>|
            #[trigger] before.lists_tracks(raw, before.library->0.by_album(album@))
                && self.lists.track_list@ == column_sorted(
                raw,
                before.lists.sort_column,
                before.lists.sort_ascending,
            )
        &&& art_follows(self.lists.track_list@, before.art, before.out, self.art, self.out)
    }

    /// The tracks of an album of the device were listed.
    pub open spec fn device_album_listed(&self, before: &App, artist: String, album: String) -> bool {
        &&& self.rows_put(before)
        &&& before.lists_device_album(self.lists.track_list@, artist@, album@)
        &&& self.art == before.art && self.out == before.out
    }

    /// The tracks of a playlist were listed in its order.
    pub open spec fn playlist_listed(&self, before: &App, id: u64) -> bool {
        &&& *self == (App {
            lists: self.lists,
            art: self.art,
            popup: before.popup.without_info(),
            ..*before
        })
        &&& self.art.unloaded(&before.art, Seq::empty())
        &&& self.lists.album_list@.len() == 0
        &&& match (before.library, playlist_index(before.playlists.store.playlists@, id)) {
            (Some(lib), Some(i)) => {
                &&& self.lists == (ListState {
                    album_list: self.lists.album_list,
                    track_list: self.lists.track_list,
                    track_selected: 0,
                    track_scroll: 0,
                    ..before.lists
                })
                &&& before.lists_tracks(
                    self.lists.track_list@,
                    resolved(before.playlists.store.playlists@[i as int].track_ids@, lib.tracks@),
                )
            },
            _ => {
                &&& self.lists == (ListState {
                    album_list: self.lists.album_list,
                    track_list: self.lists.track_list,
                    ..before.lists
                })
                &&& self.lists.track_list@.len() == 0
            },
        }
    }

    /// The selected entry of the sidebar was listed.
    pub open spec fn item_listed(&self, before: &App) -> bool {
        if before.nav.sidebar_selected >= before.nav.sidebar_items@.len() {
            *self == *before
        } else {
            let entry = before.nav.sidebar_items@[before.nav.sidebar_selected as int];
            match before.nav.browse_mode {
                BrowseMode::Device => self.device_item_listed(before, entry),
                BrowseMode::Playlists => match entry {
                    SidebarEntry::Playlist { id, .. } => self.playlist_listed(before, id),
                    _ => *self == info_closed(*before),
                },
                BrowseMode::Library => if before.library is None {
                    *self == info_closed(*before)
                } else {
                    match entry {
                        SidebarEntry::Artist(artist) => self.artist_listed(before, artist),
                        SidebarEntry::Album { album, .. } => self.library_album_listed(before, album),
                        SidebarEntry::Playlist { .. } => *self == info_closed(*before),
                    }
                },
            }
        }
    }

    /// An entry of the device's sidebar was listed.
    pub open spec fn device_item_listed(&self, before: &App, entry: SidebarEntry) -> bool {
        match entry {
            SidebarEntry::Artist(artist) => if before.device.albums@.contains_key(artist@) {
                self.device_artist_listed(before, artist)
            } else {
                *self == info_closed(*before)
            },
            SidebarEntry::Album { artist, album } => self.device_album_listed(before, artist, album),
            SidebarEntry::Playlist { .. } => *self == info_closed(*before),
        }
    }

    /// Lists the albums of the artist and the tracks of the first one.
    fn list_artist(&mut self, artist: &String)
        requires
            old(self).library is Some,
        ensures
            final(self).artist_listed(old(self), *artist),
    {
        self.close_track_info();
        let albums: Vec<AlbumInfo> = match &self.library {
            Some(lib) => {
                let tracks = lib.artist_tracks(artist.as_str());
                artist_albums(&tracks, artist)
            },
            None => Vec::new(),
        };
        self.lists.album_list = albums;
        self.lists.album_selected = 0;
        let ghost mid = *self;
        proof {
            assert(mid.albums_put(old(self)));
        }
        self.select_album();
        proof {
            assert(mid.popup.without_info() == mid.popup);
        }
    }

    /// Lists the tracks of an album of the library.
    fn list_library_album(&mut self, album: &String)
        requires
            old(self).library is Some,
        ensures
            final(self).library_album_listed(old(self), *album),
    {
        self.close_track_info();
        let rows: Vec<TrackInfo> = match &self.library {
            Some(lib) => {
                let tracks = lib.album_tracks(album.as_str());
                self.library_rows(&tracks)
            },
            None => Vec::new(),
        };
        proof {
            assert(old(self).lists_tracks(rows@, old(self).library->0.by_album(album@)));
        }
        self.lists.album_list = Vec::new();
        self.lists.track_list = rows;
        self.sort_tracks();
        self.lists.track_selected = 0;
        self.lists.track_scroll = 0;
        self.refresh_album_art();
    }

    /// Resolve a playlist entry into the rows of its tracks, in playlist order.
    /// Tracks that the library no longer has are skipped.
    fn select_sidebar_item_playlist(&mut self, entry: &SidebarEntry)
        ensures
            match *entry {
                SidebarEntry::Playlist { id, .. } => final(self).playlist_listed(old(self), id),
                _ => *final(self) == info_closed(*old(self)),
            },
    {
        self.close_track_info();
        let id: u64 = match entry {
            SidebarEntry::Playlist { id, .. } => *id,
            _ => {
                return;
            },
        };
        self.lists.album_list = Vec::new();
        self.art.album_art = None;
        self.art.album_art_key = String::new();
        self.art.album_art_cache = None;
        self.art.album_art_size = (0, 0);
        let tracks: Vec<Track> = match &self.library {
            Some(lib) => match self.playlists.store.get(id) {
                Some(p) => resolve_ids(&p.track_ids, lib),
                None => {
                    self.lists.track_list = Vec::new();
                    return;
                },
            },
            None => {
                self.lists.track_list = Vec::new();
                return;
            },
        };
        self.lists.track_list = self.library_rows(&tracks);
        self.lists.track_selected = 0;
        self.lists.track_scroll = 0;
    }

    fn select_sidebar_item_device(&mut self, entry: &SidebarEntry)
        ensures
            final(self).device_item_listed(old(self), *entry),
    {
        self.close_track_info();
        match entry {
            SidebarEntry::Artist(artist) => {
                let albums: Vec<AlbumInfo> = match self.device.albums.get(artist) {
                    Some(names) => device_album_infos(names, artist),
                    None => {
                        return;
                    },
                };
                self.lists.album_list = albums;
                self.lists.album_selected = 0;
                let ghost mid = *self;
                proof {
                    assert(mid.albums_put(old(self)));
                }
                self.select_album();
                proof {
                    assert(mid.popup.without_info() == mid.popup);
                }
            },
            SidebarEntry::Album { artist, album } => {
                let rows = self.device_album_rows(artist, album);
                self.lists.album_list = Vec::new();
                self.lists.track_list = rows;
                self.lists.track_selected = 0;
                self.lists.track_scroll = 0;
            },
            SidebarEntry::Playlist { .. } => {},
        }
    }

    /// Lists what the selected entry of the sidebar holds.
    pub fn select_sidebar_item(&mut self)
        ensures
            final(self).item_listed(old(self)),
            old(self).valid() ==> final(self).valid(),
    {
        if self.nav.sidebar_selected >= self.nav.sidebar_items.len() {
            return;
        }
        let entry = self.nav.sidebar_items[self.nav.sidebar_selected].clone();
        match self.nav.browse_mode {
            BrowseMode::Device => {
                self.select_sidebar_item_device(&entry);
            },
            BrowseMode::Playlists => {
                self.select_sidebar_item_playlist(&entry);
            },
            BrowseMode::Library => {
                if self.library.is_none() {
                    self.close_track_info();
                    return;
                }
                match &entry {
                    SidebarEntry::Artist(artist) => {
                        self.list_artist(artist);
                    },
                    SidebarEntry::Album { album, .. } => {
                        self.list_library_album(album);
                    },
                    SidebarEntry::Playlist { .. } => {
                        self.close_track_info();
                    },
                }
            },
        }
    }
}

/// Listing an entry keeps the state well-formed.
pub proof fn listing_keeps_valid(before: App, after: App)
    requires
        before.valid(),
        after.item_listed(&before) || after.album_listed(&before),
    ensures
        after.valid(),
        after.nav == before.nav,
        after.popup == before.popup || after.popup == before.popup.without_info(),
{
    if after.item_listed(&before) && before.nav.sidebar_selected < before.nav.sidebar_items@.len() {
        let entry = before.nav.sidebar_items@[before.nav.sidebar_selected as int];
        match entry {
            SidebarEntry::Artist(artist) => {
                if before.nav.browse_mode == BrowseMode::Device && before.device.albums@.contains_key(
                    artist@,
                ) {
                    let mid = choose|mid: App| #[trigger]
                        mid.albums_put(&before) && are_listed(
                            mid.lists.album_list@,
                            before.device.albums@[artist@]@,
                            artist,
                        ) && after.album_listed(&mid);
                    assert(mid.lists.valid());
                } else if before.nav.browse_mode == BrowseMode::Library && before.library is Some {
                    let mid = choose|mid: App| #[trigger]
                        mid.albums_put(&before) && are_artist_albums(
                            mid.lists.album_list@,
                            before.library->0.by_artist(artist@),
                            artist,
                        ) && after.album_listed(&mid);
                    assert(mid.lists.valid());
                }
            },
            _ => {},
        }
    }
}

impl ListState {
    /// The tracks were sorted by the chosen column.
    pub open spec fn resorted(&self, before: &ListState) -> bool {
        &&& *self == (ListState { track_list: self.track_list, ..*before })
        &&& self.track_list@ == column_sorted(
            before.track_list@,
            before.sort_column,
            before.sort_ascending,
        )
    }
}

} // verus!
