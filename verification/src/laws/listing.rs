//! Lists: what is shown, and in which order.
use vstd::prelude::*;
use crate::app::select::{
    album_years, are_albums, are_artist_albums, column_sorted, next_column, resolved, row_paths,
};
use crate::app::sidebar::{
    album_pairs, are_device_albums, entry_before, entry_rows, found, is_source, key_of,
    playlist_keys, playlist_rows, search_texts, PlaylistKey,
};
use crate::app::{App, ListState, NavState};
use crate::device::DeviceState;
use crate::format::texts;
use crate::laws::copying::filtered_has;
use crate::laws::counting::the_first_is_found;
use crate::library::{is_title_by, track_with_id, Library};
use crate::model::Track;
use crate::ordmap::OrdMap;
use crate::playlists::{Playlist, PlaylistStore};
use crate::plays::PlayStats;
use crate::sort::{is_order, sorted, sorting_keeps_elements, sorting_sorts};
use crate::text::{
    has_substring, lowercase_of, match_key, same_ignoring_case, text_lt, text_order_is_total,
    text_order_is_transitive, trimmed, without_track_number,
};
use crate::tracks::{
    album_before, album_order_is_an_order, column_before, column_order_is_an_order, is_device_row,
    is_library_row, library_track_for, year_before, AlbumInfo, TrackInfo,
};
use crate::types::{
    BrowseMode, DeviceStatus, DeviceTrackInfo, SidebarEntry, SidebarMode, SidebarRow, SortColumn,
};

verus! {

pub(crate) proof fn sorted_has_the_same<T>(s: Seq<T>, before: spec_fn(T, T) -> bool)
    ensures
        sorted(s, before).len() == s.len(),
        forall|x: T| #[trigger] sorted(s, before).contains(x) <==> s.contains(x),
{
    broadcast use vstd::seq_lib::group_to_multiset_ensures;

    sorting_keeps_elements(s, before);
    let r = sorted(s, before);
    assert forall|x: T| #[trigger] r.contains(x) <==> s.contains(x) by {
        assert(r.to_multiset().count(x) > 0 <==> r.contains(x));
        assert(s.to_multiset().count(x) > 0 <==> s.contains(x));
    }
}

/// Of two numbers the first is no greater; a missing one stands before all
/// others.
pub open spec fn missing_first(a: Option<u64>, b: Option<u64>) -> bool {
    match (a, b) {
        (Some(x), Some(y)) => x <= y,
        (Some(_), None) => false,
        (None, _) => true,
    }
}

/// Two rows stand in ascending order of the very field that a column shows.
pub open spec fn fields_ascend(column: SortColumn, a: TrackInfo, b: TrackInfo) -> bool {
    match column {
        SortColumn::Number => missing_first(
            match a.track_number {
                Some(n) => Some(n as u64),
                None => None,
            },
            match b.track_number {
                Some(n) => Some(n as u64),
                None => None,
            },
        ),
        SortColumn::Name => !text_lt(lowercase_of(b.name@), lowercase_of(a.name@)),
        SortColumn::Artist => !text_lt(lowercase_of(b.artist@), lowercase_of(a.artist@)),
        SortColumn::Album => !text_lt(lowercase_of(b.album@), lowercase_of(a.album@)),
        SortColumn::Duration => missing_first(a.duration_ms, b.duration_ms),
        SortColumn::Format => match (a.kind, b.kind) {
            (Some(x), Some(y)) => !text_lt(y@, x@),
            (Some(_), None) => false,
            (None, _) => true,
        },
    }
}

/// Sorting the track table by a column puts the rows in the order of that very
/// field, ascending or descending, and keeps every row.
pub proof fn columns_sort_by_their_own_field(
    rows: Seq<TrackInfo>,
    column: SortColumn,
    i: int,
    j: int,
)
    requires
        0 <= i < j < rows.len(),
    ensures
        column_sorted(rows, column, true).len() == rows.len(),
        column_sorted(rows, column, false).len() == rows.len(),
        fields_ascend(
            column,
            column_sorted(rows, column, true)[i],
            column_sorted(rows, column, true)[j],
        ),
        fields_ascend(
            column,
            column_sorted(rows, column, false)[j],
            column_sorted(rows, column, false)[i],
        ),
        forall|r: TrackInfo|
            #![trigger rows.contains(r)]
            (column_sorted(rows, column, true).contains(r) <==> rows.contains(r)) && (column_sorted(
                rows,
                column,
                false,
            ).contains(r) <==> rows.contains(r)),
{
    let before = |a: TrackInfo, b: TrackInfo| column_before(column, a, b);
    let up = sorted(rows, before);
    column_order_is_an_order(column);
    sorting_sorts(rows, before);
    sorted_has_the_same(rows, before);
    assert(!before(up[j], up[i]));
    let n = rows.len() as int;
    let down = column_sorted(rows, column, false);
    assert(down[i] == up[n - 1 - i] && down[j] == up[n - 1 - j]);
    assert(!before(up[n - 1 - i], up[n - 1 - j]));
    assert forall|r: TrackInfo|
        #![trigger rows.contains(r)]
        (up.contains(r) <==> rows.contains(r)) && (down.contains(r) <==> rows.contains(r)) by {
        assert(up.contains(r) <==> rows.contains(r));
        if down.contains(r) {
            let k = down.index_of(r);
            assert(up[n - 1 - k] == r);
        }
        if up.contains(r) {
            let k = up.index_of(r);
            assert(down[n - 1 - k] == r);
        }
    }
}

/// After the table was sorted, its rows stand in the order of the column that is
/// chosen.
pub proof fn the_table_is_sorted_by_the_chosen_column(
    before: ListState,
    after: ListState,
    i: int,
    j: int,
)
    requires
        after.resorted(&before),
        0 <= i < j < before.track_list@.len(),
    ensures
        after.sort_column == before.sort_column && after.sort_ascending == before.sort_ascending,
        after.track_list@.len() == before.track_list@.len(),
        before.sort_ascending ==> fields_ascend(
            before.sort_column,
            after.track_list@[i],
            after.track_list@[j],
        ),
        !before.sort_ascending ==> fields_ascend(
            before.sort_column,
            after.track_list@[j],
            after.track_list@[i],
        ),
{
    columns_sort_by_their_own_field(before.track_list@, before.sort_column, i, j);
}

/// The columns come round from left to right: number, name, artist, album,
/// duration, format.
pub proof fn columns_come_in_the_order_of_the_table()
    ensures
        next_column(SortColumn::Number) == SortColumn::Name,
        next_column(SortColumn::Name) == SortColumn::Artist,
        next_column(SortColumn::Artist) == SortColumn::Album,
        next_column(SortColumn::Album) == SortColumn::Duration,
        next_column(SortColumn::Duration) == SortColumn::Format,
        next_column(SortColumn::Format) == SortColumn::Number,
{
}

/// Of two numbers the first is no greater; a missing one stands behind all
/// others.
pub open spec fn missing_last(a: Option<u32>, b: Option<u32>) -> bool {
    match (a, b) {
        (Some(x), Some(y)) => x <= y,
        (None, Some(_)) => false,
        (_, None) => true,
    }
}

/// The tracks of an album stand by disc, then by track number, what has none
/// behind; those without a number stand by name.
pub proof fn album_tracks_stand_by_disc_and_number(raw: Seq<TrackInfo>, i: int, j: int)
    requires
        0 <= i < j < raw.len(),
    ensures
        ({
            let s = sorted(raw, |a: TrackInfo, b: TrackInfo| album_before(a, b));
            &&& s.len() == raw.len()
            &&& missing_last(s[i].disc_number, s[j].disc_number)
            &&& s[i].disc_number == s[j].disc_number ==> missing_last(
                s[i].track_number,
                s[j].track_number,
            )
            &&& s[i].disc_number == s[j].disc_number && s[i].track_number is None
                && s[j].track_number is None ==> !text_lt(s[j].name@, s[i].name@)
        }),
        forall|r: TrackInfo|
            #![trigger raw.contains(r)]
            sorted(raw, |a: TrackInfo, b: TrackInfo| album_before(a, b)).contains(r)
                <==> raw.contains(r),
{
    let before = |a: TrackInfo, b: TrackInfo| album_before(a, b);
    album_order_is_an_order();
    sorting_sorts(raw, before);
    sorted_has_the_same(raw, before);
    let s = sorted(raw, before);
    assert(!before(s[j], s[i]));
}

proof fn year_order_is_an_order()
    ensures
        is_order(|a: AlbumInfo, b: AlbumInfo| year_before(a, b)),
{
    let before = |a: AlbumInfo, b: AlbumInfo| year_before(a, b);
    assert forall|a: AlbumInfo| !#[trigger] before(a, a) by {
        text_order_is_total(a.name@, a.name@);
    }
    assert forall|a: AlbumInfo, b: AlbumInfo| #[trigger] before(a, b) implies !before(b, a) by {
        text_order_is_total(a.name@, b.name@);
    }
    assert forall|a: AlbumInfo, b: AlbumInfo, c: AlbumInfo|
        #![trigger before(a, b), before(b, c)]
        !before(a, b) && !before(b, c) implies !before(a, c) by {
        text_order_is_total(a.name@, b.name@);
        text_order_is_total(b.name@, c.name@);
        text_order_is_total(a.name@, c.name@);
        if text_lt(b.name@, a.name@) && text_lt(c.name@, b.name@) {
            text_order_is_transitive(c.name@, b.name@, a.name@);
        }
    }
}

/// An album is known where a track of it is. Its year is that of the first track
/// of it that has one.
pub proof fn albums_take_their_year_from_a_track(tracks: Seq<Track>, album: Seq<char>)
    ensures
        album_years(tracks).contains_key(album) <==> exists|i: int|
            0 <= i < tracks.len() && (#[trigger] tracks[i]).album@ == album,
        forall|i: int|
            0 <= i < tracks.len() && (#[trigger] tracks[i]).album@ == album && tracks[i].year is Some
                && (forall|k: int|
                0 <= k < i && (#[trigger] tracks[k]).album@ == album ==> tracks[k].year is None)
                ==> album_years(tracks)[album] == tracks[i].year,
        (forall|i: int|
            0 <= i < tracks.len() && (#[trigger] tracks[i]).album@ == album ==> tracks[i].year is None)
            && album_years(tracks).contains_key(album) ==> album_years(tracks)[album] is None,
    decreases tracks.len(),
{
    if tracks.len() > 0 {
        let d = tracks.drop_last();
        let m = album_years(d);
        let t = tracks.last();
        albums_take_their_year_from_a_track(d, album);
        assert(tracks[tracks.len() - 1] == t);
        if exists|i: int| 0 <= i < d.len() && (#[trigger] d[i]).album@ == album {
            let i = choose|i: int| 0 <= i < d.len() && (#[trigger] d[i]).album@ == album;
            assert(tracks[i] == d[i]);
        }
        if exists|i: int| 0 <= i < tracks.len() && (#[trigger] tracks[i]).album@ == album {
            let i = choose|i: int| 0 <= i < tracks.len() && (#[trigger] tracks[i]).album@ == album;
            if i < d.len() {
                assert(d[i] == tracks[i]);
            }
        }
        assert forall|i: int|
            0 <= i < tracks.len() && (#[trigger] tracks[i]).album@ == album && tracks[i].year is Some
                && (forall|k: int|
                0 <= k < i && (#[trigger] tracks[k]).album@ == album ==> tracks[k].year is None) implies album_years(
            tracks,
        )[album] == tracks[i].year by {
            if i < d.len() {
                assert(d[i] == tracks[i]);
                assert forall|k: int| 0 <= k < i && (#[trigger] d[k]).album@ == album implies d[k].year is None by {
                    assert(tracks[k] == d[k]);
                }
            } else {
                assert forall|k: int| 0 <= k < d.len() && (#[trigger] d[k]).album@ == album implies d[k].year is None by {
                    assert(tracks[k] == d[k]);
                }
            }
        }
        if forall|i: int|
            0 <= i < tracks.len() && (#[trigger] tracks[i]).album@ == album ==> tracks[i].year is None {
            assert forall|k: int| 0 <= k < d.len() && (#[trigger] d[k]).album@ == album implies d[k].year is None by {
                assert(tracks[k] == d[k]);
            }
        }
    }
}

/// The albums of an artist are those of the artist's tracks, each once, oldest
/// first, those without a year last, and by name within a year.
pub proof fn artists_have_the_albums_of_their_tracks(
    list: Seq<AlbumInfo>,
    tracks: Seq<Track>,
    artist: String,
)
    requires
        are_artist_albums(list, tracks, artist),
    ensures
        forall|i: int|
            0 <= i < list.len() ==> (#[trigger] list[i]).artist == artist && album_years(
                tracks,
            ).contains_key(list[i].name@) && list[i].year == album_years(tracks)[list[i].name@]
                && is_album_of(tracks, list[i].name@),
        forall|k: int| #![trigger tracks[k]] 0 <= k < tracks.len() ==> names_album(list, tracks[k].album@),
        forall|i: int, j: int|
            0 <= i < j < list.len() ==> {
                &&& missing_last((#[trigger] list[i]).year, (#[trigger] list[j]).year)
                &&& list[i].year == list[j].year ==> text_lt(list[i].name@, list[j].name@)
                    || list[i].name@ == list[j].name@
            },
{
    let before = |a: AlbumInfo, b: AlbumInfo| year_before(a, b);
    let raw = choose|raw: Seq<AlbumInfo>|
        #[trigger] are_albums(raw, album_years(tracks), artist) && list == sorted(
            raw,
            |a: AlbumInfo, b: AlbumInfo| year_before(a, b),
        );
    assert(list == sorted(raw, before));
    year_order_is_an_order();
    sorting_sorts(raw, before);
    sorted_has_the_same(raw, before);
    assert forall|i: int| 0 <= i < list.len() implies (#[trigger] list[i]).artist == artist
        && album_years(tracks).contains_key(list[i].name@) && list[i].year == album_years(
        tracks,
    )[list[i].name@] && is_album_of(tracks, list[i].name@) by {
        assert(list.contains(list[i]));
        let k = raw.index_of(list[i]);
        assert(raw[k] == list[i]);
        albums_take_their_year_from_a_track(tracks, list[i].name@);
    }
    assert forall|k: int| #![trigger tracks[k]] 0 <= k < tracks.len() implies names_album(
        list,
        tracks[k].album@,
    ) by {
        albums_take_their_year_from_a_track(tracks, tracks[k].album@);
        assert(album_years(tracks).contains_key(tracks[k].album@));
        let i = choose|i: int|
            0 <= i < raw.len() && (#[trigger] raw[i]).name@ == tracks[k].album@;
        assert(raw.contains(raw[i]));
        assert(list.contains(raw[i]));
        let q = list.index_of(raw[i]);
        assert(list[q].name@ == tracks[k].album@);
    }
    assert forall|i: int, j: int| 0 <= i < j < list.len() implies {
        &&& missing_last((#[trigger] list[i]).year, (#[trigger] list[j]).year)
        &&& list[i].year == list[j].year ==> text_lt(list[i].name@, list[j].name@) || list[i].name@
            == list[j].name@
    } by {
        assert(!before(list[j], list[i]));
        text_order_is_total(list[i].name@, list[j].name@);
    }
}

/// One of the tracks is of the album.
pub open spec fn is_album_of(tracks: Seq<Track>, album: Seq<char>) -> bool {
    exists|k: int| 0 <= k < tracks.len() && (#[trigger] tracks[k]).album@ == album
}

/// One of the albums has the name.
pub open spec fn names_album(list: Seq<AlbumInfo>, album: Seq<char>) -> bool {
    exists|i: int| 0 <= i < list.len() && (#[trigger] list[i]).name@ == album
}

/// The tracks of an artist, of an album, and of an artist's album are those of
/// the library that say so, all of them.
pub proof fn library_queries_find_what_they_name(
    library: Library,
    artist: String,
    album: String,
    x: Track,
)
    ensures
        library.by_artist(artist@).contains(x) <==> library.tracks@.contains(x) && x.artist@ == artist@,
        library.by_album(album@).contains(x) <==> library.tracks@.contains(x) && x.album@ == album@,
        library.by_artist_album(artist@, album@).contains(x) <==> library.tracks@.contains(x)
            && x.artist@ == artist@ && x.album@ == album@,
{
    filtered_has(library.tracks@, |t: Track| t.artist@ == artist@);
    filtered_has(library.tracks@, |t: Track| t.album@ == album@);
    filtered_has(library.tracks@, |t: Track| t.artist@ == artist@ && t.album@ == album@);
}

/// A lookup by id finds the last track of that id, and finds one wherever there
/// is one.
pub proof fn ids_find_their_track(tracks: Seq<Track>, id: u64)
    ensures
        match track_with_id(tracks, id) {
            Some(t) => t.id == id && exists|i: int|
                0 <= i < tracks.len() && #[trigger] tracks[i] == t && forall|k: int|
                    i < k < tracks.len() ==> (#[trigger] tracks[k]).id != id,
            None => forall|k: int| 0 <= k < tracks.len() ==> (#[trigger] tracks[k]).id != id,
        },
    decreases tracks.len(),
{
    if tracks.len() > 0 {
        let d = tracks.drop_last();
        ids_find_their_track(d, id);
        assert(tracks[tracks.len() - 1] == tracks.last());
        if tracks.last().id != id {
            match track_with_id(d, id) {
                Some(t) => {
                    let i = choose|i: int|
                        0 <= i < d.len() && #[trigger] d[i] == t && forall|k: int|
                            i < k < d.len() ==> (#[trigger] d[k]).id != id;
                    assert(tracks[i] == t);
                    assert forall|k: int| i < k < tracks.len() implies (#[trigger] tracks[k]).id != id by {
                        if k < d.len() {
                            assert(d[k] == tracks[k]);
                        }
                    }
                },
                None => {
                    assert forall|k: int| 0 <= k < tracks.len() implies (#[trigger] tracks[k]).id
                        != id by {
                        if k < d.len() {
                            assert(d[k] == tracks[k]);
                        }
                    }
                },
            }
        }
    }
}

/// Some track has the id.
pub open spec fn library_has(tracks: Seq<Track>, id: u64) -> bool {
    exists|i: int| 0 <= i < tracks.len() && (#[trigger] tracks[i]).id == id
}

/// A playlist lists its tracks in its own order, without those that the library
/// no longer has.
pub proof fn playlists_keep_their_order(ids: Seq<u64>, tracks: Seq<Track>)
    ensures
        resolved(ids, tracks).map_values(|t: Track| t.id) == ids.filter(
            |id: u64| library_has(tracks, id),
        ),
        forall|i: int|
            0 <= i < resolved(ids, tracks).len() ==> tracks.contains(
                #[trigger] resolved(ids, tracks)[i],
            ),
    decreases ids.len(),
{
    reveal(Seq::filter);
    let p = |id: u64| library_has(tracks, id);
    let f = |t: Track| t.id;
    let all = resolved(ids, tracks);
    if ids.len() == 0 {
        assert(all.map_values(f) =~= ids.filter(p));
    } else {
        let d = ids.drop_last();
        let rest = resolved(d, tracks);
        playlists_keep_their_order(d, tracks);
        ids_find_their_track(tracks, ids.last());
        match track_with_id(tracks, ids.last()) {
            Some(t) => {
                assert(p(ids.last()));
                assert(rest.push(t).map_values(f) =~= rest.map_values(f).push(t.id));
                assert forall|i: int| 0 <= i < all.len() implies tracks.contains(#[trigger] all[i]) by {
                    if i < rest.len() {
                        assert(all[i] == rest[i]);
                    }
                }
            },
            None => {
                assert(!p(ids.last()));
            },
        }
    }
}

/// The art of the listed tracks is looked for in their files, in order.
pub proof fn art_is_looked_for_in_the_files(rows: Seq<TrackInfo>, path: Seq<char>)
    ensures
        row_paths(rows).contains(path) <==> exists|i: int|
            0 <= i < rows.len() && (#[trigger] rows[i]).location is Some && rows[i].location->0@ == path,
    decreases rows.len(),
{
    let all = row_paths(rows);
    if rows.len() > 0 {
        let d = rows.drop_last();
        let rest = row_paths(d);
        art_is_looked_for_in_the_files(d, path);
        assert(rows[rows.len() - 1] == rows.last());
        if rest.contains(path) {
            let k = rest.index_of(path);
            assert(all[k] == path);
            let i = choose|i: int|
                0 <= i < d.len() && (#[trigger] d[i]).location is Some && d[i].location->0@ == path;
            assert(rows[i] == d[i]);
        }
        if all.contains(path) {
            let k = all.index_of(path);
            if k < rest.len() {
                assert(rest[k] == path);
            }
        }
        if exists|i: int|
            0 <= i < rows.len() && (#[trigger] rows[i]).location is Some && rows[i].location->0@ == path {
            let i = choose|i: int|
                0 <= i < rows.len() && (#[trigger] rows[i]).location is Some && rows[i].location->0@
                    == path;
            if i < d.len() {
                assert(d[i] == rows[i]);
            } else {
                assert(all[all.len() - 1] == path);
            }
        }
    }
}

/// The row says what its library track says; it is marked where the connected
/// device holds the track, and shows the track's own plays.
pub proof fn library_rows_stand_for_their_track(
    r: TrackInfo,
    t: Track,
    device: DeviceState,
    plays: Map<u64, PlayStats>,
    key: Option<Seq<char>>,
)
    requires
        is_library_row(r, t, device, plays, key),
    ensures
        r.library_id == Some(t.id),
        r.name == t.name && r.artist == t.artist && r.album == t.album && r.location == t.location,
        r.duration_ms == t.total_time_ms && r.track_number == t.track_number && r.disc_number
            == t.disc_number && r.genre == t.genre && r.kind == t.kind,
        r.artist_key@ == match_key(t.artist@) && r.name_key@ == match_key(t.name@),
        device.status != DeviceStatus::Connected ==> !r.on_device && r.rating is None
            && r.last_synced_from_device_at_ms is None,
        device.status == DeviceStatus::Connected && device.track_set@.contains(
            (match_key(t.artist@), match_key(t.name@)),
        ) ==> r.on_device,
        plays.contains_key(t.id) ==> r.play_count == Some(plays[t.id].play_count),
        plays.contains_key(t.id) && plays[t.id].skip_count > 0 ==> r.skip_count == Some(
            plays[t.id].skip_count,
        ),
        plays.contains_key(t.id) && plays[t.id].last_played_at_ms > 0 ==> r.last_played_at_ms == Some(
            plays[t.id].last_played_at_ms,
        ),
        !plays.contains_key(t.id) ==> r.play_count is None && r.skip_count is None
            && r.last_played_at_ms is None,
        r.on_device && key is Some && plays.contains_key(t.id)
            && plays[t.id].device_baselines.contains_key(key->0) ==> r.last_synced_from_device_at_ms
            == Some(plays[t.id].device_baselines[key->0].last_synced_at_ms),
        r.on_device && device.track_metadata@.contains_key((match_key(t.artist@), match_key(t.name@)))
            ==> r.rating == device.track_metadata@[(match_key(t.artist@), match_key(t.name@))].1,
{
}

/// A track is taken to be on the device only where the device is connected and
/// has it under its very keys, or has one by the artist whose name holds the
/// name or is held by it; and it is wherever the device has its very keys.
pub proof fn tracks_on_the_device_are_the_artists(
    device: DeviceState,
    artist: Seq<char>,
    name: Seq<char>,
)
    ensures
        device.holds(artist, name) ==> device.status == DeviceStatus::Connected && (
        device.track_set@.contains((artist, name)) || device.index().artist_track_names.contains_key(
            artist,
        ) && exists|i: int|
            0 <= i < device.index().artist_track_names[artist].len() && (has_substring(
                #[trigger] device.index().artist_track_names[artist][i],
                name,
            ) || has_substring(name, device.index().artist_track_names[artist][i]))),
        device.status == DeviceStatus::Connected && device.track_set@.contains((artist, name))
            ==> device.holds(artist, name),
        device.status == DeviceStatus::Connected && device.track_set@.len() > 0
            && device.track_set@.finite() && device.index().artist_track_names.contains_key(artist)
            && (exists|i: int|
            0 <= i < device.index().artist_track_names[artist].len() && (has_substring(
                #[trigger] device.index().artist_track_names[artist][i],
                name,
            ) || has_substring(name, device.index().artist_track_names[artist][i]))) ==> device.holds(
            artist,
            name,
        ),
{
    if device.track_set@ == Set::<(Seq<char>, Seq<char>)>::empty() {
        assert(device.track_set@.len() == 0);
    }
}

/// The library track behind a device file is by its artist and has its name, or
/// its name without a track number, in whatever case; a track of the very name
/// comes before one of the shortened name.
pub proof fn device_files_stand_for_a_track_of_their_name(
    tracks: Seq<Track>,
    artist: Seq<char>,
    name: Seq<char>,
)
    ensures
        library_track_for(tracks, artist, name) matches Some(t) ==> tracks.contains(t)
            && same_ignoring_case(t.artist@, artist) && (same_ignoring_case(t.name@, name)
            || same_ignoring_case(t.name@, without_track_number(trimmed(name)))),
        forall|i: int|
            0 <= i < tracks.len() && same_ignoring_case((#[trigger] tracks[i]).artist@, artist)
                && same_ignoring_case(tracks[i].name@, name) ==> library_track_for(
                tracks,
                artist,
                name,
            ) is Some && same_ignoring_case(library_track_for(tracks, artist, name)->0.name@, name),
        forall|i: int|
            0 <= i < tracks.len() && same_ignoring_case((#[trigger] tracks[i]).artist@, artist)
                && same_ignoring_case(tracks[i].name@, without_track_number(trimmed(name)))
                ==> library_track_for(tracks, artist, name) is Some,
{
    let bare = without_track_number(trimmed(name));
    let p = |t: Track| is_title_by(t, name, artist);
    let q = |t: Track| is_title_by(t, bare, artist);
    the_first_is_found(tracks, p);
    the_first_is_found(tracks, q);
    assert forall|i: int|
        0 <= i < tracks.len() && same_ignoring_case((#[trigger] tracks[i]).artist@, artist)
            && same_ignoring_case(tracks[i].name@, name) implies library_track_for(
        tracks,
        artist,
        name,
    ) is Some && same_ignoring_case(library_track_for(tracks, artist, name)->0.name@, name) by {
        assert(p(tracks[i]));
    }
    assert forall|i: int|
        0 <= i < tracks.len() && same_ignoring_case((#[trigger] tracks[i]).artist@, artist)
            && same_ignoring_case(tracks[i].name@, bare) implies library_track_for(
        tracks,
        artist,
        name,
    ) is Some by {
        assert(q(tracks[i]));
    }
}

/// A device row says what the file says; its plays are those counted for the
/// library track behind it, and else the device's own.
pub proof fn device_rows_stand_for_their_file(
    r: TrackInfo,
    dt: DeviceTrackInfo,
    library: Option<Library>,
    plays: Map<u64, PlayStats>,
    key: Option<Seq<char>>,
)
    requires
        is_device_row(r, dt, library, plays, key),
    ensures
        r.name == dt.name && r.artist == dt.artist && r.album == dt.album && r.track_number
            == dt.track_number && r.disc_number == dt.disc_number && r.rating == dt.rating,
        r.location is None,
        dt.duration_ms is Some ==> r.duration_ms == dt.duration_ms,
        library is None ==> r.library_id is None && r.play_count == dt.play_count,
        library matches Some(l) ==> {
            let track = library_track_for(l.tracks@, dt.artist@, dt.name@);
            &&& track is None ==> r.library_id is None && r.play_count == dt.play_count
            &&& track matches Some(t) ==> {
                &&& r.library_id == Some(t.id)
                &&& plays.contains_key(t.id) ==> r.play_count == Some(plays[t.id].play_count)
                &&& !plays.contains_key(t.id) ==> r.play_count == dt.play_count
                &&& dt.duration_ms is None ==> r.duration_ms == t.total_time_ms
            }
        },
        r.artist_key@ == match_key(dt.artist@) && r.name_key@ == match_key(dt.name@),
{
}

/// The text of the row holds the query: an artist's or a playlist's name, or
/// artist and album with a line break between them.
pub open spec fn row_holds(r: SidebarRow, query: Seq<char>) -> bool {
    match r {
        SidebarRow::Artist(a) => has_substring(lowercase_of(a), query),
        SidebarRow::Album(a, b) => has_substring(lowercase_of(a).push('\n') + lowercase_of(b), query),
        SidebarRow::Playlist(_, n) => has_substring(lowercase_of(n), query),
    }
}

proof fn found_is_filtered(rows: Seq<SidebarRow>, lower: Seq<Seq<char>>, query: Seq<char>, n: int)
    requires
        0 <= n <= rows.len(),
        lower == search_texts(rows),
    ensures
        found(rows, lower, query, n) == rows.take(n).filter(|r: SidebarRow| row_holds(r, query)),
    decreases n,
{
    reveal(Seq::filter);
    let p = |r: SidebarRow| row_holds(r, query);
    if n > 0 {
        found_is_filtered(rows, lower, query, n - 1);
        assert(rows.take(n).drop_last() =~= rows.take(n - 1));
        assert(rows.take(n).last() == rows[n - 1]);
        assert(lower[n - 1] == rows[n - 1].search_text());
    } else {
        assert(rows.take(0).filter(p) =~= Seq::<SidebarRow>::empty());
    }
}

/// A search shows, in order, just those entries of the full list whose text
/// holds what was typed, in whatever case; without one the full list is shown.
pub proof fn a_search_shows_what_holds_the_query(nav: NavState)
    requires
        texts(nav.sidebar_lowercase_full@) == search_texts(entry_rows(nav.sidebar_items_full@)),
    ensures
        nav.search_active && nav.search_query@.len() > 0 ==> nav.shown() == entry_rows(
            nav.sidebar_items_full@,
        ).filter(|r: SidebarRow| row_holds(r, lowercase_of(nav.search_query@))),
        !nav.search_active || nav.search_query@.len() == 0 ==> nav.shown() == entry_rows(
            nav.sidebar_items_full@,
        ),
{
    let rows = entry_rows(nav.sidebar_items_full@);
    let lower = texts(nav.sidebar_lowercase_full@);
    let n = rows.len() as int;
    assert(lower.len() == search_texts(rows).len());
    found_is_filtered(rows, lower, lowercase_of(nav.search_query@), n);
    assert(rows.take(n) =~= rows);
}

/// The sidebar of the library lists its artists, or its albums, in its order;
/// that of the device the device's artists; that of the playlists one entry for
/// each.
pub proof fn the_sidebar_lists_its_source(
    browse: BrowseMode,
    sidebar: SidebarMode,
    library: Option<Library>,
    device: DeviceState,
    store: PlaylistStore,
    entries: Seq<SidebarEntry>,
    i: int,
)
    requires
        is_source(browse, sidebar, library, device, store, entries),
        0 <= i < entries.len(),
    ensures
        browse == BrowseMode::Library ==> library is Some,
        browse == BrowseMode::Library && sidebar == SidebarMode::Artists ==> entries.len()
            == library->0.artists@.len() && entries[i]@ == SidebarRow::Artist(
            library->0.artists@[i]@,
        ),
        browse == BrowseMode::Library && sidebar == SidebarMode::Albums ==> entries.len()
            == library->0.albums@.len() && entries[i]@ == SidebarRow::Album(
            library->0.albums@[i].0@,
            library->0.albums@[i].1@,
        ),
        browse == BrowseMode::Device && sidebar == SidebarMode::Artists ==> entries.len()
            == device.artists@.len() && entries[i]@ == SidebarRow::Artist(device.artists@[i]@),
        browse == BrowseMode::Playlists ==> entries.len() == store.playlists@.len()
            && entry_of_playlist(store.playlists@, entries[i]@),
{
    let rows = entry_rows(entries);
    assert(rows[i] == entries[i]@);
    if browse == BrowseMode::Library && sidebar == SidebarMode::Artists {
        let f = |a: Seq<char>| SidebarRow::Artist(a);
        assert(rows == texts(library->0.artists@).map_values(f));
        assert(rows[i] == f(texts(library->0.artists@)[i]));
        assert(rows[i] == SidebarRow::Artist(texts(library->0.artists@)[i]));
    } else if browse == BrowseMode::Library {
        let f = |p: (String, String)| SidebarRow::Album(p.0@, p.1@);
        assert(rows == library->0.albums@.map_values(f));
        assert(rows[i] == f(library->0.albums@[i]));
        assert(rows[i] == SidebarRow::Album(library->0.albums@[i].0@, library->0.albums@[i].1@));
    } else if browse == BrowseMode::Device && sidebar == SidebarMode::Artists {
        let f = |a: Seq<char>| SidebarRow::Artist(a);
        assert(rows == texts(device.artists@).map_values(f));
        assert(rows[i] == f(texts(device.artists@)[i]));
        assert(rows[i] == SidebarRow::Artist(texts(device.artists@)[i]));
    } else if browse == BrowseMode::Playlists {
        playlist_entries(store.playlists@, i);
    }
}

/// The row is the entry of one of the playlists.
pub open spec fn entry_of_playlist(s: Seq<Playlist>, r: SidebarRow) -> bool {
    exists|k: int| 0 <= k < s.len() && r == SidebarRow::Playlist((#[trigger] s[k]).id, s[k].name@)
}

proof fn playlist_entries(s: Seq<Playlist>, i: int)
    requires
        0 <= i < playlist_rows(s).len(),
    ensures
        playlist_rows(s).len() == s.len(),
        entry_of_playlist(s, playlist_rows(s)[i]),
{
    let raw = s.map_values(|p: Playlist| key_of(p));
    let before = |a: PlaylistKey, b: PlaylistKey| crate::app::sidebar::playlist_before(a, b);
    sorted_has_the_same(raw, before);
    let keys = playlist_keys(s);
    assert(keys.contains(keys[i]));
    let k = raw.index_of(keys[i]);
    assert(raw[k] == key_of(s[k]));
    assert(playlist_rows(s)[i] == SidebarRow::Playlist(keys[i].id, keys[i].name@));
    assert(playlist_rows(s)[i] == SidebarRow::Playlist(s[k].id, s[k].name@));
}

/// Every playlist has an entry.
pub proof fn every_playlist_has_an_entry(s: Seq<Playlist>, k: int)
    requires
        0 <= k < s.len(),
    ensures
        playlist_rows(s).contains(SidebarRow::Playlist(s[k].id, s[k].name@)),
{
    let raw = s.map_values(|p: Playlist| key_of(p));
    let before = |a: PlaylistKey, b: PlaylistKey| crate::app::sidebar::playlist_before(a, b);
    sorted_has_the_same(raw, before);
    let keys = playlist_keys(s);
    assert(raw[k] == key_of(s[k]));
    assert(raw.contains(raw[k]));
    assert(keys.contains(raw[k]));
    let i = keys.index_of(raw[k]);
    assert(playlist_rows(s)[i] == SidebarRow::Playlist(keys[i].id, keys[i].name@));
}

proof fn pairs_are_the_albums(
    artists: Seq<Seq<char>>,
    albums: Map<Seq<char>, Vec<String>>,
    n: int,
    r: SidebarRow,
)
    requires
        n <= artists.len(),
    ensures
        album_pairs(artists, albums, n).contains(r) <==> exists|k: int|
            0 <= k < n && (r matches SidebarRow::Album(a, b) && a == #[trigger] artists[k] && texts(
                albums[a]@,
            ).contains(b)),
    decreases n,
{
    let all = album_pairs(artists, albums, n);
    if n > 0 {
        let a = artists[n - 1];
        let rest = album_pairs(artists, albums, n - 1);
        let names = texts(albums[a]@);
        let f = |album: Seq<char>| SidebarRow::Album(a, album);
        let mine = names.map_values(f);
        assert(all == rest + mine);
        pairs_are_the_albums(artists, albums, n - 1, r);
        if all.contains(r) {
            let i = all.index_of(r);
            if i < rest.len() {
                assert(rest[i] == r);
                assert(rest.contains(r));
            } else {
                assert(mine[i - rest.len()] == r);
                assert(r == SidebarRow::Album(a, names[i - rest.len()]));
                assert(names.contains(names[i - rest.len()]));
                assert(artists[n - 1] == a);
            }
        }
        if exists|k: int|
            0 <= k < n && (r matches SidebarRow::Album(a, b) && a == #[trigger] artists[k] && texts(
                albums[a]@,
            ).contains(b)) {
            let k = choose|k: int|
                0 <= k < n && (r matches SidebarRow::Album(a, b) && a == #[trigger] artists[k] && texts(
                    albums[a]@,
                ).contains(b));
            if k < n - 1 {
                assert(rest.contains(r));
                let i = rest.index_of(r);
                assert(all[i] == r);
            } else {
                let b = r->Album_1;
                let i = names.index_of(b);
                assert(mine[i] == r);
                assert(all[rest.len() + i] == r);
            }
        }
    }
}

proof fn entry_order_is_an_order_on_albums(a: SidebarEntry, b: SidebarEntry, c: SidebarEntry)
    requires
        a is Album && b is Album && c is Album,
    ensures
        !entry_before(a, a),
        entry_before(a, b) ==> !entry_before(b, a),
        !entry_before(a, b) && !entry_before(b, c) ==> !entry_before(a, c),
{
    let x = (a->artist@, a->album@);
    let y = (b->artist@, b->album@);
    let z = (c->artist@, c->album@);
    text_order_is_total(x.0, y.0);
    text_order_is_total(y.0, z.0);
    text_order_is_total(x.0, z.0);
    text_order_is_total(x.1, x.1);
    text_order_is_total(x.1, y.1);
    text_order_is_total(y.1, z.1);
    text_order_is_total(x.1, z.1);
    if text_lt(y.0, x.0) && text_lt(z.0, y.0) {
        text_order_is_transitive(z.0, y.0, x.0);
    }
    if text_lt(y.1, x.1) && text_lt(z.1, y.1) {
        text_order_is_transitive(z.1, y.1, x.1);
    }
}

/// The album entries of the device are the albums that it lists for its artists,
/// all of them and nothing else.
pub proof fn the_device_lists_its_albums(
    entries: Seq<SidebarEntry>,
    albums: OrdMap<String, Vec<String>>,
    artist: Seq<char>,
    album: Seq<char>,
)
    requires
        are_device_albums(entries, albums),
    ensures
        (exists|i: int|
            0 <= i < entries.len() && (#[trigger] entries[i])@ == SidebarRow::Album(artist, album))
            <==> albums.keys().contains(artist) && texts(albums@[artist]@).contains(album),
{
    let before = |a: SidebarEntry, b: SidebarEntry| entry_before(a, b);
    let raw = choose|raw: Seq<SidebarEntry>|
        #[trigger] entry_rows(raw) == album_pairs(
            albums.keys(),
            albums@,
            albums.keys().len() as int,
        ) && entries == sorted(raw, |a: SidebarEntry, b: SidebarEntry| entry_before(a, b));
    assert(entries == sorted(raw, before));
    sorted_has_the_same(raw, before);
    let n = albums.keys().len() as int;
    let r = SidebarRow::Album(artist, album);
    pairs_are_the_albums(albums.keys(), albums@, n, r);
    let rows = entry_rows(raw);
    if exists|i: int|
        0 <= i < entries.len() && (#[trigger] entries[i])@ == SidebarRow::Album(artist, album) {
        let i = choose|i: int| 0 <= i < entries.len() && (#[trigger] entries[i])@ == r;
        assert(entries.contains(entries[i]));
        let k = raw.index_of(entries[i]);
        assert(rows[k] == r);
        assert(rows.contains(r));
    }
    if albums.keys().contains(artist) && texts(albums@[artist]@).contains(album) {
        let k = albums.keys().index_of(artist);
        assert(artist == albums.keys()[k]);
        assert(rows.contains(r));
        let q = rows.index_of(r);
        assert(rows[q] == raw[q]@);
        assert(raw.contains(raw[q]));
        assert(entries.contains(raw[q]));
        let i = entries.index_of(raw[q]);
        assert(entries[i]@ == r);
    }
}

/// Listing an album lists just the tracks that the library has of that artist
/// and album, all of them.
pub proof fn a_listed_album_is_complete(before: App, after: App)
    requires
        after.album_listed(&before),
        before.lists.album_selected < before.lists.album_list@.len(),
        before.nav.browse_mode != BrowseMode::Device,
        before.library is Some,
    ensures
        ({
            let album = before.lists.album_list@[before.lists.album_selected as int];
            &&& forall|i: int|
                0 <= i < after.lists.track_list@.len() ==> (#[trigger] after.lists.track_list@[i]).artist@
                    == album.artist@ && after.lists.track_list@[i].album@ == album.name@
                    && after.lists.track_list@[i].library_id is Some
            &&& forall|k: int|
                0 <= k < before.library->0.tracks@.len() && (
                #[trigger] before.library->0.tracks@[k]).artist@ == album.artist@
                    && before.library->0.tracks@[k].album@ == album.name@ ==> lists_id(
                    after.lists.track_list@,
                    before.library->0.tracks@[k].id,
                )
            &&& after.lists.track_selected == 0
        }),
{
    let album = before.lists.album_list@[before.lists.album_selected as int];
    let tracks = before.library->0.by_artist_album(album.artist@, album.name@);
    let order = |a: TrackInfo, b: TrackInfo| album_before(a, b);
    let raw = choose|raw: Seq<TrackInfo>|
        #[trigger] before.are_raw_album_rows(raw, album) && after.lists.track_list@ == sorted(
            raw,
            |a: TrackInfo, b: TrackInfo| album_before(a, b),
        );
    let rows = after.lists.track_list@;
    assert(rows == sorted(raw, order));
    sorted_has_the_same(raw, order);
    filtered_has(
        before.library->0.tracks@,
        |t: Track| t.artist@ == album.artist@ && t.album@ == album.name@,
    );
    assert forall|i: int| 0 <= i < rows.len() implies (#[trigger] rows[i]).artist@ == album.artist@
        && rows[i].album@ == album.name@ && rows[i].library_id is Some by {
        assert(rows.contains(rows[i]));
        let k = raw.index_of(rows[i]);
        assert(raw[k] == rows[i]);
        assert(tracks.contains(tracks[k]));
    }
    assert forall|k: int|
        0 <= k < before.library->0.tracks@.len() && (#[trigger] before.library->0.tracks@[k]).artist@
            == album.artist@ && before.library->0.tracks@[k].album@ == album.name@ implies lists_id(
        rows,
        before.library->0.tracks@[k].id,
    ) by {
        let t = before.library->0.tracks@[k];
        assert(before.library->0.tracks@.contains(t));
        assert(tracks.contains(t));
        let q = tracks.index_of(t);
        assert(raw[q].library_id == Some(t.id));
        assert(raw.contains(raw[q]));
        assert(rows.contains(raw[q]));
        let i = rows.index_of(raw[q]);
        assert(rows[i].library_id == Some(t.id));
    }
}

/// One of the rows is that of the library track.
pub open spec fn lists_id(rows: Seq<TrackInfo>, id: u64) -> bool {
    exists|i: int| 0 <= i < rows.len() && (#[trigger] rows[i]).library_id == Some(id)
}

/// Listing an artist of the library puts up the albums of that artist's tracks.
pub proof fn a_listed_artist_has_its_own_albums(before: App, after: App, artist: String)
    requires
        after.artist_listed(&before, artist),
        before.library is Some,
    ensures
        forall|i: int|
            0 <= i < after.lists.album_list@.len() ==> (#[trigger] after.lists.album_list@[i]).artist
                == artist && album_by(
                before.library->0.tracks@,
                artist@,
                after.lists.album_list@[i].name@,
            ),
        forall|k: int|
            0 <= k < before.library->0.tracks@.len() && (#[trigger] before.library->0.tracks@[k]).artist@
                == artist@ ==> names_album(
                after.lists.album_list@,
                before.library->0.tracks@[k].album@,
            ),
        after.lists.album_selected == 0,
{
    let tracks = before.library->0.by_artist(artist@);
    let mid = choose|mid: App| #[trigger]
        mid.albums_put(&before) && are_artist_albums(
            mid.lists.album_list@,
            before.library->0.by_artist(artist@),
            artist,
        ) && after.album_listed(&mid);
    let list = mid.lists.album_list@;
    assert(after.lists.album_list == mid.lists.album_list);
    artists_have_the_albums_of_their_tracks(list, tracks, artist);
    filtered_has(before.library->0.tracks@, |t: Track| t.artist@ == artist@);
    assert forall|i: int| 0 <= i < list.len() implies (#[trigger] list[i]).artist == artist && album_by(
        before.library->0.tracks@,
        artist@,
        list[i].name@,
    ) by {
        assert(is_album_of(tracks, list[i].name@));
        let k = choose|k: int| 0 <= k < tracks.len() && (#[trigger] tracks[k]).album@ == list[i].name@;
        assert(tracks.contains(tracks[k]));
        let q = before.library->0.tracks@.index_of(tracks[k]);
        assert(before.library->0.tracks@[q].album@ == list[i].name@);
    }
    assert forall|k: int|
        0 <= k < before.library->0.tracks@.len() && (#[trigger] before.library->0.tracks@[k]).artist@
            == artist@ implies names_album(list, before.library->0.tracks@[k].album@) by {
        let t = before.library->0.tracks@[k];
        assert(before.library->0.tracks@.contains(t));
        assert(tracks.contains(t));
        let q = tracks.index_of(t);
        assert(tracks[q].album@ == t.album@);
    }
}

/// One of the tracks is by the artist and of the album.
pub open spec fn album_by(tracks: Seq<Track>, artist: Seq<char>, album: Seq<char>) -> bool {
    exists|k: int|
        0 <= k < tracks.len() && (#[trigger] tracks[k]).album@ == album && tracks[k].artist@ == artist
}

/// The album entries of the device stand by artist, and by album within an
/// artist.
pub proof fn device_albums_stand_by_artist(raw: Seq<SidebarEntry>, i: int, j: int)
    requires
        0 <= i < j < raw.len(),
        forall|k: int| 0 <= k < raw.len() ==> (#[trigger] raw[k]) is Album,
    ensures
        ({
            let s = sorted(raw, |a: SidebarEntry, b: SidebarEntry| entry_before(a, b));
            &&& s[i] is Album && s[j] is Album
            &&& !text_lt(s[j]->artist@, s[i]->artist@)
            &&& s[i]->artist@ == s[j]->artist@ ==> !text_lt(s[j]->album@, s[i]->album@)
        }),
{
    let given = |a: SidebarEntry, b: SidebarEntry| entry_before(a, b);
    let before = |a: SidebarEntry, b: SidebarEntry|
        if a is Album && b is Album {
            entry_before(a, b)
        } else {
            a is Album && !(b is Album)
        };
    assert(is_order(before)) by {
        assert forall|a: SidebarEntry| !#[trigger] before(a, a) by {
            if a is Album {
                entry_order_is_an_order_on_albums(a, a, a);
            }
        }
        assert forall|a: SidebarEntry, b: SidebarEntry| #[trigger] before(a, b) implies !before(b, a) by {
            if a is Album && b is Album {
                entry_order_is_an_order_on_albums(a, b, b);
            }
        }
        assert forall|a: SidebarEntry, b: SidebarEntry, c: SidebarEntry|
            #![trigger before(a, b), before(b, c)]
            !before(a, b) && !before(b, c) implies !before(a, c) by {
            if a is Album && b is Album && c is Album {
                entry_order_is_an_order_on_albums(a, b, c);
            }
        }
    }
    sorted_alike(raw, given, before);
    sorting_sorts(raw, before);
    sorted_has_the_same(raw, before);
    let s = sorted(raw, before);
    assert(s.contains(s[i]) && s.contains(s[j]));
    let p = raw.index_of(s[i]);
    let q = raw.index_of(s[j]);
    assert(raw[p] is Album && raw[q] is Album);
    assert(!before(s[j], s[i]));
    assert(s == sorted(raw, given));
    assert(s[i] is Album && s[j] is Album);
    text_order_is_total(s[i]->artist@, s[j]->artist@);
}

proof fn inserted_alike(
    s: Seq<SidebarEntry>,
    x: SidebarEntry,
    f: spec_fn(SidebarEntry, SidebarEntry) -> bool,
    g: spec_fn(SidebarEntry, SidebarEntry) -> bool,
)
    requires
        x is Album,
        forall|k: int| 0 <= k < s.len() ==> (#[trigger] s[k]) is Album,
        forall|a: SidebarEntry, b: SidebarEntry| a is Album && b is Album ==> #[trigger] f(a, b) == #[trigger] g(a, b),
    ensures
        crate::sort::insert_in(s, x, f) == crate::sort::insert_in(s, x, g),
    decreases s.len(),
{
    if s.len() > 0 {
        assert(s[s.len() - 1] is Album);
        inserted_alike(s.drop_last(), x, f, g);
    }
}

proof fn sorted_alike(
    s: Seq<SidebarEntry>,
    f: spec_fn(SidebarEntry, SidebarEntry) -> bool,
    g: spec_fn(SidebarEntry, SidebarEntry) -> bool,
)
    requires
        forall|k: int| 0 <= k < s.len() ==> (#[trigger] s[k]) is Album,
        forall|a: SidebarEntry, b: SidebarEntry| a is Album && b is Album ==> #[trigger] f(a, b) == #[trigger] g(a, b),
    ensures
        sorted(s, f) == sorted(s, g),
    decreases s.len(),
{
    if s.len() > 0 {
        let d = s.drop_last();
        sorted_alike(d, f, g);
        sorted_has_the_same(d, f);
        let r = sorted(d, f);
        assert forall|k: int| 0 <= k < r.len() implies (#[trigger] r[k]) is Album by {
            assert(r.contains(r[k]));
            let q = d.index_of(r[k]);
            assert(s[q] is Album);
        }
        assert(s[s.len() - 1] is Album);
        inserted_alike(r, s.last(), f, g);
    }
}

/// The sort key goes to the next column and sorts by it, from least to greatest.
pub proof fn the_sort_key_sorts_by_the_next_column(before: App, after: App, i: int, j: int)
    requires
        after.sort_moved(&before),
        0 <= i < j < before.lists.track_list@.len(),
    ensures
        after.lists.sort_column == next_column(before.lists.sort_column),
        after.lists.sort_ascending,
        after.lists.track_list@.len() == before.lists.track_list@.len(),
        fields_ascend(
            after.lists.sort_column,
            after.lists.track_list@[i],
            after.lists.track_list@[j],
        ),
{
    columns_sort_by_their_own_field(
        before.lists.track_list@,
        next_column(before.lists.sort_column),
        i,
        j,
    );
}

} // verus!
