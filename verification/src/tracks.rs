//! Rows of the track table: how they are made and how they are ordered.
use vstd::prelude::*;
use crate::device::DeviceState;
use crate::format::{
    bytes_text, concat2, decimal, decimal_of, format_bytes_compact, format_khz, join, joined, khz_text,
    opt_text, texts,
};
use crate::library::{first_where, is_title_by, Library};
use crate::model::Track;
use crate::plays::{LocalPlays, PlayStats, TrackPlays};
use crate::sort::{is_order, sorted, stable_sort, Order};
use crate::text::{
    eq_ignore_ascii_case, lowercase_of, match_key, normalize_for_match, same_ignoring_case, str_eq,
    str_lt, strip_track_number, text_lt, text_order_is_total, text_order_is_transitive, to_lowercase,
    trim, trimmed, without_track_number,
};
use crate::types::{DeviceTrackInfo, SortColumn};

verus! {

#[derive(Debug, PartialEq, Eq)]
pub struct AlbumInfo {
    pub name: String,
    pub artist: String,
    pub year: Option<u32>,
}

impl Clone for AlbumInfo {
    fn clone(&self) -> (r: Self)
        ensures
            r == *self,
    {
        AlbumInfo { name: self.name.clone(), artist: self.artist.clone(), year: self.year }
    }
}

/// One row of the track table.
#[derive(Debug, PartialEq, Eq)]
pub struct TrackInfo {
    pub name: String,
    pub artist: String,
    pub album: String,
    pub duration_ms: Option<u64>,
    pub kind: Option<String>,
    pub location: Option<String>,
    pub track_number: Option<u32>,
    pub disc_number: Option<u32>,
    pub genre: Option<String>,
    pub on_device: bool,
    /// Aggregate play count across this player and any connected devices. For
    /// device rows without a library match, the raw device counter.
    pub play_count: Option<u32>,
    /// Aggregate skip count, same provenance as `play_count`.
    pub skip_count: Option<u32>,
    /// User-set rating from the device, 0 to 100.
    pub rating: Option<u16>,
    /// Unix epoch ms of the last play here.
    pub last_played_at_ms: Option<u64>,
    /// Unix epoch ms of the most recent device-baseline sync for this track.
    pub last_synced_from_device_at_ms: Option<u64>,
    /// Library id for rows that have a library counterpart.
    pub library_id: Option<u64>,
    /// Pre-normalized artist key.
    pub artist_key: String,
    /// Pre-normalized track-name key, paired with `artist_key` for device
    /// lookup.
    pub name_key: String,
}

impl Clone for TrackInfo {
    fn clone(&self) -> (r: Self)
        ensures
            r == *self,
    {
        TrackInfo {
            name: self.name.clone(),
            artist: self.artist.clone(),
            album: self.album.clone(),
            duration_ms: self.duration_ms,
            kind: self.kind.clone(),
            location: self.location.clone(),
            track_number: self.track_number,
            disc_number: self.disc_number,
            genre: self.genre.clone(),
            on_device: self.on_device,
            play_count: self.play_count,
            skip_count: self.skip_count,
            rating: self.rating,
            last_played_at_ms: self.last_played_at_ms,
            last_synced_from_device_at_ms: self.last_synced_from_device_at_ms,
            library_id: self.library_id,
            artist_key: self.artist_key.clone(),
            name_key: self.name_key.clone(),
        }
    }
}

impl TrackInfo {
    /// Construct a `TrackInfo`, precomputing match keys so on-device lookups
    /// avoid re-normalizing per render. The counters are left at `None`.
    pub fn new(
        name: String,
        artist: String,
        album: String,
        duration_ms: Option<u64>,
        kind: Option<String>,
        location: Option<String>,
        track_number: Option<u32>,
        disc_number: Option<u32>,
        genre: Option<String>,
        on_device: bool,
    ) -> (r: Self)
        ensures
            r == (TrackInfo {
                name,
                artist,
                album,
                duration_ms,
                kind,
                location,
                track_number,
                disc_number,
                genre,
                on_device,
                play_count: None,
                skip_count: None,
                rating: None,
                last_played_at_ms: None,
                last_synced_from_device_at_ms: None,
                library_id: None,
                artist_key: r.artist_key,
                name_key: r.name_key,
            }),
            r.artist_key@ == match_key(artist@),
            r.name_key@ == match_key(name@),
    {
        let artist_key = normalize_for_match(artist.as_str());
        let name_key = normalize_for_match(name.as_str());
        TrackInfo {
            name,
            artist,
            album,
            duration_ms,
            kind,
            location,
            track_number,
            disc_number,
            genre,
            on_device,
            play_count: None,
            skip_count: None,
            rating: None,
            last_played_at_ms: None,
            last_synced_from_device_at_ms: None,
            library_id: None,
            artist_key,
            name_key,
        }
    }
}

// ---------------------------------------------------------------------------
// Rows from library tracks
// ---------------------------------------------------------------------------
/// A count that is shown only where it is not zero.
pub open spec fn shown32(n: u32) -> Option<u32> {
    if n > 0 {
        Some(n)
    } else {
        None
    }
}

/// A time that is shown only where it is not zero.
pub open spec fn shown64(n: u64) -> Option<u64> {
    if n > 0 {
        Some(n)
    } else {
        None
    }
}

/// When the track was last synced from a device.
pub open spec fn synced_at(stats: Option<PlayStats>, device_key: Option<Seq<char>>) -> Option<u64> {
    match (stats, device_key) {
        (Some(s), Some(k)) => if s.device_baselines.contains_key(k) {
            Some(s.device_baselines[k].last_synced_at_ms)
        } else {
            None
        },
        _ => None,
    }
}

/// The counters of a track, if it has any.
pub open spec fn stats_at(plays: Map<u64, PlayStats>, id: Option<u64>) -> Option<PlayStats> {
    match id {
        Some(i) => if plays.contains_key(i) {
            Some(plays[i])
        } else {
            None
        },
        None => None,
    }
}

/// The counters that a library row shows.
pub open spec fn shows_stats(r: TrackInfo, stats: Option<PlayStats>) -> bool {
    match stats {
        Some(s) => {
            &&& r.play_count == Some(s.play_count)
            &&& r.skip_count == shown32(s.skip_count)
            &&& r.last_played_at_ms == shown64(s.last_played_at_ms)
        },
        None => r.play_count is None && r.skip_count is None && r.last_played_at_ms is None,
    }
}

/// The row is that of a library track.
pub open spec fn is_library_row(
    r: TrackInfo,
    t: Track,
    device: DeviceState,
    plays: Map<u64, PlayStats>,
    device_key: Option<Seq<char>>,
) -> bool {
    let key = (match_key(t.artist@), match_key(t.name@));
    let stats = stats_at(plays, Some(t.id));
    &&& r.name == t.name && r.artist == t.artist && r.album == t.album
    &&& r.duration_ms == t.total_time_ms && r.kind == t.kind && r.location == t.location
    &&& r.track_number == t.track_number && r.disc_number == t.disc_number && r.genre == t.genre
    &&& r.on_device == device.holds(key.0, key.1)
    &&& shows_stats(r, stats)
    &&& r.rating == if r.on_device && device.index().track_metadata.contains_key(key) {
        device.index().track_metadata[key].1
    } else {
        None
    }
    &&& r.last_synced_from_device_at_ms == if r.on_device {
        synced_at(stats, device_key)
    } else {
        None
    }
    &&& r.library_id == Some(t.id)
    &&& r.artist_key@ == key.0 && r.name_key@ == key.1
}

pub(crate) fn synced_at_exec(stats: Option<&TrackPlays>, device_key: &Option<String>) -> (r: Option<u64>)
    ensures
        r == synced_at(
            match stats {
                Some(t) => Some(t@),
                None => None,
            },
            opt_text(*device_key),
        ),
{
    match stats {
        Some(t) => match device_key {
            Some(k) => match t.device_baselines.get(k) {
                Some(b) => Some(b.last_synced_at_ms),
                None => None,
            },
            None => None,
        },
        None => None,
    }
}

fn track_to_info(
    t: &Track,
    device: &DeviceState,
    local_plays: &LocalPlays,
    device_key: &Option<String>,
) -> (r: TrackInfo)
    ensures
        is_library_row(r, *t, *device, local_plays@, opt_text(*device_key)),
{
    let artist_key = normalize_for_match(t.artist.as_str());
    let name_key = normalize_for_match(t.name.as_str());
    let on_device = device.contains_track(artist_key.as_str(), name_key.as_str());
    let entry = local_plays.get(t.id);
    let (play_count, skip_count, last_played): (Option<u32>, Option<u32>, Option<u64>) = match entry {
        Some(p) => (
            Some(p.play_count),
            if p.skip_count > 0 {
                Some(p.skip_count)
            } else {
                None
            },
            if p.last_played_at_ms > 0 {
                Some(p.last_played_at_ms)
            } else {
                None
            },
        ),
        None => (None, None, None),
    };
    let synced: Option<u64> = if on_device {
        synced_at_exec(entry, device_key)
    } else {
        None
    };
    let rating: Option<u16> = if on_device {
        match device.track_metadata.get(&(artist_key.clone(), name_key.clone())) {
            Some(m) => m.1,
            None => None,
        }
    } else {
        None
    };
    TrackInfo {
        name: t.name.clone(),
        artist: t.artist.clone(),
        album: t.album.clone(),
        duration_ms: t.total_time_ms,
        kind: t.kind.clone(),
        location: t.location.clone(),
        track_number: t.track_number,
        disc_number: t.disc_number,
        genre: t.genre.clone(),
        on_device,
        play_count,
        skip_count,
        rating,
        last_played_at_ms: last_played,
        last_synced_from_device_at_ms: synced,
        library_id: Some(t.id),
        artist_key,
        name_key,
    }
}

/// The rows are those of the library tracks, one for one.
pub open spec fn are_library_rows(
    rows: Seq<TrackInfo>,
    tracks: Seq<Track>,
    device: DeviceState,
    plays: Map<u64, PlayStats>,
    device_key: Option<Seq<char>>,
) -> bool {
    rows.len() == tracks.len() && forall|i: int|
        0 <= i < rows.len() ==> is_library_row(
            #[trigger] rows[i],
            tracks[i],
            device,
            plays,
            device_key,
        )
}

/// Turns library tracks into rows.
pub fn tracks_to_info(
    tracks: &Vec<Track>,
    device: &DeviceState,
    local_plays: &LocalPlays,
    device_baseline_key: &Option<String>,
) -> (r: Vec<TrackInfo>)
    ensures
        are_library_rows(r@, tracks@, *device, local_plays@, opt_text(*device_baseline_key)),
{
    let mut r: Vec<TrackInfo> = Vec::new();
    let mut i: usize = 0;
    while i < tracks.len()
        invariant
            i <= tracks.len(),
            r.len() == i,
            forall|k: int|
                0 <= k < i ==> is_library_row(
                    #[trigger] r@[k],
                    tracks@[k],
                    *device,
                    local_plays@,
                    opt_text(*device_baseline_key),
                ),
        decreases tracks.len() - i,
    {
        r.push(track_to_info(&tracks[i], device, local_plays, device_baseline_key));
        i = i + 1;
    }
    r
}

// ---------------------------------------------------------------------------
// Rows from device tracks
// ---------------------------------------------------------------------------
/// The library track that a device track stands for: the first one of that
/// name and artist, else the first one of the name without a track number.
pub open spec fn library_track_for(
    tracks: Seq<Track>,
    artist: Seq<char>,
    name: Seq<char>,
) -> Option<Track> {
    let plain = first_where(tracks, |t: Track| is_title_by(t, name, artist));
    let bare = without_track_number(trimmed(name));
    if plain is Some || bare == name {
        plain
    } else {
        first_where(tracks, |t: Track| is_title_by(t, bare, artist))
    }
}

/// Look up the library track for a device-side `(artist, display_name)` pair.
/// Tries the raw name first, then the form without a track number, so device
/// filenames like `"01 Smells Like Teen Spirit"` still resolve to library
/// titles like `"Smells Like Teen Spirit"`.
pub fn resolve_library_track_for_device_track<'a>(
    lib: &'a Library,
    artist: &str,
    display_name: &str,
) -> (r: Option<&'a Track>)
    ensures
        match r {
            Some(t) => library_track_for(lib.tracks@, artist@, display_name@) == Some(*t),
            None => library_track_for(lib.tracks@, artist@, display_name@) is None,
        },
{
    if let Some(t) = lib.find_title(display_name, artist) {
        return Some(t);
    }
    let trimmed_name = trim(display_name);
    let bare = strip_track_number(trimmed_name.as_str());
    if !str_eq(bare.as_str(), display_name) {
        return lib.find_title(bare.as_str(), artist);
    }
    None
}

/// The library track that a device row stands for, where a library is loaded.
pub open spec fn counterpart(library: Option<Library>, dt: DeviceTrackInfo) -> Option<Track> {
    match library {
        Some(lib) => library_track_for(lib.tracks@, dt.artist@, dt.name@),
        None => None,
    }
}

/// The row is that of a device track.
pub open spec fn is_device_row(
    r: TrackInfo,
    dt: DeviceTrackInfo,
    library: Option<Library>,
    plays: Map<u64, PlayStats>,
    device_key: Option<Seq<char>>,
) -> bool {
    let track = counterpart(library, dt);
    let id = match track {
        Some(t) => Some(t.id),
        None => None,
    };
    let stats = stats_at(plays, id);
    &&& r.name == dt.name && r.artist == dt.artist && r.album == dt.album
    &&& r.duration_ms == if dt.duration_ms is Some {
        dt.duration_ms
    } else {
        match track {
            Some(t) => t.total_time_ms,
            None => None,
        }
    }
    &&& r.kind is None && r.location is None && r.genre is None && !r.on_device
    &&& r.track_number == dt.track_number && r.disc_number == dt.disc_number
    &&& match stats {
        Some(s) => shows_stats(r, stats),
        None => {
            &&& r.play_count == dt.play_count
            &&& r.skip_count == match dt.skip_count {
                Some(n) => shown32(n),
                None => None,
            }
            &&& r.last_played_at_ms is None
        },
    }
    &&& r.last_synced_from_device_at_ms == synced_at(stats, device_key)
    &&& r.rating == dt.rating
    &&& r.library_id == id
    &&& r.artist_key@ == match_key(dt.artist@) && r.name_key@ == match_key(dt.name@)
}

fn device_track_to_info(
    dt: &DeviceTrackInfo,
    library: &Option<Library>,
    local_plays: &LocalPlays,
    device_key: &Option<String>,
) -> (r: TrackInfo)
    ensures
        is_device_row(r, *dt, *library, local_plays@, opt_text(*device_key)),
{
    let mut info = TrackInfo::new(
        dt.name.clone(),
        dt.artist.clone(),
        dt.album.clone(),
        dt.duration_ms,
        None,
        None,
        dt.track_number,
        dt.disc_number,
        None,
        false,
    );
    let (lib_id, lib_time): (Option<u64>, Option<u64>) = match library {
        Some(lib) => match resolve_library_track_for_device_track(
            lib,
            dt.artist.as_str(),
            dt.name.as_str(),
        ) {
            Some(t) => (Some(t.id), t.total_time_ms),
            None => (None, None),
        },
        None => (None, None),
    };
    if info.duration_ms.is_none() {
        info.duration_ms = lib_time;
    }
    let entry: Option<&TrackPlays> = match lib_id {
        Some(id) => local_plays.get(id),
        None => None,
    };
    info.last_synced_from_device_at_ms = synced_at_exec(entry, device_key);
    match entry {
        Some(p) => {
            info.play_count = Some(p.play_count);
            info.skip_count = if p.skip_count > 0 {
                Some(p.skip_count)
            } else {
                None
            };
            info.last_played_at_ms = if p.last_played_at_ms > 0 {
                Some(p.last_played_at_ms)
            } else {
                None
            };
        },
        None => {
            info.play_count = dt.play_count;
            info.skip_count = match dt.skip_count {
                Some(n) => if n > 0 {
                    Some(n)
                } else {
                    None
                },
                None => None,
            };
        },
    }
    info.rating = dt.rating;
    info.library_id = lib_id;
    info
}

/// The rows are those of the device tracks, one for one.
pub open spec fn are_device_rows(
    rows: Seq<TrackInfo>,
    tracks: Seq<DeviceTrackInfo>,
    library: Option<Library>,
    plays: Map<u64, PlayStats>,
    device_key: Option<Seq<char>>,
) -> bool {
    rows.len() == tracks.len() && forall|i: int|
        0 <= i < rows.len() ==> is_device_row(
            #[trigger] rows[i],
            tracks[i],
            library,
            plays,
            device_key,
        )
}

/// Where the device knows of plays, the row of the track shows a count.
pub proof fn known_plays_are_shown(
    r: TrackInfo,
    dt: DeviceTrackInfo,
    library: Option<Library>,
    plays: Map<u64, PlayStats>,
    device_key: Option<Seq<char>>,
)
    requires
        is_device_row(r, dt, library, plays, device_key),
        dt.play_count is Some,
    ensures
        r.play_count is Some,
{
}

/// Turns device tracks into rows.
pub fn device_tracks_to_info(
    tracks: &Vec<DeviceTrackInfo>,
    library: &Option<Library>,
    local_plays: &LocalPlays,
    device_baseline_key: &Option<String>,
) -> (r: Vec<TrackInfo>)
    ensures
        are_device_rows(r@, tracks@, *library, local_plays@, opt_text(*device_baseline_key)),
{
    let mut r: Vec<TrackInfo> = Vec::new();
    let mut i: usize = 0;
    while i < tracks.len()
        invariant
            i <= tracks.len(),
            r.len() == i,
            forall|k: int|
                0 <= k < i ==> is_device_row(
                    #[trigger] r@[k],
                    tracks@[k],
                    *library,
                    local_plays@,
                    opt_text(*device_baseline_key),
                ),
        decreases tracks.len() - i,
    {
        r.push(device_track_to_info(&tracks[i], library, local_plays, device_baseline_key));
        i = i + 1;
    }
    r
}

// ---------------------------------------------------------------------------
// Orders
// ---------------------------------------------------------------------------
/// A number that is there stands before one that is missing.
pub open spec fn number_before(a: Option<u32>, b: Option<u32>) -> bool {
    match (a, b) {
        (Some(x), Some(y)) => x < y,
        (Some(_), None) => true,
        _ => false,
    }
}

/// The order of an album: disc number, then track number, what has none
/// behind; among tracks without a number, by name.
pub open spec fn album_before(a: TrackInfo, b: TrackInfo) -> bool {
    if a.disc_number != b.disc_number {
        number_before(a.disc_number, b.disc_number)
    } else if a.track_number != b.track_number {
        number_before(a.track_number, b.track_number)
    } else if a.track_number is None {
        text_lt(a.name@, b.name@)
    } else {
        false
    }
}

pub struct AlbumTrackOrder;

fn number_before_exec(a: Option<u32>, b: Option<u32>) -> (r: bool)
    ensures
        r == number_before(a, b),
{
    match a {
        Some(x) => match b {
            Some(y) => x < y,
            None => true,
        },
        None => false,
    }
}

fn same_number(a: Option<u32>, b: Option<u32>) -> (r: bool)
    ensures
        r == (a == b),
{
    match a {
        Some(x) => match b {
            Some(y) => x == y,
            None => false,
        },
        None => b.is_none(),
    }
}

impl Order<TrackInfo> for AlbumTrackOrder {
    open spec fn before(&self, a: TrackInfo, b: TrackInfo) -> bool {
        album_before(a, b)
    }

    fn is_before(&self, a: &TrackInfo, b: &TrackInfo) -> (r: bool) {
        if !same_number(a.disc_number, b.disc_number) {
            number_before_exec(a.disc_number, b.disc_number)
        } else if !same_number(a.track_number, b.track_number) {
            number_before_exec(a.track_number, b.track_number)
        } else if a.track_number.is_none() {
            str_lt(a.name.as_str(), b.name.as_str())
        } else {
            false
        }
    }
}

/// The album order is an order, so that sorting by it puts the tracks in
/// order and keeps ties as they came.
pub proof fn album_order_is_an_order()
    ensures
        is_order(|a: TrackInfo, b: TrackInfo| album_before(a, b)),
{
    let before = |a: TrackInfo, b: TrackInfo| album_before(a, b);
    assert forall|a: TrackInfo| !#[trigger] before(a, a) by {
        text_order_is_total(a.name@, a.name@);
    }
    assert forall|a: TrackInfo, b: TrackInfo| #[trigger] before(a, b) implies !before(b, a) by {
        text_order_is_total(a.name@, b.name@);
    }
    assert forall|a: TrackInfo, b: TrackInfo, c: TrackInfo|
        #![trigger before(a, b), before(b, c)]
        !before(a, b) && !before(b, c) implies !before(a, c) by {
        text_order_is_total(a.name@, b.name@);
        text_order_is_total(b.name@, c.name@);
        text_order_is_total(a.name@, c.name@);
        if text_lt(b.name@, a.name@) && text_lt(c.name@, b.name@) {
            text_order_is_transitive(c.name@, b.name@, a.name@);
        }
    }
}

/// Sort a track list for the album view. Disc number first, then track number;
/// tracks missing a number fall to the bottom so tagged tracks stay in their
/// intended album order.
pub fn sort_album_tracks(tracks: &mut Vec<TrackInfo>)
    ensures
        final(tracks)@ == sorted(old(tracks)@, |a: TrackInfo, b: TrackInfo| album_before(a, b)),
{
    stable_sort(tracks, &AlbumTrackOrder);
    proof {
        assert((|a: TrackInfo, b: TrackInfo| AlbumTrackOrder.before(a, b)) =~= (
            |a: TrackInfo, b: TrackInfo| album_before(a, b)));
    }
}

/// A missing value stands before one that is there.
pub open spec fn value_before(a: Option<u64>, b: Option<u64>) -> bool {
    match (a, b) {
        (Some(x), Some(y)) => x < y,
        (None, Some(_)) => true,
        _ => false,
    }
}

/// The order of the track table by a column.
pub open spec fn column_before(column: SortColumn, a: TrackInfo, b: TrackInfo) -> bool {
    match column {
        SortColumn::Number => match (a.track_number, b.track_number) {
            (Some(x), Some(y)) => x < y,
            (None, Some(_)) => true,
            _ => false,
        },
        SortColumn::Name => text_lt(lowercase_of(a.name@), lowercase_of(b.name@)),
        SortColumn::Artist => text_lt(lowercase_of(a.artist@), lowercase_of(b.artist@)),
        SortColumn::Album => text_lt(lowercase_of(a.album@), lowercase_of(b.album@)),
        SortColumn::Duration => value_before(a.duration_ms, b.duration_ms),
        SortColumn::Format => match (a.kind, b.kind) {
            (Some(x), Some(y)) => text_lt(x@, y@),
            (None, Some(_)) => true,
            _ => false,
        },
    }
}

pub struct ColumnOrder {
    pub column: SortColumn,
}

fn lower_before(a: &str, b: &str) -> (r: bool)
    ensures
        r == text_lt(lowercase_of(a@), lowercase_of(b@)),
{
    let x = to_lowercase(a);
    let y = to_lowercase(b);
    str_lt(x.as_str(), y.as_str())
}

impl Order<TrackInfo> for ColumnOrder {
    open spec fn before(&self, a: TrackInfo, b: TrackInfo) -> bool {
        column_before(self.column, a, b)
    }

    fn is_before(&self, a: &TrackInfo, b: &TrackInfo) -> (r: bool) {
        match self.column {
            SortColumn::Number => match b.track_number {
                Some(y) => match a.track_number {
                    Some(x) => x < y,
                    None => true,
                },
                None => false,
            },
            SortColumn::Name => lower_before(a.name.as_str(), b.name.as_str()),
            SortColumn::Artist => lower_before(a.artist.as_str(), b.artist.as_str()),
            SortColumn::Album => lower_before(a.album.as_str(), b.album.as_str()),
            SortColumn::Duration => match b.duration_ms {
                Some(y) => match a.duration_ms {
                    Some(x) => x < y,
                    None => true,
                },
                None => false,
            },
            SortColumn::Format => match &b.kind {
                Some(y) => match &a.kind {
                    Some(x) => str_lt(x.as_str(), y.as_str()),
                    None => true,
                },
                None => false,
            },
        }
    }
}

/// Each column of the track table gives an order.
pub proof fn column_order_is_an_order(column: SortColumn)
    ensures
        is_order(|a: TrackInfo, b: TrackInfo| column_before(column, a, b)),
{
    let before = |a: TrackInfo, b: TrackInfo| column_before(column, a, b);
    let key = |t: TrackInfo|
        match column {
            SortColumn::Name => lowercase_of(t.name@),
            SortColumn::Artist => lowercase_of(t.artist@),
            SortColumn::Album => lowercase_of(t.album@),
            _ => match t.kind {
                Some(k) => k@,
                None => Seq::<char>::empty(),
            },
        };
    assert forall|a: TrackInfo| !#[trigger] before(a, a) by {
        text_order_is_total(key(a), key(a));
    }
    assert forall|a: TrackInfo, b: TrackInfo| #[trigger] before(a, b) implies !before(b, a) by {
        text_order_is_total(key(a), key(b));
    }
    assert forall|a: TrackInfo, b: TrackInfo, c: TrackInfo|
        #![trigger before(a, b), before(b, c)]
        !before(a, b) && !before(b, c) implies !before(a, c) by {
        text_order_is_total(key(a), key(b));
        text_order_is_total(key(b), key(c));
        text_order_is_total(key(a), key(c));
        if text_lt(key(b), key(a)) && text_lt(key(c), key(b)) {
            text_order_is_transitive(key(c), key(b), key(a));
        }
    }
}

/// The order of an artist's albums: oldest first, those without a year last,
/// and by name within a year.
pub open spec fn year_before(a: AlbumInfo, b: AlbumInfo) -> bool {
    if a.year != b.year {
        number_before(a.year, b.year)
    } else {
        text_lt(a.name@, b.name@)
    }
}

pub struct YearOrder;

impl Order<AlbumInfo> for YearOrder {
    open spec fn before(&self, a: AlbumInfo, b: AlbumInfo) -> bool {
        year_before(a, b)
    }

    fn is_before(&self, a: &AlbumInfo, b: &AlbumInfo) -> (r: bool) {
        if !same_number(a.year, b.year) {
            number_before_exec(a.year, b.year)
        } else {
            str_lt(a.name.as_str(), b.name.as_str())
        }
    }
}

// ---------------------------------------------------------------------------
// The now-playing marquee
// ---------------------------------------------------------------------------
/// A label with its text, where there is one.
pub open spec fn text_part(label: Seq<char>, value: Option<String>) -> Seq<Seq<char>> {
    match value {
        Some(v) => seq![label + v@],
        None => Seq::empty(),
    }
}

/// A number between two texts, where there is one.
pub open spec fn number_part(label: Seq<char>, value: Option<nat>, unit: Seq<char>) -> Seq<Seq<char>> {
    match value {
        Some(n) => seq![label + decimal(n) + unit],
        None => Seq::empty(),
    }
}

pub open spec fn nat32(o: Option<u32>) -> Option<nat> {
    match o {
        Some(n) => Some(n as nat),
        None => None,
    }
}

pub open spec fn nat8(o: Option<u8>) -> Option<nat> {
    match o {
        Some(n) => Some(n as nat),
        None => None,
    }
}

/// How many channels, in words where there are one or two.
pub open spec fn channels_part(channels: Option<u8>) -> Seq<Seq<char>> {
    match channels {
        Some(n) => seq![
            if n == 1 {
                "Mono"@
            } else if n == 2 {
                "Stereo"@
            } else {
                decimal(n as nat) + "ch"@
            },
        ],
        None => Seq::empty(),
    }
}

/// The album artist, unless it only repeats the artist.
pub open spec fn album_artist_part(t: Track) -> Seq<Seq<char>> {
    match t.album_artist {
        Some(aa) => if same_ignoring_case(aa@, t.artist@) {
            Seq::empty()
        } else {
            seq!["Album Artist: "@ + aa@]
        },
        None => Seq::empty(),
    }
}

/// The parts of the marquee: musical first, then technical, then credits, then
/// the file. What the tags lack is left out, and so is an album artist that
/// only repeats the artist.
pub open spec fn marquee_parts(t: Track) -> Seq<Seq<char>> {
    text_part("Genre: "@, t.genre) + number_part("BPM: "@, nat32(t.bpm), ""@) + text_part(
        "Key: "@,
        t.initial_key,
    ) + text_part("Mood: "@, t.mood) + number_part(""@, nat32(t.audio_bitrate_kbps), " kbps"@) + (
    match t.sample_rate {
        Some(hz) => seq![khz_text(hz as nat)],
        None => Seq::empty(),
    }) + number_part(""@, nat8(t.bit_depth), "-bit"@) + channels_part(t.channels) + album_artist_part(t) + text_part("Composer: "@, t.composer) + text_part("Publisher: "@, t.publisher) + (
    match t.file_size_bytes {
        Some(n) => seq![bytes_text(n as nat)],
        None => Seq::empty(),
    }) + text_part("Encoder: "@, t.encoder)
}

fn push_part(parts: &mut Vec<String>, part: String)
    ensures
        texts(final(parts)@) == texts(old(parts)@) + seq![part@],
{
    parts.push(part);
    proof {
        assert(texts(parts@) =~= texts(old(parts)@) + seq![part@]);
    }
}

fn push_text(parts: &mut Vec<String>, label: &str, value: &Option<String>)
    ensures
        texts(final(parts)@) == texts(old(parts)@) + text_part(label@, *value),
{
    match value {
        Some(v) => push_part(parts, concat2(label, v.as_str())),
        None => {
            proof {
                assert(texts(parts@) =~= texts(old(parts)@) + text_part(label@, *value));
            }
        },
    }
}

fn push_number(parts: &mut Vec<String>, label: &str, value: Option<u32>, unit: &str)
    ensures
        texts(final(parts)@) == texts(old(parts)@) + number_part(label@, nat32(value), unit@),
{
    match value {
        Some(n) => {
            let digits = decimal_of(n as u64);
            let mut s = concat2(label, digits.as_str());
            s.append(unit);
            push_part(parts, s);
        },
        None => {
            proof {
                assert(texts(parts@) =~= texts(old(parts)@) + number_part(label@, nat32(value), unit@));
            }
        },
    }
}

fn push_channels(parts: &mut Vec<String>, channels: Option<u8>)
    ensures
        texts(final(parts)@) == texts(old(parts)@) + channels_part(channels),
{
    match channels {
        Some(n) => {
            let label: String = if n == 1 {
                "Mono".to_owned()
            } else if n == 2 {
                "Stereo".to_owned()
            } else {
                let digits = decimal_of(n as u64);
                concat2(digits.as_str(), "ch")
            };
            push_part(parts, label);
        },
        None => {
            proof {
                assert(texts(parts@) =~= texts(old(parts)@) + channels_part(channels));
            }
        },
    }
}

/// Extract the year and assemble a `|`-separated metadata marquee from a
/// library `Track`. Each segment is only added when the underlying tag is
/// present, so a lightly-tagged file produces a short line and a fully-tagged
/// one runs long enough to scroll.
pub fn build_now_playing_metadata(track: Option<&Track>) -> (r: (Option<u32>, String))
    ensures
        match track {
            Some(t) => r.0 == t.year && r.1@ == joined(marquee_parts(*t), " | "@),
            None => r.0 is None && r.1@ == Seq::<char>::empty(),
        },
{
    let t = match track {
        Some(t) => t,
        None => {
            return (None, String::new());
        },
    };
    let mut parts: Vec<String> = Vec::new();
    proof {
        assert(texts(parts@) =~= Seq::<Seq<char>>::empty());
    }
    push_text(&mut parts, "Genre: ", &t.genre);
    proof {
        assert(texts(parts@) =~= text_part("Genre: "@, t.genre));
    }
    push_number(&mut parts, "BPM: ", t.bpm, "");
    push_text(&mut parts, "Key: ", &t.initial_key);
    push_text(&mut parts, "Mood: ", &t.mood);
    push_number(&mut parts, "", t.audio_bitrate_kbps, " kbps");
    let ghost p5 = texts(parts@);
    match t.sample_rate {
        Some(hz) => push_part(&mut parts, format_khz(hz)),
        None => {},
    }
    let ghost s6: Seq<Seq<char>> = match t.sample_rate {
        Some(hz) => seq![khz_text(hz as nat)],
        None => Seq::empty(),
    };
    proof {
        assert(texts(parts@) =~= p5 + s6);
    }
    let depth: Option<u32> = match t.bit_depth {
        Some(n) => Some(n as u32),
        None => None,
    };
    push_number(&mut parts, "", depth, "-bit");
    push_channels(&mut parts, t.channels);
    let ghost p8 = texts(parts@);
    match &t.album_artist {
        Some(aa) => {
            if !eq_ignore_ascii_case(aa.as_str(), t.artist.as_str()) {
                push_part(&mut parts, concat2("Album Artist: ", aa.as_str()));
            }
        },
        None => {},
    }
    proof {
        assert(texts(parts@) =~= p8 + album_artist_part(*t));
    }
    push_text(&mut parts, "Composer: ", &t.composer);
    push_text(&mut parts, "Publisher: ", &t.publisher);
    let ghost p11 = texts(parts@);
    match t.file_size_bytes {
        Some(n) => push_part(&mut parts, format_bytes_compact(n)),
        None => {},
    }
    let ghost s12: Seq<Seq<char>> = match t.file_size_bytes {
        Some(n) => seq![bytes_text(n as nat)],
        None => Seq::empty(),
    };
    proof {
        assert(texts(parts@) =~= p11 + s12);
    }
    push_text(&mut parts, "Encoder: ", &t.encoder);
    proof {
        assert(texts(parts@) == marquee_parts(*t));
    }
    (t.year, join(&parts, " | "))
}

} // verus!
