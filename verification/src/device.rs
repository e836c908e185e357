//! The index of what is on the connected device.
use vstd::prelude::*;
use crate::format::{concat2, texts};
use crate::model::{DeviceEntry, DeviceFamily, StorageInfo};
use crate::ordmap::{OrdMap, OrdSet};
use crate::text::{
    chars_of, contains_str, has_substring, match_key, normalize_for_match, normalize_without_number,
    str_eq, str_lt, string_of_range, stripped_key, text_lt,
};
use crate::types::{DeviceStatus, DeviceTrackInfo, DeviceTrackMeta, DeviceTrackRow};

verus! {

// ---------------------------------------------------------------------------
// Track paths
// ---------------------------------------------------------------------------
/// The first position of a character, or the length where it does not occur.
pub open spec fn find_char(s: Seq<char>, c: char) -> nat
    decreases s.len(),
{
    if s.len() == 0 {
        0
    } else if s[0] == c {
        0
    } else {
        1 + find_char(s.skip(1), c)
    }
}

/// The last position of a dot, or minus one where there is none.
pub open spec fn last_dot(s: Seq<char>) -> int
    decreases s.len(),
{
    if s.len() == 0 {
        -1
    } else if s.last() == '.' {
        s.len() - 1
    } else {
        last_dot(s.drop_last())
    }
}

/// The text before the last dot, or all of it where there is no dot.
pub open spec fn without_extension(s: Seq<char>) -> Seq<char> {
    if last_dot(s) >= 0 {
        s.take(last_dot(s))
    } else {
        s
    }
}

/// Artist, album and title of a device path: what stands before the first
/// slash, between the first two, and behind them without the extension.
pub open spec fn track_parts(name: Seq<char>) -> (Seq<char>, Seq<char>, Seq<char>) {
    let i = find_char(name, '/') as int;
    if i >= name.len() {
        ("Unknown Artist"@, "Unknown Album"@, without_extension(name))
    } else {
        let rest = name.skip(i + 1);
        let j = find_char(rest, '/') as int;
        if j >= rest.len() {
            (name.take(i), "Unknown Album"@, without_extension(rest))
        } else {
            (name.take(i), rest.take(j), without_extension(rest.skip(j + 1)))
        }
    }
}

fn find_from(v: &Vec<char>, from: usize, c: char) -> (r: usize)
    requires
        from <= v.len(),
    ensures
        r == from + find_char(v@.skip(from as int), c),
        from <= r <= v.len(),
{
    let mut i: usize = from;
    while i < v.len() && v[i] != c
        invariant
            from <= i <= v.len(),
            find_char(v@.skip(from as int), c) == (i - from) + find_char(v@.skip(i as int), c),
        decreases v.len() - i,
    {
        proof {
            assert(v@.skip(i as int).skip(1) =~= v@.skip(i + 1));
        }
        i = i + 1;
    }
    i
}

fn stem_of(v: &Vec<char>, from: usize) -> (r: String)
    requires
        from <= v.len(),
    ensures
        r@ == without_extension(v@.skip(from as int)),
{
    let ghost tail = v@.skip(from as int);
    let mut i: usize = v.len();
    proof {
        assert(tail.take(tail.len() as int) =~= tail);
    }
    while i > from && v[i - 1] != '.'
        invariant
            from <= i <= v.len(),
            tail == v@.skip(from as int),
            last_dot(tail) == last_dot(tail.take(i - from)),
        decreases i - from,
    {
        proof {
            assert(tail.take(i - from).drop_last() =~= tail.take(i - from - 1));
        }
        i = i - 1;
    }
    if i > from {
        proof {
            assert(v@.subrange(from as int, i - 1) =~= tail.take(i - 1 - from));
        }
        string_of_range(v, from, i - 1)
    } else {
        proof {
            assert(v@.subrange(from as int, v@.len() as int) =~= tail);
        }
        string_of_range(v, from, v.len())
    }
}

/// Parse a device-relative track name (e.g. `"Artist/Album/01 track.mp3"`) into
/// (artist, album, display_name). Missing segments fall back to `Unknown
/// Artist` and `Unknown Album`. The display name has its file extension
/// stripped.
pub fn parse_device_track_parts(name: &str) -> (r: (String, String, String))
    ensures
        (r.0@, r.1@, r.2@) == track_parts(name@),
{
    let v = chars_of(name);
    let i = find_from(&v, 0, '/');
    proof {
        assert(v@.skip(0) =~= v@);
    }
    if i >= v.len() {
        return ("Unknown Artist".to_owned(), "Unknown Album".to_owned(), stem_of(&v, 0));
    }
    let artist = string_of_range(&v, 0, i);
    proof {
        assert(v@.subrange(0, i as int) =~= v@.take(i as int));
    }
    let j = find_from(&v, i + 1, '/');
    let ghost rest = v@.skip(i + 1);
    if j >= v.len() {
        return (artist, "Unknown Album".to_owned(), stem_of(&v, i + 1));
    }
    let album = string_of_range(&v, i + 1, j);
    proof {
        assert(v@.subrange(i + 1, j as int) =~= rest.take(j - i - 1));
        assert(v@.skip(j + 1) =~= rest.skip(j - i));
    }
    (artist, album, stem_of(&v, j + 1))
}

// ---------------------------------------------------------------------------
// Sorted name lists
// ---------------------------------------------------------------------------
/// A name put before the first one that does not stand before it, unless that
/// one is the name itself.
pub open spec fn insert_sorted(s: Seq<Seq<char>>, x: Seq<char>) -> Seq<Seq<char>>
    decreases s.len(),
{
    if s.len() == 0 {
        seq![x]
    } else if text_lt(s[0], x) {
        seq![s[0]] + insert_sorted(s.skip(1), x)
    } else if s[0] == x {
        s
    } else {
        seq![x] + s
    }
}

/// Names in strictly ascending order.
pub open spec fn ascending(s: Seq<Seq<char>>) -> bool {
    forall|i: int, j: int| 0 <= i < j < s.len() ==> text_lt(#[trigger] s[i], #[trigger] s[j])
}

/// The names other than `x`, in order.
pub open spec fn without_name(s: Seq<Seq<char>>, x: Seq<char>) -> Seq<Seq<char>>
    decreases s.len(),
{
    if s.len() == 0 {
        s
    } else if s.last() == x {
        without_name(s.drop_last(), x)
    } else {
        without_name(s.drop_last(), x).push(s.last())
    }
}

/// Puts a name into a list of names.
pub fn insert_name(list: &mut Vec<String>, x: &String)
    ensures
        texts(final(list)@) == insert_sorted(texts(old(list)@), x@),
{
    let ghost t = texts(list@);
    let mut i: usize = 0;
    proof {
        assert(t.skip(0) =~= t);
        assert(t.take(0) + insert_sorted(t.skip(0), x@) =~= insert_sorted(t, x@));
    }
    while i < list.len() && str_lt(list[i].as_str(), x.as_str())
        invariant
            i <= list.len(),
            t == texts(list@),
            list@ == old(list)@,
            insert_sorted(t, x@) == t.take(i as int) + insert_sorted(t.skip(i as int), x@),
        decreases list.len() - i,
    {
        proof {
            assert(t.skip(i as int)[0] == t[i as int]);
            assert(t.skip(i as int).skip(1) =~= t.skip(i + 1));
            assert(t.take(i as int) + (seq![t[i as int]] + insert_sorted(t.skip(i + 1), x@))
                =~= t.take(i + 1) + insert_sorted(t.skip(i + 1), x@));
        }
        i = i + 1;
    }
    if i < list.len() && str_eq(list[i].as_str(), x.as_str()) {
        proof {
            assert(t.take(i as int) + t.skip(i as int) =~= t);
        }
        return;
    }
    list.insert(i, x.clone());
    proof {
        if i < t.len() {
            assert(t.skip(i as int)[0] == t[i as int]);
            assert(texts(list@) =~= t.take(i as int) + (seq![x@] + t.skip(i as int)));
        } else {
            assert(texts(list@) =~= t.take(i as int) + seq![x@]);
        }
    }
}

/// Drops a name from a list of names.
pub fn drop_name(list: &Vec<String>, x: &str) -> (r: Vec<String>)
    ensures
        texts(r@) == without_name(texts(list@), x@),
{
    let mut r: Vec<String> = Vec::new();
    let mut i: usize = 0;
    let ghost t = texts(list@);
    proof {
        assert(texts(r@) =~= t.take(0));
    }
    while i < list.len()
        invariant
            i <= list.len(),
            t == texts(list@),
            texts(r@) == without_name(t.take(i as int), x@),
        decreases list.len() - i,
    {
        proof {
            assert(t.take(i + 1).drop_last() =~= t.take(i as int));
            assert(t.take(i + 1).last() == t[i as int]);
        }
        if !str_eq(list[i].as_str(), x) {
            let ghost before = r@;
            r.push(list[i].clone());
            proof {
                assert(texts(r@) =~= texts(before).push(list@[i as int]@));
            }
        }
        i = i + 1;
    }
    proof {
        assert(t.take(t.len() as int) =~= t);
    }
    r
}

// ---------------------------------------------------------------------------
// The index as mathematics
// ---------------------------------------------------------------------------
/// The rows that a list of device tracks stands for.
pub open spec fn track_rows(s: Seq<DeviceTrackInfo>) -> Seq<DeviceTrackRow> {
    s.map_values(|t: DeviceTrackInfo| t@)
}

/// The index of the device's tracks.
#[verifier::ext_equal]
pub struct DeviceIndex {
    pub artists: Seq<Seq<char>>,
    pub albums: Map<Seq<char>, Seq<Seq<char>>>,
    pub album_tracks: Map<(Seq<char>, Seq<char>), Seq<DeviceTrackRow>>,
    pub track_set: Set<(Seq<char>, Seq<char>)>,
    pub track_metadata: Map<(Seq<char>, Seq<char>), DeviceTrackMeta>,
    pub artist_track_names: Map<Seq<char>, Seq<Seq<char>>>,
}

/// The value under a key, or the empty sequence.
pub open spec fn list_at<K, T>(m: Map<K, Seq<T>>, k: K) -> Seq<T> {
    if m.contains_key(k) {
        m[k]
    } else {
        Seq::empty()
    }
}

/// Some row of the list has the path.
pub open spec fn has_path(rows: Seq<DeviceTrackRow>, path: Seq<char>) -> bool {
    exists|i: int| 0 <= i < rows.len() && (#[trigger] rows[i]).device_path == path
}

/// Where a track of the given name lies on the device.
pub open spec fn device_path_of(name: Seq<char>) -> Seq<char> {
    "/Music/"@ + name
}

/// The row of an entry.
pub open spec fn row_of(e: DeviceEntry) -> DeviceTrackRow {
    let p = track_parts(e.name@);
    DeviceTrackRow {
        name: p.2,
        device_path: device_path_of(e.name@),
        object_id: e.object_id,
        artist: p.0,
        album: p.1,
        track_number: e.track_number,
        disc_number: e.disc_number,
        play_count: e.play_count,
        rating: e.rating,
        skip_count: e.skip_count,
        duration_ms: match e.duration_ms {
            Some(d) => Some(d as u64),
            None => None,
        },
    }
}

/// The index with one more entry. Folders, and entries whose path is indexed
/// already, change nothing.
pub open spec fn index_add(ix: DeviceIndex, e: DeviceEntry) -> DeviceIndex {
    let row = row_of(e);
    let key = (row.artist, row.album);
    let rows = list_at(ix.album_tracks, key);
    if e.dir() || has_path(rows, row.device_path) {
        ix
    } else {
        let ak = match_key(row.artist);
        let raw = match_key(row.name);
        let bare = stripped_key(row.name);
        let meta = (row.play_count, row.rating);
        DeviceIndex {
            artists: insert_sorted(ix.artists, row.artist),
            albums: ix.albums.insert(
                row.artist,
                insert_sorted(list_at(ix.albums, row.artist), row.album),
            ),
            album_tracks: ix.album_tracks.insert(key, rows.push(row)),
            track_set: ix.track_set.insert((ak, raw)).insert((ak, bare)),
            track_metadata: ix.track_metadata.insert((ak, raw), meta).insert((ak, bare), meta),
            artist_track_names: ix.artist_track_names.insert(
                ak,
                list_at(ix.artist_track_names, ak).push(raw),
            ),
        }
    }
}

/// The index with each of the entries added in turn.
pub open spec fn index_add_all(ix: DeviceIndex, es: Seq<DeviceEntry>) -> DeviceIndex
    decreases es.len(),
{
    if es.len() == 0 {
        ix
    } else {
        index_add(index_add_all(ix, es.drop_last()), es.last())
    }
}

/// An index of nothing.
pub open spec fn empty_index() -> DeviceIndex {
    DeviceIndex {
        artists: Seq::empty(),
        albums: Map::empty(),
        album_tracks: Map::empty(),
        track_set: Set::empty(),
        track_metadata: Map::empty(),
        artist_track_names: Map::empty(),
    }
}

/// The rows without those of a path.
pub open spec fn without_path(rows: Seq<DeviceTrackRow>, path: Seq<char>) -> Seq<DeviceTrackRow>
    decreases rows.len(),
{
    if rows.len() == 0 {
        rows
    } else if rows.last().device_path == path {
        without_path(rows.drop_last(), path)
    } else {
        without_path(rows.drop_last(), path).push(rows.last())
    }
}

/// Every row filed under an artist whose name has the key, in the order of the
/// given album keys.
pub open spec fn rows_of_artist(
    m: Map<(Seq<char>, Seq<char>), Seq<DeviceTrackRow>>,
    order: Seq<(Seq<char>, Seq<char>)>,
    ak: Seq<char>,
) -> Seq<DeviceTrackRow>
    decreases order.len(),
{
    if order.len() == 0 {
        Seq::empty()
    } else {
        let rest = rows_of_artist(m, order.drop_last(), ak);
        let k = order.last();
        if match_key(k.0) == ak {
            rest + list_at(m, k)
        } else {
            rest
        }
    }
}

/// The match keys of the rows' names.
pub open spec fn raw_keys(rows: Seq<DeviceTrackRow>) -> Seq<Seq<char>> {
    rows.map_values(|r: DeviceTrackRow| match_key(r.name))
}

/// The set with the plain keys of the rows added.
pub open spec fn add_raw_keys(
    s: Set<(Seq<char>, Seq<char>)>,
    ak: Seq<char>,
    rows: Seq<DeviceTrackRow>,
) -> Set<(Seq<char>, Seq<char>)>
    decreases rows.len(),
{
    if rows.len() == 0 {
        s
    } else {
        add_raw_keys(s, ak, rows.drop_last()).insert((ak, match_key(rows.last().name)))
    }
}

/// The set with the number-stripped keys of the rows added.
pub open spec fn add_bare_keys(
    s: Set<(Seq<char>, Seq<char>)>,
    ak: Seq<char>,
    rows: Seq<DeviceTrackRow>,
) -> Set<(Seq<char>, Seq<char>)>
    decreases rows.len(),
{
    if rows.len() == 0 {
        s
    } else {
        add_bare_keys(s, ak, rows.drop_last()).insert((ak, stripped_key(rows.last().name)))
    }
}

/// The metadata with that of the rows put under their plain keys.
pub open spec fn add_raw_meta(
    m: Map<(Seq<char>, Seq<char>), DeviceTrackMeta>,
    ak: Seq<char>,
    rows: Seq<DeviceTrackRow>,
) -> Map<(Seq<char>, Seq<char>), DeviceTrackMeta>
    decreases rows.len(),
{
    if rows.len() == 0 {
        m
    } else {
        let r = rows.last();
        add_raw_meta(m, ak, rows.drop_last()).insert((ak, match_key(r.name)), (r.play_count, r.rating))
    }
}

/// The metadata with that of the rows put under their number-stripped keys,
/// where those differ from the plain ones.
pub open spec fn add_bare_meta(
    m: Map<(Seq<char>, Seq<char>), DeviceTrackMeta>,
    ak: Seq<char>,
    rows: Seq<DeviceTrackRow>,
) -> Map<(Seq<char>, Seq<char>), DeviceTrackMeta>
    decreases rows.len(),
{
    if rows.len() == 0 {
        m
    } else {
        let r = rows.last();
        let rest = add_bare_meta(m, ak, rows.drop_last());
        if stripped_key(r.name) != match_key(r.name) {
            rest.insert((ak, stripped_key(r.name)), (r.play_count, r.rating))
        } else {
            rest
        }
    }
}

/// The index with the lookup tables of one artist made anew from the rows
/// filed under that artist.
pub open spec fn relookup(
    ix: DeviceIndex,
    order: Seq<(Seq<char>, Seq<char>)>,
    artist: Seq<char>,
) -> DeviceIndex {
    let ak = match_key(artist);
    let rows = rows_of_artist(ix.album_tracks, order, ak);
    let kept_set = ix.track_set.filter(|k: (Seq<char>, Seq<char>)| k.0 != ak);
    let kept_meta = ix.track_metadata.restrict(
        ix.track_metadata.dom().filter(|k: (Seq<char>, Seq<char>)| k.0 != ak),
    );
    DeviceIndex {
        track_set: add_bare_keys(add_raw_keys(kept_set, ak, rows), ak, rows),
        track_metadata: add_bare_meta(add_raw_meta(kept_meta, ak, rows), ak, rows),
        artist_track_names: if rows.len() == 0 {
            ix.artist_track_names.remove(ak)
        } else {
            ix.artist_track_names.insert(ak, raw_keys(rows))
        },
        ..ix
    }
}

/// The index without the rows of a path, before the lookup tables follow.
pub open spec fn index_unfile(ix: DeviceIndex, name: Seq<char>) -> DeviceIndex {
    let p = track_parts(name);
    let key = (p.0, p.1);
    let rows = without_path(list_at(ix.album_tracks, key), device_path_of(name));
    if rows.len() > 0 {
        DeviceIndex { album_tracks: ix.album_tracks.insert(key, rows), ..ix }
    } else {
        let tracks = ix.album_tracks.remove(key);
        if ix.albums.contains_key(p.0) {
            let list = without_name(ix.albums[p.0], p.1);
            if list.len() == 0 {
                DeviceIndex {
                    album_tracks: tracks,
                    albums: ix.albums.remove(p.0),
                    artists: without_name(ix.artists, p.0),
                    ..ix
                }
            } else {
                DeviceIndex { album_tracks: tracks, albums: ix.albums.insert(p.0, list), ..ix }
            }
        } else {
            DeviceIndex { album_tracks: tracks, ..ix }
        }
    }
}

/// The track is indexed under its artist and album.
pub open spec fn is_indexed(ix: DeviceIndex, name: Seq<char>) -> bool {
    let p = track_parts(name);
    has_path(list_at(ix.album_tracks, (p.0, p.1)), device_path_of(name))
}

/// A track is taken to be on the device: its keys are indexed, or its name and
/// that of a track of the artist contain one another.
pub open spec fn is_on(ix: DeviceIndex, artist_key: Seq<char>, name_key: Seq<char>) -> bool {
    ix.track_set.contains((artist_key, name_key)) || (ix.track_set != Set::<
        (Seq<char>, Seq<char>),
    >::empty() && ix.artist_track_names.contains_key(artist_key) && some_name_overlaps(
        ix.artist_track_names[artist_key],
        name_key,
    ))
}

/// One of the names contains the key or is contained in it.
pub open spec fn some_name_overlaps(names: Seq<Seq<char>>, key: Seq<char>) -> bool {
    exists|i: int|
        0 <= i < names.len() && (has_substring(#[trigger] names[i], key) || has_substring(
            key,
            names[i],
        ))
}

// ---------------------------------------------------------------------------
// The device
// ---------------------------------------------------------------------------
/// What is known of the connected device.
pub struct DeviceState {
    pub status: DeviceStatus,
    pub name: Option<String>,
    pub firmware: Option<String>,
    pub serial: Option<String>,
    pub manufacturer: Option<String>,
    pub model: Option<String>,
    pub usb_mode: Option<String>,
    pub family: Option<DeviceFamily>,
    pub volume_format: Option<String>,
    pub storage: Option<StorageInfo>,
    pub tracks: Vec<DeviceEntry>,
    pub loading_tracks: bool,
    pub selected: usize,
    pub artists: Vec<String>,
    pub albums: OrdMap<String, Vec<String>>,
    pub album_tracks: OrdMap<(String, String), Vec<DeviceTrackInfo>>,
    /// Set of (normalized artist, normalized name) for on-device matching.
    pub track_set: OrdSet<(String, String)>,
    /// Per-track metadata keyed identically to `track_set` so library-side
    /// rows can inherit on-device `play_count` and `rating`.
    pub track_metadata: OrdMap<(String, String), DeviceTrackMeta>,
    /// Per-artist list of normalized device track names for substring
    /// fallback.
    pub artist_track_names: OrdMap<String, Vec<String>>,
    /// Number of items the device acquired on its own.
    pub acquired_items: u32,
    /// Sync progress status string from the device.
    pub sync_status: Option<String>,
    /// Set on disconnect so a still-running connect cannot resurrect the UI
    /// with late session events. Cleared on the next connect.
    pub ignore_session_events: bool,
}

impl DeviceState {
    /// The index that the tables stand for.
    pub open spec fn index(&self) -> DeviceIndex {
        DeviceIndex {
            artists: texts(self.artists@),
            albums: self.albums@.map_values(|v: Vec<String>| texts(v@)),
            album_tracks: self.album_tracks@.map_values(|v: Vec<DeviceTrackInfo>| track_rows(v@)),
            track_set: self.track_set@,
            track_metadata: self.track_metadata@,
            artist_track_names: self.artist_track_names@.map_values(|v: Vec<String>| texts(v@)),
        }
    }

    /// The album keys in order are those under which tracks are filed.
    pub open spec fn keys_are_walked(&self) -> bool {
        forall|k: (Seq<char>, Seq<char>)| #[trigger]
            self.index().album_tracks.contains_key(k) <==> self.album_tracks.keys().contains(k)
    }

    /// Everything but the index is as in `other`.
    pub open spec fn same_but_index(&self, other: &DeviceState) -> bool {
        *self == (DeviceState {
            artists: self.artists,
            albums: self.albums,
            album_tracks: self.album_tracks,
            track_set: self.track_set,
            track_metadata: self.track_metadata,
            artist_track_names: self.artist_track_names,
            ..*other
        })
    }

    /// A device that is not connected.
    pub fn new() -> (r: Self)
        ensures
            r.status == DeviceStatus::Disconnected,
            r.name is None && r.firmware is None && r.serial is None && r.manufacturer is None,
            r.model is None && r.usb_mode is None && r.family is None && r.volume_format is None,
            r.storage is None && r.sync_status is None,
            r.tracks@ == Seq::<DeviceEntry>::empty(),
            !r.loading_tracks && !r.ignore_session_events,
            r.selected == 0 && r.acquired_items == 0,
            r.index() == empty_index(),
    {
        let r = DeviceState {
            status: DeviceStatus::Disconnected,
            name: None,
            firmware: None,
            serial: None,
            manufacturer: None,
            model: None,
            usb_mode: None,
            family: None,
            volume_format: None,
            storage: None,
            tracks: Vec::new(),
            loading_tracks: false,
            selected: 0,
            artists: Vec::new(),
            albums: OrdMap::new(),
            album_tracks: OrdMap::new(),
            track_set: OrdSet::new(),
            track_metadata: OrdMap::new(),
            artist_track_names: OrdMap::new(),
            acquired_items: 0,
            sync_status: None,
            ignore_session_events: false,
        };
        proof {
            assert(r.index() =~= empty_index());
        }
        r
    }

    /// Empties the index.
    pub fn clear_index(&mut self)
        ensures
            final(self).index() == empty_index(),
            final(self).same_but_index(old(self)),
    {
        self.artists = Vec::new();
        self.albums = OrdMap::new();
        self.album_tracks = OrdMap::new();
        self.track_set = OrdSet::new();
        self.track_metadata = OrdMap::new();
        self.artist_track_names = OrdMap::new();
        proof {
            assert(self.index() =~= empty_index());
        }
    }

    fn path_is_listed(tracks: &Vec<DeviceTrackInfo>, path: &String) -> (r: bool)
        ensures
            r == has_path(track_rows(tracks@), path@),
    {
        let mut i: usize = 0;
        while i < tracks.len()
            invariant
                i <= tracks.len(),
                forall|k: int| 0 <= k < i ==> (#[trigger] track_rows(tracks@)[k]).device_path != path@,
            decreases tracks.len() - i,
        {
            if tracks[i].device_path == *path {
                proof {
                    assert(track_rows(tracks@)[i as int].device_path == path@);
                }
                return true;
            }
            i = i + 1;
        }
        false
    }

    fn album_list_with(&self, artist: &String, album: &String) -> (r: Vec<String>)
        ensures
            texts(r@) == insert_sorted(list_at(self.index().albums, artist@), album@),
    {
        let mut list: Vec<String> = match self.albums.get(artist) {
            Some(v) => v.clone(),
            None => Vec::new(),
        };
        proof {
            assert(texts(list@) =~= list_at(self.index().albums, artist@));
        }
        insert_name(&mut list, album);
        list
    }

    fn track_list_with(&self, key: &(String, String), track: DeviceTrackInfo) -> (r: Vec<DeviceTrackInfo>)
        ensures
            track_rows(r@) == list_at(self.index().album_tracks, (key.0@, key.1@)).push(track@),
    {
        let mut list: Vec<DeviceTrackInfo> = match self.album_tracks.get(key) {
            Some(v) => v.clone(),
            None => Vec::new(),
        };
        proof {
            assert(track_rows(list@) =~= list_at(self.index().album_tracks, (key.0@, key.1@)));
        }
        let ghost before = list@;
        list.push(track);
        proof {
            assert(track_rows(list@) =~= track_rows(before).push(track@));
        }
        list
    }

    fn name_list_with(&self, artist_key: &String, raw: String) -> (r: Vec<String>)
        ensures
            texts(r@) == list_at(self.index().artist_track_names, artist_key@).push(raw@),
    {
        let mut list: Vec<String> = match self.artist_track_names.get(artist_key) {
            Some(v) => v.clone(),
            None => Vec::new(),
        };
        proof {
            assert(texts(list@) =~= list_at(self.index().artist_track_names, artist_key@));
        }
        let ghost before = list@;
        list.push(raw);
        proof {
            assert(texts(list@) =~= texts(before).push(raw@));
        }
        list
    }

    /// Incrementally add a single device track to all index structures. Used
    /// during sync deltas to avoid full rebuilds.
    pub fn add_indexed_track(&mut self, entry: &DeviceEntry)
        ensures
            final(self).index() == index_add(old(self).index(), *entry),
            final(self).same_but_index(old(self)),
    {
        if entry.is_dir() {
            return;
        }
        let (artist, album, display_name) = parse_device_track_parts(entry.name.as_str());
        let device_path = concat2("/Music/", entry.name.as_str());
        let key = (artist.clone(), album.clone());
        if let Some(existing) = self.album_tracks.get(&key) {
            if Self::path_is_listed(existing, &device_path) {
                return;
            }
        }
        let ghost row = row_of(*entry);
        let ghost ix = self.index();
        assert(!has_path(list_at(ix.album_tracks, (artist@, album@)), device_path@));
        let track = DeviceTrackInfo {
            name: display_name.clone(),
            device_path,
            object_id: entry.object_id,
            artist: artist.clone(),
            album: album.clone(),
            track_number: entry.track_number,
            disc_number: entry.disc_number,
            play_count: entry.play_count,
            rating: entry.rating,
            skip_count: entry.skip_count,
            duration_ms: match entry.duration_ms {
                Some(d) => Some(d as u64),
                None => None,
            },
        };
        assert(track@ =~= row);
        let artist_key = normalize_for_match(artist.as_str());
        let raw = normalize_for_match(display_name.as_str());
        let bare = normalize_without_number(display_name.as_str());
        let meta: DeviceTrackMeta = (entry.play_count, entry.rating);
        let albums = self.album_list_with(&artist, &album);
        let tracks = self.track_list_with(&key, track);
        let names = self.name_list_with(&artist_key, raw.clone());
        insert_name(&mut self.artists, &artist);
        self.albums.insert(artist, albums);
        self.album_tracks.insert(key, tracks);
        self.track_set.insert((artist_key.clone(), raw.clone()));
        self.track_metadata.insert((artist_key.clone(), raw), meta);
        self.track_set.insert((artist_key.clone(), bare.clone()));
        self.track_metadata.insert((artist_key.clone(), bare), meta);
        self.artist_track_names.insert(artist_key, names);
        proof {
            assert(self.index().albums =~= index_add(ix, *entry).albums);
            assert(self.index().album_tracks =~= index_add(ix, *entry).album_tracks);
            assert(self.index().artist_track_names =~= index_add(ix, *entry).artist_track_names);
            assert(self.index() =~= index_add(ix, *entry));
        }
    }

    fn keys_of_others(&self, artist_key: &str) -> (r: OrdSet<(String, String)>)
        ensures
            r@ == self.track_set@.filter(|k: (Seq<char>, Seq<char>)| k.0 != artist_key@),
    {
        let mut r: OrdSet<(String, String)> = OrdSet::new();
        let n = self.track_set.map.len();
        let ghost keys = self.track_set.map.keys();
        let mut i: usize = 0;
        while i < n
            invariant
                i <= n,
                n == keys.len(),
                keys == self.track_set.map.keys(),
                forall|k: (Seq<char>, Seq<char>)| #[trigger]
                    r@.contains(k) <==> k.0 != artist_key@ && keys.take(i as int).contains(k),
            decreases n - i,
        {
            let k = self.track_set.map.key_at(i);
            let ghost before = r@;
            if !str_eq(k.0.as_str(), artist_key) {
                r.insert((k.0.clone(), k.1.clone()));
            }
            proof {
                let kv = keys[i as int];
                assert(keys.take(i + 1) =~= keys.take(i as int).push(kv));
                assert forall|x: (Seq<char>, Seq<char>)| #[trigger]
                    r@.contains(x) <==> x.0 != artist_key@ && keys.take(i + 1).contains(x) by {
                    if keys.take(i as int).contains(x) {
                        let q = keys.take(i as int).index_of(x);
                        assert(keys.take(i + 1)[q] == x);
                    }
                    if keys.take(i + 1).contains(x) {
                        let q = keys.take(i + 1).index_of(x);
                        if q < i {
                            assert(keys.take(i as int)[q] == x);
                        }
                    }
                    assert(keys.take(i + 1)[i as int] == kv);
                    assert(before.contains(x) || !before.contains(x));
                }
            }
            i = i + 1;
        }
        proof {
            assert(keys.take(n as int) =~= keys);
            assert forall|x: (Seq<char>, Seq<char>)| #[trigger]
                r@.contains(x) <==> self.track_set@.filter(
                    |k: (Seq<char>, Seq<char>)| k.0 != artist_key@,
                ).contains(x) by {
                assert(self.track_set.map@.contains_key(x) <==> keys.contains(x));
            }
            assert(r@ =~= self.track_set@.filter(|k: (Seq<char>, Seq<char>)| k.0 != artist_key@));
        }
        r
    }

    fn metadata_of_others(&self, artist_key: &str) -> (r: OrdMap<(String, String), DeviceTrackMeta>)
        ensures
            r@ == self.track_metadata@.restrict(
                self.track_metadata@.dom().filter(|k: (Seq<char>, Seq<char>)| k.0 != artist_key@),
            ),
    {
        let mut r: OrdMap<(String, String), DeviceTrackMeta> = OrdMap::new();
        let n = self.track_metadata.len();
        let ghost keys = self.track_metadata.keys();
        let ghost all = self.track_metadata@;
        let mut i: usize = 0;
        while i < n
            invariant
                i <= n,
                n == keys.len(),
                keys == self.track_metadata.keys(),
                all == self.track_metadata@,
                forall|k: (Seq<char>, Seq<char>)| #[trigger]
                    r@.contains_key(k) <==> k.0 != artist_key@ && keys.take(i as int).contains(k),
                forall|k: (Seq<char>, Seq<char>)| #[trigger] r@.contains_key(k) ==> r@[k] == all[k],
            decreases n - i,
        {
            let k = self.track_metadata.key_at(i);
            let v = *self.track_metadata.value_at(i);
            let ghost before = r@;
            if !str_eq(k.0.as_str(), artist_key) {
                r.insert((k.0.clone(), k.1.clone()), v);
            }
            proof {
                let kv = keys[i as int];
                assert(keys.take(i + 1) =~= keys.take(i as int).push(kv));
                assert forall|x: (Seq<char>, Seq<char>)| #[trigger]
                    r@.contains_key(x) <==> x.0 != artist_key@ && keys.take(i + 1).contains(x) by {
                    if keys.take(i as int).contains(x) {
                        let q = keys.take(i as int).index_of(x);
                        assert(keys.take(i + 1)[q] == x);
                    }
                    if keys.take(i + 1).contains(x) {
                        let q = keys.take(i + 1).index_of(x);
                        if q < i {
                            assert(keys.take(i as int)[q] == x);
                        }
                    }
                    assert(keys.take(i + 1)[i as int] == kv);
                    assert(before.contains_key(x) || !before.contains_key(x));
                }
            }
            i = i + 1;
        }
        proof {
            assert(keys.take(n as int) =~= keys);
            let want = all.restrict(
                all.dom().filter(|k: (Seq<char>, Seq<char>)| k.0 != artist_key@),
            );
            assert forall|x: (Seq<char>, Seq<char>)| #[trigger]
                r@.contains_key(x) <==> want.contains_key(x) by {
                assert(all.contains_key(x) <==> keys.contains(x));
            }
            assert(r@ =~= want);
        }
        r
    }

    /// The tracks filed under an artist whose name has the key, album by
    /// album.
    fn tracks_of_artist(&self, artist_key: &str) -> (r: Vec<DeviceTrackInfo>)
        ensures
            track_rows(r@) == rows_of_artist(
                self.index().album_tracks,
                self.album_tracks.keys(),
                artist_key@,
            ),
            self.keys_are_walked(),
    {
        let mut r: Vec<DeviceTrackInfo> = Vec::new();
        let n = self.album_tracks.len();
        let ghost keys = self.album_tracks.keys();
        let ghost m = self.index().album_tracks;
        let mut i: usize = 0;
        proof {
            assert(track_rows(r@) =~= rows_of_artist(m, keys.take(0), artist_key@));
        }
        while i < n
            invariant
                i <= n,
                n == keys.len(),
                keys == self.album_tracks.keys(),
                m == self.index().album_tracks,
                track_rows(r@) == rows_of_artist(m, keys.take(i as int), artist_key@),
            decreases n - i,
        {
            let k = self.album_tracks.key_at(i);
            let list = self.album_tracks.value_at(i);
            let found = normalize_for_match(k.0.as_str());
            proof {
                assert(keys.take(i + 1).drop_last() =~= keys.take(i as int));
                assert(keys.take(i + 1).last() == keys[i as int]);
                assert(list_at(m, keys[i as int]) == track_rows(list@));
            }
            if str_eq(found.as_str(), artist_key) {
                let mut j: usize = 0;
                let ghost before = track_rows(r@);
                while j < list.len()
                    invariant
                        j <= list.len(),
                        track_rows(r@) == before + track_rows(list@).take(j as int),
                    decreases list.len() - j,
                {
                    let ghost prev = r@;
                    r.push(list[j].clone());
                    proof {
                        assert(track_rows(r@) =~= track_rows(prev).push(list@[j as int]@));
                        assert(track_rows(list@).take(j + 1) =~= track_rows(list@).take(j as int).push(
                            list@[j as int]@,
                        ));
                    }
                    j = j + 1;
                }
                proof {
                    assert(track_rows(list@).take(list@.len() as int) =~= track_rows(list@));
                }
            }
            i = i + 1;
        }
        proof {
            assert(keys.take(n as int) =~= keys);
        }
        r
    }

    /// Rebuild `track_set`, `track_metadata`, and `artist_track_names` entries
    /// for a single artist from the tracks filed under that artist.
    pub fn rebuild_lookup_for_artist(&mut self, artist: &str)
        ensures
            final(self).index() == relookup(
                old(self).index(),
                old(self).album_tracks.keys(),
                artist@,
            ),
            final(self).same_but_index(old(self)),
            final(self).artists == old(self).artists,
            final(self).albums == old(self).albums,
            final(self).album_tracks == old(self).album_tracks,
            final(self).keys_are_walked(),
    {
        let ghost ix = self.index();
        let artist_key = normalize_for_match(artist);
        let tracks = self.tracks_of_artist(artist_key.as_str());
        let ghost rows = track_rows(tracks@);
        let ghost ak = artist_key@;
        let mut set = self.keys_of_others(artist_key.as_str());
        let mut meta = self.metadata_of_others(artist_key.as_str());
        let ghost set0 = set@;
        let ghost meta0 = meta@;
        let mut names: Vec<String> = Vec::new();
        let mut i: usize = 0;
        proof {
            assert(rows.take(0) =~= Seq::<DeviceTrackRow>::empty());
            assert(texts(names@) =~= raw_keys(rows.take(0)));
        }
        while i < tracks.len()
            invariant
                i <= tracks.len(),
                rows == track_rows(tracks@),
                ak == artist_key@,
                set@ == add_raw_keys(set0, ak, rows.take(i as int)),
                meta@ == add_raw_meta(meta0, ak, rows.take(i as int)),
                texts(names@) == raw_keys(rows.take(i as int)),
            decreases tracks.len() - i,
        {
            let raw = normalize_for_match(tracks[i].name.as_str());
            let m: DeviceTrackMeta = (tracks[i].play_count, tracks[i].rating);
            proof {
                assert(rows.take(i + 1).drop_last() =~= rows.take(i as int));
                assert(rows.take(i + 1).last() == rows[i as int]);
            }
            set.insert((artist_key.clone(), raw.clone()));
            meta.insert((artist_key.clone(), raw.clone()), m);
            let ghost before = names@;
            let ghost key = raw@;
            names.push(raw);
            proof {
                assert(texts(names@) =~= texts(before).push(key));
                assert(raw_keys(rows.take(i + 1)) =~= raw_keys(rows.take(i as int)).push(key));
            }
            i = i + 1;
        }
        let ghost set1 = set@;
        let ghost meta1 = meta@;
        proof {
            assert(rows.take(tracks@.len() as int) =~= rows);
        }
        let mut j: usize = 0;
        while j < tracks.len()
            invariant
                j <= tracks.len(),
                rows == track_rows(tracks@),
                ak == artist_key@,
                set@ == add_bare_keys(set1, ak, rows.take(j as int)),
                meta@ == add_bare_meta(meta1, ak, rows.take(j as int)),
            decreases tracks.len() - j,
        {
            let raw = normalize_for_match(tracks[j].name.as_str());
            let bare = normalize_without_number(tracks[j].name.as_str());
            let m: DeviceTrackMeta = (tracks[j].play_count, tracks[j].rating);
            proof {
                assert(rows.take(j + 1).drop_last() =~= rows.take(j as int));
                assert(rows.take(j + 1).last() == rows[j as int]);
            }
            set.insert((artist_key.clone(), bare.clone()));
            if !str_eq(bare.as_str(), raw.as_str()) {
                meta.insert((artist_key.clone(), bare), m);
            }
            j = j + 1;
        }
        self.track_set = set;
        self.track_metadata = meta;
        let _ = self.artist_track_names.remove(&artist_key);
        if names.len() > 0 {
            self.artist_track_names.insert(artist_key, names);
        }
        proof {
            assert(raw_keys(rows) == texts(names@));
            let want = relookup(ix, old(self).album_tracks.keys(), artist@);
            assert(set0 =~= ix.track_set.filter(|k: (Seq<char>, Seq<char>)| k.0 != ak));
            assert(meta0 =~= ix.track_metadata.restrict(
                ix.track_metadata.dom().filter(|k: (Seq<char>, Seq<char>)| k.0 != ak),
            ));
            assert(self.index().artist_track_names =~= want.artist_track_names);
            assert(self.index() =~= want);
        }
    }

    fn tracks_without(tracks: &Vec<DeviceTrackInfo>, path: &String) -> (r: Vec<DeviceTrackInfo>)
        ensures
            track_rows(r@) == without_path(track_rows(tracks@), path@),
            r.len() <= tracks.len(),
            r.len() == tracks.len() <==> !has_path(track_rows(tracks@), path@),
    {
        let mut r: Vec<DeviceTrackInfo> = Vec::new();
        let ghost rows = track_rows(tracks@);
        let mut i: usize = 0;
        proof {
            assert(track_rows(r@) =~= without_path(rows.take(0), path@));
        }
        while i < tracks.len()
            invariant
                i <= tracks.len(),
                rows == track_rows(tracks@),
                track_rows(r@) == without_path(rows.take(i as int), path@),
                r.len() <= i,
                r.len() == i <==> forall|k: int| 0 <= k < i ==> (#[trigger] rows[k]).device_path != path@,
            decreases tracks.len() - i,
        {
            proof {
                assert(rows.take(i + 1).drop_last() =~= rows.take(i as int));
                assert(rows.take(i + 1).last() == rows[i as int]);
                assert(rows[i as int].device_path == tracks@[i as int].device_path@);
            }
            if tracks[i].device_path != *path {
                let ghost before = r@;
                r.push(tracks[i].clone());
                proof {
                    assert(track_rows(r@) =~= track_rows(before).push(tracks@[i as int]@));
                }
            }
            i = i + 1;
        }
        proof {
            assert(rows.take(tracks@.len() as int) =~= rows);
        }
        r
    }

    /// Incrementally remove a single device track identified by its relative
    /// name (e.g. `"Artist/Album/track.mp3"`). Returns true if a track was
    /// found and removed.
    pub fn remove_indexed_track(&mut self, relative_name: &str) -> (found: bool)
        ensures
            found == is_indexed(old(self).index(), relative_name@),
            !found ==> *final(self) == *old(self),
            found ==> final(self).index() == relookup(
                index_unfile(old(self).index(), relative_name@),
                final(self).album_tracks.keys(),
                track_parts(relative_name@).0,
            ),
            found ==> final(self).keys_are_walked(),
            final(self).same_but_index(old(self)),
    {
        let (artist, album, _display_name) = parse_device_track_parts(relative_name);
        let device_path = concat2("/Music/", relative_name);
        let key = (artist.clone(), album.clone());
        let ghost ix = self.index();
        let kept = match self.album_tracks.get(&key) {
            Some(tracks) => {
                let kept = Self::tracks_without(tracks, &device_path);
                if kept.len() == tracks.len() {
                    return false;
                }
                kept
            },
            None => {
                return false;
            },
        };
        if kept.len() > 0 {
            self.album_tracks.insert(key, kept);
            proof {
                assert(self.index() =~= index_unfile(ix, relative_name@));
            }
        } else {
            let _ = self.album_tracks.remove(&key);
            let rest: Option<Vec<String>> = match self.albums.get(&artist) {
                Some(albums) => Some(drop_name(albums, album.as_str())),
                None => None,
            };
            proof {
                assert(self.index().album_tracks =~= ix.album_tracks.remove((artist@, album@)));
            }
            if let Some(list) = rest {
                if list.len() == 0 {
                    let _ = self.albums.remove(&artist);
                    self.artists = drop_name(&self.artists, artist.as_str());
                } else {
                    self.albums.insert(artist.clone(), list);
                }
            }
            proof {
                assert(self.index().albums =~= index_unfile(ix, relative_name@).albums);
                assert(self.index() =~= index_unfile(ix, relative_name@));
            }
        }
        self.rebuild_lookup_for_artist(artist.as_str());
        true
    }

    /// The device is connected and holds a track with the keys.
    pub open spec fn holds(&self, artist_key: Seq<char>, name_key: Seq<char>) -> bool {
        self.status == DeviceStatus::Connected && is_on(self.index(), artist_key, name_key)
    }

    /// Check if a track identified by pre-normalized `(artist_key, name_key)`
    /// is on the device.
    pub fn contains_track(&self, artist_key: &str, name_key: &str) -> (r: bool)
        ensures
            r == self.holds(artist_key@, name_key@),
    {
        if self.status != DeviceStatus::Connected || self.track_set.is_empty() {
            return false;
        }
        let key = (artist_key.to_owned(), name_key.to_owned());
        if self.track_set.contains(&key) {
            return true;
        }
        match self.artist_track_names.get(&key.0) {
            Some(names) => {
                let ghost t = texts(names@);
                proof {
                    assert(self.index().artist_track_names.contains_key(artist_key@));
                    assert(self.index().artist_track_names[artist_key@] == t);
                }
                let mut i: usize = 0;
                while i < names.len()
                    invariant
                        i <= names.len(),
                        t == texts(names@),
                        self.status == DeviceStatus::Connected,
                        self.track_set@ != Set::<(Seq<char>, Seq<char>)>::empty(),
                        self.index().artist_track_names.contains_key(artist_key@),
                        self.index().artist_track_names[artist_key@] == t,
                        forall|k: int|
                            0 <= k < i ==> !has_substring(#[trigger] t[k], name_key@) && !has_substring(
                                name_key@,
                                t[k],
                            ),
                    decreases names.len() - i,
                {
                    proof {
                        assert(t[i as int] == names@[i as int]@);
                    }
                    if contains_str(names[i].as_str(), name_key) || contains_str(
                        name_key,
                        names[i].as_str(),
                    ) {
                        proof {
                            assert(some_name_overlaps(t, name_key@));
                        }
                        return true;
                    }
                    i = i + 1;
                }
                false
            },
            None => false,
        }
    }
}

/// Check if a single track is on device, by its plain artist and name.
pub fn is_on_device(artist: &str, name: &str, device: &DeviceState) -> (r: bool)
    ensures
        r == device.holds(match_key(artist@), match_key(name@)),
{
    if device.status != DeviceStatus::Connected || device.track_set.is_empty() {
        return false;
    }
    let artist_key = normalize_for_match(artist);
    let name_key = normalize_for_match(name);
    device.contains_track(artist_key.as_str(), name_key.as_str())
}

} // verus!
