//! Small types of the user interface.
use vstd::prelude::*;
use crate::format::concat3;
use crate::text::{lowercase_of, push_char, str_eq, to_lowercase};

verus! {

/// Result of dispatching a single keyboard event. `Quit` signals the run loop
/// to break.
#[derive(Debug, Clone, Copy, PartialEq, Eq, Structural)]
pub enum KeyOutcome {
    Continue,
    Quit,
}

#[derive(Debug, Clone, Copy, PartialEq, Eq, Structural)]
pub enum Panel {
    Library,
    Albums,
    TrackList,
    Device,
    SyncQueue,
}

#[derive(Debug, Clone, Copy, PartialEq, Eq, Hash, Structural)]
pub enum SidebarMode {
    Artists,
    Albums,
}

#[derive(Debug, Clone, Copy, PartialEq, Eq, Hash, Structural)]
pub enum BrowseMode {
    Library,
    Device,
    Playlists,
}

/// A single sidebar row: a bare artist, a paired (artist, album), or a
/// playlist.
#[derive(Debug, PartialEq, Eq)]
pub enum SidebarEntry {
    Artist(String),
    Album { artist: String, album: String },
    /// `id` is the stable playlist id for lookup, `name` is cached for
    /// display.
    Playlist { id: u64, name: String },
}

/// What a sidebar row says.
#[verifier::ext_equal]
pub enum SidebarRow {
    Artist(Seq<char>),
    Album(Seq<char>, Seq<char>),
    Playlist(u64, Seq<char>),
}

impl View for SidebarEntry {
    type V = SidebarRow;

    open spec fn view(&self) -> SidebarRow {
        match self {
            SidebarEntry::Artist(a) => SidebarRow::Artist(a@),
            SidebarEntry::Album { artist, album } => SidebarRow::Album(artist@, album@),
            SidebarEntry::Playlist { id, name } => SidebarRow::Playlist(*id, name@),
        }
    }
}

impl Clone for SidebarEntry {
    fn clone(&self) -> (r: Self)
        ensures
            r == *self,
    {
        match self {
            SidebarEntry::Artist(a) => SidebarEntry::Artist(a.clone()),
            SidebarEntry::Album { artist, album } => SidebarEntry::Album {
                artist: artist.clone(),
                album: album.clone(),
            },
            SidebarEntry::Playlist { id, name } => SidebarEntry::Playlist {
                id: *id,
                name: name.clone(),
            },
        }
    }
}

impl SidebarRow {
    /// The label of the row.
    pub open spec fn label(self) -> Seq<char> {
        match self {
            SidebarRow::Artist(a) => a,
            SidebarRow::Album(artist, album) => artist + " \u{2014} "@ + album,
            SidebarRow::Playlist(_, name) => name,
        }
    }

    /// The text whose first letter the letter jumps go by.
    pub open spec fn jump_text(self) -> Seq<char> {
        match self {
            SidebarRow::Artist(a) => a,
            SidebarRow::Album(artist, _) => artist,
            SidebarRow::Playlist(_, name) => name,
        }
    }

    /// The text that a search looks through.
    pub open spec fn search_text(self) -> Seq<char> {
        match self {
            SidebarRow::Artist(a) => lowercase_of(a),
            SidebarRow::Album(artist, album) => lowercase_of(artist).push('\n') + lowercase_of(album),
            SidebarRow::Playlist(_, name) => lowercase_of(name),
        }
    }
}

impl SidebarEntry {
    /// Human-readable label for rendering (also used as the queue-item label).
    pub fn display(&self) -> (r: String)
        ensures
            r@ == self@.label(),
    {
        match self {
            SidebarEntry::Artist(a) => a.clone(),
            SidebarEntry::Album { artist, album } => concat3(
                artist.as_str(),
                " \u{2014} ",
                album.as_str(),
            ),
            SidebarEntry::Playlist { name, .. } => name.clone(),
        }
    }

    /// Key used for first-letter jump navigation. Artist/album variants key
    /// off the artist name so navigation is uniform across sidebar modes;
    /// playlist rows key off the playlist name.
    pub fn nav_key(&self) -> (r: &str)
        ensures
            r@ == self@.jump_text(),
    {
        match self {
            SidebarEntry::Artist(a) => a.as_str(),
            SidebarEntry::Album { artist, .. } => artist.as_str(),
            SidebarEntry::Playlist { name, .. } => name.as_str(),
        }
    }

    /// Pre-lowercased search key cached alongside each sidebar row. Album
    /// entries join artist and album with `\n` so substring matches hit either
    /// side but can't span the separator.
    pub fn lowercase_key(&self) -> (r: String)
        ensures
            r@ == self@.search_text(),
    {
        match self {
            SidebarEntry::Artist(a) => to_lowercase(a.as_str()),
            SidebarEntry::Album { artist, album } => {
                let mut out = to_lowercase(artist.as_str());
                push_char(&mut out, '\n');
                let tail = to_lowercase(album.as_str());
                out.append(tail.as_str());
                out
            },
            SidebarEntry::Playlist { name, .. } => to_lowercase(name.as_str()),
        }
    }
}

/// A search text is found in an album row wherever it stands in the artist or
/// in the album, and only there: a search text without a line break never
/// reaches across the separator.
pub proof fn search_stays_on_one_side(artist: Seq<char>, album: Seq<char>, query: Seq<char>)
    ensures
        crate::text::has_substring(lowercase_of(artist), query) || crate::text::has_substring(
            lowercase_of(album),
            query,
        ) ==> crate::text::has_substring(SidebarRow::Album(artist, album).search_text(), query),
        !query.contains('\n') && crate::text::has_substring(
            SidebarRow::Album(artist, album).search_text(),
            query,
        ) ==> crate::text::has_substring(lowercase_of(artist), query) || crate::text::has_substring(
            lowercase_of(album),
            query,
        ),
{
    let a = lowercase_of(artist);
    let b = lowercase_of(album);
    let whole = a.push('\n') + b;
    let n = query.len() as int;
    if crate::text::has_substring(a, query) {
        let k = choose|k: int| crate::text::occurs_at(a, query, k);
        assert(whole.subrange(k, k + n) =~= a.subrange(k, k + n));
        assert(crate::text::occurs_at(whole, query, k));
    }
    if crate::text::has_substring(b, query) {
        let k = choose|k: int| crate::text::occurs_at(b, query, k);
        let j = a.len() + 1 + k;
        assert(whole.subrange(j, j + n) =~= b.subrange(k, k + n));
        assert(crate::text::occurs_at(whole, query, j));
    }
    if query.contains('\n') || !crate::text::has_substring(whole, query) {
        return ;
    }
    let i = choose|i: int| crate::text::occurs_at(whole, query, i);
    assert(crate::text::occurs_at(whole, query, i));
    if i + n <= a.len() {
        assert(a.subrange(i, i + n) =~= whole.subrange(i, i + n));
        assert(crate::text::occurs_at(a, query, i));
    } else if i > a.len() {
        let j = i - a.len() - 1;
        assert(b.subrange(j, j + n) =~= whole.subrange(i, i + n));
        assert(crate::text::occurs_at(b, query, j));
    } else {
        assert(whole.subrange(i, i + n)[a.len() - i] == '\n');
        assert(query[a.len() - i] == '\n');
    }
}

/// A track as the device reported it.
#[derive(Debug, Default, PartialEq, Eq)]
pub struct DeviceTrackInfo {
    pub name: String,
    pub device_path: String,
    pub object_id: u64,
    pub artist: String,
    pub album: String,
    pub track_number: Option<u32>,
    pub disc_number: Option<u32>,
    /// How many times the device has played this track. `None` when the
    /// device family doesn't surface a playcount.
    pub play_count: Option<u32>,
    /// User-set rating from the device, 0 to 100. `None` if the device
    /// doesn't surface ratings.
    pub rating: Option<u16>,
    /// How many times the device has skipped this track.
    pub skip_count: Option<u32>,
    /// Duration in milliseconds from the device.
    pub duration_ms: Option<u64>,
}

/// What a device track says.
#[verifier::ext_equal]
pub struct DeviceTrackRow {
    pub name: Seq<char>,
    pub device_path: Seq<char>,
    pub object_id: u64,
    pub artist: Seq<char>,
    pub album: Seq<char>,
    pub track_number: Option<u32>,
    pub disc_number: Option<u32>,
    pub play_count: Option<u32>,
    pub rating: Option<u16>,
    pub skip_count: Option<u32>,
    pub duration_ms: Option<u64>,
}

impl View for DeviceTrackInfo {
    type V = DeviceTrackRow;

    open spec fn view(&self) -> DeviceTrackRow {
        DeviceTrackRow {
            name: self.name@,
            device_path: self.device_path@,
            object_id: self.object_id,
            artist: self.artist@,
            album: self.album@,
            track_number: self.track_number,
            disc_number: self.disc_number,
            play_count: self.play_count,
            rating: self.rating,
            skip_count: self.skip_count,
            duration_ms: self.duration_ms,
        }
    }
}

impl Clone for DeviceTrackInfo {
    fn clone(&self) -> (r: Self)
        ensures
            r == *self,
    {
        DeviceTrackInfo {
            name: self.name.clone(),
            device_path: self.device_path.clone(),
            object_id: self.object_id,
            artist: self.artist.clone(),
            album: self.album.clone(),
            track_number: self.track_number,
            disc_number: self.disc_number,
            play_count: self.play_count,
            rating: self.rating,
            skip_count: self.skip_count,
            duration_ms: self.duration_ms,
        }
    }
}

#[derive(Debug, Clone, Copy, PartialEq, Eq, Structural)]
pub enum DeviceStatus {
    Disconnected,
    Detecting,
    Connecting,
    Connected,
}

#[derive(Debug, Clone, Copy, PartialEq, Eq, Structural)]
pub enum DevicePresence {
    Absent,
    Partial,
    Full,
}

#[derive(Debug, Clone, Copy, PartialEq, Eq, Structural)]
pub enum SyncStatus {
    Idle,
    Running { current: usize, total: usize },
}

/// Per-track on-device metadata cached for fast library-side lookup: play
/// count and rating.
pub type DeviceTrackMeta = (Option<u32>, Option<u16>);

#[derive(Debug, Clone, Copy, PartialEq, Eq, Structural)]
pub enum SortColumn {
    Number,
    Name,
    Artist,
    Album,
    Duration,
    Format,
}

#[derive(Debug, Clone, Copy, PartialEq, Eq, Structural)]
pub enum AlbumArtStyle {
    Halfblock,
    Ascii,
}

/// The style that a name stands for.
pub open spec fn style_named(s: Seq<char>) -> Option<AlbumArtStyle> {
    if s == "halfblock"@ {
        Some(AlbumArtStyle::Halfblock)
    } else if s == "ascii"@ {
        Some(AlbumArtStyle::Ascii)
    } else {
        None
    }
}

impl AlbumArtStyle {
    /// The name of the style in the configuration.
    pub open spec fn text(self) -> Seq<char> {
        match self {
            AlbumArtStyle::Halfblock => "halfblock"@,
            AlbumArtStyle::Ascii => "ascii"@,
        }
    }

    pub fn as_str(&self) -> (r: &'static str)
        ensures
            r@ == self.text(),
    {
        match self {
            AlbumArtStyle::Halfblock => "halfblock",
            AlbumArtStyle::Ascii => "ascii",
        }
    }

    /// The style that a configured name stands for, if any.
    pub fn parse(s: &str) -> (r: Option<AlbumArtStyle>)
        ensures
            r == style_named(s@),
    {
        if str_eq(s, "halfblock") {
            Some(AlbumArtStyle::Halfblock)
        } else if str_eq(s, "ascii") {
            Some(AlbumArtStyle::Ascii)
        } else {
            None
        }
    }
}

impl std::str::FromStr for AlbumArtStyle {
    type Err = ();

    /// `Ok` with the style that the name stands for, `Err` where it stands for
    /// none.
    fn from_str(s: &str) -> (r: Result<AlbumArtStyle, ()>)
        ensures
            match style_named(s@) {
                Some(style) => r == Ok::<AlbumArtStyle, ()>(style),
                None => r == Err::<AlbumArtStyle, ()>(()),
            },
    {
        match AlbumArtStyle::parse(s) {
            Some(style) => Ok(style),
            None => Err(()),
        }
    }
}

/// Parsing the name of a style gives back the style, and a name that parses is
/// that of its style.
pub proof fn style_name_round_trip(style: AlbumArtStyle, name: Seq<char>)
    ensures
        style_named(style.text()) == Some(style),
        style_named(name) == Some(style) ==> name == style.text(),
{
    reveal_strlit("halfblock");
    reveal_strlit("ascii");
    assert("halfblock"@.len() != "ascii"@.len());
}

#[derive(Debug, Clone, Copy, PartialEq, Eq, Structural)]
pub enum PlaybackState {
    Playing,
    Paused,
}

/// Where the stem-mode flow currently is.
#[derive(Debug, Clone, Copy, PartialEq, Eq, Structural)]
pub enum StemStatus {
    Off,
    /// Engine install running in the background (consent already given).
    Provisioning,
    /// The requested track is being separated. `pct` is the last progress
    /// tick, `None` before the first one arrives.
    Separating { pct: Option<u8> },
    /// Stem playback is live.
    Active,
}

/// The marker that a count of matched tracks out of a total stands for.
pub open spec fn presence(matched: nat, total: nat) -> DevicePresence {
    if total == 0 || matched == 0 {
        DevicePresence::Absent
    } else if matched >= total {
        DevicePresence::Full
    } else {
        DevicePresence::Partial
    }
}

/// Map a `(matched, total)` track count to a tri-state presence marker.
pub fn presence_from_counts(matched: usize, total: usize) -> (r: DevicePresence)
    ensures
        r == presence(matched as nat, total as nat),
{
    if total == 0 || matched == 0 {
        DevicePresence::Absent
    } else if matched >= total {
        DevicePresence::Full
    } else {
        DevicePresence::Partial
    }
}

} // verus!
