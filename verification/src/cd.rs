//! CD import: what the drive reports, and the overlay that configures a rip.
use vstd::prelude::*;
use crate::format::concat3;
use crate::input::KeyCode;
use crate::text::{ascii_lower, str_eq, to_ascii_lowercase, trim, trimmed};

verus! {

/// The formats that a rip can be encoded in.
#[derive(Debug, Clone, Copy, PartialEq, Eq, Structural)]
pub enum RipFidelity {
    Flac,
    Alac,
    Wav,
    Aac,
    Mp3Cbr320,
    Mp3V0,
    Mp3V2,
}

/// The fidelity that a configured name stands for.
pub open spec fn fidelity_named(s: Seq<char>) -> Option<RipFidelity> {
    if s == "mp3-cbr-320"@ || s == "mp3-320"@ {
        Some(RipFidelity::Mp3Cbr320)
    } else if s == "mp3-v0"@ {
        Some(RipFidelity::Mp3V0)
    } else if s == "mp3-v2"@ {
        Some(RipFidelity::Mp3V2)
    } else if s == "aac"@ || s == "aac-256"@ {
        Some(RipFidelity::Aac)
    } else if s == "alac"@ || s == "apple-lossless"@ {
        Some(RipFidelity::Alac)
    } else if s == "flac"@ {
        Some(RipFidelity::Flac)
    } else if s == "wav"@ {
        Some(RipFidelity::Wav)
    } else {
        None
    }
}

/// Parse a configured fidelity name. Returns `None` for unrecognised input
/// (and the caller falls back to FLAC).
pub fn parse_default_fidelity(s: Option<&str>) -> (r: Option<RipFidelity>)
    ensures
        r == match s {
            Some(name) => fidelity_named(ascii_lower(trimmed(name@))),
            None => None,
        },
{
    let name = match s {
        Some(name) => {
            let t = trim(name);
            to_ascii_lowercase(t.as_str())
        },
        None => {
            return None;
        },
    };
    let n = name.as_str();
    if str_eq(n, "mp3-cbr-320") || str_eq(n, "mp3-320") {
        Some(RipFidelity::Mp3Cbr320)
    } else if str_eq(n, "mp3-v0") {
        Some(RipFidelity::Mp3V0)
    } else if str_eq(n, "mp3-v2") {
        Some(RipFidelity::Mp3V2)
    } else if str_eq(n, "aac") || str_eq(n, "aac-256") {
        Some(RipFidelity::Aac)
    } else if str_eq(n, "alac") || str_eq(n, "apple-lossless") {
        Some(RipFidelity::Alac)
    } else if str_eq(n, "flac") {
        Some(RipFidelity::Flac)
    } else if str_eq(n, "wav") {
        Some(RipFidelity::Wav)
    } else {
        None
    }
}

impl RipFidelity {
    pub open spec fn after(self) -> RipFidelity {
        match self {
            RipFidelity::Flac => RipFidelity::Alac,
            RipFidelity::Alac => RipFidelity::Wav,
            RipFidelity::Wav => RipFidelity::Aac,
            RipFidelity::Aac => RipFidelity::Mp3Cbr320,
            RipFidelity::Mp3Cbr320 => RipFidelity::Mp3V0,
            RipFidelity::Mp3V0 => RipFidelity::Mp3V2,
            RipFidelity::Mp3V2 => RipFidelity::Flac,
        }
    }

    pub open spec fn ahead(self) -> RipFidelity {
        match self {
            RipFidelity::Flac => RipFidelity::Mp3V2,
            RipFidelity::Alac => RipFidelity::Flac,
            RipFidelity::Wav => RipFidelity::Alac,
            RipFidelity::Aac => RipFidelity::Wav,
            RipFidelity::Mp3Cbr320 => RipFidelity::Aac,
            RipFidelity::Mp3V0 => RipFidelity::Mp3Cbr320,
            RipFidelity::Mp3V2 => RipFidelity::Mp3V0,
        }
    }

    /// The next fidelity, round and round.
    pub fn next(self) -> (r: RipFidelity)
        ensures
            r == self.after(),
    {
        match self {
            RipFidelity::Flac => RipFidelity::Alac,
            RipFidelity::Alac => RipFidelity::Wav,
            RipFidelity::Wav => RipFidelity::Aac,
            RipFidelity::Aac => RipFidelity::Mp3Cbr320,
            RipFidelity::Mp3Cbr320 => RipFidelity::Mp3V0,
            RipFidelity::Mp3V0 => RipFidelity::Mp3V2,
            RipFidelity::Mp3V2 => RipFidelity::Flac,
        }
    }

    /// The previous fidelity, round and round.
    pub fn prev(self) -> (r: RipFidelity)
        ensures
            r == self.ahead(),
    {
        match self {
            RipFidelity::Flac => RipFidelity::Mp3V2,
            RipFidelity::Alac => RipFidelity::Flac,
            RipFidelity::Wav => RipFidelity::Alac,
            RipFidelity::Aac => RipFidelity::Wav,
            RipFidelity::Mp3Cbr320 => RipFidelity::Aac,
            RipFidelity::Mp3V0 => RipFidelity::Mp3Cbr320,
            RipFidelity::Mp3V2 => RipFidelity::Mp3V0,
        }
    }
}

#[derive(Debug)]
pub struct CdDrive {
    pub path: String,
    pub name: String,
}

impl Clone for CdDrive {
    fn clone(&self) -> (r: Self)
        ensures
            r == *self,
    {
        CdDrive { path: self.path.clone(), name: self.name.clone() }
    }
}

/// The table of contents of a disc.
#[derive(Debug)]
pub struct DiscToc {
    pub first_track: u32,
    pub last_track: u32,
    pub lead_out_lba: u32,
    pub tracks: Vec<u32>,
}

impl Clone for DiscToc {
    fn clone(&self) -> (r: Self)
        ensures
            r == (DiscToc { tracks: r.tracks, ..*self }),
            r.tracks@ == self.tracks@,
    {
        let r = DiscToc {
            first_track: self.first_track,
            last_track: self.last_track,
            lead_out_lba: self.lead_out_lba,
            tracks: self.tracks.clone(),
        };
        proof {
            assert(r.tracks@ =~= self.tracks@);
        }
        r
    }
}

/// A track of a release.
#[derive(Debug)]
pub struct MbTrack {
    pub id: String,
    pub position: Option<u32>,
    pub title: String,
    pub length: Option<u64>,
}

impl Clone for MbTrack {
    fn clone(&self) -> (r: Self)
        ensures
            r == *self,
    {
        MbTrack {
            id: self.id.clone(),
            position: self.position,
            title: self.title.clone(),
            length: self.length,
        }
    }
}

/// One disc of a release.
#[derive(Debug)]
pub struct Medium {
    pub tracks: Vec<MbTrack>,
}

impl Clone for Medium {
    fn clone(&self) -> (r: Self)
        ensures
            r.tracks@ == self.tracks@,
    {
        let r = Medium { tracks: self.tracks.clone() };
        proof {
            assert(r.tracks@ =~= self.tracks@);
        }
        r
    }
}

/// A release as MusicBrainz describes it.
#[derive(Debug)]
pub struct Release {
    pub id: String,
    pub title: String,
    pub artist: String,
    pub media: Vec<Medium>,
}

/// What a release says: id, title, artist, and the tracks of each disc.
#[verifier::ext_equal]
pub struct ReleaseText {
    pub id: String,
    pub title: String,
    pub artist: String,
    pub media: Seq<Seq<MbTrack>>,
}

impl View for Release {
    type V = ReleaseText;

    open spec fn view(&self) -> ReleaseText {
        ReleaseText {
            id: self.id,
            title: self.title,
            artist: self.artist,
            media: self.media@.map_values(|m: Medium| m.tracks@),
        }
    }
}

impl Clone for Release {
    fn clone(&self) -> (r: Self)
        ensures
            r@ == self@,
    {
        let r = Release {
            id: self.id.clone(),
            title: self.title.clone(),
            artist: self.artist.clone(),
            media: self.media.clone(),
        };
        proof {
            assert(r@ =~= self@);
        }
        r
    }
}

/// The tracks of the first disc that has any.
pub open spec fn active_tracks(media: Seq<Seq<MbTrack>>) -> Seq<MbTrack>
    decreases media.len(),
{
    if media.len() == 0 {
        Seq::empty()
    } else if media[0].len() > 0 {
        media[0]
    } else {
        active_tracks(media.skip(1))
    }
}

/// The position of a track: its own, or its place on the disc.
pub open spec fn position_of(t: MbTrack, i: int) -> u32 {
    match t.position {
        Some(p) => p,
        None => (i + 1) as u32,
    }
}

impl Release {
    pub open spec fn tracks(&self) -> Seq<MbTrack> {
        active_tracks(self@.media)
    }

    /// The index of the first disc that has tracks, or the number of discs.
    fn active_medium(&self) -> (r: usize)
        ensures
            r <= self.media.len(),
            r < self.media.len() ==> self.tracks() == self.media@[r as int].tracks@,
            r == self.media.len() ==> self.tracks() == Seq::<MbTrack>::empty(),
    {
        let ghost m = self@.media;
        let mut i: usize = 0;
        proof {
            assert(m.skip(0) =~= m);
        }
        while i < self.media.len() && self.media[i].tracks.len() == 0
            invariant
                i <= self.media.len(),
                m == self@.media,
                active_tracks(m) == active_tracks(m.skip(i as int)),
            decreases self.media.len() - i,
        {
            proof {
                assert(m.skip(i as int)[0] == m[i as int]);
                assert(m.skip(i as int).skip(1) =~= m.skip(i + 1));
            }
            i = i + 1;
        }
        proof {
            if i < self.media.len() {
                assert(m.skip(i as int)[0] == m[i as int]);
            }
        }
        i
    }

    /// How many tracks can be ripped.
    pub fn track_count(&self) -> (n: usize)
        ensures
            n == self.tracks().len(),
    {
        let i = self.active_medium();
        if i < self.media.len() {
            self.media[i].tracks.len()
        } else {
            0
        }
    }
}

/// What the worker reports of the drive.
pub enum CdStatusEvent {
    NoDrive,
    NoMedia { drive: CdDrive },
    UnknownDisc { drive: CdDrive, reason: String },
    Identified {
        drive: CdDrive,
        toc: DiscToc,
        mb_disc_id: String,
        primary: Release,
        alternates: Vec<Release>,
    },
}

/// Live state for an in-flight rip.
#[derive(Debug)]
pub struct RipProgressState {
    pub current: usize,
    pub total: usize,
    pub track_title: String,
    /// Track duration in ms, where it is known.
    pub track_length_ms: Option<u64>,
    /// Elapsed audio time in the current track in ms.
    pub elapsed_ms: u64,
    /// Track-level errors collected during the rip.
    pub errors: Vec<String>,
}

/// CD-import state.
pub struct CdState {
    /// Last status received from the background worker.
    pub last_status: Option<CdStatusEvent>,
    /// When the most recent detection was requested, in ms of the clock.
    /// Seeded at startup so that the first tick does not poll the drive before
    /// the user has done anything.
    pub last_request: Option<u64>,
    /// True while a detection is in flight.
    pub detect_in_flight: bool,
    /// Active rip progress.
    pub rip: Option<RipProgressState>,
}

impl CdState {
    /// No status yet, and the first poll one interval away.
    pub fn new(clock_ms: u64) -> (r: Self)
        ensures
            r.last_status is None,
            r.last_request == Some(clock_ms),
            !r.detect_in_flight,
            r.rip is None,
    {
        CdState { last_status: None, last_request: Some(clock_ms), detect_in_flight: false, rip: None }
    }
}

/// What the worker needs to rip and import a disc.
pub struct RipAndImportRequest {
    pub drive: CdDrive,
    pub toc: DiscToc,
    pub release: Release,
    pub track_positions: Vec<u32>,
    pub fidelity: RipFidelity,
    pub dest_dir: String,
    pub auto_eject: bool,
    pub compute_acoustid_fingerprint: bool,
}

/// Where a track of the planned rip would land: the name of the file without
/// its extension, and whether the very file is there already.
#[derive(Debug)]
pub struct PlannedFile {
    pub position: u32,
    pub stem: Option<String>,
    pub exists: bool,
}

/// What the host found in the destination of the planned rip.
#[derive(Debug)]
pub struct RipScan {
    /// One entry per numbered track of the release.
    pub planned: Vec<PlannedFile>,
    /// The files of the album directory, without their extensions.
    pub existing_stems: Vec<String>,
}

// ---------------------------------------------------------------------------
// The overlay
// ---------------------------------------------------------------------------
/// The fields of the import overlay.
#[derive(Debug, Clone, Copy, PartialEq, Eq, Structural)]
pub enum ImportField {
    Tracks,
    Fidelity,
    AlternateMatch,
    AutoEject,
}

impl ImportField {
    pub open spec fn after(self) -> ImportField {
        match self {
            ImportField::Tracks => ImportField::Fidelity,
            ImportField::Fidelity => ImportField::AlternateMatch,
            ImportField::AlternateMatch => ImportField::AutoEject,
            ImportField::AutoEject => ImportField::Tracks,
        }
    }

    pub open spec fn ahead(self) -> ImportField {
        match self {
            ImportField::Tracks => ImportField::AutoEject,
            ImportField::Fidelity => ImportField::Tracks,
            ImportField::AlternateMatch => ImportField::Fidelity,
            ImportField::AutoEject => ImportField::AlternateMatch,
        }
    }

    pub fn next(self) -> (r: ImportField)
        ensures
            r == self.after(),
    {
        match self {
            ImportField::Tracks => ImportField::Fidelity,
            ImportField::Fidelity => ImportField::AlternateMatch,
            ImportField::AlternateMatch => ImportField::AutoEject,
            ImportField::AutoEject => ImportField::Tracks,
        }
    }

    pub fn prev(self) -> (r: ImportField)
        ensures
            r == self.ahead(),
    {
        match self {
            ImportField::Tracks => ImportField::AutoEject,
            ImportField::Fidelity => ImportField::Tracks,
            ImportField::AlternateMatch => ImportField::Fidelity,
            ImportField::AutoEject => ImportField::AlternateMatch,
        }
    }
}

/// Walking back undoes walking on, for the fields and for the fidelities.
pub proof fn import_cycles_are_inverse(field: ImportField, fidelity: RipFidelity)
    ensures
        field.after().ahead() == field,
        field.ahead().after() == field,
        fidelity.after().ahead() == fidelity,
        fidelity.ahead().after() == fidelity,
{
}

/// The overlay in which a rip is configured.
pub struct ImportOverlay {
    pub drive: CdDrive,
    pub toc: DiscToc,
    pub mb_disc_id: String,
    /// The primary match, then the alternates.
    pub releases: Vec<Release>,
    pub release_idx: usize,
    pub fidelity: RipFidelity,
    pub auto_eject: bool,
    pub focus: ImportField,
    pub cursor: usize,
    /// Whether each track of the current release is to be ripped.
    pub selected: Vec<bool>,
    /// How many of the planned files exist already.
    pub conflict_count: usize,
    /// The user has been warned: the next confirmation overwrites.
    pub overwrite_armed: bool,
}

/// How many are true.
pub open spec fn count_true(s: Seq<bool>) -> nat
    decreases s.len(),
{
    if s.len() == 0 {
        0
    } else {
        count_true(s.drop_last()) + if s.last() {
            1nat
        } else {
            0
        }
    }
}

/// The positions of the selected tracks, in order.
pub open spec fn selected_positions(tracks: Seq<MbTrack>, selected: Seq<bool>, n: int) -> Seq<u32>
    decreases n,
{
    if n <= 0 {
        Seq::empty()
    } else if selected[n - 1] {
        selected_positions(tracks, selected, n - 1).push(position_of(tracks[n - 1], n - 1))
    } else {
        selected_positions(tracks, selected, n - 1)
    }
}

impl ImportOverlay {
    /// A release is chosen, each of its tracks has a mark, and the cursor
    /// stands on a track.
    pub open spec fn valid(&self) -> bool {
        &&& self.release_idx < self.releases@.len()
        &&& self.selected@.len() == self.release().tracks().len()
        &&& self.release().tracks().len() < u32::MAX
        &&& (self.selected@.len() == 0 || self.cursor < self.selected@.len())
        &&& forall|i: int|
            0 <= i < self.releases@.len() ==> (#[trigger] self.releases@[i]).tracks().len() < u32::MAX
    }

    pub open spec fn release(&self) -> Release {
        self.releases@[self.release_idx as int]
    }

    /// The positions to be ripped.
    pub open spec fn positions(&self) -> Seq<u32> {
        selected_positions(self.release().tracks(), self.selected@, self.selected@.len() as int)
    }

    /// The selection is no longer the one that the user was warned about.
    pub open spec fn disarmed(&self) -> bool {
        !self.overwrite_armed && self.conflict_count == 0
    }

    /// An overlay on a disc with every track selected.
    pub fn new(
        drive: CdDrive,
        toc: DiscToc,
        mb_disc_id: String,
        primary: Release,
        alternates: Vec<Release>,
        fidelity: RipFidelity,
        auto_eject: bool,
    ) -> (r: Self)
        requires
            primary.tracks().len() < u32::MAX,
            forall|i: int|
                0 <= i < alternates@.len() ==> (#[trigger] alternates@[i]).tracks().len() < u32::MAX,
        ensures
            r.valid(),
            r.drive == drive && r.toc == toc && r.mb_disc_id == mb_disc_id,
            r.releases@ == seq![primary] + alternates@,
            r.release_idx == 0 && r.cursor == 0,
            r.fidelity == fidelity && r.auto_eject == auto_eject,
            r.focus == ImportField::Tracks,
            r.selected@ == Seq::new(primary.tracks().len(), |i: int| true),
            r.disarmed(),
    {
        let n = primary.track_count();
        let mut rest = alternates;
        let ghost tail = rest@;
        let mut releases: Vec<Release> = Vec::new();
        releases.push(primary);
        releases.append(&mut rest);
        proof {
            assert(releases@ =~= seq![primary] + tail);
        }
        ImportOverlay {
            drive,
            toc,
            mb_disc_id,
            releases,
            release_idx: 0,
            fidelity,
            auto_eject,
            focus: ImportField::Tracks,
            cursor: 0,
            selected: marks(n, true),
            conflict_count: 0,
            overwrite_armed: false,
        }
    }

    pub fn current_release(&self) -> (r: &Release)
        requires
            self.valid(),
        ensures
            *r == self.release(),
    {
        &self.releases[self.release_idx]
    }

    /// The label of the current release: artist and title.
    pub fn current_release_label(&self) -> (r: String)
        requires
            self.valid(),
        ensures
            r@ == self.release().artist@ + " \u{2014} "@ + self.release().title@,
    {
        let rel = self.current_release();
        concat3(rel.artist.as_str(), " \u{2014} ", rel.title.as_str())
    }

    /// How many tracks are selected.
    pub fn selected_count(&self) -> (n: usize)
        ensures
            n == count_true(self.selected@),
    {
        let mut n: usize = 0;
        let mut i: usize = 0;
        while i < self.selected.len()
            invariant
                i <= self.selected.len(),
                n <= i,
                n == count_true(self.selected@.take(i as int)),
            decreases self.selected.len() - i,
        {
            proof {
                assert(self.selected@.take(i + 1).drop_last() =~= self.selected@.take(i as int));
            }
            if self.selected[i] {
                n = n + 1;
            }
            i = i + 1;
        }
        proof {
            assert(self.selected@.take(self.selected@.len() as int) =~= self.selected@);
        }
        n
    }

    /// The positions of the selected tracks.
    pub fn selected_track_positions(&self) -> (r: Vec<u32>)
        requires
            self.valid(),
        ensures
            r@ == self.positions(),
    {
        let mut r: Vec<u32> = Vec::new();
        let rel = &self.releases[self.release_idx];
        let m = rel.active_medium();
        if m >= rel.media.len() {
            return r;
        }
        let tracks = &rel.media[m].tracks;
        let mut i: usize = 0;
        while i < self.selected.len()
            invariant
                i <= self.selected.len(),
                self.selected@.len() == tracks@.len(),
                tracks@ == self.release().tracks(),
                tracks@.len() < u32::MAX,
                r@ == selected_positions(tracks@, self.selected@, i as int),
            decreases self.selected.len() - i,
        {
            if self.selected[i] {
                let p: u32 = match tracks[i].position {
                    Some(p) => p,
                    None => (i as u32) + 1,
                };
                r.push(p);
            }
            i = i + 1;
        }
        r
    }

    pub fn cursor_up(&mut self)
        requires
            old(self).valid(),
        ensures
            final(self).valid(),
            *final(self) == (ImportOverlay {
                cursor: if old(self).cursor > 0 {
                    (old(self).cursor - 1) as usize
                } else {
                    0
                },
                ..*old(self)
            }),
    {
        if self.cursor > 0 {
            self.cursor = self.cursor - 1;
        }
    }

    pub fn cursor_down(&mut self)
        requires
            old(self).valid(),
        ensures
            final(self).valid(),
            *final(self) == (ImportOverlay {
                cursor: if old(self).cursor + 1 < old(self).selected@.len() {
                    (old(self).cursor + 1) as usize
                } else {
                    old(self).cursor
                },
                ..*old(self)
            }),
    {
        let n = self.selected.len();
        if n > 0 && self.cursor < n - 1 {
            self.cursor = self.cursor + 1;
        }
    }

    fn disarm(&mut self)
        ensures
            *final(self) == (ImportOverlay { overwrite_armed: false, conflict_count: 0, ..*old(self) }),
    {
        self.overwrite_armed = false;
        self.conflict_count = 0;
    }

    pub fn next_fidelity(&mut self)
        ensures
            *final(self) == (ImportOverlay {
                fidelity: old(self).fidelity.after(),
                overwrite_armed: false,
                conflict_count: 0,
                ..*old(self)
            }),
    {
        self.fidelity = self.fidelity.next();
        self.disarm();
    }

    pub fn prev_fidelity(&mut self)
        ensures
            *final(self) == (ImportOverlay {
                fidelity: old(self).fidelity.ahead(),
                overwrite_armed: false,
                conflict_count: 0,
                ..*old(self)
            }),
    {
        self.fidelity = self.fidelity.prev();
        self.disarm();
    }

    /// The overlay moved to another release, with all of its tracks selected.
    pub open spec fn moved_to(&self, before: &ImportOverlay, idx: int) -> bool {
        &&& *self == (ImportOverlay {
            release_idx: self.release_idx,
            cursor: 0,
            selected: self.selected,
            overwrite_armed: false,
            conflict_count: 0,
            ..*before
        })
        &&& self.release_idx == idx
        &&& self.selected@ == Seq::new(before.releases@[idx].tracks().len(), |i: int| true)
        &&& self.valid()
    }

    fn choose_release(&mut self, idx: usize)
        requires
            old(self).valid(),
            idx < old(self).releases@.len(),
        ensures
            final(self).moved_to(old(self), idx as int),
    {
        let n = self.releases[idx].track_count();
        self.release_idx = idx;
        self.cursor = 0;
        self.selected = marks(n, true);
        self.disarm();
    }

    pub fn next_release(&mut self)
        requires
            old(self).valid(),
        ensures
            final(self).moved_to(
                old(self),
                if old(self).release_idx + 1 < old(self).releases@.len() {
                    old(self).release_idx + 1
                } else {
                    0
                },
            ),
    {
        let n = self.releases.len();
        let idx: usize = if self.release_idx < n - 1 {
            self.release_idx + 1
        } else {
            0
        };
        self.choose_release(idx);
    }

    pub fn prev_release(&mut self)
        requires
            old(self).valid(),
        ensures
            final(self).moved_to(
                old(self),
                if old(self).release_idx > 0 {
                    old(self).release_idx - 1
                } else {
                    old(self).releases@.len() - 1
                },
            ),
    {
        let n = self.releases.len();
        let idx: usize = if self.release_idx > 0 {
            self.release_idx - 1
        } else {
            n - 1
        };
        self.choose_release(idx);
    }

    /// Selects or deselects the track under the cursor.
    pub fn toggle_current_track(&mut self)
        requires
            old(self).valid(),
        ensures
            final(self).valid(),
            *final(self) == (ImportOverlay {
                selected: final(self).selected,
                overwrite_armed: false,
                conflict_count: 0,
                ..*old(self)
            }),
            final(self).selected@ == if old(self).selected@.len() == 0 {
                old(self).selected@
            } else {
                old(self).selected@.update(
                    old(self).cursor as int,
                    !old(self).selected@[old(self).cursor as int],
                )
            },
    {
        if self.selected.len() > 0 {
            let on = self.selected[self.cursor];
            self.selected[self.cursor] = !on;
        }
        self.disarm();
    }

    fn mark_all(&mut self, on: bool)
        requires
            old(self).valid(),
        ensures
            final(self).valid(),
            *final(self) == (ImportOverlay {
                selected: final(self).selected,
                overwrite_armed: false,
                conflict_count: 0,
                ..*old(self)
            }),
            final(self).selected@ == Seq::new(old(self).selected@.len(), |i: int| on),
    {
        self.selected = marks(self.selected.len(), on);
        self.disarm();
    }

    pub fn select_all(&mut self)
        requires
            old(self).valid(),
        ensures
            final(self).valid(),
            *final(self) == (ImportOverlay {
                selected: final(self).selected,
                overwrite_armed: false,
                conflict_count: 0,
                ..*old(self)
            }),
            final(self).selected@ == Seq::new(old(self).selected@.len(), |i: int| true),
    {
        self.mark_all(true);
    }

    pub fn select_none(&mut self)
        requires
            old(self).valid(),
        ensures
            final(self).valid(),
            *final(self) == (ImportOverlay {
                selected: final(self).selected,
                overwrite_armed: false,
                conflict_count: 0,
                ..*old(self)
            }),
            final(self).selected@ == Seq::new(old(self).selected@.len(), |i: int| false),
    {
        self.mark_all(false);
    }
}

impl ImportOverlay {
    /// The overlay after a key that neither closes nor confirms it.
    pub open spec fn edited(&self, before: &ImportOverlay, code: KeyCode) -> bool {
        let on_tracks = before.focus == ImportField::Tracks;
        if code == KeyCode::Tab {
            *self == (ImportOverlay { focus: before.focus.after(), ..*before })
        } else if code == KeyCode::BackTab {
            *self == (ImportOverlay { focus: before.focus.ahead(), ..*before })
        } else if code == KeyCode::Up && on_tracks {
            *self == (ImportOverlay {
                cursor: if before.cursor > 0 {
                    (before.cursor - 1) as usize
                } else {
                    0
                },
                ..*before
            })
        } else if code == KeyCode::Down && on_tracks {
            *self == (ImportOverlay {
                cursor: if before.cursor + 1 < before.selected@.len() {
                    (before.cursor + 1) as usize
                } else {
                    before.cursor
                },
                ..*before
            })
        } else if code == KeyCode::Char('F') || (code == KeyCode::Right && before.focus
            == ImportField::Fidelity) {
            *self == (ImportOverlay {
                fidelity: before.fidelity.after(),
                overwrite_armed: false,
                conflict_count: 0,
                ..*before
            })
        } else if code == KeyCode::Char('f') || (code == KeyCode::Left && before.focus
            == ImportField::Fidelity) {
            *self == (ImportOverlay {
                fidelity: before.fidelity.ahead(),
                overwrite_armed: false,
                conflict_count: 0,
                ..*before
            })
        } else if code == KeyCode::Char(']') || (code == KeyCode::Right && before.focus
            == ImportField::AlternateMatch) {
            self.moved_to(before, before.release_after())
        } else if code == KeyCode::Char('[') || (code == KeyCode::Left && before.focus
            == ImportField::AlternateMatch) {
            self.moved_to(before, before.release_ahead())
        } else if code == KeyCode::Char('e') || (code == KeyCode::Char(' ') && before.focus
            == ImportField::AutoEject) {
            *self == (ImportOverlay { auto_eject: !before.auto_eject, ..*before })
        } else if code == KeyCode::Char(' ') && on_tracks {
            self.remarked(
                before,
                if before.selected@.len() == 0 {
                    before.selected@
                } else {
                    before.selected@.update(
                        before.cursor as int,
                        !before.selected@[before.cursor as int],
                    )
                },
            )
        } else if code == KeyCode::Char('a') && on_tracks {
            self.remarked(before, Seq::new(before.selected@.len(), |i: int| true))
        } else if code == KeyCode::Char('n') && on_tracks {
            self.remarked(before, Seq::new(before.selected@.len(), |i: int| false))
        } else {
            *self == *before
        }
    }

    /// Another selection, about which the user has not been warned.
    pub open spec fn remarked(&self, before: &ImportOverlay, marks: Seq<bool>) -> bool {
        &&& *self == (ImportOverlay {
            selected: self.selected,
            overwrite_armed: false,
            conflict_count: 0,
            ..*before
        })
        &&& self.selected@ == marks
    }

    /// The release after the current one, round and round.
    pub open spec fn release_after(&self) -> int {
        if self.release_idx + 1 < self.releases@.len() {
            self.release_idx + 1
        } else {
            0
        }
    }

    /// The release before the current one, round and round.
    pub open spec fn release_ahead(&self) -> int {
        if self.release_idx > 0 {
            self.release_idx - 1
        } else {
            self.releases@.len() - 1
        }
    }

    /// Takes a key that neither closes nor confirms the overlay.
    pub fn press(&mut self, code: KeyCode)
        requires
            old(self).valid(),
        ensures
            final(self).edited(old(self), code),
            final(self).valid(),
    {
        match code {
            KeyCode::Tab => {
                self.focus = self.focus.next();
            },
            KeyCode::BackTab => {
                self.focus = self.focus.prev();
            },
            KeyCode::Up => {
                if self.focus == ImportField::Tracks {
                    self.cursor_up();
                }
            },
            KeyCode::Down => {
                if self.focus == ImportField::Tracks {
                    self.cursor_down();
                }
            },
            KeyCode::Left => {
                if self.focus == ImportField::Fidelity {
                    self.prev_fidelity();
                } else if self.focus == ImportField::AlternateMatch {
                    self.prev_release();
                }
            },
            KeyCode::Right => {
                if self.focus == ImportField::Fidelity {
                    self.next_fidelity();
                } else if self.focus == ImportField::AlternateMatch {
                    self.next_release();
                }
            },
            KeyCode::Char(c) => {
                if c == ' ' {
                    if self.focus == ImportField::Tracks {
                        self.toggle_current_track();
                    } else if self.focus == ImportField::AutoEject {
                        self.auto_eject = !self.auto_eject;
                    }
                } else if c == 'a' {
                    if self.focus == ImportField::Tracks {
                        self.select_all();
                    }
                } else if c == 'n' {
                    if self.focus == ImportField::Tracks {
                        self.select_none();
                    }
                } else if c == '[' {
                    self.prev_release();
                } else if c == ']' {
                    self.next_release();
                } else if c == 'f' {
                    self.prev_fidelity();
                } else if c == 'F' {
                    self.next_fidelity();
                } else if c == 'e' {
                    self.auto_eject = !self.auto_eject;
                }
            },
            _ => {},
        }
    }
}

/// A warning about existing files covers the very selection that it was given
/// for: any key that changes what would be ripped takes it back.
pub proof fn changes_disarm(before: ImportOverlay, after: ImportOverlay, code: KeyCode)
    requires
        before.valid(),
        after.edited(&before, code),
        after.selected@ != before.selected@ || after.fidelity != before.fidelity || after.release_idx
            != before.release_idx,
    ensures
        after.disarmed(),
{
}

fn marks(n: usize, on: bool) -> (r: Vec<bool>)
    ensures
        r@ == Seq::new(n as nat, |i: int| on),
{
    let mut r: Vec<bool> = Vec::new();
    let mut i: usize = 0;
    while i < n
        invariant
            i <= n,
            r@ == Seq::new(i as nat, |k: int| on),
        decreases n - i,
    {
        r.push(on);
        i = i + 1;
    }
    r
}

// ---------------------------------------------------------------------------
// Conflicts
// ---------------------------------------------------------------------------
/// The release has a numbered track at the position.
pub open spec fn has_position(tracks: Seq<MbTrack>, p: u32) -> bool {
    exists|i: int| 0 <= i < tracks.len() && (#[trigger] tracks[i]).position == Some(p)
}

/// The planned file of a position.
pub open spec fn planned_at(planned: Seq<PlannedFile>, p: u32) -> Option<PlannedFile> {
    crate::library::first_where(planned, |f: PlannedFile| f.position == p)
}

/// One of the names is the given one.
pub open spec fn has_stem(stems: Seq<String>, stem: Seq<char>) -> bool {
    exists|i: int| 0 <= i < stems.len() && (#[trigger] stems[i])@ == stem
}

/// The file of a position is there already, under whatever extension.
pub open spec fn conflicts_at(scan: RipScan, tracks: Seq<MbTrack>, p: u32) -> bool {
    has_position(tracks, p) && match planned_at(scan.planned@, p) {
        Some(f) => f.exists || (f.stem matches Some(s) && has_stem(scan.existing_stems@, s@)),
        None => false,
    }
}

/// How many of the positions are there already.
pub open spec fn conflict_total(scan: RipScan, tracks: Seq<MbTrack>, positions: Seq<u32>) -> nat
    decreases positions.len(),
{
    if positions.len() == 0 {
        0
    } else {
        conflict_total(scan, tracks, positions.drop_last()) + if conflicts_at(
            scan,
            tracks,
            positions.last(),
        ) {
            1nat
        } else {
            0
        }
    }
}

fn has_stem_exec(stems: &Vec<String>, stem: &str) -> (r: bool)
    ensures
        r == has_stem(stems@, stem@),
{
    let mut i: usize = 0;
    while i < stems.len()
        invariant
            i <= stems.len(),
            forall|k: int| 0 <= k < i ==> (#[trigger] stems@[k])@ != stem@,
        decreases stems.len() - i,
    {
        if str_eq(stems[i].as_str(), stem) {
            return true;
        }
        i = i + 1;
    }
    false
}

fn has_position_exec(rel: &Release, p: u32) -> (r: bool)
    ensures
        r == has_position(rel.tracks(), p),
{
    let m = rel.active_medium();
    if m >= rel.media.len() {
        return false;
    }
    let tracks = &rel.media[m].tracks;
    let mut i: usize = 0;
    while i < tracks.len()
        invariant
            i <= tracks.len(),
            tracks@ == rel.tracks(),
            forall|k: int| 0 <= k < i ==> (#[trigger] tracks@[k]).position != Some(p),
        decreases tracks.len() - i,
    {
        if let Some(q) = tracks[i].position {
            if q == p {
                proof {
                    assert(tracks@[i as int].position == Some(p));
                }
                return true;
            }
        }
        i = i + 1;
    }
    false
}

fn conflicts_at_exec(scan: &RipScan, rel: &Release, p: u32) -> (r: bool)
    ensures
        r == conflicts_at(*scan, rel.tracks(), p),
{
    if !has_position_exec(rel, p) {
        return false;
    }
    let ghost cond = |f: PlannedFile| f.position == p;
    let mut i: usize = 0;
    while i < scan.planned.len()
        invariant
            i <= scan.planned.len(),
            has_position(rel.tracks(), p),
            cond == |f: PlannedFile| f.position == p,
            forall|k: int| 0 <= k < i ==> !cond(#[trigger] scan.planned@[k]),
        decreases scan.planned.len() - i,
    {
        if scan.planned[i].position == p {
            proof {
                crate::library::first_index_is(scan.planned@, cond, i as int);
            }
            let f = &scan.planned[i];
            return f.exists || match &f.stem {
                Some(s) => has_stem_exec(&scan.existing_stems, s.as_str()),
                None => false,
            };
        }
        i = i + 1;
    }
    proof {
        crate::library::first_index_none(scan.planned@, cond);
    }
    false
}

/// Counts the positions whose file is there already.
pub fn count_conflicts(scan: &RipScan, rel: &Release, positions: &Vec<u32>) -> (n: usize)
    ensures
        n == conflict_total(*scan, rel.tracks(), positions@),
        n <= positions@.len(),
{
    let mut n: usize = 0;
    let mut i: usize = 0;
    while i < positions.len()
        invariant
            i <= positions.len(),
            n <= i,
            n == conflict_total(*scan, rel.tracks(), positions@.take(i as int)),
        decreases positions.len() - i,
    {
        proof {
            assert(positions@.take(i + 1).drop_last() =~= positions@.take(i as int));
        }
        if conflicts_at_exec(scan, rel, positions[i]) {
            n = n + 1;
        }
        i = i + 1;
    }
    proof {
        assert(positions@.take(positions@.len() as int) =~= positions@);
    }
    n
}

} // verus!
