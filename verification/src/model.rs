//! The data that everything works on: library tracks, device entries and device
//! families.
use vstd::prelude::*;
use crate::text::str_eq;

verus! {

/// One track of the music library, as the scanner read it.
#[derive(Debug, Default, PartialEq, Eq)]
pub struct Track {
    pub id: u64,
    pub name: String,
    pub artist: String,
    pub album: String,
    pub album_artist: Option<String>,
    pub genre: Option<String>,
    pub composer: Option<String>,
    pub publisher: Option<String>,
    pub encoder: Option<String>,
    pub initial_key: Option<String>,
    pub mood: Option<String>,
    pub kind: Option<String>,
    pub location: Option<String>,
    /// Chromaprint fingerprint.
    pub acoustic_id: Option<String>,
    /// MusicBrainz release the file is tagged against.
    pub mb_release_id: Option<String>,
    pub total_time_ms: Option<u64>,
    pub track_number: Option<u32>,
    pub disc_number: Option<u32>,
    pub year: Option<u32>,
    pub bpm: Option<u32>,
    pub audio_bitrate_kbps: Option<u32>,
    pub sample_rate: Option<u32>,
    pub bit_depth: Option<u8>,
    pub channels: Option<u8>,
    pub file_size_bytes: Option<u64>,
}

impl Clone for Track {
    fn clone(&self) -> (r: Self)
        ensures
            r == *self,
    {
        Track {
            id: self.id,
            name: self.name.clone(),
            artist: self.artist.clone(),
            album: self.album.clone(),
            album_artist: self.album_artist.clone(),
            genre: self.genre.clone(),
            composer: self.composer.clone(),
            publisher: self.publisher.clone(),
            encoder: self.encoder.clone(),
            initial_key: self.initial_key.clone(),
            mood: self.mood.clone(),
            kind: self.kind.clone(),
            location: self.location.clone(),
            acoustic_id: self.acoustic_id.clone(),
            mb_release_id: self.mb_release_id.clone(),
            total_time_ms: self.total_time_ms,
            track_number: self.track_number,
            disc_number: self.disc_number,
            year: self.year,
            bpm: self.bpm,
            audio_bitrate_kbps: self.audio_bitrate_kbps,
            sample_rate: self.sample_rate,
            bit_depth: self.bit_depth,
            channels: self.channels,
            file_size_bytes: self.file_size_bytes,
        }
    }
}

/// One object the device reported.
#[derive(Debug, Default, PartialEq, Eq)]
pub struct DeviceEntry {
    /// Path below the music root, such as `Artist/Album/01 Song.mp3`.
    pub name: String,
    pub object_id: u64,
    /// Object format; folders report `Association`.
    pub format: String,
    pub track_number: Option<u32>,
    pub disc_number: Option<u32>,
    pub play_count: Option<u32>,
    pub rating: Option<u16>,
    pub skip_count: Option<u32>,
    pub duration_ms: Option<u32>,
}

impl Clone for DeviceEntry {
    fn clone(&self) -> (r: Self)
        ensures
            r == *self,
    {
        DeviceEntry {
            name: self.name.clone(),
            object_id: self.object_id,
            format: self.format.clone(),
            track_number: self.track_number,
            disc_number: self.disc_number,
            play_count: self.play_count,
            rating: self.rating,
            skip_count: self.skip_count,
            duration_ms: self.duration_ms,
        }
    }
}

/// Capacity of the device.
#[derive(Debug, PartialEq, Eq)]
pub struct StorageInfo {
    pub total_bytes: u64,
    pub free_bytes: u64,
}

impl Clone for StorageInfo {
    fn clone(&self) -> (r: Self)
        ensures
            r == *self,
    {
        StorageInfo {
            total_bytes: self.total_bytes,
            free_bytes: self.free_bytes,
        }
    }
}

impl DeviceEntry {
    /// The entry is a folder.
    pub open spec fn dir(self) -> bool {
        self.format@ == "Association"@
    }

    /// Whether the entry is a folder rather than a track.
    pub fn is_dir(&self) -> (r: bool)
        ensures
            r == self.dir(),
    {
        str_eq(self.format.as_str(), "Association")
    }
}

/// The device families that can be connected.
#[derive(Debug, Clone, Copy, PartialEq, Eq, Structural)]
pub enum DeviceFamily {
    Zune,
    Ipod,
    Gogear,
}

impl DeviceFamily {
    /// The name of the family on screen.
    pub open spec fn text(self) -> Seq<char> {
        match self {
            DeviceFamily::Zune => "Zune"@,
            DeviceFamily::Ipod => "iPod"@,
            DeviceFamily::Gogear => "GoGear"@,
        }
    }

    /// The name of the family on screen.
    pub fn label(self) -> (r: &'static str)
        ensures
            r@ == self.text(),
    {
        match self {
            DeviceFamily::Zune => "Zune",
            DeviceFamily::Ipod => "iPod",
            DeviceFamily::Gogear => "GoGear",
        }
    }
}

} // verus!
