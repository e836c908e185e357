//! Commands for the background worker and the audio thread, and requests to
//! the host that runs the event loop.
use vstd::prelude::*;
use crate::cd::RipAndImportRequest;
use crate::copies::targets;
use crate::playlists::GenerationRequest;
use crate::stem_model::{EngineKind, RecipeKind};
use crate::tag_model::ReleaseDiff;

verus! {

/// One track to be uploaded to the device.
#[derive(Debug, Default, PartialEq, Eq)]
pub struct SyncItem {
    pub artist: String,
    pub album: String,
    pub name: String,
    pub location: String,
    pub track_number: Option<u32>,
    pub genre: Option<String>,
    /// Copies on the device that the upload replaces: path and object id.
    pub overwrite_targets: Vec<(String, u64)>,
}

impl Clone for SyncItem {
    fn clone(&self) -> (r: Self)
        ensures
            r == (SyncItem { overwrite_targets: r.overwrite_targets, ..*self }),
            r.overwrite_targets@ == self.overwrite_targets@,
    {
        let r = SyncItem {
            artist: self.artist.clone(),
            album: self.album.clone(),
            name: self.name.clone(),
            location: self.location.clone(),
            track_number: self.track_number,
            genre: self.genre.clone(),
            overwrite_targets: same_targets(&self.overwrite_targets),
        };
        r
    }
}

/// The same copies once more.
fn same_targets(list: &Vec<(String, u64)>) -> (r: Vec<(String, u64)>)
    ensures
        r@ == list@,
{
    let mut r: Vec<(String, u64)> = Vec::new();
    let mut i: usize = 0;
    while i < list.len()
        invariant
            i <= list.len(),
            r@ == list@.take(i as int),
        decreases list.len() - i,
    {
        r.push((list[i].0.clone(), list[i].1));
        proof {
            assert(r@ =~= list@.take(i + 1));
        }
        i = i + 1;
    }
    proof {
        assert(list@.take(list@.len() as int) =~= list@);
    }
    r
}

/// What an upload says.
#[verifier::ext_equal]
pub struct Upload {
    pub artist: String,
    pub album: String,
    pub name: String,
    pub location: String,
    pub track_number: Option<u32>,
    pub genre: Option<String>,
    pub targets: Seq<(Seq<char>, u64)>,
}

impl View for SyncItem {
    type V = Upload;

    open spec fn view(&self) -> Upload {
        Upload {
            artist: self.artist,
            album: self.album,
            name: self.name,
            location: self.location,
            track_number: self.track_number,
            genre: self.genre,
            targets: targets(self.overwrite_targets@),
        }
    }
}

/// What the uploads say.
pub open spec fn uploads(s: Seq<SyncItem>) -> Seq<Upload> {
    s.map_values(|i: SyncItem| i@)
}

/// One entry of the sync queue.
pub struct QueuedItem {
    pub label: String,
    pub tracks: Vec<SyncItem>,
}

/// What the audio thread is asked to swap to.
#[derive(Debug, PartialEq, Eq)]
pub enum SwapTarget {
    File { path: String },
}

/// Commands for the audio thread.
#[derive(Debug, PartialEq, Eq)]
pub enum AudioCommand {
    Play { path: String },
    Pause,
    Resume,
    Stop,
    Scrub { delta_ms: i64 },
    SwapSource { target: SwapTarget },
}

/// What the audio thread reports.
#[derive(Debug, PartialEq, Eq)]
pub enum AudioEvent {
    Position { elapsed_ms: u64 },
    TrackEnded,
    PlaybackError(String),
    SwapFailed { error: String, to_stems: bool },
    SeekFailed(String),
}

/// Commands for the background worker.
#[allow(inconsistent_fields)]
pub enum BgCommand {
    Connect,
    Disconnect,
    LoadDeviceTracks,
    CancelSync,
    CancelSeparation,
    CancelRip,
    RemoveFromDevice(Vec<(String, u64)>),
    ExecuteSyncQueue(Vec<SyncItem>),
    AppendSyncQueue(Vec<SyncItem>),
    LoadLibrary { music_dir: Option<String>, fingerprint: bool },
    LoadAlbumArt { key: String, artist: String, album: String, paths: Vec<String> },
    DetectCd { mb_base_url: Option<String>, mb_user_agent: Option<String> },
    RipAndImport(RipAndImportRequest),
    MbReleaseDetails {
        token: u64,
        mbid: String,
        mb_base_url: Option<String>,
        mb_user_agent: Option<String>,
    },
    MbSearchReleases {
        token: u64,
        artist: String,
        album: String,
        mb_base_url: Option<String>,
        mb_user_agent: Option<String>,
    },
    MbRecordingReleases {
        token: u64,
        recording_mbid: String,
        mb_base_url: Option<String>,
        mb_user_agent: Option<String>,
    },
    AcoustIdLookup { token: u64, fingerprint: String, duration_secs: u32, app_key: String },
    ApplyTagDiff { token: u64, diff: ReleaseDiff, music_dir: String, fingerprint: bool },
    SeparateStems {
        gen: u64,
        track_path: String,
        engine_command: Option<String>,
        recipe: RecipeKind,
        model: String,
        cache_max_bytes: u64,
        cache_dir: Option<String>,
    },
    SeparateStemsBatch {
        gen: u64,
        track_paths: Vec<String>,
        engine_command: Option<String>,
        recipe: RecipeKind,
        model: String,
        cache_max_bytes: u64,
        cache_dir: Option<String>,
    },
    ProvisionStemEngine { gen: u64, engine: EngineKind, package: String, gpu: bool },
    UninstallStemEngine {
        engine: EngineKind,
        package: String,
        evict_stems: bool,
        stem_cache_dir: Option<String>,
    },
    ClearStemCache { cache_dir: Option<String> },
}

/// What the event loop is asked to do outside the state: write to disk, or run
/// the recommender.
pub enum HostRequest {
    SavePlaylists,
    SaveLocalPlays,
    SaveShowPlayer,
    SaveAlbumArtStyle,
    SaveTheme,
    SaveStemRecipe,
    ClearPlaybackCache,
    DumpLog,
    GeneratePlaylist(GenerationRequest),
}

/// The sequence grew by one element at its end.
pub open spec fn one_more<T>(before: Seq<T>, after: Seq<T>) -> bool {
    after.len() == before.len() + 1 && after.drop_last() == before
}

} // verus!
