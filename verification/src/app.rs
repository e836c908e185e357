//! The state of the player: what is shown, what plays, and what has been asked
//! of the worker, the audio thread and the host.
use vstd::prelude::*;
use crate::art::{AlbumArtCache, ArtImage};
use crate::cd::{
    fidelity_named, parse_default_fidelity, CdState, CdStatusEvent, ImportOverlay, RipFidelity,
    RipScan,
};
use crate::commands::{one_more, AudioCommand, BgCommand, HostRequest, QueuedItem};
use crate::device::{empty_index, DeviceState};
use crate::library::Library;
use crate::model::Track;
use crate::ordmap::OrdMap;
use crate::playlists::{
    AddToPlaylistPicker, GenerationFormState, PendingPlaylistImport, PlaylistStore,
};
use crate::plays::{ListenEvent, LocalPlays, PlayStats};
use crate::stem_model::{
    FoundEngine, StemBatchState, StemBulkConfirm, StemPanel, StemState, StemsConfig,
    EST_STEM_BYTES_PER_TRACK, RECIPE_COUNT,
};
use crate::tag_model::TagManagerOverlay;
use crate::text::{ascii_lower, trimmed};
use crate::tracks::{AlbumInfo, TrackInfo};
use crate::types::{
    style_named, AlbumArtStyle, BrowseMode, DevicePresence, DeviceStatus, Panel, PlaybackState,
    SidebarEntry, SidebarMode, SortColumn, SyncStatus,
};

pub mod artwork;
pub mod devices;
pub mod generation;
pub mod history;
pub mod importing;
pub mod keys;
pub mod modals;
pub mod nav;
pub mod playback;
pub mod player;
pub mod playlist_ops;
pub mod queue;
pub mod retag;
pub mod select;
pub mod sidebar;
pub mod splitting;
pub mod tags;

verus! {

/// What is playing.
pub struct NowPlaying {
    pub track_name: String,
    pub artist: String,
    pub album: String,
    pub duration_ms: u64,
    pub elapsed_ms: u64,
    pub state: PlaybackState,
    pub track_index: usize,
    /// Snapshot of the playlist at the moment playback started.
    pub playlist: Vec<TrackInfo>,
    /// Frame at which playback was paused (freezes animation).
    pub paused_frame: Option<usize>,
    /// Library id resolved at play time; `None` when the playing row has no
    /// library match. When `None` no play/skip is recorded.
    pub track_id: Option<u64>,
    /// Set once this playback session has been recorded as either a play or a
    /// skip.
    pub counted: bool,
    /// Album year resolved from the library at play time.
    pub year: Option<u32>,
    /// Line of extended metadata, joined by ` | `.
    pub metadata_marquee: String,
}

/// The sync queue and its log.
pub struct SyncState {
    pub queue: Vec<QueuedItem>,
    pub queue_selected: usize,
    pub status: SyncStatus,
    pub current_track: String,
    pub log: Vec<String>,
    /// Lines scrolled up from the bottom of the log. 0 = pinned to bottom.
    pub log_scroll: usize,
}

impl SyncState {
    pub fn new() -> (r: Self)
        ensures
            r.queue@.len() == 0 && r.queue_selected == 0,
            r.status == SyncStatus::Idle,
            r.current_track@.len() == 0,
            r.log@.len() == 0 && r.log_scroll == 0,
    {
        SyncState {
            queue: Vec::new(),
            queue_selected: 0,
            status: SyncStatus::Idle,
            current_track: String::new(),
            log: Vec::new(),
            log_scroll: 0,
        }
    }

    /// The log was scrolled up by `n` lines, not beyond the first.
    pub open spec fn scrolled_up(&self, before: &SyncState, n: int) -> bool {
        let max = if before.log@.len() == 0 {
            0
        } else {
            before.log@.len() - 1
        };
        &&& *self == (SyncState { log_scroll: self.log_scroll, ..*before })
        &&& self.log_scroll == if before.log_scroll + n <= max {
            before.log_scroll + n
        } else {
            max
        }
    }

    /// The log was scrolled down by `n` lines, not beyond the last.
    pub open spec fn scrolled_down(&self, before: &SyncState, n: int) -> bool {
        &&& *self == (SyncState { log_scroll: self.log_scroll, ..*before })
        &&& self.log_scroll == if before.log_scroll >= n {
            before.log_scroll - n
        } else {
            0
        }
    }

    /// Scroll the log up by `n` lines.
    pub fn log_scroll_up(&mut self, n: usize)
        ensures
            final(self).scrolled_up(old(self), n as int),
    {
        let max: usize = if self.log.len() == 0 {
            0
        } else {
            self.log.len() - 1
        };
        self.log_scroll = if self.log_scroll <= max && n <= max - self.log_scroll {
            self.log_scroll + n
        } else {
            max
        };
    }

    /// Scroll the log down by `n` lines (toward the bottom).
    pub fn log_scroll_down(&mut self, n: usize)
        ensures
            final(self).scrolled_down(old(self), n as int),
    {
        self.log_scroll = self.log_scroll.saturating_sub(n);
    }
}

/// The last selection of the sidebar in each of its modes.
#[derive(Debug)]
pub struct SavedPositions {
    pub slots: [Option<usize>; 6],
}

/// The slot of a pair of modes.
pub open spec fn slot_of(browse: BrowseMode, sidebar: SidebarMode) -> int {
    (match browse {
        BrowseMode::Library => 0int,
        BrowseMode::Device => 2,
        BrowseMode::Playlists => 4,
    }) + match sidebar {
        SidebarMode::Artists => 0int,
        SidebarMode::Albums => 1,
    }
}

fn slot_index(browse: BrowseMode, sidebar: SidebarMode) -> (r: usize)
    ensures
        r == slot_of(browse, sidebar),
        r < 6,
{
    let b: usize = match browse {
        BrowseMode::Library => 0,
        BrowseMode::Device => 2,
        BrowseMode::Playlists => 4,
    };
    let s: usize = match sidebar {
        SidebarMode::Artists => 0,
        SidebarMode::Albums => 1,
    };
    b + s
}

impl SavedPositions {
    pub open spec fn at(&self, browse: BrowseMode, sidebar: SidebarMode) -> Option<usize> {
        self.slots@[slot_of(browse, sidebar)]
    }

    pub fn new() -> (r: Self)
        ensures
            forall|b: BrowseMode, s: SidebarMode| r.at(b, s) is None,
    {
        SavedPositions { slots: [None; 6] }
    }

    pub fn get(&self, browse: BrowseMode, sidebar: SidebarMode) -> (r: Option<usize>)
        ensures
            r == self.at(browse, sidebar),
    {
        self.slots[slot_index(browse, sidebar)]
    }

    pub fn set(&mut self, browse: BrowseMode, sidebar: SidebarMode, pos: usize)
        ensures
            final(self).slots@ == old(self).slots@.update(slot_of(browse, sidebar), Some(pos)),
    {
        let i = slot_index(browse, sidebar);
        self.slots[i] = Some(pos);
    }
}

/// What the host has observed and hands to the state: clocks, and what it found
/// on disk.
pub struct Host {
    /// Monotonic clock, in ms.
    pub clock_ms: u64,
    /// Unix epoch time, in ms.
    pub unix_ms: u64,
    /// Physical floor of the terminal height for the now-playing panel.
    pub player_min_height: u16,
    /// How many themes there are.
    pub theme_count: usize,
    /// The stem engines that were found.
    pub demucs: Option<FoundEngine>,
    pub audio_separator: Option<FoundEngine>,
    /// Size of the directory of the stem cache.
    pub stems_cache_bytes: u64,
    /// What the cached splits take of the space that the cache may use.
    pub stems_used_bytes: u64,
    /// Size of the model cache.
    pub models_cache_bytes: u64,
    /// Tracks that have a cached split for the active recipe.
    pub split_paths: Vec<String>,
    /// What is in the destination of the configured rip.
    pub rip_scan: Option<RipScan>,
    /// A phrase for the loading screen, where samples allow one.
    pub scan_phrase: Option<String>,
    /// How long a phrase stays up, in ms.
    pub scan_phrase_ms: u64,
}

impl Host {
    /// Nothing observed yet.
    pub fn new(theme_count: usize, player_min_height: u16) -> (r: Self)
        ensures
            r.player_min_height == player_min_height,
            r.clock_ms == 0 && r.unix_ms == 0,
            r.theme_count == theme_count,
            r.demucs is None && r.audio_separator is None,
            r.stems_cache_bytes == 0 && r.stems_used_bytes == 0 && r.models_cache_bytes == 0,
            r.split_paths@.len() == 0,
            r.rip_scan is None && r.scan_phrase is None && r.scan_phrase_ms == 0,
    {
        Host {
            clock_ms: 0,
            unix_ms: 0,
            player_min_height,
            theme_count,
            demucs: None,
            audio_separator: None,
            stems_cache_bytes: 0,
            stems_used_bytes: 0,
            models_cache_bytes: 0,
            split_paths: Vec::new(),
            rip_scan: None,
            scan_phrase: None,
            scan_phrase_ms: 0,
        }
    }
}

/// The configuration as read at startup.
#[derive(Debug, Default)]
pub struct Config {
    pub album_art_style: Option<String>,
    pub show_player: Option<bool>,
    pub musicbrainz_base_url: Option<String>,
    pub musicbrainz_user_agent: Option<String>,
    pub acoustid_app_key: Option<String>,
    pub default_fidelity: Option<String>,
    pub cd_auto_eject: Option<bool>,
    pub acoustid_fingerprint: Option<bool>,
    /// Whether library scans compute fingerprints.
    pub fingerprinting: Option<bool>,
    pub music_dir: Option<String>,
    /// The music directory that the environment names.
    pub env_music_dir: Option<String>,
    /// Whether playlists are pushed to the device.
    pub experimental_playlist_sync: bool,
    pub stems: StemsConfig,
}

/// Where the user is: panel, modes, the sidebar and its search.
pub struct NavState {
    pub active_panel: Panel,
    pub browse_mode: BrowseMode,
    pub sidebar_mode: SidebarMode,
    /// Filtered view the UI reads. Derived from `sidebar_items_full` by
    /// applying the search filter (when active).
    pub sidebar_items: Vec<SidebarEntry>,
    /// Unfiltered source list, rebuilt only when the underlying library, device
    /// contents, or sidebar mode change.
    pub sidebar_items_full: Vec<SidebarEntry>,
    /// Lowercase form of each `sidebar_items_full` entry, parallel-indexed.
    pub sidebar_lowercase_full: Vec<String>,
    pub sidebar_selected: usize,
    pub sidebar_scroll: usize,
    /// Per-mode saved selection positions.
    pub saved_sidebar_pos: SavedPositions,
    pub search_active: bool,
    pub search_query: String,
}

/// The albums and tracks of the selection.
pub struct ListState {
    pub album_list: Vec<AlbumInfo>,
    pub album_selected: usize,
    pub track_list: Vec<TrackInfo>,
    pub track_selected: usize,
    pub track_scroll: usize,
    pub sort_column: SortColumn,
    pub sort_ascending: bool,
    /// Per-artist device presence for sidebar indicators (Library browse mode).
    pub artist_device_status: OrdMap<String, DevicePresence>,
    /// Per-(artist, album) device presence for album-list indicators.
    pub album_device_status: OrdMap<(String, String), DevicePresence>,
}

/// Paths and object ids to be removed from the device.
pub struct RemovalState {
    pub removal_queue: Vec<(String, u64)>,
    /// Awaiting confirmation.
    pub pending_removal: Option<Vec<(String, u64)>>,
}

/// Playback, and what was played.
pub struct PlayerState {
    pub now_playing: Option<NowPlaying>,
    /// User preference for the now-playing panel. `None` means "auto".
    pub show_player: Option<bool>,
    /// Terminal height as of the most recent frame.
    pub last_term_height: u16,
    /// Aggregate play/skip counters across the player and any device.
    pub local_plays: LocalPlays,
    /// Append-only log of every play / skip.
    pub listen_log: Vec<ListenEvent>,
}

/// Album art and its rendering.
pub struct ArtState {
    /// Album art extracted from embedded tags.
    pub album_art: Option<ArtImage>,
    /// Key used to avoid re-extracting art (e.g. "artist/album").
    pub album_art_key: String,
    /// Rendered album-art buffer for the active style, or `None` if no art is
    /// cached.
    pub album_art_cache: Option<AlbumArtCache>,
    /// Dimensions (w, h) the cached album art was rendered for.
    pub album_art_size: (u16, u16),
    pub album_art_style: AlbumArtStyle,
}

/// Stem playback, its settings panel and album batches.
pub struct StemUi {
    pub state: StemState,
    /// Bulk-separation confirm modal; `Some` = modal open.
    pub bulk_confirm: Option<StemBulkConfirm>,
    /// Running/suspended album batch, if any.
    pub batch: Option<StemBatchState>,
    /// Monotonic batch generation (independent of the job generation).
    pub batch_gen: u64,
    pub cfg: StemsConfig,
    /// Stem settings panel; `Some` = modal open.
    pub panel: Option<StemPanel>,
}

/// Playlists and the modals that edit them.
pub struct PlaylistUi {
    pub store: PlaylistStore,
    /// In-progress text input for the playlist-name modal.
    pub name_input: Option<String>,
    /// Set when the playlist-name modal is in rename mode.
    pub rename_target: Option<u64>,
    /// Pending playlist deletion awaiting confirmation.
    pub pending_delete: Option<u64>,
    pub picker: Option<AddToPlaylistPicker>,
    pub form: Option<GenerationFormState>,
    /// Playlists awaiting device-side creation.
    pub pending_imports: Vec<PendingPlaylistImport>,
    /// Whether device-side playlist sync is enabled.
    pub experimental_sync: bool,
}

/// The import overlay and its defaults.
pub struct ImportState {
    pub overlay: Option<ImportOverlay>,
    pub default_rip_fidelity: RipFidelity,
    pub auto_eject_default: bool,
    /// Whether a rip embeds a fingerprint.
    pub acoustid_fingerprint: bool,
    /// Music-library directory, the destination of rips.
    pub music_dir: Option<String>,
}

/// The tag manager, and the services it asks.
pub struct TagState {
    pub manager: Option<TagManagerOverlay>,
    /// The last token given to a request.
    pub token: u64,
    pub mb_base_url: Option<String>,
    pub mb_user_agent: Option<String>,
    pub acoustid_app_key: Option<String>,
}

/// Popups that show over the panels.
pub struct PopupState {
    pub show_help: bool,
    pub show_keys: bool,
    pub pending_cache_clear: bool,
    /// Track-info inspector popup. Shown only when the focused panel is
    /// `Panel::TrackList`; closed on any navigation that changes the selection
    /// (`move_up`/`move_down`, panel cycle, sidebar/album select).
    pub show_track_info: bool,
    /// Vertical scroll offset for the track-info popup body.
    pub track_info_scroll: usize,
    /// Library track resolved at popup-open time.
    pub track_info_lib: Option<Track>,
}

/// The theme, by its place in the list of themes, and the theme picker.
pub struct ThemeState {
    pub current: usize,
    pub show_picker: bool,
    pub picker_index: usize,
    pub before_picker: usize,
}

/// The library scan.
pub struct ScanState {
    pub loading_library: bool,
    /// (completed, total) track counts emitted by the library scanner.
    pub scan_progress: Option<(u64, u64)>,
    /// The current loading-screen message like "Scoping OK Computer".
    pub scan_phrase: Option<String>,
    /// When `scan_phrase` was last rotated.
    pub scan_phrase_rotated_at: Option<u64>,
    /// Whether library scans compute fingerprints.
    pub scan_fingerprint: bool,
}

/// Frames of the animations.
pub struct AnimState {
    pub throbber_index: i8,
    pub anim_frame: usize,
    pub connection_anim_start: Option<usize>,
}

/// What waits to be sent.
pub struct Outbox {
    /// Background commands to send after event handling.
    pub pending_bg_commands: Vec<BgCommand>,
    /// Audio commands queued by event handlers and stem-mode transitions, in
    /// order.
    pub pending_audio_commands: Vec<AudioCommand>,
    /// What the host is asked to do.
    pub host_requests: Vec<HostRequest>,
}

/// The whole state.
pub struct App {
    pub nav: NavState,
    pub lists: ListState,
    pub library: Option<Library>,
    pub device: DeviceState,
    pub device_index_dirty: bool,
    pub sync: SyncState,
    pub removal: RemovalState,
    pub player: PlayerState,
    pub art: ArtState,
    pub stems: StemUi,
    pub playlists: PlaylistUi,
    pub cd: CdState,
    pub import: ImportState,
    pub tags: TagState,
    pub popup: PopupState,
    pub themes: ThemeState,
    pub scan: ScanState,
    pub anim: AnimState,
    /// Message, when it was set, and whether it is an error.
    pub toast_message: Option<(String, u64, bool)>,
    pub should_quit: bool,
    pub out: Outbox,
    /// What the host has observed.
    pub host: Host,
}

impl NavState {
    /// The selection stands on an entry.
    pub open spec fn valid(&self) -> bool {
        self.sidebar_items@.len() == 0 || self.sidebar_selected < self.sidebar_items@.len()
    }
}

impl ListState {
    /// The album selection stands on an album.
    pub open spec fn valid(&self) -> bool {
        self.album_list@.len() == 0 || self.album_selected < self.album_list@.len()
    }
}

impl SyncState {
    /// The queue selection stands on an entry, where there is one.
    pub open spec fn on_entry(&self) -> bool {
        self.queue@.len() > 0 ==> self.queue_selected < self.queue@.len()
    }

    /// The queue selection stands on an entry, or at the start.
    pub open spec fn valid(&self) -> bool {
        self.queue_selected == 0 || self.queue_selected < self.queue@.len()
    }
}

impl PlayerState {
    /// The playing track is one of its playlist.
    pub open spec fn valid(&self) -> bool {
        self.now_playing matches Some(np) ==> np.track_index < np.playlist@.len()
    }
}

impl StemUi {
    /// The settings panel stands on a recipe.
    pub open spec fn valid(&self) -> bool {
        self.panel matches Some(p) ==> p.selected < RECIPE_COUNT
    }
}

impl CdState {
    /// The tracks of every release that was found can be numbered.
    pub open spec fn valid(&self) -> bool {
        match self.last_status {
            Some(CdStatusEvent::Identified { primary, alternates, .. }) => {
                &&& primary.tracks().len() < u32::MAX
                &&& forall|i: int|
                    0 <= i < alternates@.len() ==> (#[trigger] alternates@[i]).tracks().len() < u32::MAX
            },
            _ => true,
        }
    }
}

impl ImportState {
    pub open spec fn valid(&self) -> bool {
        self.overlay matches Some(o) ==> o.valid()
    }
}

impl PlaylistUi {
    pub open spec fn valid(&self) -> bool {
        self.store.valid() && (self.form matches Some(f) ==> f.valid())
    }
}

impl ThemeState {
    /// The theme, the picker's choice and the theme to go back to are among the
    /// `count` that there are, no more than a list can hold.
    pub open spec fn valid(&self, count: usize) -> bool {
        &&& self.current < count && self.picker_index < count && self.before_picker < count
        &&& count <= isize::MAX
    }
}

impl App {
    /// Selections stand on entries, the playing track is one of its playlist,
    /// and overlays and playlists are well-formed.
    pub open spec fn valid(&self) -> bool {
        &&& self.nav.valid()
        &&& self.lists.valid()
        &&& self.sync.valid()
        &&& self.player.valid()
        &&& self.stems.valid()
        &&& self.cd.valid()
        &&& self.import.valid()
        &&& self.playlists.valid()
        &&& self.themes.valid(self.host.theme_count)
    }

    /// The space that splitting the whole library takes can be counted.
    pub open spec fn can_project(&self) -> bool {
        self.library matches Some(l) ==> EST_STEM_BYTES_PER_TRACK * l.tracks@.len() <= u64::MAX
    }

    /// The counters can still be advanced, and space can be counted.
    pub open spec fn has_room(&self) -> bool {
        &&& self.can_project()
        &&& self.stems.state.job_gen < u64::MAX
        &&& self.stems.batch_gen < u64::MAX
        &&& self.tags.token < u64::MAX
        &&& self.playlists.store.next_id < u64::MAX
    }

    /// A message was put up.
    pub open spec fn says(&self, msg: Seq<char>, is_error: bool) -> bool {
        self.toast_message matches Some(t) && t.0@ == msg && t.1 == self.host.clock_ms && t.2 == is_error
    }

    /// The state at startup: nothing loaded, everything from the configuration
    /// that it sets.
    pub fn new(cfg: Config, host: Host) -> (app: Self)
        requires
            0 < host.theme_count <= isize::MAX,
        ensures
            app.valid(),
            app.has_room(),
            app.nav.active_panel == Panel::Library,
            app.nav.browse_mode == BrowseMode::Library,
            app.nav.sidebar_mode == SidebarMode::Artists,
            app.library is None,
            app.nav.sidebar_items@.len() == 0 && app.nav.sidebar_items_full@.len() == 0,
            app.nav.sidebar_lowercase_full@.len() == 0,
            app.nav.sidebar_selected == 0 && app.nav.sidebar_scroll == 0,
            forall|b: BrowseMode, s: SidebarMode| app.nav.saved_sidebar_pos.at(b, s) is None,
            !app.nav.search_active && app.nav.search_query@.len() == 0,
            app.lists.album_list@.len() == 0 && app.lists.album_selected == 0,
            app.lists.track_list@.len() == 0 && app.lists.track_selected == 0,
            app.lists.track_scroll == 0,
            app.lists.sort_column == SortColumn::Name && app.lists.sort_ascending,
            app.lists.artist_device_status@ == Map::<Seq<char>, DevicePresence>::empty(),
            app.lists.album_device_status@ == Map::<(Seq<char>, Seq<char>), DevicePresence>::empty(),
            app.device.status == DeviceStatus::Disconnected && app.device.index() == empty_index(),
            app.device.tracks@.len() == 0 && app.device.name is None && app.device.family is None,
            !app.device.ignore_session_events && !app.device_index_dirty,
            app.sync.queue@.len() == 0 && app.sync.queue_selected == 0,
            app.sync.status == SyncStatus::Idle && app.sync.log@.len() == 0,
            app.removal.removal_queue@.len() == 0 && app.removal.pending_removal is None,
            app.anim == (AnimState { throbber_index: 0, anim_frame: 0, connection_anim_start: None }),
            app.player.now_playing is None && app.player.last_term_height == 24,
            app.player.local_plays@ == Map::<u64, PlayStats>::empty(),
            app.player.listen_log@.len() == 0,
            app.popup == (PopupState {
                show_help: false,
                show_keys: false,
                pending_cache_clear: false,
                show_track_info: false,
                track_info_scroll: 0,
                track_info_lib: None,
            }),
            !app.should_quit && app.toast_message is None,
            !app.scan.loading_library && app.scan.scan_progress is None,
            app.scan.scan_phrase is None && app.scan.scan_phrase_rotated_at is None,
            app.themes == (ThemeState {
                current: 0,
                show_picker: false,
                picker_index: 0,
                before_picker: 0,
            }),
            app.art.album_art is None && app.art.album_art_key@.len() == 0,
            app.art.album_art_cache is None && app.art.album_art_size == (0u16, 0u16),
            app.out.pending_bg_commands@.len() == 0 && app.out.pending_audio_commands@.len() == 0,
            app.out.host_requests@.len() == 0,
            app.host == host,
            app.stems.state.is_off() && app.stems.state.consent is None,
            app.stems.state.pending_path is None,
            app.stems.state.job_gen == 0 && app.stems.batch_gen == 0 && app.tags.token == 0,
            app.stems.bulk_confirm is None && app.stems.batch is None && app.stems.panel is None,
            app.playlists.store.playlists@.len() == 0,
            app.playlists.name_input is None && app.playlists.rename_target is None,
            app.playlists.pending_delete is None && app.playlists.picker is None,
            app.playlists.form is None && app.playlists.pending_imports@.len() == 0,
            app.cd.last_status is None && app.cd.rip is None && !app.cd.detect_in_flight,
            app.cd.last_request == Some(host.clock_ms),
            app.import.overlay is None && app.tags.manager is None,
            app.art.album_art_style == match cfg.album_art_style {
                Some(s) => match style_named(s@) {
                    Some(style) => style,
                    None => AlbumArtStyle::Halfblock,
                },
                None => AlbumArtStyle::Halfblock,
            },
            app.player.show_player == cfg.show_player,
            app.tags.mb_base_url == cfg.musicbrainz_base_url,
            app.tags.mb_user_agent == cfg.musicbrainz_user_agent,
            app.tags.acoustid_app_key == cfg.acoustid_app_key,
            app.import.default_rip_fidelity == match cfg.default_fidelity {
                Some(s) => match fidelity_named(ascii_lower(trimmed(s@))) {
                    Some(f) => f,
                    None => RipFidelity::Flac,
                },
                None => RipFidelity::Flac,
            },
            app.import.auto_eject_default == (cfg.cd_auto_eject != Some(false)),
            app.import.acoustid_fingerprint == (cfg.acoustid_fingerprint != Some(false)),
            app.scan.scan_fingerprint == (cfg.fingerprinting != Some(false)),
            app.import.music_dir == match cfg.music_dir {
                Some(d) => Some(d),
                None => cfg.env_music_dir,
            },
            app.playlists.experimental_sync == cfg.experimental_playlist_sync,
            app.stems.cfg == cfg.stems,
    {
        let style: AlbumArtStyle = match &cfg.album_art_style {
            Some(s) => match AlbumArtStyle::parse(s.as_str()) {
                Some(style) => style,
                None => AlbumArtStyle::Halfblock,
            },
            None => AlbumArtStyle::Halfblock,
        };
        let named: Option<&str> = match &cfg.default_fidelity {
            Some(s) => Some(s.as_str()),
            None => None,
        };
        let fidelity: RipFidelity = match parse_default_fidelity(named) {
            Some(f) => f,
            None => RipFidelity::Flac,
        };
        let music_dir: Option<String> = match cfg.music_dir {
            Some(d) => Some(d),
            None => cfg.env_music_dir,
        };
        let clock_ms: u64 = host.clock_ms;
        App {
            nav: NavState {
                active_panel: Panel::Library,
                browse_mode: BrowseMode::Library,
                sidebar_mode: SidebarMode::Artists,
                sidebar_items: Vec::new(),
                sidebar_items_full: Vec::new(),
                sidebar_lowercase_full: Vec::new(),
                sidebar_selected: 0,
                sidebar_scroll: 0,
                saved_sidebar_pos: SavedPositions::new(),
                search_active: false,
                search_query: String::new(),
            },
            lists: ListState {
                album_list: Vec::new(),
                album_selected: 0,
                track_list: Vec::new(),
                track_selected: 0,
                track_scroll: 0,
                sort_column: SortColumn::Name,
                sort_ascending: true,
                artist_device_status: OrdMap::new(),
                album_device_status: OrdMap::new(),
            },
            library: None,
            device: DeviceState::new(),
            device_index_dirty: false,
            sync: SyncState::new(),
            removal: RemovalState { removal_queue: Vec::new(), pending_removal: None },
            player: PlayerState {
                now_playing: None,
                show_player: cfg.show_player,
                last_term_height: 24,
                local_plays: LocalPlays::new(),
                listen_log: Vec::new(),
            },
            art: ArtState {
                album_art: None,
                album_art_key: String::new(),
                album_art_cache: None,
                album_art_size: (0, 0),
                album_art_style: style,
            },
            stems: StemUi {
                state: StemState::new(),
                bulk_confirm: None,
                batch: None,
                batch_gen: 0,
                cfg: cfg.stems,
                panel: None,
            },
            playlists: PlaylistUi {
                store: PlaylistStore::new(),
                name_input: None,
                rename_target: None,
                pending_delete: None,
                picker: None,
                form: None,
                pending_imports: Vec::new(),
                experimental_sync: cfg.experimental_playlist_sync,
            },
            cd: CdState::new(clock_ms),
            import: ImportState {
                overlay: None,
                default_rip_fidelity: fidelity,
                auto_eject_default: match cfg.cd_auto_eject {
                    Some(v) => v,
                    None => true,
                },
                acoustid_fingerprint: match cfg.acoustid_fingerprint {
                    Some(v) => v,
                    None => true,
                },
                music_dir,
            },
            tags: TagState {
                manager: None,
                token: 0,
                mb_base_url: cfg.musicbrainz_base_url,
                mb_user_agent: cfg.musicbrainz_user_agent,
                acoustid_app_key: cfg.acoustid_app_key,
            },
            popup: PopupState {
                show_help: false,
                show_keys: false,
                pending_cache_clear: false,
                show_track_info: false,
                track_info_scroll: 0,
                track_info_lib: None,
            },
            themes: ThemeState { current: 0, show_picker: false, picker_index: 0, before_picker: 0 },
            scan: ScanState {
                loading_library: false,
                scan_progress: None,
                scan_phrase: None,
                scan_phrase_rotated_at: None,
                scan_fingerprint: match cfg.fingerprinting {
                    Some(v) => v,
                    None => true,
                },
            },
            anim: AnimState { throbber_index: 0, anim_frame: 0, connection_anim_start: None },
            toast_message: None,
            should_quit: false,
            out: Outbox {
                pending_bg_commands: Vec::new(),
                pending_audio_commands: Vec::new(),
                host_requests: Vec::new(),
            },
            host,
        }
    }

    /// Puts up a message.
    pub fn set_toast(&mut self, msg: String, is_error: bool)
        ensures
            *final(self) == (App {
                toast_message: Some((msg, old(self).host.clock_ms, is_error)),
                ..*old(self)
            }),
            final(self).says(msg@, is_error),
            old(self).valid() ==> final(self).valid(),
    {
        self.toast_message = Some((msg, self.host.clock_ms, is_error));
    }

    /// Leaves a request for the host.
    pub fn ask_host(&mut self, request: HostRequest)
        ensures
            *final(self) == (App { out: final(self).out, ..*old(self) }),
            final(self).out.asks(&old(self).out, request),
            old(self).valid() ==> final(self).valid(),
    {
        self.out.host_requests.push(request);
    }

    /// Asks the host to write the playlists to disk. Called after every change
    /// of them.
    pub fn persist_playlists(&mut self)
        ensures
            *final(self) == (App { out: final(self).out, ..*old(self) }),
            final(self).out.asks(&old(self).out, HostRequest::SavePlaylists),
            old(self).valid() ==> final(self).valid(),
    {
        self.ask_host(HostRequest::SavePlaylists);
    }

    /// Pick a new loading-screen phrase if enough time has passed (or none is
    /// set).
    pub fn maybe_rotate_scan_phrase(&mut self)
        ensures
            *final(self) == (App { scan: final(self).scan, ..*old(self) }),
            final(self).scan == old(self).rotated_scan(),
            old(self).valid() ==> final(self).valid(),
    {
        let due = match self.scan.scan_phrase_rotated_at {
            Some(t) => self.host.clock_ms.saturating_sub(t) >= self.host.scan_phrase_ms,
            None => true,
        };
        if !due {
            return;
        }
        if let Some(phrase) = &self.host.scan_phrase {
            self.scan.scan_phrase = Some(phrase.clone());
            self.scan.scan_phrase_rotated_at = Some(self.host.clock_ms);
        }
    }

    /// The scan with a new phrase, where one is due and can be had.
    pub open spec fn rotated_scan(&self) -> ScanState {
        if self.phrase_is_due() && self.host.scan_phrase is Some {
            ScanState {
                scan_phrase: self.host.scan_phrase,
                scan_phrase_rotated_at: Some(self.host.clock_ms),
                ..self.scan
            }
        } else {
            self.scan
        }
    }

    /// The phrase has been up long enough, or there is none.
    pub open spec fn phrase_is_due(&self) -> bool {
        match self.scan.scan_phrase_rotated_at {
            Some(t) => elapsed(self.host.clock_ms, t) >= self.host.scan_phrase_ms,
            None => true,
        }
    }

    /// The message has been up for five seconds.
    pub open spec fn toast_is_over(&self) -> bool {
        match self.toast_message {
            Some(t) => elapsed(self.host.clock_ms, t.1) >= 5000,
            None => false,
        }
    }

    /// One step of the clock: animations advance, an old message goes, and
    /// while the library loads the phrase keeps rotating.
    pub fn tick(&mut self)
        ensures
            *final(self) == (App {
                anim: final(self).anim,
                toast_message: final(self).toast_message,
                scan: final(self).scan,
                ..*old(self)
            }),
            final(self).anim == (AnimState {
                throbber_index: next_throbber(old(self).anim.throbber_index),
                anim_frame: next_frame(old(self).anim.anim_frame),
                ..old(self).anim
            }),
            final(self).toast_message == if old(self).toast_is_over() {
                None
            } else {
                old(self).toast_message
            },
            final(self).scan == if old(self).scan.loading_library {
                old(self).rotated_scan()
            } else {
                old(self).scan
            },
            old(self).valid() ==> final(self).valid(),
    {
        self.anim.throbber_index = if self.anim.throbber_index < i8::MAX {
            self.anim.throbber_index + 1
        } else {
            0
        };
        self.anim.anim_frame = if self.anim.anim_frame == usize::MAX {
            0
        } else {
            self.anim.anim_frame + 1
        };
        let over = match &self.toast_message {
            Some(t) => self.host.clock_ms.saturating_sub(t.1) >= 5000,
            None => false,
        };
        if over {
            self.toast_message = None;
        }
        if self.scan.loading_library {
            self.maybe_rotate_scan_phrase();
        }
    }

    /// How many tracks the library has.
    pub fn track_count(&self) -> (n: usize)
        ensures
            n == match self.library {
                Some(l) => l.tracks@.len(),
                None => 0,
            },
    {
        match &self.library {
            Some(l) => l.tracks.len(),
            None => 0,
        }
    }
}

impl Outbox {
    /// One request more for the host, and nothing else.
    pub open spec fn asks(&self, before: &Outbox, request: HostRequest) -> bool {
        &&& *self == (Outbox { host_requests: self.host_requests, ..*before })
        &&& self.host_requests@ == before.host_requests@.push(request)
    }

    /// One command more for the worker, and nothing else.
    pub open spec fn sends(&self, before: &Outbox) -> bool {
        &&& *self == (Outbox { pending_bg_commands: self.pending_bg_commands, ..*before })
        &&& one_more(before.pending_bg_commands@, self.pending_bg_commands@)
    }
}

/// Time since an earlier reading of the clock.
pub open spec fn elapsed(now: u64, then: u64) -> int {
    if now >= then {
        now - then
    } else {
        0
    }
}

/// The throbber's next frame.
pub open spec fn next_throbber(i: i8) -> i8 {
    if i < i8::MAX {
        (i + 1) as i8
    } else {
        0
    }
}

/// The next animation frame.
pub open spec fn next_frame(i: usize) -> usize {
    if i == usize::MAX {
        0
    } else {
        (i + 1) as usize
    }
}

} // verus!
