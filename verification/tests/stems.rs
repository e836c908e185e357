use zytunes_tui::app::{App, Config, Host, NowPlaying};
use zytunes_tui::commands::{AudioCommand, AudioEvent, BgCommand, SwapTarget};
use zytunes_tui::input::{KeyCode, KeyEvent};
use zytunes_tui::library::Library;
use zytunes_tui::model::Track;
use zytunes_tui::stem_model::{
    EngineKind, EngineSource, FoundEngine, RECIPE_COUNT, RecipeKind, StemConsent, StemGains,
    StemLayout,
};
use zytunes_tui::tracks::TrackInfo;
use zytunes_tui::types::{BrowseMode, Panel, PlaybackState, SidebarEntry, SidebarMode, StemStatus};

fn new_app() -> App {
    App::new(Config::default(), Host::new(12, 12))
}

/// The first command that was sent, if any.
fn next<T>(sent: &mut Vec<T>) -> Result<T, ()> {
    if sent.is_empty() {
        Err(())
    } else {
        Ok(sent.remove(0))
    }
}

fn key(code: KeyCode) -> KeyEvent {
    KeyEvent { code, ctrl: false }
}

fn library_of(tracks: Vec<Track>) -> Library {
    Library { tracks, artists: vec![], albums: vec![], music_folder: None }
}

/// Both engines are installed.
fn find_engines(app: &mut App) {
    app.host.demucs = Some(FoundEngine {
        path: "/bin/engine".into(),
        source: EngineSource::PathEnv,
    });
    app.host.audio_separator = Some(FoundEngine {
        path: "/bin/engine".into(),
        source: EngineSource::PathEnv,
    });
}

/// App with one library track playing at 42 s — the baseline fixture
/// for stem-mode tests.
fn stem_playing_app(path: &str) -> App {
    let mut app = new_app();
    app.stems.cfg.default_cache_dir = Some("/cache/stems".into());
    let info = TrackInfo::new(
        "Song".into(),
        "Artist".into(),
        "Album".into(),
        Some(200_000),
        None,
        Some(path.to_string()),
        None,
        None,
        None,
        false,
    );
    app.player.now_playing = Some(NowPlaying {
        track_name: "Song".into(),
        artist: "Artist".into(),
        album: "Album".into(),
        duration_ms: 200_000,
        elapsed_ms: 42_000,
        state: PlaybackState::Playing,
        track_index: 0,
        playlist: vec![info],
        paused_frame: None,
        track_id: None,
        counted: false,
        year: None,
        metadata_marquee: String::new(),
    });
    app
}

fn stem_key(app: &mut App, code: KeyCode) {
    let mut cmd_tx: Vec<BgCommand> = Vec::new();
    let mut audio_tx: Vec<AudioCommand> = Vec::new();
    app.handle_key(key(code), &mut cmd_tx, &mut audio_tx);
}

#[test]
fn stem_mode_gated_on_playing_track_not_browse_mode() {
    // Nothing playing: toast, no state change, no commands.
    let mut app = new_app();
    app.press_stem_mode();
    assert_eq!(app.stems.state.status, StemStatus::Off);
    assert!(matches!(app.toast_message, Some((_, _, true))));
    assert!(app.out.pending_bg_commands.is_empty());

    // Device browse mode with a LIBRARY track playing: the request
    // proceeds — now_playing can only hold local tracks, whatever view
    // the user is in. (No engine is installed, so the flow lands on the
    // consent modal rather than a dispatch.)
    let mut app = stem_playing_app("/lib/song.mp3");
    app.nav.browse_mode = BrowseMode::Device;
    app.press_stem_mode();
    assert!(
        app.stems.state.consent.is_some(),
        "device view must not block stems for a playing library track"
    );
    assert_eq!(app.stems.state.pending_path.as_deref(), Some("/lib/song.mp3"));
}

#[test]
fn dispatch_separation_queues_command_with_config_values() {
    let mut app = stem_playing_app("/lib/song.mp3");
    app.dispatch_separation("/lib/song.mp3".into(), RecipeKind::Demucs);
    assert_eq!(app.stems.state.status, StemStatus::Separating { pct: None });
    assert_eq!(app.stems.state.for_path.as_deref(), Some("/lib/song.mp3"));
    match app.out.pending_bg_commands.as_slice() {
        [BgCommand::SeparateStems {
            gen,
            track_path,
            engine_command,
            recipe,
            model,
            cache_max_bytes,
            cache_dir,
        }] => {
            assert_eq!(*gen, app.stems.state.job_gen, "command carries the new gen");
            assert_eq!(track_path, "/lib/song.mp3");
            assert!(engine_command.is_none(), "no [stems] command configured");
            assert_eq!(*recipe, RecipeKind::Demucs);
            assert_eq!(model, "htdemucs_6s");
            assert_eq!(*cache_max_bytes, 10 * (1u64 << 30));
            assert!(cache_dir.is_some(), "resolved stem cache dir rides along");
        }
        other => panic!("expected one SeparateStems, got {} commands", other.len()),
    }
}

#[test]
fn stem_keys_claim_range_follows_active_layout() {
    // Harmony layout: key 7 toggles stem 6; key 8 falls through.
    let mut app = stem_playing_app("/lib/song.mp3");
    app.player.last_term_height = 40;
    app.stems.state.status = StemStatus::Active;
    app.stems.state.layout = Some(StemLayout::Harmony);
    app.stems.state.gains = Some(StemGains { levels: vec![true; 7] });
    app.stems.state.enabled = [true; 8];
    stem_key(&mut app, KeyCode::Char('7'));
    assert!(!app.stems.state.enabled[6], "key 7 toggles the 7th stem");
    let before = app.stems.state.enabled;
    stem_key(&mut app, KeyCode::Char('8'));
    assert_eq!(app.stems.state.enabled, before, "key 8 is beyond the layout");

    // Six-stem layout: key 7 must fall through to global handling.
    let mut app = stem_playing_app("/lib/song.mp3");
    app.player.last_term_height = 40;
    app.stems.state.status = StemStatus::Active;
    app.stems.state.layout = Some(StemLayout::Six);
    app.stems.state.gains = Some(StemGains { levels: vec![true; 6] });
    app.stems.state.enabled = [true; 8];
    stem_key(&mut app, KeyCode::Char('7'));
    assert!(
        app.stems.state.enabled[6],
        "key 7 unclaimed under a 6-stem layout"
    );
}

#[test]
fn toggle_stem_is_bounded_by_the_active_layout() {
    let mut app = stem_playing_app("/lib/song.mp3");
    app.stems.state.status = StemStatus::Active;
    app.stems.state.layout = Some(StemLayout::Six);
    app.stems.state.gains = Some(StemGains { levels: vec![true; 6] });
    app.stems.state.enabled = [true; 8];
    app.toggle_stem(6);
    assert!(app.stems.state.enabled[6], "index 6 is outside a 6-stem layout");
    app.toggle_stem(0);
    assert!(!app.stems.state.enabled[0], "in-layout toggles still work");
}

/// Install Active stem state and make the loaded track also the selected
/// row, so `Enter` targets the very track that is playing/paused.
fn stem_active_app_with_selection(path: &str) -> App {
    let mut app = stem_playing_app(path);
    app.stems.state.status = StemStatus::Active;
    app.stems.state.layout = Some(StemLayout::Six);
    app.stems.state.gains = Some(StemGains { levels: vec![true; 6] });
    app.stems.state.enabled = [true; 8];
    if let Some(np) = app.player.now_playing.as_mut() {
        np.track_id = Some(7);
    }
    app.lists.track_list = app.player.now_playing.as_ref().unwrap().playlist.to_vec();
    app.lists.track_selected = 0;
    app
}

/// Enter on the track that is already loaded and paused must resume in
/// place — not route through the full restart path, whose
/// `reset_stems_for_track_change` + fresh `Play` silently tears down
/// the active stem mixer and rewinds to 0:00.
#[test]
fn enter_on_paused_split_track_resumes_and_keeps_stems() {
    let mut app = stem_active_app_with_selection("/lib/song.mp3");
    if let Some(np) = app.player.now_playing.as_mut() {
        np.state = PlaybackState::Paused;
    }

    let mut tx: Vec<AudioCommand> = Vec::new();
    app.play_selected_track(&mut tx);

    assert_eq!(app.stems.state.status, StemStatus::Active, "stems must survive");
    let np = app.player.now_playing.as_ref().unwrap();
    assert_eq!(np.state, PlaybackState::Playing);
    assert_eq!(np.elapsed_ms, 42_000, "resume keeps the position");
    assert!(matches!(next(&mut tx), Ok(AudioCommand::Resume)));
    assert!(next(&mut tx).is_err(), "exactly one command: Resume");
    assert!(app.player.local_plays.get(7).is_none(), "a resume is not a skip");
}

/// Enter on the already-playing loaded track keeps the double-click
/// restart-from-the-top semantics, but restarts via a scrub-to-zero on
/// the live source (stem-aware: `Scrub` rebuilds whichever `NowSource`
/// is live over the same gains Arc) instead of a fresh `Play`.
#[test]
fn enter_on_playing_split_track_restarts_via_scrub() {
    let mut app = stem_active_app_with_selection("/lib/song.mp3");
    if let Some(np) = app.player.now_playing.as_mut() {
        // Prior session already recorded its play; a restart must open
        // a fresh counting session (mirrors prev_track's restart).
        np.counted = true;
        // The session was started from a longer list where this track
        // sat at index 3; the on-screen list now shows it alone at 0.
        let song = np.playlist[0].clone();
        let filler = |n: usize| {
            TrackInfo::new(
                format!("Filler {n}"),
                "Artist".into(),
                "Album".into(),
                Some(180_000),
                None,
                Some(format!("/lib/filler{n}.mp3")),
                None,
                None,
                None,
                false,
            )
        };
        np.playlist = vec![filler(1), filler(2), filler(3), song];
        np.track_index = 3;
    }

    let mut tx: Vec<AudioCommand> = Vec::new();
    app.play_selected_track(&mut tx);

    assert_eq!(app.stems.state.status, StemStatus::Active, "stems must survive");
    let np = app.player.now_playing.as_ref().unwrap();
    assert_eq!(np.state, PlaybackState::Playing);
    assert_eq!(np.elapsed_ms, 0, "restart rewinds the clock");
    assert!(!np.counted, "restart opens a new counting session");
    assert_eq!(
        np.track_index, 0,
        "navigation context re-anchors on the list Enter was pressed in"
    );
    assert_eq!(
        np.playlist.len(),
        1,
        "playlist snapshot follows the on-screen list"
    );
    match next(&mut tx) {
        Ok(AudioCommand::Scrub { delta_ms }) => {
            assert!(delta_ms <= -42_000, "scrub must reach 0:00");
        }
        _ => panic!("expected a stem-aware Scrub, not Play"),
    }
    assert!(next(&mut tx).is_err(), "exactly one command: Scrub");
    assert!(
        app.player.local_plays.get(7).is_none(),
        "same-session restart is not a skip"
    );
}

/// A *different* selected row still takes the full transition path:
/// skip recorded, stems reset, fresh `Play` dispatched.
#[test]
fn enter_on_a_different_track_still_resets_stems() {
    let mut app = stem_active_app_with_selection("/lib/song.mp3");
    let other = TrackInfo::new(
        "Other".into(),
        "Artist".into(),
        "Album".into(),
        Some(180_000),
        None,
        Some("/lib/other.mp3".to_string()),
        None,
        None,
        None,
        false,
    );
    app.lists.track_list = vec![other];
    app.lists.track_selected = 0;

    let mut tx: Vec<AudioCommand> = Vec::new();
    app.play_selected_track(&mut tx);

    assert_eq!(
        app.stems.state.status,
        StemStatus::Off,
        "track change resets stems"
    );
    assert!(matches!(next(&mut tx), Ok(AudioCommand::Play { .. })));
    assert!(
        app.player.local_plays.get(7).is_some(),
        "moving to another track records the abandoned session as a skip"
    );
}

/// Hermetic app for stem-settings-panel tests: no real engine
/// discovery, no real config.
fn stem_panel_app() -> App {
    let mut app = stem_playing_app("/lib/song.mp3");
    app
}

/// App with a two-track album library, the album selected in the
/// sidebar, and hermetic stem config/discovery.
fn bulk_stem_app() -> App {
    let mut app = stem_playing_app("/lib/song.mp3");
    let mk = |name: &str, loc: &str| Track {
        id: 1,
        name: name.into(),
        artist: "Artist".into(),
        album: "Album".into(),
        location: Some(loc.into()),
        ..Default::default()
    };
    app.library = Some(library_of(vec![mk("One", "/lib/one.mp3"), mk("Two", "/lib/two.mp3")]));
    app.nav.sidebar_items = vec![SidebarEntry::Album {
        artist: "Artist".into(),
        album: "Album".into(),
    }];
    app.nav.sidebar_selected = 0;
    app.nav.active_panel = Panel::Library;
    app
}

#[test]
fn stem_panel_opens_on_the_configured_recipe_and_wraps() {
    let mut app = stem_panel_app();
    app.stems.cfg.recipe = Some("hq".into());
    app.open_stem_panel();
    assert_eq!(
        app.stems.panel.as_ref().unwrap().selected,
        1,
        "opens with the configured recipe selected"
    );
    app.stem_panel_move(-1);
    assert_eq!(app.stems.panel.as_ref().unwrap().selected, 0);
    app.stem_panel_move(-1);
    assert_eq!(
        app.stems.panel.as_ref().unwrap().selected,
        RECIPE_COUNT - 1,
        "selection wraps"
    );
}

#[test]
fn stem_panel_confirm_updates_recipe_in_memory_and_closes() {
    let mut app = stem_panel_app();
    app.open_stem_panel();
    app.stem_panel_move(1); // demucs → hq
    let persisted = app.stem_panel_confirm_in_memory();
    assert_eq!(persisted.as_deref(), Some("hq"));
    assert_eq!(app.stems.cfg.recipe.as_deref(), Some("hq"));
    assert!(app.stems.panel.is_none(), "panel closes on confirm");
}

#[test]
fn stem_panel_uninstall_needs_an_installed_engine() {
    let mut app = stem_panel_app();
    app.open_stem_panel();
    app.stem_panel_request_uninstall();
    assert!(
        !app.stems.panel.as_ref().unwrap().confirm_uninstall,
        "no engine discovered → nothing to uninstall"
    );
}

#[test]
fn stem_panel_uninstall_dispatches_for_the_selected_recipes_engine() {
    let mut app = stem_panel_app();
    find_engines(&mut app);
    app.open_stem_panel();
    app.stem_panel_move(1); // hq → audio-separator
    app.stem_panel_request_uninstall();
    assert!(app.stems.panel.as_ref().unwrap().confirm_uninstall);
    app.stem_panel_uninstall(false);
    assert!(matches!(
        app.out.pending_bg_commands.as_slice(),
        [BgCommand::UninstallStemEngine {
            engine: EngineKind::AudioSeparator,
            evict_stems: false,
            ..
        }]
    ));
    assert!(
        app.stems.panel.is_none(),
        "panel closes; result arrives as an event"
    );
}

#[test]
fn stem_panel_uninstall_blocked_while_a_job_runs() {
    let mut app = stem_panel_app();
    find_engines(&mut app);
    app.stems.state.status = StemStatus::Separating { pct: Some(10) };
    app.open_stem_panel();
    app.stem_panel_request_uninstall();
    assert!(
        !app.stems.panel.as_ref().unwrap().confirm_uninstall,
        "uninstalling mid-separation would rip the engine out from under the job"
    );
}

#[test]
fn stem_panel_clear_cache_arms_confirm_then_dispatches_and_closes() {
    let mut app = stem_panel_app();
    app.host.stems_cache_bytes = 1;
    app.stems.cfg.cache_dir = Some("/cache/arms".into());
    app.open_stem_panel();

    app.stem_panel_request_clear_cache();
    assert!(
        app.stems.panel.as_ref().unwrap().confirm_clear_cache,
        "first press arms the confirmation rather than deleting outright"
    );
    assert!(
        app.stems.panel.as_ref().unwrap().stems_cache_bytes > 0,
        "confirm dialog shows the freshly re-stat'd size, not a stale zero"
    );
    assert!(
        app.out.pending_bg_commands.is_empty(),
        "nothing dispatched until confirmed"
    );

    app.stem_panel_clear_cache();
    assert!(matches!(
        app.out.pending_bg_commands.as_slice(),
        [BgCommand::ClearStemCache { cache_dir }] if cache_dir.is_some()
    ));
    assert!(
        app.stems.panel.is_none(),
        "panel closes; result arrives as a StemCacheCleared event"
    );
}

#[test]
fn stem_panel_clear_cache_blocked_while_a_job_runs() {
    let mut app = stem_panel_app();
    // Even with a non-empty cache, a running job short-circuits the
    // request before the empty/size check — the status guard wins.
    app.host.stems_cache_bytes = 1;
    app.stems.cfg.cache_dir = Some("/cache/blocked".into());
    app.stems.state.status = StemStatus::Separating { pct: Some(10) };
    app.open_stem_panel();
    app.stem_panel_request_clear_cache();
    assert!(
        !app.stems.panel.as_ref().unwrap().confirm_clear_cache,
        "clearing the cache mid-separation would delete the dir it's staging into"
    );
    assert!(app.out.pending_bg_commands.is_empty());
}

#[test]
fn stem_panel_clear_cache_noop_when_already_empty() {
    let mut app = stem_panel_app();
    // An absent cache dir re-stats to zero bytes, so the request must
    // no-op with a toast rather than arm a pointless destructive
    // confirmation — regardless of any stale panel snapshot.
    app.host.stems_cache_bytes = 0;
    app.stems.cfg.cache_dir = Some("/cache/empty".into());
    app.open_stem_panel();
    app.stems.panel.as_mut().unwrap().stems_cache_bytes = 4 * 1024 * 1024;
    app.stem_panel_request_clear_cache();
    assert!(
        !app.stems.panel.as_ref().unwrap().confirm_clear_cache,
        "an empty cache doesn't warrant a destructive confirmation"
    );
}

#[test]
fn m_on_album_sidebar_entry_opens_bulk_confirm() {
    let mut app = bulk_stem_app();
    app.press_stem_mode_on_album();
    let confirm = app.stems.bulk_confirm.as_ref().expect("confirm modal opens");
    assert_eq!(confirm.album, "Album");
    assert_eq!(confirm.track_paths.len(), 2);
    assert_eq!(confirm.cached, 0, "fake paths are never cached");
    assert!(confirm.projected_bytes > 0);
}

#[test]
fn the_bulk_confirm_counts_what_the_host_found() {
    let mut app = bulk_stem_app();
    app.stems.cfg.cache_dir = Some("/cache".into());
    app.press_stem_mode_on_album();
    let confirm = app.stems.bulk_confirm.take().expect("confirm modal opens");
    assert_eq!((confirm.cached, confirm.cache_used_bytes), (0, 0));
    app.host.split_paths = vec![confirm.track_paths[1].clone(), "/elsewhere.flac".into()];
    app.host.stems_used_bytes = 700;
    app.host.stems_cache_bytes = 900;
    app.press_stem_mode_on_album();
    let again = app.stems.bulk_confirm.as_ref().expect("confirm modal opens");
    assert_eq!((again.cached, again.cache_used_bytes), (1, 700));
    assert_eq!(again.projected_bytes * 2, confirm.projected_bytes);
}

#[test]
fn bulk_accept_requires_an_engine() {
    let mut app = bulk_stem_app();
    app.press_stem_mode_on_album();
    app.stem_bulk_confirm_accept(); // finder is hermetic None
    assert!(app.stems.bulk_confirm.is_none(), "modal closes");
    assert!(app.stems.batch.is_none(), "nothing dispatched");
    assert!(app.out.pending_bg_commands.is_empty());
    assert!(app.toast_message.is_some(), "user told to install first");
}

#[test]
fn bulk_accept_dispatches_the_batch() {
    let mut app = bulk_stem_app();
    find_engines(&mut app);
    app.press_stem_mode_on_album();
    app.stem_bulk_confirm_accept();
    assert!(app.stems.bulk_confirm.is_none());
    let batch = app.stems.batch.as_ref().expect("batch state set");
    assert_eq!(batch.total, 2);
    assert!(!batch.suspended);
    assert!(matches!(
        app.out.pending_bg_commands.as_slice(),
        [BgCommand::SeparateStemsBatch { track_paths, .. }] if track_paths.len() == 2
    ));
}

#[test]
fn m_on_album_cancels_a_running_batch() {
    let mut app = bulk_stem_app();
    find_engines(&mut app);
    app.press_stem_mode_on_album();
    app.stem_bulk_confirm_accept();
    app.out.pending_bg_commands.clear();
    app.press_stem_mode_on_album(); // second press = cancel
    assert!(app.stems.batch.is_none(), "batch state cleared");
    assert!(matches!(
        app.out.pending_bg_commands.as_slice(),
        [BgCommand::CancelSeparation]
    ));
}

#[test]
fn cancel_of_a_suspended_batch_spares_the_interactive_job() {
    let mut app = bulk_stem_app();
    find_engines(&mut app);
    app.press_stem_mode_on_album();
    app.stem_bulk_confirm_accept();

    // Interactive split suspends the batch; the batch has no worker
    // job now — the most recently dispatched job is the user's.
    app.dispatch_separation("/lib/song.mp3".into(), RecipeKind::Demucs);
    assert!(app.stems.batch.as_ref().unwrap().suspended);
    app.out.pending_bg_commands.clear();

    // M on the album cancels the batch — but must NOT push a
    // CancelSeparation, which would kill the interactive split as
    // collateral (StemJobs cancels the most recent dispatch).
    app.press_stem_mode_on_album();
    assert!(app.stems.batch.is_none(), "batch state dropped");
    assert!(
        app.out.pending_bg_commands.is_empty(),
        "no CancelSeparation for a suspended batch ({} queued)",
        app.out.pending_bg_commands.len()
    );
}

#[test]
fn dispatch_separation_carries_configured_recipe() {
    // The recipe is parsed once in request_stems and passed through.
    // End-to-end: config recipe → command.
    let mut app = stem_playing_app("/lib/song.mp3");
    app.stems.cfg.recipe = Some("hq".into());
    find_engines(&mut app);
    app.press_stem_mode();
    assert!(matches!(
        app.out.pending_bg_commands.as_slice(),
        [BgCommand::SeparateStems {
            recipe: RecipeKind::Hq,
            ..
        }]
    ));
}

#[test]
fn unknown_recipe_logs_once_per_stem_request() {
    // stems_recipe() logs on every parse; request_stems must parse
    // once and hand the result to dispatch_separation, not have both
    // parse (and both log).
    let mut app = stem_playing_app("/lib/song.mp3");
    app.stems.cfg.recipe = Some("roformer".into());
    find_engines(&mut app);
    app.press_stem_mode();
    let warnings = app
        .sync
        .log
        .iter()
        .filter(|l| l.contains("unknown recipe"))
        .count();
    assert_eq!(warnings, 1, "log: {:?}", app.sync.log);
}

#[test]
fn unknown_recipe_falls_back_to_demucs_and_logs() {
    let mut app = stem_playing_app("/lib/song.mp3");
    app.stems.cfg.recipe = Some("roformer".into());
    assert_eq!(app.stems_recipe(), RecipeKind::Demucs);
    assert!(
        app.sync.log.iter().any(|l| l.contains("unknown recipe")),
        "fallback must be visible in the log: {:?}",
        app.sync.log
    );
}

#[test]
fn hq_consent_offers_the_pinned_audio_separator_package() {
    // No engine installed, recipe = hq: the consent modal must
    // name the audio-separator install, not demucs.
    let mut app = stem_playing_app("/lib/song.mp3");
    app.stems.cfg.recipe = Some("hq".into());
    app.press_stem_mode();
    let consent = app.stems.state.consent.as_ref().expect("consent modal");
    assert_eq!(
        consent.engine,
        EngineKind::AudioSeparator
    );
    assert_eq!(
        consent.package,
        EngineKind::AudioSeparator.default_package(false)
    );
}

#[test]
fn stem_consent_enter_provisions_and_esc_declines() {
    let mut app = stem_playing_app("/lib/song.mp3");
    app.stems.state.consent = Some(StemConsent {
        package: "demucs".into(),
        gpu: false,
        engine: EngineKind::Demucs,
    });
    app.stems.state.pending_path = Some("/lib/song.mp3".into());
    stem_key(&mut app, KeyCode::Enter);
    assert_eq!(app.stems.state.status, StemStatus::Provisioning);
    assert!(app.stems.state.consent.is_none());
    assert!(matches!(
        app.out.pending_bg_commands.as_slice(),
        [BgCommand::ProvisionStemEngine {
            package,
            gpu: false,
            engine: EngineKind::Demucs,
            ..
        }] if package == "demucs"
    ));

    // Decline path.
    let mut app = stem_playing_app("/lib/song.mp3");
    app.stems.state.consent = Some(StemConsent {
        package: "demucs".into(),
        gpu: false,
        engine: EngineKind::Demucs,
    });
    app.stems.state.pending_path = Some("/lib/song.mp3".into());
    stem_key(&mut app, KeyCode::Esc);
    assert!(app.stems.state.consent.is_none());
    assert!(app.stems.state.pending_path.is_none());
    assert_eq!(app.stems.state.status, StemStatus::Off);
    assert!(app.out.pending_bg_commands.is_empty());
}

#[test]
fn stem_keys_claimed_only_while_active() {
    let mut app = stem_playing_app("/lib/song.mp3");
    // Off: '1' keeps its global sidebar binding, stems untouched.
    app.nav.sidebar_mode = SidebarMode::Albums;
    stem_key(&mut app, KeyCode::Char('1'));
    assert_eq!(app.nav.sidebar_mode, SidebarMode::Artists);
    assert!(app.stems.state.enabled[0]);

    // Active: '1' toggles the vocals stem and the sidebar stays put.
    app.stems.state.status = StemStatus::Active;
    app.stems.state.layout = Some(StemLayout::Six);
    app.stems.state.gains = Some(StemGains { levels: app.stems.state.enabled.to_vec() });
    app.nav.sidebar_mode = SidebarMode::Albums;
    stem_key(&mut app, KeyCode::Char('1'));
    assert_eq!(
        app.nav.sidebar_mode,
        SidebarMode::Albums,
        "claimed while active"
    );
    assert!(!app.stems.state.enabled[0]);
    assert!(!app.stems.state.gains.as_ref().unwrap().levels[0]);

    // '6' hits the last stem; toggle back restores the gain.
    stem_key(&mut app, KeyCode::Char('6'));
    assert!(!app.stems.state.enabled[5]);
    stem_key(&mut app, KeyCode::Char('6'));
    assert!(app.stems.state.enabled[5]);
    assert!(app.stems.state.gains.as_ref().unwrap().levels[5]);
}

#[test]
fn stem_keys_fall_through_when_strip_hidden() {
    // The strip is the only UI for the toggles; with the player panel
    // hidden the keys must keep their global meanings instead of
    // silently mutating invisible stems.
    let mut app = stem_playing_app("/lib/song.mp3");
    app.stems.state.status = StemStatus::Active;
    app.stems.state.layout = Some(StemLayout::Six);
    app.stems.state.gains = Some(StemGains { levels: app.stems.state.enabled.to_vec() });

    // Force-hidden player (P cycled to hidden).
    app.player.show_player = Some(false);
    app.nav.sidebar_mode = SidebarMode::Albums;
    stem_key(&mut app, KeyCode::Char('1'));
    assert_eq!(app.nav.sidebar_mode, SidebarMode::Artists, "global '1' ran");
    assert!(app.stems.state.enabled[0], "hidden stem untouched");

    // Terminal too short for the panel's physical floor.
    app.player.show_player = None;
    app.player.last_term_height = app.host.player_min_height - 1;
    app.nav.sidebar_mode = SidebarMode::Artists;
    stem_key(&mut app, KeyCode::Char('2'));
    assert_eq!(app.nav.sidebar_mode, SidebarMode::Albums, "global '2' ran");
    assert!(app.stems.state.enabled[1], "hidden stem untouched");
}

#[test]
fn player_panel_height_grows_while_stems_engaged() {
    let mut app = stem_playing_app("/lib/song.mp3");
    assert_eq!(app.player_panel_height(), 9);
    app.stems.state.status = StemStatus::Separating { pct: None };
    assert_eq!(app.player_panel_height(), 10);
    app.stems.state.status = StemStatus::Active;
    assert_eq!(app.player_panel_height(), 10);
    app.stems.state.status = StemStatus::Off;
    assert_eq!(app.player_panel_height(), 9);
}

#[test]
fn m_exits_active_stem_mode_at_position() {
    let mut app = stem_playing_app("/lib/song.mp3");
    app.stems.state.status = StemStatus::Active;
    app.stems.state.gains = Some(StemGains { levels: vec![true; 6] });
    app.stems.state.for_path = Some("/lib/song.mp3".into());
    stem_key(&mut app, KeyCode::Char('M'));
    assert_eq!(app.stems.state.status, StemStatus::Off);
    assert!(app.stems.state.gains.is_none());
    match app.out.pending_audio_commands.as_slice() {
        [AudioCommand::SwapSource {
            target: SwapTarget::File { path },
        }] => {
            assert_eq!(path, "/lib/song.mp3");
        }
        other => panic!("expected one SwapSource, got {} commands", other.len()),
    }
}

#[test]
fn m_cancels_inflight_separation() {
    let mut app = stem_playing_app("/lib/song.mp3");
    app.stems.state.status = StemStatus::Separating { pct: Some(10) };
    app.stems.state.for_path = Some("/lib/song.mp3".into());
    stem_key(&mut app, KeyCode::Char('M'));
    assert_eq!(app.stems.state.status, StemStatus::Off);
    assert!(matches!(
        app.out.pending_bg_commands.as_slice(),
        [BgCommand::CancelSeparation]
    ));
}

#[test]
fn track_change_resets_stem_state() {
    let mut app = stem_playing_app("/lib/song.mp3");
    app.stems.state.status = StemStatus::Active;
    app.stems.state.gains = Some(StemGains { levels: vec![true; 6] });
    app.stems.state.for_path = Some("/lib/song.mp3".into());
    app.stems.state.enabled[2] = false;
    // Single-entry playlist: next_track hits the end-of-playlist branch.
    let mut audio_tx: Vec<AudioCommand> = Vec::new();
    app.next_track(&mut audio_tx);
    assert!(app.player.now_playing.is_none());
    assert_eq!(app.stems.state.status, StemStatus::Off);
    assert!(app.stems.state.gains.is_none());
    assert!(app.stems.state.enabled.iter().all(|&e| e), "toggles reset");
    // Active playback has no separation in flight — nothing to cancel.
    assert!(
        !app.out.pending_bg_commands
            .iter()
            .any(|c| matches!(c, BgCommand::CancelSeparation)),
        "track change while Active must not send a cancel"
    );
}

#[test]
fn track_change_detaches_inflight_separation() {
    let mut app = stem_playing_app("/lib/song.mp3");
    app.stems.state.status = StemStatus::Separating { pct: Some(40) };
    app.stems.state.for_path = Some("/lib/song.mp3".into());
    let gen_before = app.stems.state.job_gen;
    let mut audio_tx: Vec<AudioCommand> = Vec::new();
    app.next_track(&mut audio_tx);
    assert_eq!(app.stems.state.status, StemStatus::Off);
    assert!(
        !app.out.pending_bg_commands
            .iter()
            .any(|c| matches!(c, BgCommand::CancelSeparation)),
        "changing songs must NOT cancel the running separation — on \
         CPU the split outlasts the song, so cancelling here killed \
         every split at auto-advance; it finishes into the cache"
    );
    assert_eq!(
        app.stems.state.job_gen,
        gen_before + 1,
        "detached job's events must compare stale"
    );
    assert!(
        app.sync
            .log
            .iter()
            .any(|l| l.contains("continues in the background")),
        "detach is logged so the user knows the split is still running"
    );
}

#[test]
fn track_change_keeps_a_running_engine_install() {
    // An engine install is track-agnostic: skipping to the next song
    // must not wipe Provisioning (that would invite a second consent whose
    // dispatch supersedes — kills — the running download). Only the
    // stale auto-split target is dropped.
    let mut app = stem_playing_app("/lib/song.mp3");
    app.stems.state.job_gen = 1;
    app.stems.state.status = StemStatus::Provisioning;
    app.stems.state.pending_path = Some("/lib/song.mp3".into());
    let mut audio_tx: Vec<AudioCommand> = Vec::new();
    app.next_track(&mut audio_tx);
    assert_eq!(app.stems.state.status, StemStatus::Provisioning);
    assert_eq!(app.stems.state.job_gen, 1, "install job identity unchanged");
    assert!(app.stems.state.pending_path.is_none(), "auto-split target gone");
    assert!(
        !app.out.pending_bg_commands
            .iter()
            .any(|c| matches!(c, BgCommand::CancelSeparation)),
        "the install must keep running"
    );
}

#[test]
fn swap_failed_unwinds_stem_state_but_keeps_playback() {
    // The audio thread keeps the old source playing when a swap build
    // fails; the app must NOT drop now_playing (that's PlaybackError
    // semantics), only unwind the premature Active state.
    let mut app = stem_playing_app("/lib/song.mp3");
    app.stems.state.status = StemStatus::Active;
    app.stems.state.gains = Some(StemGains { levels: vec![true; 6] });
    app.stems.state.for_path = Some("/lib/song.mp3".into());
    let mut audio_tx: Vec<AudioCommand> = Vec::new();
    app.handle_audio_event(
        AudioEvent::SwapFailed {
            error: "stem 2 has 1 ch".into(),
            to_stems: true,
        },
        &mut audio_tx,
    );
    assert!(app.player.now_playing.is_some(), "playback survived");
    assert_eq!(app.stems.state.status, StemStatus::Off, "stem entry unwound");
    assert!(app.stems.state.gains.is_none());
    assert!(matches!(app.toast_message, Some((_, _, true))));

    // A failed EXIT (file swap) leaves stem state alone — the app
    // already reset it and the mixer keeps playing; M re-enters.
    let mut app = stem_playing_app("/lib/song.mp3");
    app.handle_audio_event(
        AudioEvent::SwapFailed {
            error: "Open: gone".into(),
            to_stems: false,
        },
        &mut audio_tx,
    );
    assert!(app.player.now_playing.is_some());
    assert_eq!(app.stems.state.status, StemStatus::Off);
}

#[test]
fn seek_failed_toasts_without_dropping_playback() {
    let mut app = stem_playing_app("/lib/song.mp3");
    let mut audio_tx: Vec<AudioCommand> = Vec::new();
    app.handle_audio_event(
        AudioEvent::SeekFailed("Open: gone".into()),
        &mut audio_tx,
    );
    assert!(app.player.now_playing.is_some(), "seek failure is not track loss");
    assert!(matches!(app.toast_message, Some((_, _, true))));
}
