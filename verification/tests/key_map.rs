use zytunes_tui::app::{App, Config, Host, NowPlaying};
use zytunes_tui::cd::RipProgressState;
use zytunes_tui::commands::{AudioCommand, BgCommand, HostRequest, QueuedItem, SyncItem};
use zytunes_tui::input::{type_key, KeyCode, KeyEvent};
use zytunes_tui::library::Library;
use zytunes_tui::model::Track;
use zytunes_tui::playlists::{AddToPlaylistPicker, GenerationFormState, Playlist, FIELD_COUNT};
use zytunes_tui::stem_model::{StemBulkConfirm, EngineKind, EngineSource, FoundEngine, RecipeKind, StemConsent, StemPanel};
use zytunes_tui::tracks::TrackInfo;
use zytunes_tui::types::{
    BrowseMode, DeviceStatus, KeyOutcome, Panel, PlaybackState, SidebarEntry, SidebarMode, SortColumn,
    StemStatus, SyncStatus,
};

fn new_app() -> App {
    App::new(Config::default(), Host::new(12, 12))
}

struct Pressed {
    outcome: KeyOutcome,
    bg: Vec<BgCommand>,
    audio: Vec<AudioCommand>,
}

fn hit(app: &mut App, key: KeyEvent) -> Pressed {
    let mut bg: Vec<BgCommand> = Vec::new();
    let mut audio: Vec<AudioCommand> = Vec::new();
    let outcome = app.handle_key(key, &mut bg, &mut audio);
    Pressed { outcome, bg, audio }
}

fn press(app: &mut App, code: KeyCode) -> Pressed {
    hit(app, KeyEvent { code, ctrl: false })
}

fn chr(app: &mut App, c: char) -> Pressed {
    press(app, KeyCode::Char(c))
}

fn ctrl_c(app: &mut App) -> Pressed {
    hit(app, KeyEvent { code: KeyCode::Char('c'), ctrl: true })
}

fn toast(app: &App) -> Option<(&str, bool)> {
    app.toast_message.as_ref().map(|t| (t.0.as_str(), t.2))
}

fn row(name: &str) -> TrackInfo {
    TrackInfo::new(
        name.into(),
        "Artist".into(),
        "Album".into(),
        Some(200_000),
        None,
        Some(format!("/music/{name}.mp3")),
        None,
        None,
        None,
        false,
    )
}

fn playing(app: &mut App, names: &[&str], index: usize) {
    app.player.now_playing = Some(NowPlaying {
        track_name: names[index].into(),
        artist: "Artist".into(),
        album: "Album".into(),
        duration_ms: 200_000,
        elapsed_ms: 1_000,
        state: PlaybackState::Playing,
        track_index: index,
        playlist: names.iter().map(|n| row(n)).collect(),
        paused_frame: None,
        track_id: None,
        counted: false,
        year: None,
        metadata_marquee: String::new(),
    });
}

fn queued(n: usize) -> QueuedItem {
    QueuedItem { label: "Item".into(), tracks: (0..n).map(|_| SyncItem::default()).collect() }
}

/// Opens every modal in turn.
fn modals() -> Vec<(&'static str, App)> {
    let mut all: Vec<(&'static str, App)> = Vec::new();
    let mut add = |name: &'static str, open: &dyn Fn(&mut App)| {
        let mut app = new_app();
        playing(&mut app, &["a"], 0);
        open(&mut app);
        all.push((name, app));
    };
    add("name", &|a| a.playlists.name_input = Some("x".into()));
    add("form", &|a| a.playlists.form = Some(GenerationFormState::discover_weekly_default(0)));
    add("picker", &|a| {
        a.playlists.picker =
            Some(AddToPlaylistPicker { track_id: 1, track_label: "t".into(), options: vec![], selected: 0 })
    });
    add("delete", &|a| a.playlists.pending_delete = Some(1));
    add("search", &|a| a.nav.search_active = true);
    add("theme", &|a| a.themes.show_picker = true);
    add("stem panel", &|a| a.open_stem_panel());
    add("cache", &|a| a.popup.pending_cache_clear = true);
    add("consent", &|a| {
        a.stems.state.consent =
            Some(StemConsent { package: "p".into(), gpu: false, engine: EngineKind::Demucs })
    });
    add("bulk", &|a| {
        a.stems.bulk_confirm = Some(StemBulkConfirm {
            artist: "A".into(),
            album: "B".into(),
            track_paths: vec!["/1".into()],
            recipe: RecipeKind::Demucs,
            cached: 0,
            projected_bytes: 0,
            cache_used_bytes: 0,
            cap_bytes: 0,
        })
    });
    add("removal", &|a| a.removal.pending_removal = Some(vec![("p".into(), 1)]));
    add("help", &|a| a.popup.show_help = true);
    add("info", &|a| {
        a.lists.track_list = vec![row("a")];
        a.nav.active_panel = Panel::TrackList;
        a.open_track_info();
    });
    all
}

#[test]
fn an_open_modal_claims_every_key() {
    let codes = [
        KeyCode::Char('q'),
        KeyCode::Char(' '),
        KeyCode::Char('n'),
        KeyCode::Char('<'),
        KeyCode::Enter,
        KeyCode::Esc,
        KeyCode::Tab,
        KeyCode::Home,
        KeyCode::Other,
    ];
    for code in codes {
        for (name, mut app) in modals() {
            let p = press(&mut app, code);
            assert_eq!(p.outcome, KeyOutcome::Continue, "{name} {code:?}");
            assert!(p.audio.is_empty(), "{name} {code:?}");
            assert!(!app.should_quit, "{name} {code:?}");
        }
    }
    for (name, mut app) in modals() {
        assert_eq!(ctrl_c(&mut app).outcome, KeyOutcome::Continue, "{name}");
    }
}

#[test]
fn only_q_and_control_c_quit() {
    for c in (' '..='~').filter(|c| *c != 'q') {
        let mut app = new_app();
        assert_eq!(chr(&mut app, c).outcome, KeyOutcome::Continue, "{c}");
        assert!(!app.should_quit, "{c}");
    }
    let mut app = new_app();
    assert_eq!(chr(&mut app, 'q').outcome, KeyOutcome::Quit);
    assert!(app.should_quit);
    let mut app = new_app();
    assert_eq!(ctrl_c(&mut app).outcome, KeyOutcome::Quit);
    assert!(app.should_quit);
    // Without control it connects.
    let mut app = new_app();
    let p = chr(&mut app, 'c');
    assert!(matches!(p.bg[..], [BgCommand::Connect]));
    assert_eq!(app.device.status, DeviceStatus::Detecting);
    assert_eq!(app.anim.connection_anim_start, Some(0));
}

#[test]
fn c_cancels_a_rip_before_it_connects() {
    let mut app = new_app();
    app.cd.rip = Some(rip());
    let p = chr(&mut app, 'c');
    assert!(p.bg.is_empty());
    assert!(matches!(app.out.pending_bg_commands[..], [BgCommand::CancelRip]));
    assert_eq!(app.device.status, DeviceStatus::Disconnected);
}

fn rip() -> RipProgressState {
    RipProgressState {
        current: 1,
        total: 2,
        track_title: "Song".into(),
        track_length_ms: None,
        elapsed_ms: 0,
        errors: vec![],
    }
}

#[test]
fn c_does_nothing_while_connected() {
    let mut app = new_app();
    app.device.status = DeviceStatus::Connected;
    let p = chr(&mut app, 'c');
    assert!(p.bg.is_empty());
    assert_eq!(app.device.status, DeviceStatus::Connected);
    // `r` asks for the tracks again, but only then.
    let p = chr(&mut app, 'r');
    assert!(matches!(p.bg[..], [BgCommand::LoadDeviceTracks]));
    assert_eq!(toast(&app), Some(("Refreshing device tracks...", false)));
    app.device.status = DeviceStatus::Disconnected;
    assert!(chr(&mut app, 'r').bg.is_empty());
}

#[test]
fn popups_open_and_close() {
    let mut app = new_app();
    chr(&mut app, '?');
    assert!(app.popup.show_help);
    chr(&mut app, 'x');
    assert!(app.popup.show_help);
    chr(&mut app, '?');
    assert!(!app.popup.show_help);
    chr(&mut app, 'h');
    assert!(app.popup.show_keys);
    chr(&mut app, 'h');
    assert!(!app.popup.show_keys);
    chr(&mut app, 'X');
    assert!(app.popup.pending_cache_clear);
    chr(&mut app, 'n');
    assert!(!app.popup.pending_cache_clear && app.out.host_requests.is_empty());
    chr(&mut app, 'X');
    press(&mut app, KeyCode::Enter);
    assert!(matches!(app.out.host_requests[..], [HostRequest::ClearPlaybackCache]));
    chr(&mut app, 'L');
    assert!(matches!(app.out.host_requests[1..], [HostRequest::DumpLog]));
}

#[test]
fn the_outcome_of_a_dump_is_told() {
    let mut app = new_app();
    app.sync.log = vec!["one".into(), "two".into()];
    assert_eq!(app.log_text(), "one\ntwo");
    app.log_dumped("/tmp/l", Ok(Ok(())));
    assert_eq!(toast(&app), Some(("Log dumped to /tmp/l (copied to clipboard)", false)));
    app.log_dumped("/tmp/l", Ok(Err("no display".into())));
    assert_eq!(toast(&app), Some(("Log dumped to /tmp/l (clipboard: no display)", false)));
    app.log_dumped("/tmp/l", Err("full".into()));
    assert_eq!(toast(&app), Some(("Log dump failed: full", true)));
}

#[test]
fn the_size_of_the_cleared_cache_is_told() {
    let mut app = new_app();
    app.playback_cache_cleared(0);
    assert_eq!(toast(&app), Some(("Cache is already empty", false)));
    for total in [1, 52_428, 52_429, 1_048_576, 157_286_400, 1_627_389_952, u64::MAX] {
        app.playback_cache_cleared(total);
        let mb = total as f64 / (1024.0 * 1024.0);
        let text = format!("Cleared {mb:.1} MB of cached audio");
        assert_eq!(toast(&app), Some((text.as_str(), false)));
    }
}

#[test]
fn digits_choose_the_sidebar_mode_and_the_queue() {
    let mut app = new_app();
    app.nav.active_panel = Panel::Device;
    chr(&mut app, '2');
    assert_eq!(app.nav.sidebar_mode, SidebarMode::Albums);
    assert_eq!(app.nav.active_panel, Panel::Library);
    chr(&mut app, '1');
    assert_eq!(app.nav.sidebar_mode, SidebarMode::Artists);
    chr(&mut app, '4');
    assert_eq!(app.nav.active_panel, Panel::Library);
    app.sync.queue = vec![queued(1)];
    chr(&mut app, '4');
    assert_eq!(app.nav.active_panel, Panel::SyncQueue);
}

#[test]
fn scrubbing_needs_something_that_plays() {
    let mut app = new_app();
    assert!(chr(&mut app, '<').audio.is_empty());
    playing(&mut app, &["a"], 0);
    assert_eq!(chr(&mut app, '<').audio, vec![AudioCommand::Scrub { delta_ms: -5000 }]);
    assert_eq!(chr(&mut app, ',').audio, vec![AudioCommand::Scrub { delta_ms: -5000 }]);
    assert_eq!(chr(&mut app, '>').audio, vec![AudioCommand::Scrub { delta_ms: 5000 }]);
    assert_eq!(chr(&mut app, '.').audio, vec![AudioCommand::Scrub { delta_ms: 5000 }]);
}

#[test]
fn next_previous_and_pause() {
    let mut app = new_app();
    playing(&mut app, &["a", "b"], 0);
    let p = chr(&mut app, 'n');
    assert_eq!(p.audio, vec![AudioCommand::Play { path: "/music/b.mp3".into() }]);
    assert_eq!(app.player.now_playing.as_ref().unwrap().track_index, 1);
    let p = chr(&mut app, 'p');
    assert_eq!(p.audio, vec![AudioCommand::Play { path: "/music/a.mp3".into() }]);
    let p = chr(&mut app, ' ');
    assert_eq!(p.audio, vec![AudioCommand::Pause]);
    let p = chr(&mut app, ' ');
    assert_eq!(p.audio, vec![AudioCommand::Resume]);
    // Behind the last track there is nothing.
    app.player.now_playing.as_mut().unwrap().track_index = 1;
    let p = chr(&mut app, 'n');
    assert_eq!(p.audio, vec![AudioCommand::Stop]);
    assert!(app.player.now_playing.is_none());
}

#[test]
fn the_log_scrolls_by_ten_lines() {
    let mut app = new_app();
    app.sync.log = (0..25).map(|i| format!("{i}")).collect();
    press(&mut app, KeyCode::PageUp);
    press(&mut app, KeyCode::PageUp);
    assert_eq!(app.sync.log_scroll, 20);
    press(&mut app, KeyCode::PageUp);
    assert_eq!(app.sync.log_scroll, 24);
    press(&mut app, KeyCode::PageDown);
    assert_eq!(app.sync.log_scroll, 14);
    for _ in 0..3 {
        press(&mut app, KeyCode::PageDown);
    }
    assert_eq!(app.sync.log_scroll, 0);
}

#[test]
fn escape_cancels_a_running_sync() {
    let mut app = new_app();
    app.set_toast("hello".into(), false);
    assert!(press(&mut app, KeyCode::Esc).bg.is_empty());
    assert!(app.toast_message.is_none());
    app.sync.status = SyncStatus::Running { current: 1, total: 2 };
    assert!(matches!(press(&mut app, KeyCode::Esc).bg[..], [BgCommand::CancelSync]));
    assert!(app.playlists.pending_imports.is_empty());
}

#[test]
fn removals_wait_for_a_confirmation() {
    let mut app = new_app();
    app.removal.removal_queue = vec![("a.mp3".into(), 1), ("b.mp3".into(), 2)];
    chr(&mut app, 'D');
    assert!(app.removal.pending_removal.is_none());
    app.nav.browse_mode = BrowseMode::Device;
    chr(&mut app, 'D');
    assert_eq!(app.removal.pending_removal.as_ref().map(|r| r.len()), Some(2));
    chr(&mut app, 'N');
    assert!(app.removal.pending_removal.is_none());
    assert_eq!(app.removal.removal_queue.len(), 2);
    chr(&mut app, 'D');
    let p = chr(&mut app, 'Y');
    assert!(matches!(&p.bg[..], [BgCommand::RemoveFromDevice(items)] if items.len() == 2));
    assert_eq!(toast(&app), Some(("Removing 2 track(s) from device...", false)));
    assert!(app.removal.removal_queue.is_empty());
    // `C` clears what is queued for removal.
    app.removal.removal_queue = vec![("a.mp3".into(), 1)];
    chr(&mut app, 'C');
    assert!(app.removal.removal_queue.is_empty());
    assert_eq!(toast(&app), Some(("Cleared 1 queued removal(s)", false)));
}

#[test]
fn the_queue_is_cleared_from_its_own_panel() {
    let mut app = new_app();
    app.sync.queue = vec![queued(1), queued(2)];
    chr(&mut app, 'C');
    assert_eq!(app.sync.queue.len(), 2);
    assert_eq!(app.total_queue_tracks(), 3);
    app.nav.active_panel = Panel::SyncQueue;
    chr(&mut app, 'd');
    assert_eq!(app.sync.queue.len(), 1);
    chr(&mut app, 'C');
    assert!(app.sync.queue.is_empty());
}

#[test]
fn disconnecting_clears_what_is_known_of_the_device() {
    let mut app = new_app();
    app.device.status = DeviceStatus::Connected;
    app.device.name = Some("Zune".into());
    let p = chr(&mut app, 'd');
    assert!(matches!(p.bg[..], [BgCommand::Disconnect]));
    assert_eq!(app.device.status, DeviceStatus::Disconnected);
    assert_eq!(app.device.name, None);
    assert_eq!(toast(&app), Some(("Disconnected", false)));
    // There is nothing left to disconnect.
    assert!(chr(&mut app, 'd').bg.is_empty());
}

#[test]
fn enter_goes_from_panel_to_panel() {
    let mut app = new_app();
    press(&mut app, KeyCode::Enter);
    assert_eq!(app.nav.active_panel, Panel::TrackList);
    app.nav.active_panel = Panel::Albums;
    press(&mut app, KeyCode::Enter);
    assert_eq!(app.nav.active_panel, Panel::TrackList);
    app.lists.track_list = vec![row("a")];
    let p = press(&mut app, KeyCode::Enter);
    assert_eq!(p.audio, vec![AudioCommand::Play { path: "/music/a.mp3".into() }]);
    app.nav.active_panel = Panel::Device;
    assert!(press(&mut app, KeyCode::Enter).audio.is_empty());
}

#[test]
fn the_theme_picker_wraps_and_can_be_cancelled() {
    let mut app = new_app();
    chr(&mut app, 't');
    press(&mut app, KeyCode::Up);
    assert_eq!(app.theme(), 11);
    press(&mut app, KeyCode::Down);
    press(&mut app, KeyCode::Down);
    assert_eq!(app.theme(), 1);
    press(&mut app, KeyCode::Esc);
    assert_eq!(app.theme(), 0);
    assert!(!app.themes.show_picker && app.out.host_requests.is_empty());
    chr(&mut app, 't');
    press(&mut app, KeyCode::Down);
    press(&mut app, KeyCode::Enter);
    assert_eq!(app.theme(), 1);
    assert!(matches!(app.out.host_requests[..], [HostRequest::SaveTheme]));
}

#[test]
fn searching_types_into_the_query() {
    let mut app = new_app();
    app.library = Some(Library {
        tracks: vec![],
        artists: vec!["Björk".into(), "Abba".into(), "Bowie".into()],
        albums: vec![],
        music_folder: None,
    });
    app.refresh_sidebar();
    assert_eq!(app.nav.sidebar_items.len(), 3);
    chr(&mut app, '/');
    for c in "BJÖ".chars() {
        chr(&mut app, c);
    }
    assert_eq!(app.nav.search_query, "BJÖ");
    assert_eq!(app.nav.sidebar_items, vec![SidebarEntry::Artist("Björk".into())]);
    press(&mut app, KeyCode::Backspace);
    press(&mut app, KeyCode::Backspace);
    assert_eq!(app.nav.search_query, "B");
    assert_eq!(app.nav.sidebar_items.len(), 3);
    app.nav.active_panel = Panel::Device;
    press(&mut app, KeyCode::Enter);
    assert!(!app.nav.search_active);
    assert_eq!(app.nav.active_panel, Panel::Library);
    chr(&mut app, '/');
    assert_eq!(app.nav.search_query, "");
    press(&mut app, KeyCode::Esc);
    assert!(!app.nav.search_active);
}

#[test]
fn the_form_walks_its_fields_round() {
    let mut app = new_app();
    app.playlists.form = Some(GenerationFormState::discover_weekly_default(0));
    press(&mut app, KeyCode::BackTab);
    assert_eq!(app.playlists.form.as_ref().unwrap().selected_field, FIELD_COUNT - 1);
    press(&mut app, KeyCode::Tab);
    assert_eq!(app.playlists.form.as_ref().unwrap().selected_field, 0);
    press(&mut app, KeyCode::Esc);
    assert!(app.playlists.form.is_none());
}

#[test]
fn playlists_are_named_renamed_and_deleted_by_key() {
    let mut app = new_app();
    app.nav.browse_mode = BrowseMode::Playlists;
    chr(&mut app, 'N');
    for c in "Mix".chars() {
        chr(&mut app, c);
    }
    press(&mut app, KeyCode::Enter);
    assert_eq!(app.playlists.store.playlists[0].name, "Mix");
    assert_eq!(app.nav.sidebar_items.len(), 1);
    app.nav.sidebar_selected = 0;
    chr(&mut app, 'e');
    assert_eq!(app.playlists.name_input.as_deref(), Some("Mix"));
    press(&mut app, KeyCode::Backspace);
    press(&mut app, KeyCode::Enter);
    assert_eq!(app.playlists.store.playlists[0].name, "Mi");
    app.nav.active_panel = Panel::Library;
    chr(&mut app, 'd');
    assert!(app.playlists.pending_delete.is_some());
    chr(&mut app, 'n');
    assert!(app.playlists.pending_delete.is_none());
    chr(&mut app, 'd');
    chr(&mut app, 'y');
    assert!(app.playlists.store.is_empty());
}

#[test]
fn the_picker_moves_within_its_options() {
    let mut app = new_app();
    app.playlists.store.add(Playlist::new_manual("A".into(), 1));
    app.playlists.store.add(Playlist::new_manual("B".into(), 2));
    app.playlists.picker = Some(AddToPlaylistPicker {
        track_id: 7,
        track_label: "t".into(),
        options: vec![(1, "A".into()), (2, "B".into())],
        selected: 0,
    });
    press(&mut app, KeyCode::Up);
    assert_eq!(app.playlists.picker.as_ref().unwrap().selected, 0);
    chr(&mut app, 'j');
    press(&mut app, KeyCode::Down);
    assert_eq!(app.playlists.picker.as_ref().unwrap().selected, 1);
    press(&mut app, KeyCode::Enter);
    assert!(app.playlists.picker.is_none());
    assert_eq!(app.playlists.store.playlists[1].track_ids, vec![7]);
}

#[test]
fn consent_installs_or_is_refused() {
    let consent = || Some(StemConsent { package: "demucs".into(), gpu: true, engine: EngineKind::Demucs });
    let mut app = new_app();
    app.stems.state.consent = consent();
    chr(&mut app, 'x');
    assert!(app.stems.state.consent.is_some());
    chr(&mut app, 'y');
    assert_eq!(app.stems.state.status, StemStatus::Provisioning);
    match &app.out.pending_bg_commands[..] {
        [BgCommand::ProvisionStemEngine { gen: 1, engine: EngineKind::Demucs, package, gpu: true }] => {
            assert_eq!(package, "demucs");
        }
        _ => panic!("expected an install"),
    }
    let mut app = new_app();
    app.stems.state.consent = consent();
    app.stems.state.pending_path = Some("/a".into());
    press(&mut app, KeyCode::Esc);
    assert!(app.stems.state.consent.is_none() && app.stems.state.pending_path.is_none());
    assert_eq!(toast(&app), Some(("Stem engine install skipped", false)));
}

#[test]
fn the_stem_panel_wraps_and_closes() {
    let mut app = new_app();
    chr(&mut app, 'o');
    let at = |app: &App| app.stems.panel.as_ref().map(|p: &StemPanel| p.selected);
    let first = at(&app).unwrap();
    for _ in 0..3 {
        chr(&mut app, 'k');
    }
    assert_eq!(at(&app), Some(first));
    press(&mut app, KeyCode::Esc);
    assert!(app.stems.panel.is_none());
}

#[test]
fn the_info_popup_scrolls() {
    let mut app = new_app();
    app.lists.track_list = vec![row("a")];
    chr(&mut app, 'I');
    assert!(!app.popup.show_track_info);
    app.nav.active_panel = Panel::TrackList;
    chr(&mut app, 'I');
    assert!(app.popup.show_track_info);
    chr(&mut app, 'j');
    chr(&mut app, 'j');
    chr(&mut app, 'k');
    assert_eq!(app.popup.track_info_scroll, 1);
    press(&mut app, KeyCode::PageDown);
    assert_eq!(app.popup.track_info_scroll, 11);
    chr(&mut app, 'g');
    assert_eq!(app.popup.track_info_scroll, 0);
    chr(&mut app, 'q');
    assert!(!app.popup.show_track_info);
    assert!(!app.should_quit);
}

#[test]
fn sorting_cycles_through_the_columns() {
    let mut app = new_app();
    app.lists.track_list = vec![row("b"), row("a")];
    chr(&mut app, 's');
    assert_eq!(app.lists.sort_column, SortColumn::Name);
    app.nav.active_panel = Panel::TrackList;
    let mut seen: Vec<SortColumn> = Vec::new();
    for _ in 0..6 {
        chr(&mut app, 's');
        seen.push(app.lists.sort_column);
    }
    assert_eq!(app.lists.sort_column, SortColumn::Name);
    assert_eq!(seen.len(), 6);
    assert_eq!(app.lists.track_list[0].name, "a");
}

#[test]
fn the_player_panel_cycles_and_says_so() {
    let mut app = new_app();
    let mut seen = vec![app.player.show_player];
    for _ in 0..3 {
        chr(&mut app, 'P');
        seen.push(app.player.show_player);
        assert!(app.toast_message.is_some());
    }
    assert_eq!(seen, vec![None, Some(false), Some(true), None]);
    assert!(matches!(
        app.out.host_requests[..],
        [HostRequest::SaveShowPlayer, HostRequest::SaveShowPlayer, HostRequest::SaveShowPlayer]
    ));
}

#[test]
fn starting_a_sync_shows_the_queue() {
    let mut app = new_app();
    app.device.status = DeviceStatus::Connected;
    assert!(chr(&mut app, 'S').bg.is_empty());
    app.sync.queue = vec![queued(2)];
    let p = chr(&mut app, 'S');
    assert_eq!(app.nav.active_panel, Panel::SyncQueue);
    assert!(matches!(&p.bg[..], [BgCommand::ExecuteSyncQueue(items)] if items.len() == 2));
}

#[test]
fn an_album_entry_sends_m_to_the_album() {
    let mut app = new_app();
    app.library = Some(Library {
        tracks: vec![Track {
            id: 1,
            name: "One".into(),
            artist: "A".into(),
            album: "B".into(),
            location: Some("/1.mp3".into()),
            ..Default::default()
        }],
        artists: vec!["A".into()],
        albums: vec![],
        music_folder: None,
    });
    app.nav.sidebar_items = vec![SidebarEntry::Album { artist: "A".into(), album: "B".into() }];
    app.host.demucs = Some(FoundEngine {
        path: "/bin/demucs".into(),
        source: EngineSource::PathEnv,
    });
    app.host.audio_separator = Some(FoundEngine {
        path: "/bin/audio-separator".into(),
        source: EngineSource::PathEnv,
    });
    app.stems.cfg.default_cache_dir = Some("/cache".into());
    chr(&mut app, 'M');
    assert!(app.stems.bulk_confirm.is_some());
    chr(&mut app, 'n');
    assert!(app.stems.bulk_confirm.is_none());
}

#[test]
fn typing_into_a_field() {
    let mut text = String::from("añ");
    type_key(&mut text, KeyCode::Char('é'));
    assert_eq!(text, "añé");
    type_key(&mut text, KeyCode::Backspace);
    type_key(&mut text, KeyCode::Backspace);
    assert_eq!(text, "a");
    type_key(&mut text, KeyCode::Enter);
    assert_eq!(text, "a");
    type_key(&mut text, KeyCode::Backspace);
    type_key(&mut text, KeyCode::Backspace);
    assert_eq!(text, "");
}
