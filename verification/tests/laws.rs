use zytunes_tui::anim::connection_screen_lines;
use zytunes_tui::app::player::wrap_index;
use zytunes_tui::app::{App, Config, Host, NowPlaying, SavedPositions};
use zytunes_tui::cd::{parse_default_fidelity, ImportField, RipFidelity};
use zytunes_tui::commands::BgCommand;
use zytunes_tui::copies::{find_device_copies, older_duplicates};
use zytunes_tui::device::{is_on_device, DeviceState};
use zytunes_tui::format::{first_char_upper, format_with_commas};
use zytunes_tui::input::{KeyCode, KeyEvent};
use zytunes_tui::library::Library;
use zytunes_tui::model::{DeviceEntry, DeviceFamily, Track};
use zytunes_tui::ordmap::OrdMap;
use zytunes_tui::playlists::{
    penalty_ids, GenerationFormState, Playlist, PlaylistKind, SeedStrategy,
};
use zytunes_tui::plays::{device_baseline_key, LocalPlays};
use zytunes_tui::stem_model::{RecipeKind, StemsConfig, RECIPE_COUNT};
use zytunes_tui::tag_model::best_hit_id;
use zytunes_tui::text::{
    contains_str, eq_ignore_ascii_case, normalize_for_match, normalize_without_number, str_lt,
    strip_track_number, trim,
};
use zytunes_tui::tracks::{sort_album_tracks, TrackInfo};
use zytunes_tui::types::{
    presence_from_counts, AlbumArtStyle, BrowseMode, DevicePresence, DeviceStatus, Panel,
    PlaybackState, SidebarEntry, SidebarMode,
};

fn new_app() -> App {
    App::new(Config::default(), Host::new(12, 12))
}

fn entry(path: &str, id: u64) -> DeviceEntry {
    DeviceEntry { name: path.into(), object_id: id, format: "MP3".into(), ..Default::default() }
}

fn row(name: &str, disc: Option<u32>, number: Option<u32>) -> TrackInfo {
    TrackInfo::new(
        name.into(),
        "A".into(),
        "B".into(),
        None,
        None,
        None,
        number,
        disc,
        None,
        false,
    )
}

// -- Device index --

fn connected() -> DeviceState {
    let mut d = DeviceState::new();
    d.status = DeviceStatus::Connected;
    d
}

#[test]
fn adding_a_track_again_changes_nothing() {
    let mut d = connected();
    d.add_indexed_track(&entry("Artist/Album/01 Song.mp3", 1));
    let (artists, albums, tracks) = (d.artists.clone(), d.albums.len(), d.all_tracks().len());
    d.add_indexed_track(&entry("Artist/Album/01 Song.mp3", 1));
    assert_eq!((d.artists.clone(), d.albums.len(), d.all_tracks().len()), (artists, albums, tracks));
}

#[test]
fn an_added_track_is_found_and_a_removed_one_is_not() {
    let mut d = connected();
    d.add_indexed_track(&entry("Artist/Album/01 Song.mp3", 1));
    assert!(is_on_device("artist", "SONG", &d));
    assert!(d.contains_track("artist", "song"));
    assert!(d.remove_indexed_track("Artist/Album/01 Song.mp3"));
    assert!(!is_on_device("artist", "SONG", &d));
    assert!(!d.remove_indexed_track("Artist/Album/01 Song.mp3"));
}

#[test]
fn removing_what_was_just_added_gives_back_the_index() {
    // A new artist, a new album, and another track of an album, one of them
    // with the keys of a track that stays.
    for name in ["Other/Record/02 Tune.mp3", "Artist/Live/01 Song.mp3", "Artist/Album/02 Tune.mp3"] {
        let mut before = connected();
        before.add_indexed_track(&entry("Artist/Album/01 Song.mp3", 1));
        let mut d = connected();
        d.add_indexed_track(&entry("Artist/Album/01 Song.mp3", 1));
        d.add_indexed_track(&entry(name, 2));
        assert_eq!(d.all_tracks().len(), 2);
        assert!(d.remove_indexed_track(name));
        assert_eq!(d.artists, before.artists);
        assert_eq!(d.albums, before.albums);
        assert_eq!(d.album_tracks, before.album_tracks);
        assert_eq!(d.track_set, before.track_set);
        assert!(is_on_device("Artist", "Song", &d));
    }
}

#[test]
fn removing_keeps_the_other_tracks_within_reach() {
    let mut d = connected();
    d.add_indexed_track(&entry("Artist/Album/01 Song.mp3", 1));
    d.add_indexed_track(&entry("Artist/Album/02 Tune.mp3", 2));
    d.add_indexed_track(&entry("Artist/Live/01 Song.mp3", 3));
    d.remove_indexed_track("Artist/Album/01 Song.mp3");
    assert!(is_on_device("Artist", "Tune", &d));
    // The same song is still there on another album.
    assert!(is_on_device("Artist", "Song", &d));
}

#[test]
fn of_every_group_of_copies_the_newest_stays() {
    let mut d = connected();
    d.add_indexed_track(&entry("Artist/Album/SONG.mp3", 10));
    d.add_indexed_track(&entry("Artist/Album/Song.mp3", 30));
    d.add_indexed_track(&entry("Artist/Album/Song.wma", 20));
    d.add_indexed_track(&entry("Artist/Album/Tune.mp3", 5));
    let mut ids: Vec<u64> = older_duplicates(&d).iter().map(|t| t.1).collect();
    ids.sort();
    assert_eq!(ids, vec![10, 20]);
    let mut copies: Vec<u64> =
        find_device_copies(&d, "ARTIST", "Song").iter().map(|t| t.1).collect();
    copies.sort();
    assert_eq!(copies, vec![10, 20, 30]);
    assert!(find_device_copies(&d, "Artist", "Nothing").is_empty());
    d.status = DeviceStatus::Disconnected;
    assert!(find_device_copies(&d, "Artist", "Song").is_empty());
}

#[test]
fn nothing_is_given_up_without_copies() {
    let mut d = connected();
    d.add_indexed_track(&entry("Artist/Album/01 Song.mp3", 10));
    d.add_indexed_track(&entry("Artist/Album/02 Tune.mp3", 11));
    assert!(older_duplicates(&d).is_empty());
    let mut app = new_app();
    app.device = d;
    let mut sent = Vec::new();
    app.dedupe_device(&mut sent);
    assert!(sent.is_empty());
}

#[test]
fn queueing_twice_keeps_objects_once() {
    let mut app = new_app();
    app.nav.browse_mode = BrowseMode::Device;
    app.device.status = DeviceStatus::Connected;
    app.device.add_indexed_track(&entry("Artist/Album/01 Song.mp3", 10));
    app.device.add_indexed_track(&entry("Artist/Album/02 Tune.mp3", 11));
    app.nav.sidebar_items = vec![SidebarEntry::Artist("Artist".into())];
    app.queue_device_removal();
    app.queue_device_removal();
    let mut ids: Vec<u64> = app.removal.removal_queue.iter().map(|t| t.1).collect();
    ids.sort();
    assert_eq!(ids, vec![10, 11]);
}

// -- Plays --

#[test]
fn a_device_that_reports_the_same_again_adds_nothing() {
    let mut p = LocalPlays::new();
    p.merge_device_observation(1, "zune-a", 7, 2, 100);
    p.merge_device_observation(1, "zune-a", 7, 2, 200);
    let t = p.get(1).unwrap();
    assert_eq!((t.play_count, t.skip_count), (7, 2));
    // Another device is counted apart.
    p.merge_device_observation(1, "ipod-b", 3, 0, 300);
    p.merge_device_observation(1, "zune-a", 8, 2, 400);
    assert_eq!(p.get(1).unwrap().play_count, 11);
}

#[test]
fn a_session_counts_once() {
    let mut app = new_app();
    app.host.unix_ms = 5;
    app.player.now_playing = Some(NowPlaying {
        track_name: "Song".into(),
        artist: "A".into(),
        album: "B".into(),
        duration_ms: 1000,
        elapsed_ms: 999,
        state: PlaybackState::Playing,
        track_index: 0,
        playlist: vec![row("Song", None, None)],
        paused_frame: None,
        track_id: Some(4),
        counted: false,
        year: None,
        metadata_marquee: String::new(),
    });
    app.record_now_playing_play();
    app.record_now_playing_skip();
    app.record_now_playing_play();
    let t = app.player.local_plays.get(4).unwrap();
    assert_eq!((t.play_count, t.skip_count), (1, 0));
    assert_eq!(app.player.listen_log.len(), 1);
    assert!(app.player.listen_log[0].completed);
}

#[test]
fn devices_are_told_apart_by_their_keys() {
    let zune = |serial: Option<&str>| {
        device_baseline_key(DeviceFamily::Zune, &serial.map(String::from), &None)
    };
    assert_ne!(zune(Some("A")), zune(Some("B")));
    assert_eq!(zune(Some("A")), zune(Some("A")));
    assert_ne!(
        zune(Some("A")),
        device_baseline_key(DeviceFamily::Ipod, &Some("A".into()), &None)
    );
}

// -- Cycles --

#[test]
fn panels_cycle_and_cycle_back() {
    for albums in [false, true] {
        let mut app = new_app();
        if albums {
            app.lists.album_list =
                vec![zytunes_tui::tracks::AlbumInfo { name: "X".into(), artist: "Y".into(), year: None }];
        }
        let start = app.nav.active_panel;
        let mut seen: Vec<Panel> = vec![];
        loop {
            let here = app.nav.active_panel;
            app.cycle_panel();
            app.cycle_panel_back();
            assert_eq!(app.nav.active_panel, here);
            app.cycle_panel();
            seen.push(app.nav.active_panel);
            if app.nav.active_panel == start {
                break;
            }
        }
        assert_eq!(seen.len(), if albums { 5 } else { 4 });
    }
}

#[test]
fn browse_modes_come_round() {
    for (status, rounds) in [(DeviceStatus::Connected, 3), (DeviceStatus::Disconnected, 2)] {
        let mut app = new_app();
        app.device.status = status;
        for _ in 0..rounds {
            app.toggle_browse_mode();
        }
        assert_eq!(app.nav.browse_mode, BrowseMode::Library);
    }
}

#[test]
fn moving_round_a_ring_and_back_is_no_move() {
    for count in 1..6 {
        for index in 0..count {
            for delta in -7isize..=7 {
                let there = wrap_index(index, delta, count);
                assert!(there < count);
                assert_eq!(wrap_index(there, -delta, count), index);
            }
        }
    }
    assert_eq!(wrap_index(0, -1, 12), 11);
    assert_eq!(wrap_index(11, 1, 12), 0);
}

#[test]
fn import_choices_walk_back() {
    let mut field = ImportField::Tracks;
    let mut fidelity = RipFidelity::Flac;
    for _ in 0..10 {
        assert_eq!(field.next().prev(), field);
        assert_eq!(fidelity.next().prev(), fidelity);
        field = field.next();
        fidelity = fidelity.next();
    }
    assert_eq!(parse_default_fidelity(Some("  FLAC ")), Some(RipFidelity::Flac));
    assert_eq!(parse_default_fidelity(Some("tape")), None);
    assert_eq!(parse_default_fidelity(None), None);
}

#[test]
fn names_come_back_as_what_they_name() {
    for style in [AlbumArtStyle::Halfblock, AlbumArtStyle::Ascii] {
        assert_eq!(AlbumArtStyle::parse(style.as_str()), Some(style));
        assert_eq!(style.as_str().parse::<AlbumArtStyle>(), Ok(style));
    }
    assert_eq!(AlbumArtStyle::parse("Ascii"), None);
    for i in 0..RECIPE_COUNT {
        let recipe = RecipeKind::at(i);
        assert_eq!(recipe.index(), i);
        let cfg =
            StemsConfig { recipe: Some(recipe.config_value().to_string()), ..Default::default() };
        assert_eq!(cfg.recipe_kind(), Some(recipe));
    }
}

// -- Sidebar --

#[test]
fn generated_playlists_come_first_and_the_latest_first_among_them() {
    let mut app = new_app();
    let params = GenerationFormState::discover_weekly_default(0).to_params();
    let store = &mut app.playlists.store;
    store.add(Playlist::new_manual("old".into(), 10));
    store.add(Playlist::new_generated("weekly".into(), params.clone(), vec![], 5));
    store.add(Playlist::new_manual("new".into(), 20));
    store.add(Playlist::new_generated("daily".into(), params, vec![], 7));
    app.nav.browse_mode = BrowseMode::Playlists;
    app.refresh_sidebar();
    let names: Vec<String> = app.nav.sidebar_items.iter().map(|e| e.nav_key().to_string()).collect();
    assert_eq!(names, vec!["daily", "weekly", "new", "old"]);
}

#[test]
fn a_search_finds_what_holds_the_query_and_nothing_else() {
    let mut app = new_app();
    app.library = Some(Library {
        tracks: vec![],
        artists: vec!["The Beatles".into(), "ABBA".into(), "Beirut".into()],
        albums: vec![],
        music_folder: None,
    });
    app.refresh_sidebar();
    app.nav.search_active = true;
    app.nav.search_query = "BE".into();
    app.apply_sidebar_filter();
    let mut names: Vec<String> = app.nav.sidebar_items.iter().map(|e| e.display()).collect();
    names.sort();
    assert_eq!(names, vec!["Beirut", "The Beatles"]);
}

#[test]
fn a_search_does_not_reach_across_artist_and_album() {
    let album = SidebarEntry::Album { artist: "Ab".into(), album: "Cd".into() };
    assert!(contains_str(&album.lowercase_key(), "ab"));
    assert!(contains_str(&album.lowercase_key(), "cd"));
    assert!(!contains_str(&album.lowercase_key(), "abcd"));
    assert!(!contains_str(&album.lowercase_key(), "b - c"));
}

#[test]
fn positions_are_kept_for_each_mode() {
    let mut saved = SavedPositions::new();
    saved.set(BrowseMode::Library, SidebarMode::Albums, 3);
    saved.set(BrowseMode::Device, SidebarMode::Albums, 5);
    assert_eq!(saved.get(BrowseMode::Library, SidebarMode::Albums), Some(3));
    assert_eq!(saved.get(BrowseMode::Device, SidebarMode::Albums), Some(5));
    assert_eq!(saved.get(BrowseMode::Library, SidebarMode::Artists), None);
}

// -- Sorting --

#[test]
fn album_tracks_sort_stably_by_disc_and_number() {
    let mut rows = vec![
        row("d", Some(2), Some(1)),
        row("b", Some(1), Some(2)),
        row("e", None, Some(1)),
        row("c", Some(1), Some(2)),
    ];
    sort_album_tracks(&mut rows);
    let names: Vec<&str> = rows.iter().map(|r| r.name.as_str()).collect();
    assert_eq!(names, vec!["b", "c", "d", "e"]);
}

#[test]
fn texts_are_ordered() {
    assert!(str_lt("a", "b") && str_lt("", "a") && str_lt("a", "aa") && str_lt("Z", "a"));
    assert!(!str_lt("a", "a") && !str_lt("b", "a") && !str_lt("é", "z"));
}

#[test]
fn a_map_keeps_its_keys_in_order() {
    let mut m: OrdMap<u64, u8> = OrdMap::new();
    for (k, v) in [(5, 1), (1, 2), (3, 3), (5, 4)] {
        m.insert(k, v);
    }
    assert_eq!(m.len(), 3);
    assert_eq!((*m.key_at(0), *m.key_at(1), *m.key_at(2)), (1, 3, 5));
    assert_eq!(m.get(&5), Some(&4));
    assert_eq!(m.remove(&1), Some(2));
    assert_eq!(m.remove(&1), None);
    assert!(!m.contains_key(&1));
}

// -- Texts --

#[test]
fn unicode_is_left_to_the_standard_library() {
    assert_eq!(normalize_for_match("  *ÄÖ É_1!? "), "äö é_1");
    assert_eq!(first_char_upper("éa"), 'É');
    assert_eq!(first_char_upper("ß"), 'S');
    assert_eq!(first_char_upper(""), ' ');
    assert_eq!(trim("\u{2003} a b\t\n"), "a b");
    assert!(eq_ignore_ascii_case("AbC", "aBc") && !eq_ignore_ascii_case("É", "é"));
}

#[test]
fn normalizing_twice_is_normalizing_once() {
    for s in ["*NSYNC", "  The Beatles! ", "(What's) Going On?", "\u{130}", "\u{391}\u{3a3}", "--", ""] {
        let once = normalize_for_match(s);
        assert_eq!(normalize_for_match(&once), once);
        assert!(once.chars().next().map_or(true, |c| c.is_alphanumeric()));
        assert!(once.chars().last().map_or(true, |c| c.is_alphanumeric()));
        assert!(s.trim().to_lowercase().contains(&once));
    }
    // Every character for itself.
    let mut buffer = [0u8; 4];
    for c in '\0'..=char::MAX {
        let once = normalize_for_match(c.encode_utf8(&mut buffer));
        assert_eq!(normalize_for_match(&once), once, "{:?}", c);
    }
    assert_eq!(normalize_for_match("*NSYNC"), normalize_for_match("NSYNC"));
    assert_eq!(normalize_for_match("\t-*Nsync!*\n"), "nsync");
    assert_eq!(normalize_for_match("(What's) Going On?"), "what's) going on");
}

#[test]
fn track_numbers_are_stripped() {
    assert_eq!(strip_track_number("01 Song"), "Song");
    assert_eq!(normalize_without_number("01 Song"), normalize_for_match("Song"));
}

#[test]
fn commas_only_group() {
    for n in [0usize, 7, 999, 1000, 12_345, 1_234_567, usize::MAX] {
        let grouped = format_with_commas(n);
        assert_eq!(grouped.replace(',', ""), n.to_string());
    }
    assert_eq!(format_with_commas(1_234_567), "1,234,567");
}

#[test]
fn connection_lines_have_one_width_for_each_family() {
    for family in [None, Some(DeviceFamily::Zune), Some(DeviceFamily::Ipod), Some(DeviceFamily::Gogear)] {
        for frame in 0..200 {
            let (top, bottom) = connection_screen_lines(frame, family);
            assert!(top.chars().count() <= 12 && bottom.chars().count() <= 12, "{frame} {family:?}");
        }
    }
}

// -- Playlists --

#[test]
fn a_strategy_survives_the_form() {
    for strategy in [
        SeedStrategy::TopPlayed { window_days: 9, count: 4 },
        SeedStrategy::RecentlyPlayed { window_days: 9, count: 4 },
        SeedStrategy::Track(8),
        SeedStrategy::Artist("Abba".into()),
        SeedStrategy::Genre("Pop".into()),
    ] {
        let mut params = GenerationFormState::discover_weekly_default(0).to_params();
        params.seed_strategy = strategy.clone();
        let p = Playlist::new_generated("P".into(), params, vec![], 1);
        let form = GenerationFormState::for_regenerate(&p).expect("a generated playlist");
        assert!(form.validate_strategy_context().is_ok());
        assert_eq!(format!("{:?}", form.to_params().seed_strategy), format!("{strategy:?}"));
    }
    assert!(GenerationFormState::for_regenerate(&Playlist::new_manual("M".into(), 1)).is_none());
}

#[test]
fn what_was_recommended_before_is_penalised_once() {
    let params = GenerationFormState::discover_weekly_default(0).to_params();
    let mut p = Playlist::new_generated("P".into(), params, vec![3, 1], 1);
    p.previously_recommended = vec![2, 3];
    assert_eq!(penalty_ids(&p), vec![1, 2, 3]);
    assert!(matches!(p.kind, PlaylistKind::Generated { last_generated_ms: 1, .. }));
}

#[test]
fn keys_keep_the_fields_of_the_form_within_limits() {
    let mut app = new_app();
    app.playlists.form = Some(GenerationFormState::discover_weekly_default(0));
    for _ in 0..10 {
        for _ in 0..600 {
            app.handle_generation_form_key(KeyEvent { code: KeyCode::Right, ctrl: false });
        }
        app.handle_generation_form_key(KeyEvent { code: KeyCode::Tab, ctrl: false });
    }
    let f = app.playlists.form.as_ref().unwrap();
    assert!(f.diversity_pct <= 100 && f.novelty_pct <= 100 && f.seed_strategy_idx < 5);
    assert_eq!(f.selected_field, 0);
}

// -- Others --

#[test]
fn presence_counts_what_matched() {
    assert_eq!(presence_from_counts(0, 0), DevicePresence::Absent);
    assert_eq!(presence_from_counts(0, 3), DevicePresence::Absent);
    assert_eq!(presence_from_counts(2, 3), DevicePresence::Partial);
    assert_eq!(presence_from_counts(3, 3), DevicePresence::Full);
}

#[test]
fn no_hit_is_better_than_the_best() {
    assert_eq!(best_hit_id(&vec![]), None);
}

#[test]
fn a_detection_is_not_asked_for_while_one_runs() {
    let mut app = new_app();
    app.host.clock_ms = 1_000_000;
    app.maybe_request_cd_detect();
    assert!(app.cd.detect_in_flight);
    let sent = app.out.pending_bg_commands.len();
    app.host.clock_ms = 2_000_000;
    app.maybe_request_cd_detect();
    assert_eq!(app.out.pending_bg_commands.len(), sent);
}

#[test]
fn a_reload_goes_to_the_configured_directory() {
    let mut app = new_app();
    app.queue_library_reload();
    assert!(app.out.pending_bg_commands.is_empty());
    app.import.music_dir = Some("/m".into());
    app.queue_library_reload();
    match &app.out.pending_bg_commands[..] {
        [BgCommand::LoadLibrary { music_dir, fingerprint: true }] => {
            assert_eq!(music_dir.as_deref(), Some("/m"));
        }
        _ => panic!("expected a scan"),
    }
}

#[test]
fn stem_jobs_are_numbered_anew() {
    let mut app = new_app();
    app.stems.cfg.default_cache_dir = Some("/c".into());
    app.dispatch_separation("/a.mp3".into(), RecipeKind::Demucs);
    let first = app.stems.state.job_gen;
    app.dispatch_separation("/b.mp3".into(), RecipeKind::Demucs);
    assert!(app.stems.state.job_gen > first);
}

#[test]
fn a_suspended_batch_is_resumed_under_a_new_number() {
    let mut app = new_app();
    app.dispatch_stem_batch("B".into(), vec!["/1".into(), "/2".into()], RecipeKind::Demucs, 0);
    let gen = app.stems.batch.as_ref().unwrap().gen;
    app.suspend_batch_for_interactive();
    assert!(app.stems.batch.as_ref().unwrap().suspended);
    app.maybe_resume_stem_batch();
    let b = app.stems.batch.as_ref().unwrap();
    assert!(!b.suspended && b.gen > gen);
}

#[test]
fn a_message_goes_after_five_seconds() {
    let mut app = new_app();
    app.set_toast("x".into(), false);
    app.host.clock_ms = 4_999;
    app.tick();
    assert!(app.toast_message.is_some());
    app.host.clock_ms = 5_000;
    app.tick();
    assert!(app.toast_message.is_none());
    assert_eq!((app.anim.anim_frame, app.anim.throbber_index), (2, 2));
    app.anim.throbber_index = i8::MAX;
    app.tick();
    assert_eq!(app.anim.throbber_index, 0);
}

#[test]
fn the_loading_phrase_rotates_when_it_is_due() {
    let mut app = new_app();
    app.scan.loading_library = true;
    app.host.scan_phrase = Some("Scoping OK Computer".into());
    app.host.scan_phrase_ms = 2_000;
    app.tick();
    assert_eq!(app.scan.scan_phrase.as_deref(), Some("Scoping OK Computer"));
    app.host.scan_phrase = Some("Reading Kid A".into());
    app.host.clock_ms = 1_999;
    app.tick();
    assert_eq!(app.scan.scan_phrase.as_deref(), Some("Scoping OK Computer"));
    app.host.clock_ms = 2_000;
    app.tick();
    assert_eq!(app.scan.scan_phrase.as_deref(), Some("Reading Kid A"));
}

#[test]
fn a_track_of_the_library_is_found_by_its_row() {
    let mut app = new_app();
    app.library = Some(Library {
        tracks: vec![Track { id: 3, name: "Song".into(), artist: "A".into(), album: "B".into(), ..Default::default() }],
        artists: vec![],
        albums: vec![],
        music_folder: None,
    });
    assert_eq!(app.lookup_library_track(&row("Song", None, None)).map(|t| t.id), Some(3));
    assert_eq!(app.lookup_library_track(&row("Gone", None, None)).map(|t| t.id), None);
}
