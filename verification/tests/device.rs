use zytunes_tui::app::{App, Config, Host};
use zytunes_tui::commands::{AudioCommand, BgCommand, QueuedItem};
use zytunes_tui::device::{DeviceState, is_on_device};
use zytunes_tui::input::{KeyCode, KeyEvent};
use zytunes_tui::library::Library;
use zytunes_tui::model::{DeviceEntry, Track};
use zytunes_tui::ordmap::{OrdMap, OrdSet};
use zytunes_tui::plays::LocalPlays;
use zytunes_tui::text::normalize_for_match;
use zytunes_tui::tracks::{TrackInfo, device_tracks_to_info};
use zytunes_tui::types::{
    BrowseMode, DevicePresence, DeviceStatus, DeviceTrackInfo, Panel, SidebarEntry, SidebarMode,
};

fn new_app() -> App {
    App::new(Config::default(), Host::new(12, 12))
}

/// The first command that was sent, if any.
fn next<T>(sent: &mut Vec<T>) -> Result<T, ()> {
    if sent.is_empty() {
        Err(())
    } else {
        Ok(sent.remove(0))
    }
}

/// Makes the lookup tables from the tracks of the albums.
fn build_match_sets(device: &mut DeviceState) {
    device.track_set = OrdSet::new();
    device.artist_track_names = OrdMap::new();
    let mut artists: Vec<String> = Vec::new();
    for i in 0..device.album_tracks.len() {
        for dt in device.album_tracks.value_at(i) {
            artists.push(dt.artist.clone());
        }
    }
    for artist in artists {
        device.rebuild_lookup_for_artist(&artist);
    }
}

fn key(code: KeyCode) -> KeyEvent {
    KeyEvent { code, ctrl: false }
}

fn library_of(tracks: Vec<Track>) -> Library {
    Library { tracks, artists: vec![], albums: vec![], music_folder: None }
}

fn make_device_entry(name: &str, _size: u64) -> DeviceEntry {
    DeviceEntry {
        object_id: 1000,
        format: "MP3".to_string(),
        name: name.to_string(),
        ..Default::default()
    }
}

/// Whether the track would count as on the device if it were connected.
fn once_connected(device: &mut DeviceState, artist: &str, name: &str) -> bool {
    device.status = DeviceStatus::Connected;
    is_on_device(artist, name, device)
}

#[test]
fn device_tracks_to_info_propagates_play_count() {
    // End-to-end: a DeviceEntry with a non-zero play_count must reach
    // the rendered TrackInfo.play_count via the index → DeviceTrackInfo
    // → TrackInfo path.
    let mut app = new_app();
    app.device.tracks = vec![
        DeviceEntry {
            play_count: Some(7),
            ..make_device_entry("Artist/Album/played.mp3", 1000)
        },
        DeviceEntry {
            play_count: None,
            ..make_device_entry("Artist/Album/never.mp3", 2000)
        },
    ];
    app.build_device_index();

    let dt = app
        .device
        .album_tracks
        .get(&("Artist".into(), "Album".into()))
        .unwrap();
    let played = dt.iter().find(|t| t.name == "played").unwrap();
    assert_eq!(played.play_count, Some(7));

    let local_plays = LocalPlays::new();
    let infos = device_tracks_to_info(dt, &None, &local_plays, &None);
    let played = infos.iter().find(|t| t.name == "played").unwrap();
    let never = infos.iter().find(|t| t.name == "never").unwrap();
    // No library, no sidecar entry → falls back to the raw device count.
    assert_eq!(played.play_count, Some(7));
    assert_eq!(never.play_count, None);
}

#[test]
fn device_tracks_to_info_resolves_track_number_prefixed_filenames() {
    // A device filename like "01 Smells Like Teen Spirit"
    // must resolve to the library title "Smells Like Teen Spirit" so the
    // displayed aggregate matches what `merge_device_plays_into_local`
    // already folded into the sidecar. Without strip_track_number
    // fallback, the lookup misses and the row falls through to the raw
    // device counter — the user sees "7" in device mode but "9" in
    // library mode for the same track.
    let mut app = new_app();
    app.device.tracks = vec![DeviceEntry {
        play_count: Some(7),
        skip_count: Some(2),
        ..make_device_entry(
            "Nirvana/Nevermind/01 Smells Like Teen Spirit.mp3",
            4_000_000,
        )
    }];
    app.build_device_index();

    let dt = app
        .device
        .album_tracks
        .get(&("Nirvana".into(), "Nevermind".into()))
        .unwrap();

    let lib = library_of(vec![Track {
            id: 42,
            name: "Smells Like Teen Spirit".into(),
            artist: "Nirvana".into(),
            album: "Nevermind".into(),
            ..Default::default()
        }]);

    // Sidecar has the post-merge aggregate: 2 prior TUI plays + 7 device.
    let mut local_plays = LocalPlays::new();
    local_plays.record_play(42, 100);
    local_plays.record_play(42, 200);
    local_plays.merge_device_observation(42, "Zune-ABC", 7, 2, 1_000);

    let infos = device_tracks_to_info(dt, &Some(lib), &local_plays, &Some("Zune-ABC".to_string()));
    let row = infos.iter().find(|t| t.name.contains("Smells")).unwrap();
    // The aggregate from the sidecar (9 plays, 2 skips), not the raw
    // device counters (7 plays, 2 skips).
    assert_eq!(row.play_count, Some(9));
    assert_eq!(row.skip_count, Some(2));
}

#[test]
fn device_tracks_to_info_skip_count_falls_back_to_device_for_unmatched_rows() {
    // Mirror of the play_count fallback for sideloaded / podcast rows
    // that have no library counterpart: the device's own skips are shown.
    let mut app = new_app();
    app.device.tracks = vec![DeviceEntry {
        play_count: Some(4),
        skip_count: Some(3),
        ..make_device_entry("Podcast/Show/episode-12.mp3", 30_000_000)
    }];
    app.build_device_index();

    let dt = app
        .device
        .album_tracks
        .get(&("Podcast".into(), "Show".into()))
        .unwrap();
    let local_plays = LocalPlays::new();
    let infos = device_tracks_to_info(dt, &None, &local_plays, &None);
    let row = &infos[0];
    assert_eq!(row.play_count, Some(4), "play_count must fall back");
    assert_eq!(
        row.skip_count,
        Some(3),
        "skip_count fallback must mirror play_count's"
    );
}

#[test]
fn device_tracks_to_info_omits_zero_skip_count() {
    // A device-side skip_count of 0 should suppress the column the same
    // way a sidecar `skip_count == 0` does — keeps the row terse.
    let mut app = new_app();
    app.device.tracks = vec![DeviceEntry {
        play_count: Some(4),
        skip_count: Some(0),
        ..make_device_entry("Artist/Album/never-skipped.mp3", 4_000_000)
    }];
    app.build_device_index();
    let dt = app
        .device
        .album_tracks
        .get(&("Artist".into(), "Album".into()))
        .unwrap();
    let local_plays = LocalPlays::new();
    let infos = device_tracks_to_info(dt, &None, &local_plays, &None);
    assert_eq!(infos[0].skip_count, None);
}

#[test]
fn device_tracks_to_info_uses_device_duration() {
    let mut app = new_app();
    app.device.tracks = vec![DeviceEntry {
        duration_ms: Some(240_000),
        ..make_device_entry("Artist/Album/timed.mp3", 4_000_000)
    }];
    app.build_device_index();
    let dt = app
        .device
        .album_tracks
        .get(&("Artist".into(), "Album".into()))
        .unwrap();
    let infos = device_tracks_to_info(dt, &None, &LocalPlays::new(), &None);
    assert_eq!(infos[0].duration_ms, Some(240_000));
}

#[test]
fn device_tracks_to_info_falls_back_to_library_duration() {
    let mut app = new_app();
    app.device.tracks = vec![make_device_entry(
        "Nirvana/Nevermind/Lithium.mp3",
        4_000_000,
    )];
    app.build_device_index();
    let dt = app
        .device
        .album_tracks
        .get(&("Nirvana".into(), "Nevermind".into()))
        .unwrap();
    assert_eq!(dt[0].duration_ms, None);

    let lib = library_of(vec![Track {
            id: 7,
            name: "Lithium".into(),
            artist: "Nirvana".into(),
            album: "Nevermind".into(),
            total_time_ms: Some(257_000),
            ..Default::default()
        }]);
    let infos = device_tracks_to_info(dt, &Some(lib), &LocalPlays::new(), &None);
    assert_eq!(infos[0].duration_ms, Some(257_000));
    assert_eq!(infos[0].library_id, Some(7));
}

#[test]
fn device_tracks_to_info_prefers_device_duration_over_library() {
    let mut app = new_app();
    app.device.tracks = vec![DeviceEntry {
        duration_ms: Some(240_000),
        ..make_device_entry("Nirvana/Nevermind/Lithium.mp3", 4_000_000)
    }];
    app.build_device_index();
    let dt = app
        .device
        .album_tracks
        .get(&("Nirvana".into(), "Nevermind".into()))
        .unwrap();
    let lib = library_of(vec![Track {
            id: 7,
            name: "Lithium".into(),
            artist: "Nirvana".into(),
            album: "Nevermind".into(),
            total_time_ms: Some(257_000),
            ..Default::default()
        }]);
    let infos = device_tracks_to_info(dt, &Some(lib), &LocalPlays::new(), &None);
    assert_eq!(infos[0].duration_ms, Some(240_000));
}

#[test]
fn track_metadata_index_carries_play_count_and_rating() {
    // After build_device_index, a Library-side lookup keyed on
    // (artist_key, name_key) must surface the device's play_count and
    // rating. This is what `tracks_to_info` reads from to render
    // playcounts in Library mode without flipping into Device mode.
    let mut app = new_app();
    app.device.status = DeviceStatus::Connected;
    app.device.tracks = vec![
        DeviceEntry {
            play_count: Some(5),
            rating: Some(80),
            ..make_device_entry("Radiohead/OK Computer/Karma Police.mp3", 4_000_000)
        },
        DeviceEntry {
            play_count: None,
            rating: None,
            ..make_device_entry("Radiohead/OK Computer/Airbag.mp3", 5_000_000)
        },
    ];
    app.build_device_index();

    let karma = app
        .device
        .track_metadata
        .get(&(
            normalize_for_match("Radiohead"),
            normalize_for_match("Karma Police"),
        ))
        .copied();
    assert_eq!(karma, Some((Some(5), Some(80))));

    let airbag = app
        .device
        .track_metadata
        .get(&(
            normalize_for_match("Radiohead"),
            normalize_for_match("Airbag"),
        ))
        .copied();
    assert_eq!(airbag, Some((None, None)));
}

#[test]
fn build_device_index_three_segments() {
    let mut app = new_app();
    app.device.tracks = vec![
        make_device_entry("Radiohead/OK Computer/Paranoid Android.mp3", 5_000_000),
        make_device_entry("Radiohead/OK Computer/Karma Police.mp3", 4_000_000),
        make_device_entry("Radiohead/The Bends/Fake Plastic Trees.mp3", 3_000_000),
    ];
    app.build_device_index();

    assert_eq!(app.device.artists, vec!["Radiohead"]);
    assert_eq!(
        app.device.albums.get(&"Radiohead".to_string()).unwrap(),
        &vec!["OK Computer".to_string(), "The Bends".to_string()]
    );

    let ok_tracks = app
        .device
        .album_tracks
        .get(&("Radiohead".into(), "OK Computer".into()))
        .unwrap();
    assert_eq!(ok_tracks.len(), 2);
    assert_eq!(ok_tracks[0].name, "Paranoid Android");
    assert_eq!(
        ok_tracks[0].device_path,
        "/Music/Radiohead/OK Computer/Paranoid Android.mp3"
    );
}

#[test]
fn build_device_index_two_segments() {
    let mut app = new_app();
    app.device.tracks = vec![make_device_entry("Artist/track.flac", 1000)];
    app.build_device_index();

    assert_eq!(app.device.artists, vec!["Artist"]);
    let tracks = app
        .device
        .album_tracks
        .get(&("Artist".into(), "Unknown Album".into()))
        .unwrap();
    assert_eq!(tracks.len(), 1);
    assert_eq!(tracks[0].name, "track");
}

#[test]
fn build_device_index_single_segment() {
    let mut app = new_app();
    app.device.tracks = vec![make_device_entry("loose_track.mp3", 500)];
    app.build_device_index();

    assert_eq!(app.device.artists, vec!["Unknown Artist"]);
    let tracks = app
        .device
        .album_tracks
        .get(&("Unknown Artist".into(), "Unknown Album".into()))
        .unwrap();
    assert_eq!(tracks[0].name, "loose_track");
}

#[test]
fn build_device_index_deduplicates_albums() {
    let mut app = new_app();
    app.device.tracks = vec![
        make_device_entry("Artist/Album/track1.mp3", 100),
        make_device_entry("Artist/Album/track2.mp3", 200),
        make_device_entry("Artist/Album/track3.mp3", 300),
    ];
    app.build_device_index();

    let albums = app.device.albums.get(&"Artist".to_string()).unwrap();
    assert_eq!(albums, &vec!["Album".to_string()]);

    let tracks = app
        .device
        .album_tracks
        .get(&("Artist".into(), "Album".into()))
        .unwrap();
    assert_eq!(tracks.len(), 3);
}

#[test]
fn build_device_index_skips_directories() {
    let mut app = new_app();
    app.device.tracks = vec![
        DeviceEntry {
            object_id: 1,
            format: "Association".to_string(),
            name: "Albums".to_string(),
            ..Default::default()
        },
        make_device_entry("Artist/Album/song.mp3", 1000),
    ];
    app.build_device_index();

    assert_eq!(app.device.artists.len(), 1);
    assert_eq!(app.device.artists[0], "Artist");
}

#[test]
fn build_device_index_empty() {
    let mut app = new_app();
    app.build_device_index();

    assert!(app.device.artists.is_empty());
    assert!(app.device.albums.is_empty());
    assert!(app.device.album_tracks.is_empty());
}

#[test]
fn add_indexed_track_updates_all_structures() {
    let mut device = DeviceState::new();
    device.add_indexed_track(&make_device_entry(
        "Radiohead/OK Computer/01 Airbag.mp3",
        1234,
    ));

    assert_eq!(device.artists, vec!["Radiohead"]);
    assert_eq!(
        device.albums.get(&"Radiohead".to_string()).unwrap(),
        &vec!["OK Computer".to_string()]
    );
    let tracks = device
        .album_tracks
        .get(&("Radiohead".into(), "OK Computer".into()))
        .unwrap();
    assert_eq!(tracks.len(), 1);
    assert_eq!(tracks[0].name, "01 Airbag");
    assert_eq!(
        tracks[0].device_path,
        "/Music/Radiohead/OK Computer/01 Airbag.mp3"
    );

    // Both the raw and track-number-stripped forms should be in track_set.
    assert!(once_connected(&mut device, "Radiohead", "01 Airbag"));
    assert!(once_connected(&mut device, "Radiohead", "Airbag"));
}

#[test]
fn add_indexed_track_inserts_artists_sorted() {
    let mut device = DeviceState::new();
    device.add_indexed_track(&make_device_entry("Zebra/A/t.mp3", 1));
    device.add_indexed_track(&make_device_entry("Alpha/A/t.mp3", 1));
    device.add_indexed_track(&make_device_entry("Mango/A/t.mp3", 1));

    assert_eq!(device.artists, vec!["Alpha", "Mango", "Zebra"]);
}

#[test]
fn add_indexed_track_inserts_albums_sorted_and_deduped() {
    let mut device = DeviceState::new();
    device.add_indexed_track(&make_device_entry("Artist/Zed/t1.mp3", 1));
    device.add_indexed_track(&make_device_entry("Artist/Alpha/t2.mp3", 1));
    device.add_indexed_track(&make_device_entry("Artist/Alpha/t3.mp3", 1));

    assert_eq!(
        device.albums.get(&"Artist".to_string()).unwrap(),
        &vec!["Alpha".to_string(), "Zed".to_string()]
    );
}

#[test]
fn add_indexed_track_is_idempotent_on_same_path() {
    let mut device = DeviceState::new();
    let entry = make_device_entry("Artist/Album/song.mp3", 100);
    device.add_indexed_track(&entry);
    device.add_indexed_track(&entry);

    assert_eq!(device.artists, vec!["Artist".to_string()]);
    assert_eq!(
        device.albums.get(&"Artist".to_string()).unwrap(),
        &vec!["Album".to_string()]
    );
    let tracks = device
        .album_tracks
        .get(&("Artist".into(), "Album".into()))
        .unwrap();
    assert_eq!(tracks.len(), 1);
    let artist_key = normalize_for_match("Artist");
    let names = device.artist_track_names.get(&artist_key).unwrap();
    assert_eq!(names.len(), 1);
    // A single remove should fully clear the index — no duplicate ghost
    // entries left behind.
    assert!(device.remove_indexed_track("Artist/Album/song.mp3"));
    assert!(device.artists.is_empty());
    assert!(device.album_tracks.is_empty());
}

#[test]
fn add_indexed_track_skips_directories() {
    let mut device = DeviceState::new();
    device.add_indexed_track(&DeviceEntry {
        object_id: 1,
        format: "Association".to_string(),
        name: "Music".to_string(),
        ..Default::default()
    });
    assert!(device.artists.is_empty());
    assert!(device.album_tracks.is_empty());
}

#[test]
fn remove_indexed_track_removes_album_and_artist_when_last() {
    let mut device = DeviceState::new();
    device.add_indexed_track(&make_device_entry("Artist/Album/song.mp3", 100));
    device.add_indexed_track(&make_device_entry("Artist/Album/other.mp3", 200));

    assert!(device.remove_indexed_track("Artist/Album/song.mp3"));
    // Album still present — "other.mp3" remains.
    assert!(device
        .album_tracks
        .contains_key(&("Artist".into(), "Album".into())));
    assert_eq!(device.artists, vec!["Artist"]);

    assert!(device.remove_indexed_track("Artist/Album/other.mp3"));
    // Now album empty, artist pruned.
    assert!(device.album_tracks.is_empty());
    assert!(device.albums.is_empty());
    assert!(device.artists.is_empty());
}

#[test]
fn remove_indexed_track_keeps_artist_when_other_album_remains() {
    let mut device = DeviceState::new();
    device.add_indexed_track(&make_device_entry("Artist/AlbumA/a.mp3", 1));
    device.add_indexed_track(&make_device_entry("Artist/AlbumB/b.mp3", 1));

    assert!(device.remove_indexed_track("Artist/AlbumA/a.mp3"));

    assert_eq!(device.artists, vec!["Artist"]);
    assert_eq!(
        device.albums.get(&"Artist".to_string()).unwrap(),
        &vec!["AlbumB".to_string()]
    );
    assert!(!device
        .album_tracks
        .contains_key(&("Artist".into(), "AlbumA".into())));
}

#[test]
fn remove_indexed_track_clears_lookup_sets() {
    let mut device = DeviceState::new();
    device.add_indexed_track(&make_device_entry("Artist/Album/song.mp3", 1));
    assert!(once_connected(&mut device, "Artist", "song"));

    device.remove_indexed_track("Artist/Album/song.mp3");
    assert!(!once_connected(&mut device, "Artist", "song"));
}

#[test]
fn remove_indexed_track_returns_false_for_missing_path() {
    let mut device = DeviceState::new();
    device.add_indexed_track(&make_device_entry("Artist/Album/song.mp3", 1));

    assert!(!device.remove_indexed_track("Artist/Album/ghost.mp3"));
    assert!(!device.remove_indexed_track("Nobody/Nowhere/x.mp3"));
    // Existing track still there.
    assert_eq!(device.artists, vec!["Artist"]);
}

#[test]
fn incremental_then_full_rebuild_produces_same_shape() {
    let entries = vec![
        make_device_entry("Beatles/Revolver/01 Taxman.mp3", 1),
        make_device_entry("Beatles/Revolver/02 Eleanor Rigby.mp3", 1),
        make_device_entry("Beatles/Abbey Road/01 Come Together.mp3", 1),
        make_device_entry("Radiohead/OK Computer/01 Airbag.mp3", 1),
    ];

    let mut incremental = DeviceState::new();
    for e in &entries {
        incremental.add_indexed_track(e);
    }

    let mut app = new_app();
    app.device.tracks = entries;
    app.build_device_index();

    assert_eq!(incremental.artists, app.device.artists);
    assert_eq!(incremental.albums, app.device.albums);
    assert_eq!(incremental.album_tracks, app.device.album_tracks);
    assert_eq!(incremental.track_set, app.device.track_set);
}

#[test]
fn collect_removal_paths_library_mode_returns_empty() {
    let mut app = new_app();
    app.nav.browse_mode = BrowseMode::Library;
    assert!(app.collect_device_removal_paths().is_empty());
}

#[test]
fn collect_removal_paths_device_mode_track() {
    let mut app = new_app();
    app.device.tracks = vec![make_device_entry("Art/Alb/song.mp3", 1000)];
    app.build_device_index();
    app.nav.browse_mode = BrowseMode::Device;
    app.nav.sidebar_mode = SidebarMode::Artists;
    app.nav.sidebar_items = vec![SidebarEntry::Artist("Art".into())];
    app.nav.sidebar_selected = 0;
    app.select_sidebar_item();

    // Now move to TrackList panel and select the track.
    app.nav.active_panel = Panel::TrackList;
    app.lists.track_selected = 0;

    let paths = app.collect_device_removal_paths();
    assert_eq!(paths.len(), 1);
    assert_eq!(paths[0].0, "/Music/Art/Alb/song.mp3");
}

#[test]
fn toggle_browse_mode_skips_device_when_disconnected() {
    // No device connected → cycle is Library → Playlists → Library;
    // Device is skipped because there's nothing to browse.
    let mut app = new_app();
    assert_eq!(app.nav.browse_mode, BrowseMode::Library);
    assert_eq!(app.device.status, DeviceStatus::Disconnected);

    app.toggle_browse_mode();
    assert_eq!(app.nav.browse_mode, BrowseMode::Playlists);
    assert_eq!(app.nav.active_panel, Panel::Library);

    app.toggle_browse_mode();
    assert_eq!(app.nav.browse_mode, BrowseMode::Library);
}

#[test]
fn toggle_browse_mode_includes_device_when_connected() {
    // Connected → cycle is Library → Device → Playlists → Library.
    let mut app = new_app();
    app.device.status = DeviceStatus::Connected;

    app.toggle_browse_mode();
    assert_eq!(app.nav.browse_mode, BrowseMode::Device);

    app.toggle_browse_mode();
    assert_eq!(app.nav.browse_mode, BrowseMode::Playlists);

    app.toggle_browse_mode();
    assert_eq!(app.nav.browse_mode, BrowseMode::Library);
}

#[test]
fn v_key_reaches_playlists_without_device_connected() {
    // Playlists mode can be reached without plugging in a device:
    // `toggle_browse_mode` skips Device when nothing's connected, so `v`
    // is always live.
    let mut cmd_tx: Vec<BgCommand> = Vec::new();
    let mut audio_tx: Vec<AudioCommand> = Vec::new();
    let mut app = new_app();
    assert_eq!(app.nav.browse_mode, BrowseMode::Library);
    assert_eq!(app.device.status, DeviceStatus::Disconnected);

    app.handle_key(
        key(KeyCode::Char('v')),
        &mut cmd_tx,
        &mut audio_tx,
    );

    assert_eq!(app.nav.browse_mode, BrowseMode::Playlists);
    // No "Connect a device first" toast must have fired.
    assert!(
        app.toast_message.is_none()
            || !app
                .toast_message
                .as_ref()
                .unwrap()
                .0
                .contains("Connect a device"),
        "should not have shown the device-required toast"
    );
}

#[test]
fn d_disconnects_from_any_panel_when_connected() {
    // `d` disconnects from every panel that does not claim it, so the
    // user need not Tab over to the device panel first.
    let mut cmd_tx: Vec<BgCommand> = Vec::new();
    let mut audio_tx: Vec<AudioCommand> = Vec::new();
    let mut app = new_app();
    app.device.status = DeviceStatus::Connected;
    app.device.name = Some("Zune".into());
    app.nav.active_panel = Panel::Library;

    app.handle_key(
        key(KeyCode::Char('d')),
        &mut cmd_tx,
        &mut audio_tx,
    );

    assert_eq!(app.device.status, DeviceStatus::Disconnected);
    assert!(app.device.name.is_none());
    assert!(
        matches!(next(&mut cmd_tx), Ok(BgCommand::Disconnect)),
        "worker must be told to drop the session"
    );
    assert!(
        app.device.ignore_session_events,
        "late SessionReady/DeviceTracksLoaded must not resurrect the UI"
    );
}

#[test]
fn d_on_sync_queue_panel_dequeues_instead_of_disconnecting() {
    let mut cmd_tx: Vec<BgCommand> = Vec::new();
    let mut audio_tx: Vec<AudioCommand> = Vec::new();
    let mut app = new_app();
    app.device.status = DeviceStatus::Connected;
    app.nav.active_panel = Panel::SyncQueue;
    app.sync.queue.push(QueuedItem {
        label: "Album — Artist".into(),
        tracks: vec![],
    });

    app.handle_key(
        key(KeyCode::Char('d')),
        &mut cmd_tx,
        &mut audio_tx,
    );

    assert!(app.sync.queue.is_empty(), "queue item should be removed");
    assert_eq!(
        app.device.status,
        DeviceStatus::Connected,
        "sync-queue `d` must not disconnect"
    );
    assert!(
        !matches!(next(&mut cmd_tx), Ok(BgCommand::Disconnect)),
        "no Disconnect command should be sent"
    );
}

#[test]
fn d_when_disconnected_is_a_noop() {
    let mut cmd_tx: Vec<BgCommand> = Vec::new();
    let mut audio_tx: Vec<AudioCommand> = Vec::new();
    let mut app = new_app();
    assert_eq!(app.device.status, DeviceStatus::Disconnected);
    app.nav.active_panel = Panel::Library;

    app.handle_key(
        key(KeyCode::Char('d')),
        &mut cmd_tx,
        &mut audio_tx,
    );

    assert!(
        next(&mut cmd_tx).is_err(),
        "no command with nothing connected"
    );
    assert!(
        app.toast_message.is_none(),
        "no phantom 'Disconnected' toast"
    );
}

#[test]
fn clear_device_index_resets_browse_mode() {
    let mut app = new_app();
    app.nav.browse_mode = BrowseMode::Device;
    app.device.artists = vec!["Test".into()];
    app.clear_device_index();

    assert_eq!(app.nav.browse_mode, BrowseMode::Library);
    assert!(app.device.artists.is_empty());
    assert!(app.device.albums.is_empty());
    assert!(app.device.album_tracks.is_empty());
}

#[test]
fn clear_device_index_closes_track_info_popup() {
    let mut app = new_app();
    app.popup.show_track_info = true;
    app.popup.track_info_scroll = 7;
    app.popup.track_info_lib = Some(Track {
        name: "Song".into(),
        artist: "Artist".into(),
        album: "Album".into(),
        ..Default::default()
    });

    app.clear_device_index();

    assert!(!app.popup.show_track_info);
    assert_eq!(app.popup.track_info_scroll, 0);
    assert!(app.popup.track_info_lib.is_none());
}

#[test]
fn is_on_device_marks_matching_tracks() {
    let mut device = DeviceState::new();
    device.status = DeviceStatus::Connected;
    device.album_tracks.insert(
        ("Queen".into(), "A Night at the Opera".into()),
        vec![DeviceTrackInfo {
            name: "01 Bohemian Rhapsody".into(),
            device_path: "/Music/Queen/A Night at the Opera/01 Bohemian Rhapsody.mp3".into(),
            object_id: 1,
            artist: "Queen".into(),
            album: "A Night at the Opera".into(),
            track_number: None,
            disc_number: None,
            play_count: None,
            rating: None,
            skip_count: None,
            duration_ms: None,
        }],
    );
    build_match_sets(&mut device);

    assert!(
        is_on_device("Queen", "Bohemian Rhapsody", &device),
        "Bohemian Rhapsody should be on device"
    );
    assert!(
        !is_on_device("Queen", "Somebody to Love", &device),
        "Somebody to Love should not be on device"
    );
}

#[test]
fn is_on_device_false_when_disconnected() {
    let device = DeviceState::new(); // status = Disconnected
    assert!(
        !is_on_device("Artist", "Test", &device),
        "should return false when disconnected"
    );
}

#[test]
fn retag_on_device_uses_precomputed_keys() {
    // Populate device state so "Queen / Bohemian Rhapsody" matches.
    let mut app = new_app();
    app.device.status = DeviceStatus::Connected;
    app.device.album_tracks.insert(
        ("Queen".into(), "A Night at the Opera".into()),
        vec![DeviceTrackInfo {
            name: "01 Bohemian Rhapsody".into(),
            device_path: "/Music/Queen/A Night at the Opera/01 Bohemian Rhapsody.mp3".into(),
            object_id: 1,
            artist: "Queen".into(),
            album: "A Night at the Opera".into(),
            track_number: None,
            disc_number: None,
            play_count: None,
            rating: None,
            skip_count: None,
            duration_ms: None,
        }],
    );
    build_match_sets(&mut app.device);

    // Two tracks: one should match, one should not.
    app.lists.track_list = vec![
        TrackInfo::new(
            "Bohemian Rhapsody".into(),
            "Queen".into(),
            "A Night at the Opera".into(),
            None,
            None,
            None,
            None,
            None,
            None,
            false,
        ),
        TrackInfo::new(
            "Somebody to Love".into(),
            "Queen".into(),
            "A Day at the Races".into(),
            None,
            None,
            None,
            None,
            None,
            None,
            false,
        ),
    ];
    app.retag_on_device();

    assert!(
        app.lists.track_list[0].on_device,
        "precomputed keys should match Bohemian Rhapsody"
    );
    assert!(
        !app.lists.track_list[1].on_device,
        "precomputed keys should miss Somebody to Love"
    );
}

#[test]
fn is_on_device_normalizes_special_chars() {
    let mut device = DeviceState::new();
    device.status = DeviceStatus::Connected;
    device.album_tracks.insert(
        ("NSYNC".into(), "No Strings Attached".into()),
        vec![DeviceTrackInfo {
            name: "Bye Bye Bye".into(),
            device_path: "/Music/NSYNC/No Strings Attached/Bye Bye Bye.mp3".into(),
            object_id: 10,
            artist: "NSYNC".into(),
            album: "No Strings Attached".into(),
            track_number: None,
            disc_number: None,
            play_count: None,
            rating: None,
            skip_count: None,
            duration_ms: None,
        }],
    );
    build_match_sets(&mut device);

    assert!(
        is_on_device("*NSYNC", "Bye Bye Bye", &device),
        "*NSYNC should match NSYNC on device"
    );
}

#[test]
fn rebuild_device_status_tags_artists_and_albums() {
    fn track(id: u64, artist: &str, album: &str, name: &str) -> Track {
        Track {
            id,
            name: name.into(),
            artist: artist.into(),
            album: album.into(),
            ..Default::default()
        }
    }

    // Library: Radiohead has two albums, Bjork one; only one Radiohead
    // album is fully on device, the other is partial, Bjork's is absent.
    let lib = library_of(vec![
            track(1, "Radiohead", "OK Computer", "Airbag"),
            track(2, "Radiohead", "OK Computer", "Karma Police"),
            track(3, "Radiohead", "Kid A", "Idioteque"),
            track(4, "Radiohead", "Kid A", "The National Anthem"),
            track(5, "Bjork", "Post", "Army of Me"),
        ]);

    let mut app = new_app();
    app.library = Some(lib);
    app.device.status = DeviceStatus::Connected;
    // Put both OK Computer tracks + one Kid A track on device.
    app.device.album_tracks.insert(
        ("Radiohead".into(), "OK Computer".into()),
        vec![
            DeviceTrackInfo {
                name: "Airbag".into(),
                device_path: "/Music/Radiohead/OK Computer/Airbag.mp3".into(),
                object_id: 1,
                artist: "Radiohead".into(),
                album: "OK Computer".into(),
                track_number: None,
                disc_number: None,
                play_count: None,
                rating: None,
                skip_count: None,
                duration_ms: None,
            },
            DeviceTrackInfo {
                name: "Karma Police".into(),
                device_path: "/Music/Radiohead/OK Computer/Karma Police.mp3".into(),
                object_id: 2,
                artist: "Radiohead".into(),
                album: "OK Computer".into(),
                track_number: None,
                disc_number: None,
                play_count: None,
                rating: None,
                skip_count: None,
                duration_ms: None,
            },
        ],
    );
    app.device.album_tracks.insert(
        ("Radiohead".into(), "Kid A".into()),
        vec![DeviceTrackInfo {
            name: "Idioteque".into(),
            device_path: "/Music/Radiohead/Kid A/Idioteque.mp3".into(),
            object_id: 3,
            artist: "Radiohead".into(),
            album: "Kid A".into(),
            track_number: None,
            disc_number: None,
            play_count: None,
            rating: None,
            skip_count: None,
            duration_ms: None,
        }],
    );
    build_match_sets(&mut app.device);

    app.rebuild_artist_device_status();

    assert_eq!(
        app.lists.artist_device_status.get(&"Radiohead".to_string()),
        Some(&DevicePresence::Partial),
        "Radiohead should be Partial (3 of 4 on device)",
    );
    assert!(
        !app.lists.artist_device_status.contains_key(&"Bjork".to_string()),
        "Bjork should have no entry (nothing on device)",
    );
    assert_eq!(
        app.lists.album_device_status
            .get(&("Radiohead".into(), "OK Computer".into())),
        Some(&DevicePresence::Full),
        "OK Computer should be Full",
    );
    assert_eq!(
        app.lists.album_device_status
            .get(&("Radiohead".into(), "Kid A".into())),
        Some(&DevicePresence::Partial),
        "Kid A should be Partial",
    );
    assert!(
        !app.lists.album_device_status
            .contains_key(&("Bjork".into(), "Post".into())),
        "Post should not be tracked (nothing on device)",
    );
}
