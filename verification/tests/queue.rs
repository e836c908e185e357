use zytunes_tui::app::{App, Config, Host};
use zytunes_tui::commands::{BgCommand, QueuedItem, SyncItem};
use zytunes_tui::copies::find_device_copies;
use zytunes_tui::device::DeviceState;
use zytunes_tui::library::Library;
use zytunes_tui::ordmap::{OrdMap, OrdSet};
use zytunes_tui::tracks::TrackInfo;
use zytunes_tui::types::{
    DeviceStatus, DeviceTrackInfo, Panel, SidebarEntry, SidebarMode, SortColumn, SyncStatus,
};

fn new_app() -> App {
    App::new(Config::default(), Host::new(12, 30))
}

/// The first command that was sent, if any.
fn next<T>(sent: &mut Vec<T>) -> Result<T, ()> {
    if sent.is_empty() {
        Err(())
    } else {
        Ok(sent.remove(0))
    }
}

fn build_match_sets(device: &mut DeviceState) {
    device.track_set = OrdSet::new();
    device.artist_track_names = OrdMap::new();
    let mut artists: Vec<String> = Vec::new();
    for i in 0..device.album_tracks.len() {
        for dt in device.album_tracks.value_at(i) {
            artists.push(dt.artist.clone());
        }
    }
    for artist in artists {
        device.rebuild_lookup_for_artist(&artist);
    }
}

#[test]
fn throbber_state_advances() {
    let mut app = new_app();
    let first = app.anim.throbber_index;
    app.tick();
    let second = app.anim.throbber_index;
    assert_ne!(first, second);
}

#[test]
fn new_app_defaults() {
    let app = new_app();
    assert_eq!(app.nav.active_panel, Panel::Library);
    assert_eq!(app.nav.sidebar_mode, SidebarMode::Artists);
    assert!(app.sync.queue.is_empty());
    assert!(app.sync.log.is_empty());
    assert_eq!(app.device.status, DeviceStatus::Disconnected);
    assert_eq!(app.sync.status, SyncStatus::Idle);
    assert!(!app.should_quit);
}

#[test]
fn cycle_panel_wraps() {
    let mut app = new_app();
    assert_eq!(app.nav.active_panel, Panel::Library);
    app.cycle_panel(); // Library -> TrackList (no albums)
    assert_eq!(app.nav.active_panel, Panel::TrackList);
    app.cycle_panel(); // TrackList -> Device
    assert_eq!(app.nav.active_panel, Panel::Device);
    app.cycle_panel(); // Device -> SyncQueue
    assert_eq!(app.nav.active_panel, Panel::SyncQueue);
    app.cycle_panel(); // SyncQueue -> Library
    assert_eq!(app.nav.active_panel, Panel::Library);
}

#[test]
fn cycle_sort_advances_column() {
    let mut app = new_app();
    assert_eq!(app.lists.sort_column, SortColumn::Name);
    app.cycle_sort();
    assert_eq!(app.lists.sort_column, SortColumn::Artist);
    app.cycle_sort();
    assert_eq!(app.lists.sort_column, SortColumn::Album);
}

#[test]
fn adding_track_while_syncing_forwards_to_worker() {
    let mut app = new_app();
    // Simulate an in-flight sync.
    app.sync.status = SyncStatus::Running {
        current: 1,
        total: 5,
    };
    app.lists.track_list.push(TrackInfo::new(
        "Idioteque".into(),
        "Radiohead".into(),
        "Kid A".into(),
        None,
        None,
        Some("/tmp/idioteque.mp3".into()),
        None,
        None,
        None,
        false,
    ));
    app.lists.track_selected = 0;

    app.add_selected_track_to_queue();

    // Queue retains a record of the addition (for display on completion).
    assert_eq!(app.sync.queue.len(), 1);

    // And the worker was told to append to the running sync.
    let appended = app
        .out.pending_bg_commands
        .iter()
        .filter_map(|cmd| match cmd {
            BgCommand::AppendSyncQueue(items) => Some(items.clone()),
            _ => None,
        })
        .collect::<Vec<_>>();
    assert_eq!(appended.len(), 1, "expected exactly one AppendSyncQueue");
    assert_eq!(appended[0].len(), 1);
    assert_eq!(appended[0][0].name, "Idioteque");
}

#[test]
fn mid_sync_append_populates_overwrite_targets() {
    // When a user queues a track mid-sync that's already on the device,
    // the append path forwards both tracks — the duplicate gets its
    // on-device copy stamped into overwrite_targets so the worker wipes
    // it before the new upload lands.
    let mut app = new_app();
    app.sync.status = SyncStatus::Running {
        current: 1,
        total: 5,
    };
    app.device.status = DeviceStatus::Connected;
    app.device.album_tracks.insert(
        ("Queen".into(), "A Night at the Opera".into()),
        vec![DeviceTrackInfo {
            name: "Bohemian Rhapsody".into(),
            device_path: "/Music/Queen/A Night at the Opera/Bohemian Rhapsody.mp3".into(),
            object_id: 9,
            artist: "Queen".into(),
            album: "A Night at the Opera".into(),
            track_number: None,
            disc_number: None,
            play_count: None,
            rating: None,
            skip_count: None,
            duration_ms: None,
        }],
    );
    build_match_sets(&mut app.device);

    app.sync.queue.push(QueuedItem {
        label: "mix".into(),
        tracks: vec![
            SyncItem {
                artist: "Queen".into(),
                album: "A Night at the Opera".into(),
                name: "Bohemian Rhapsody".into(),
                location: "/music/a.mp3".into(),
                ..Default::default()
            },
            SyncItem {
                artist: "Queen".into(),
                album: "A Night at the Opera".into(),
                name: "Love of My Life".into(),
                location: "/music/b.mp3".into(),
                ..Default::default()
            },
        ],
    });

    app.forward_last_queue_item_if_syncing();

    let appended = app
        .out.pending_bg_commands
        .iter()
        .filter_map(|cmd| match cmd {
            BgCommand::AppendSyncQueue(items) => Some(items.clone()),
            _ => None,
        })
        .collect::<Vec<_>>();
    assert_eq!(appended.len(), 1);
    assert_eq!(appended[0].len(), 2, "both tracks should forward");
    let bohemian = appended[0]
        .iter()
        .find(|i| i.name == "Bohemian Rhapsody")
        .expect("Bohemian Rhapsody forwarded");
    assert_eq!(bohemian.overwrite_targets.len(), 1);
    assert_eq!(bohemian.overwrite_targets[0].1, 9);
    let love = appended[0]
        .iter()
        .find(|i| i.name == "Love of My Life")
        .expect("Love of My Life forwarded");
    assert!(love.overwrite_targets.is_empty());

    assert!(
        app.sync
            .log
            .iter()
            .any(|m| m.contains("Appended mid-sync") && m.contains("overwriting 1")),
        "expected overwrite-summary log line, got {:?}",
        app.sync.log
    );
}

#[test]
fn mid_sync_append_all_on_device_still_forwards_for_overwrite() {
    // Every track matching an on-device copy still forwards — the
    // worker receives the entry with overwrite_targets populated so
    // the refresh happens instead of a silent skip.
    let mut app = new_app();
    app.sync.status = SyncStatus::Running {
        current: 1,
        total: 5,
    };
    app.device.status = DeviceStatus::Connected;
    app.device.album_tracks.insert(
        ("Queen".into(), "A Night at the Opera".into()),
        vec![DeviceTrackInfo {
            name: "Bohemian Rhapsody".into(),
            device_path: "/Music/Queen/A Night at the Opera/Bohemian Rhapsody.mp3".into(),
            object_id: 9,
            artist: "Queen".into(),
            album: "A Night at the Opera".into(),
            track_number: None,
            disc_number: None,
            play_count: None,
            rating: None,
            skip_count: None,
            duration_ms: None,
        }],
    );
    build_match_sets(&mut app.device);
    app.sync.queue.push(QueuedItem {
        label: "dup".into(),
        tracks: vec![SyncItem {
            artist: "Queen".into(),
            album: "A Night at the Opera".into(),
            name: "Bohemian Rhapsody".into(),
            location: "/music/a.mp3".into(),
            ..Default::default()
        }],
    });

    app.forward_last_queue_item_if_syncing();

    let appended: Vec<_> = app
        .out.pending_bg_commands
        .iter()
        .filter_map(|cmd| match cmd {
            BgCommand::AppendSyncQueue(items) => Some(items.clone()),
            _ => None,
        })
        .collect();
    assert_eq!(appended.len(), 1);
    assert_eq!(appended[0].len(), 1);
    assert_eq!(appended[0][0].overwrite_targets.len(), 1);
    assert_eq!(appended[0][0].overwrite_targets[0].1, 9);
}

#[test]
fn adding_track_when_idle_does_not_forward() {
    let mut app = new_app();
    assert!(matches!(app.sync.status, SyncStatus::Idle));
    app.lists.track_list.push(TrackInfo::new(
        "Creep".into(),
        "Radiohead".into(),
        "Pablo Honey".into(),
        None,
        None,
        Some("/tmp/creep.mp3".into()),
        None,
        None,
        None,
        false,
    ));
    app.lists.track_selected = 0;

    app.add_selected_track_to_queue();

    assert_eq!(app.sync.queue.len(), 1);
    assert!(
        !app.out.pending_bg_commands
            .iter()
            .any(|cmd| matches!(cmd, BgCommand::AppendSyncQueue(_))),
        "should not forward while sync is Idle",
    );
}

#[test]
fn queue_add_remove_clear() {
    let mut app = new_app();
    assert!(app.sync.queue.is_empty());
    assert_eq!(app.total_queue_tracks(), 0);

    app.sync.queue.push(QueuedItem {
        label: "Test".into(),
        tracks: vec![],
    });
    assert_eq!(app.sync.queue.len(), 1);

    app.sync.queue.push(QueuedItem {
        label: "Test2".into(),
        tracks: vec![],
    });
    app.sync.queue_selected = 0;
    app.remove_queue_item();
    assert_eq!(app.sync.queue.len(), 1);
    assert_eq!(app.sync.queue[0].label, "Test2");

    app.clear_queue();
    assert!(app.sync.queue.is_empty());
    assert_eq!(app.sync.queue_selected, 0);
}

#[test]
fn remove_queue_item_empty_noop() {
    let mut app = new_app();
    app.remove_queue_item(); // should not panic
    assert!(app.sync.queue.is_empty());
}

#[test]
fn collect_device_duplicates_keeps_newest_per_group() {
    // Explicit dedupe helper keeps the highest object_id per normalized
    // (artist, album, name) group and returns the rest for removal.
    // Groups of 1 produce no output; distinct albums-with-same-name
    // don't get grouped together.
    let mut app = new_app();
    app.device.status = DeviceStatus::Connected;
    app.device.album_tracks.insert(
        ("Queen".into(), "A Night at the Opera".into()),
        vec![
            DeviceTrackInfo {
                name: "Bohemian Rhapsody".into(),
                device_path: "/Music/Queen/A Night at the Opera/Bohemian Rhapsody.mp3".into(),
                object_id: 10,
                artist: "Queen".into(),
                album: "A Night at the Opera".into(),
                track_number: None,
                disc_number: None,
                play_count: None,
                rating: None,
                skip_count: None,
                duration_ms: None,
            },
            DeviceTrackInfo {
                name: "Bohemian Rhapsody".into(),
                device_path: "/Music/Queen/A Night at the Opera/Bohemian Rhapsody (1).mp3"
                    .into(),
                object_id: 11,
                artist: "Queen".into(),
                album: "A Night at the Opera".into(),
                track_number: None,
                disc_number: None,
                play_count: None,
                rating: None,
                skip_count: None,
                duration_ms: None,
            },
            DeviceTrackInfo {
                name: "Bohemian Rhapsody".into(),
                device_path: "/Music/Queen/A Night at the Opera/Bohemian Rhapsody (2).mp3"
                    .into(),
                object_id: 12,
                artist: "Queen".into(),
                album: "A Night at the Opera".into(),
                track_number: None,
                disc_number: None,
                play_count: None,
                rating: None,
                skip_count: None,
                duration_ms: None,
            },
            // Unique within the same album — must NOT appear in the
            // dedupe set.
            DeviceTrackInfo {
                name: "Love of My Life".into(),
                device_path: "/Music/Queen/A Night at the Opera/Love of My Life.mp3".into(),
                object_id: 13,
                artist: "Queen".into(),
                album: "A Night at the Opera".into(),
                track_number: None,
                disc_number: None,
                play_count: None,
                rating: None,
                skip_count: None,
                duration_ms: None,
            },
        ],
    );
    // Same track name but different album — MUST NOT group with the
    // Night at the Opera rows.
    app.device.album_tracks.insert(
        ("Queen".into(), "Greatest Hits".into()),
        vec![DeviceTrackInfo {
            name: "Bohemian Rhapsody".into(),
            device_path: "/Music/Queen/Greatest Hits/Bohemian Rhapsody.mp3".into(),
            object_id: 20,
            artist: "Queen".into(),
            album: "Greatest Hits".into(),
            track_number: None,
            disc_number: None,
            play_count: None,
            rating: None,
            skip_count: None,
            duration_ms: None,
        }],
    );
    build_match_sets(&mut app.device);

    let dupes = app.collect_device_duplicates();
    let mut oids: Vec<u64> = dupes.iter().map(|(_, oid)| *oid).collect();
    oids.sort();
    // Of the three Bohemian copies in Night at the Opera (10/11/12),
    // newest (12) is kept; 10 and 11 are targeted for removal. Nothing
    // else shows up.
    assert_eq!(oids, vec![10, 11]);
}

#[test]
fn dedupe_device_dispatches_remove_when_duplicates_exist() {
    let mut app = new_app();
    app.device.status = DeviceStatus::Connected;
    app.device.album_tracks.insert(
        ("Queen".into(), "A Night at the Opera".into()),
        vec![
            DeviceTrackInfo {
                name: "Bohemian Rhapsody".into(),
                device_path: "/Music/Queen/A Night at the Opera/Bohemian Rhapsody.mp3".into(),
                object_id: 10,
                artist: "Queen".into(),
                album: "A Night at the Opera".into(),
                track_number: None,
                disc_number: None,
                play_count: None,
                rating: None,
                skip_count: None,
                duration_ms: None,
            },
            DeviceTrackInfo {
                name: "Bohemian Rhapsody".into(),
                device_path: "/Music/Queen/A Night at the Opera/Bohemian Rhapsody (1).mp3"
                    .into(),
                object_id: 11,
                artist: "Queen".into(),
                album: "A Night at the Opera".into(),
                track_number: None,
                disc_number: None,
                play_count: None,
                rating: None,
                skip_count: None,
                duration_ms: None,
            },
        ],
    );
    build_match_sets(&mut app.device);

    let mut tx: Vec<BgCommand> = Vec::new();
    app.dedupe_device(&mut tx);

    match next(&mut tx) {
        Ok(BgCommand::RemoveFromDevice(items)) => {
            assert_eq!(items.len(), 1, "only the older copy gets removed");
            assert_eq!(items[0].1, 10);
        }
        Ok(_) => panic!("expected RemoveFromDevice"),
        Err(_) => panic!("no command dispatched"),
    }
}

#[test]
fn dedupe_device_toasts_when_no_duplicates() {
    let mut app = new_app();
    app.device.status = DeviceStatus::Connected;
    app.device.album_tracks.insert(
        ("Queen".into(), "A Night at the Opera".into()),
        vec![DeviceTrackInfo {
            name: "Bohemian Rhapsody".into(),
            device_path: "/Music/Queen/A Night at the Opera/Bohemian Rhapsody.mp3".into(),
            object_id: 10,
            artist: "Queen".into(),
            album: "A Night at the Opera".into(),
            track_number: None,
            disc_number: None,
            play_count: None,
            rating: None,
            skip_count: None,
            duration_ms: None,
        }],
    );
    build_match_sets(&mut app.device);

    let mut tx: Vec<BgCommand> = Vec::new();
    app.dedupe_device(&mut tx);

    assert!(next(&mut tx).is_err(), "no command should be dispatched");
    let toast = app.toast_message.as_ref().expect("toast should be set");
    assert!(toast.0.contains("No duplicates"));
}

#[test]
fn find_device_copies_returns_every_matching_copy() {
    // If the device already has multiple copies of a track (say from
    // earlier sync mistakes), find_device_copies must return ALL of
    // them so overwrite-on-sync sweeps the pile instead of leaving
    // orphan duplicates behind.
    let mut device = DeviceState::new();
    device.status = DeviceStatus::Connected;
    device.album_tracks.insert(
        ("Queen".into(), "A Night at the Opera".into()),
        vec![
            DeviceTrackInfo {
                name: "Bohemian Rhapsody".into(),
                device_path: "/Music/Queen/A Night at the Opera/Bohemian Rhapsody.mp3".into(),
                object_id: 10,
                artist: "Queen".into(),
                album: "A Night at the Opera".into(),
                track_number: None,
                disc_number: None,
                play_count: None,
                rating: None,
                skip_count: None,
                duration_ms: None,
            },
            DeviceTrackInfo {
                name: "Bohemian Rhapsody".into(),
                device_path: "/Music/Queen/A Night at the Opera/Bohemian Rhapsody (1).mp3"
                    .into(),
                object_id: 11,
                artist: "Queen".into(),
                album: "A Night at the Opera".into(),
                track_number: None,
                disc_number: None,
                play_count: None,
                rating: None,
                skip_count: None,
                duration_ms: None,
            },
            DeviceTrackInfo {
                name: "Love of My Life".into(),
                device_path: "/Music/Queen/A Night at the Opera/Love of My Life.mp3".into(),
                object_id: 12,
                artist: "Queen".into(),
                album: "A Night at the Opera".into(),
                track_number: None,
                disc_number: None,
                play_count: None,
                rating: None,
                skip_count: None,
                duration_ms: None,
            },
        ],
    );
    build_match_sets(&mut device);

    let copies = find_device_copies(&device, "Queen", "Bohemian Rhapsody");
    let mut oids: Vec<u64> = copies.iter().map(|(_, oid)| *oid).collect();
    oids.sort();
    assert_eq!(oids, vec![10, 11], "both duplicate copies must be returned");

    // Disconnected device returns no matches even if the index is populated.
    device.status = DeviceStatus::Disconnected;
    assert!(find_device_copies(&device, "Queen", "Bohemian Rhapsody").is_empty());
}

#[test]
fn execute_sync_populates_overwrite_targets_for_duplicates() {
    // Tracks matching existing on-device copies must be dispatched with
    // their (device_path, object_id) stamped into `overwrite_targets`
    // so the worker removes the old copies before uploading the new.
    let mut app = new_app();
    app.device.status = DeviceStatus::Connected;
    app.device.album_tracks.insert(
        ("Queen".into(), "A Night at the Opera".into()),
        vec![DeviceTrackInfo {
            name: "Bohemian Rhapsody".into(),
            device_path: "/Music/Queen/A Night at the Opera/Bohemian Rhapsody.mp3".into(),
            object_id: 77,
            artist: "Queen".into(),
            album: "A Night at the Opera".into(),
            track_number: None,
            disc_number: None,
            play_count: None,
            rating: None,
            skip_count: None,
            duration_ms: None,
        }],
    );
    build_match_sets(&mut app.device);

    app.sync.queue.push(QueuedItem {
        label: "test".into(),
        tracks: vec![
            SyncItem {
                artist: "Queen".into(),
                album: "A Night at the Opera".into(),
                name: "Bohemian Rhapsody".into(),
                location: "/music/queen/bohemian.mp3".into(),
                ..Default::default()
            },
            SyncItem {
                artist: "Queen".into(),
                album: "A Night at the Opera".into(),
                name: "Love of My Life".into(),
                location: "/music/queen/love.mp3".into(),
                ..Default::default()
            },
        ],
    });

    let mut tx: Vec<BgCommand> = Vec::new();
    app.execute_sync(&mut tx);

    // Both tracks dispatched; the duplicate carries the overwrite target.
    match next(&mut tx) {
        Ok(BgCommand::ExecuteSyncQueue(items)) => {
            assert_eq!(items.len(), 2, "both tracks should be dispatched");
            let bohemian = items
                .iter()
                .find(|i| i.name == "Bohemian Rhapsody")
                .expect("Bohemian Rhapsody in items");
            assert_eq!(
                bohemian.overwrite_targets,
                vec![(
                    "/Music/Queen/A Night at the Opera/Bohemian Rhapsody.mp3".to_string(),
                    77u64
                )]
            );
            let love = items
                .iter()
                .find(|i| i.name == "Love of My Life")
                .expect("Love of My Life in items");
            assert!(
                love.overwrite_targets.is_empty(),
                "non-duplicate should have empty overwrite_targets"
            );
        }
        Ok(_) => panic!("expected ExecuteSyncQueue"),
        Err(_) => panic!("no command dispatched"),
    }
    // Plan summary mentions the overwrite count so the user sees what's happening.
    assert!(
        app.sync
            .log
            .iter()
            .any(|m| m.contains("Syncing 2") && m.contains("overwriting 1")),
        "expected overwrite summary, got {:?}",
        app.sync.log
    );
}

#[test]
fn execute_sync_without_duplicates_logs_plain_plan() {
    let mut app = new_app();
    app.device.status = DeviceStatus::Connected;
    app.sync.queue.push(QueuedItem {
        label: "test".into(),
        tracks: vec![
            SyncItem {
                artist: "Queen".into(),
                album: "A Night at the Opera".into(),
                name: "Bohemian Rhapsody".into(),
                location: "/music/queen/bohemian.mp3".into(),
                ..Default::default()
            },
            SyncItem {
                artist: "Queen".into(),
                album: "A Night at the Opera".into(),
                name: "Love of My Life".into(),
                location: "/music/queen/love.mp3".into(),
                ..Default::default()
            },
        ],
    });

    let mut tx: Vec<BgCommand> = Vec::new();
    app.execute_sync(&mut tx);

    // When nothing is skipped, the log should just state the count —
    // no trailing "; 0 already on device" noise.
    assert!(
        app.sync.log.iter().any(|m| m == "Syncing 2 tracks"),
        "expected plain plan, got {:?}",
        app.sync.log
    );
    assert!(
        !app.sync.log.iter().any(|m| m.contains("already on device")),
        "skip phrase must not appear when skip=0: {:?}",
        app.sync.log
    );
}

#[test]
fn execute_sync_plan_is_singular_for_one_track() {
    let mut app = new_app();
    app.device.status = DeviceStatus::Connected;
    app.sync.queue.push(QueuedItem {
        label: "test".into(),
        tracks: vec![SyncItem {
            artist: "Queen".into(),
            album: "A Night at the Opera".into(),
            name: "Bohemian Rhapsody".into(),
            location: "/music/queen/bohemian.mp3".into(),
            ..Default::default()
        }],
    });

    let mut tx: Vec<BgCommand> = Vec::new();
    app.execute_sync(&mut tx);

    // Grammar check: "1 track" (singular), not "1 tracks".
    assert!(
        app.sync.log.iter().any(|m| m == "Syncing 1 track"),
        "expected singular form, got {:?}",
        app.sync.log
    );
}

#[test]
fn queue_labels_do_not_bake_track_count() {
    // Queue-entry labels should hold the canonical name only — the UI is
    // responsible for rendering the live count, so baking "(N tracks)"
    // into the label would print "(N tracks) (N tracks)".
    let mut app = new_app();
    app.library = Some(Library {
        tracks: vec![],
        artists: vec!["Queen".into()],
        albums: vec![("Queen".into(), "A Night at the Opera".into())],
        music_folder: None,
    });
    // refresh_sidebar clears track_list, so seed it afterwards.
    app.refresh_sidebar();
    app.nav.sidebar_selected = 0;
    app.lists.track_list = vec![TrackInfo::new(
        "Bohemian Rhapsody".into(),
        "Queen".into(),
        "A Night at the Opera".into(),
        None,
        None,
        Some("/music/queen/bohemian.mp3".into()),
        None,
        None,
        None,
        false,
    )];
    app.add_all_visible_to_queue();

    assert_eq!(app.sync.queue.len(), 1);
    let label = &app.sync.queue[0].label;
    assert!(
        !label.contains("tracks"),
        "label must not include track count, got {label:?}",
    );
    assert!(
        !label.contains("(1"),
        "label must not include parenthesised count, got {label:?}",
    );
}

#[test]
fn execute_sync_all_on_device_dispatches_with_overwrite_targets() {
    // When every queued track matches an on-device copy, we still
    // dispatch — each item carries the target so the worker overwrites.
    // The user gets the refresh they asked for by re-queuing.
    let mut app = new_app();
    app.device.status = DeviceStatus::Connected;
    app.device.album_tracks.insert(
        ("Queen".into(), "A Night at the Opera".into()),
        vec![DeviceTrackInfo {
            name: "Bohemian Rhapsody".into(),
            device_path: "/Music/Queen/A Night at the Opera/Bohemian Rhapsody.mp3".into(),
            object_id: 42,
            artist: "Queen".into(),
            album: "A Night at the Opera".into(),
            track_number: None,
            disc_number: None,
            play_count: None,
            rating: None,
            skip_count: None,
            duration_ms: None,
        }],
    );
    build_match_sets(&mut app.device);
    app.sync.queue.push(QueuedItem {
        label: "test".into(),
        tracks: vec![SyncItem {
            artist: "Queen".into(),
            album: "A Night at the Opera".into(),
            name: "Bohemian Rhapsody".into(),
            location: "/music/queen/bohemian.mp3".into(),
            ..Default::default()
        }],
    });

    let mut tx: Vec<BgCommand> = Vec::new();
    app.execute_sync(&mut tx);

    match next(&mut tx) {
        Ok(BgCommand::ExecuteSyncQueue(items)) => {
            assert_eq!(items.len(), 1);
            assert_eq!(items[0].overwrite_targets.len(), 1);
            assert_eq!(items[0].overwrite_targets[0].1, 42);
        }
        Ok(_) => panic!("expected ExecuteSyncQueue"),
        Err(_) => panic!("no command dispatched — sync should always proceed now"),
    }
}

#[test]
fn move_up_down_bounds() {
    let mut app = new_app();
    app.nav.sidebar_items = vec![
        SidebarEntry::Artist("A".into()),
        SidebarEntry::Artist("B".into()),
        SidebarEntry::Artist("C".into()),
    ];
    app.nav.active_panel = Panel::Library;

    app.move_up(); // already at 0
    assert_eq!(app.nav.sidebar_selected, 0);

    app.move_down();
    assert_eq!(app.nav.sidebar_selected, 1);
    app.move_down();
    assert_eq!(app.nav.sidebar_selected, 2);
    app.move_down(); // at end
    assert_eq!(app.nav.sidebar_selected, 2);
}

#[test]
fn toast_auto_dismisses() {
    let mut app = new_app();
    app.set_toast("hello".into(), false);
    assert!(app.toast_message.is_some());

    // Six seconds later.
    app.host.clock_ms += 6000;
    app.tick();
    assert!(app.toast_message.is_none());
}
