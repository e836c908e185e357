use zytunes_tui::app::{App, Config, Host, NowPlaying};
use zytunes_tui::commands::{AudioCommand, AudioEvent};
use zytunes_tui::library::Library;
use zytunes_tui::model::{DeviceEntry, DeviceFamily, Track};
use zytunes_tui::tracks::{TrackInfo, tracks_to_info};
use zytunes_tui::types::PlaybackState;

fn new_app() -> App {
    let mut app = App::new(Config::default(), Host::new(12, 12));
    app.host.unix_ms = 1_700_000_000_000;
    app
}

fn library_of(tracks: Vec<Track>) -> Library {
    Library { tracks, artists: vec![], albums: vec![], music_folder: None }
}

fn app_with_now_playing(track_id: u64, duration_ms: u64) -> App {
    let mut app = new_app();
    let track = Track {
        id: track_id,
        name: "Song".into(),
        artist: "Artist".into(),
        album: "Album".into(),
        total_time_ms: Some(duration_ms),
        ..Default::default()
    };
    app.library = Some(library_of(vec![track]));
    let info = TrackInfo::new(
        "Song".into(),
        "Artist".into(),
        "Album".into(),
        Some(duration_ms),
        None,
        Some("/tmp/song.mp3".into()),
        None,
        None,
        None,
        false,
    );
    let playlist: Vec<TrackInfo> = vec![info];
    app.player.now_playing = Some(NowPlaying {
        track_name: "Song".into(),
        artist: "Artist".into(),
        album: "Album".into(),
        duration_ms,
        elapsed_ms: 0,
        state: PlaybackState::Playing,
        track_index: 0,
        playlist,
        paused_frame: None,
        track_id: Some(track_id),
        counted: false,
        year: None,
        metadata_marquee: String::new(),
    });
    app
}

#[test]
fn end_to_end_play_records_and_propagates_last_played() {
    // Mirror the whole flow as closely as a unit test can: build a
    // library track, run it through `tracks_to_info` so library_id is
    // populated by the real builder, install as track_list, then play it
    // past the threshold via the audio event handler. Both `play_count`
    // and `last_played_at_ms` should be Some on the visible row.
    let mut app = new_app();
    let track = Track {
        id: 4242,
        name: "Track".into(),
        artist: "Artist".into(),
        album: "Album".into(),
        total_time_ms: Some(240_000),
        location: Some("/tmp/track.mp3".into()),
        ..Default::default()
    };
    app.library = Some(library_of(vec![track.clone()]));
    // Build track_list through the real builder so library_id wiring is
    // exercised end-to-end.
    let device_key = app.current_device_baseline_key();
    app.lists.track_list = tracks_to_info(
        &vec![track.clone()],
        &app.device,
        &app.player.local_plays,
        &device_key,
    );
    assert_eq!(app.lists.track_list.len(), 1);
    assert_eq!(app.lists.track_list[0].library_id, Some(4242));
    assert!(app.lists.track_list[0].last_played_at_ms.is_none());
    app.lists.track_selected = 0;
    let mut tx: Vec<AudioCommand> = Vec::new();
    app.play_selected_track(&mut tx);
    assert_eq!(
        app.player.now_playing.as_ref().and_then(|np| np.track_id),
        Some(4242),
        "now_playing.track_id must resolve via resolve_library_track_id"
    );
    // Past threshold (50% of 240s = 120s).
    app.handle_audio_event(
        AudioEvent::Position {
            elapsed_ms: 130_000,
        },
        &mut tx,
    );
    assert_eq!(app.player.local_plays.get(4242).unwrap().play_count, 1);
    assert!(
        app.player.local_plays.get(4242).unwrap().last_played_at_ms > 0,
        "sidecar must record a non-zero last_played_at_ms"
    );
    assert_eq!(app.lists.track_list[0].play_count, Some(1));
    assert!(
        app.lists.track_list[0].last_played_at_ms.is_some(),
        "live refresh must push last_played into the visible row"
    );
}

#[test]
fn record_play_refreshes_visible_track_list_row() {
    // Recording a play must push the new aggregate into any
    // visible `track_list` row tagged with the same `library_id`, without
    // the user having to navigate away to force a rebuild.
    let mut app = app_with_now_playing(42, 240_000);
    let mut info = TrackInfo::new(
        "Song".into(),
        "Artist".into(),
        "Album".into(),
        Some(240_000),
        None,
        Some("/tmp/song.mp3".into()),
        None,
        None,
        None,
        false,
    );
    info.library_id = Some(42);
    info.play_count = Some(0);
    app.lists.track_list = vec![info];
    let mut tx: Vec<AudioCommand> = Vec::new();
    app.handle_audio_event(
        AudioEvent::Position {
            elapsed_ms: 130_000,
        },
        &mut tx,
    );
    assert_eq!(
        app.lists.track_list[0].play_count,
        Some(1),
        "track_list row must reflect the just-recorded play live"
    );
    assert!(
        app.lists.track_list[0].last_played_at_ms.is_some(),
        "last_played_at_ms must update live"
    );
}

#[test]
fn record_skip_refreshes_visible_track_list_row() {
    let mut app = app_with_now_playing(99, 240_000);
    let mut info = TrackInfo::new(
        "Song".into(),
        "Artist".into(),
        "Album".into(),
        Some(240_000),
        None,
        Some("/tmp/song.mp3".into()),
        None,
        None,
        None,
        false,
    );
    info.library_id = Some(99);
    info.skip_count = None;
    app.lists.track_list = vec![info];
    let mut tx: Vec<AudioCommand> = Vec::new();
    // Listen briefly then skip.
    app.handle_audio_event(AudioEvent::Position { elapsed_ms: 5_000 }, &mut tx);
    app.stop_playback(&mut tx);
    assert_eq!(
        app.lists.track_list[0].skip_count,
        Some(1),
        "track_list row must reflect the just-recorded skip live"
    );
}

#[test]
fn refresh_play_stats_for_id_only_touches_matching_rows() {
    // Multiple rows in track_list with different library_ids: refreshing
    // one must not stomp the others.
    let mut app = app_with_now_playing(1, 240_000);
    let mk = |id: u64, plays: u32| {
        let mut t = TrackInfo::new(
            format!("Song-{id}"),
            "Artist".into(),
            "Album".into(),
            Some(240_000),
            None,
            Some("/tmp/song.mp3".into()),
            None,
            None,
            None,
            false,
        );
        t.library_id = Some(id);
        t.play_count = Some(plays);
        t
    };
    app.lists.track_list = vec![mk(1, 0), mk(2, 5), mk(3, 7)];
    app.player.local_plays.record_play(1, 1_000);
    app.refresh_play_stats_for_id(1);
    assert_eq!(app.lists.track_list[0].play_count, Some(1), "row 1 refreshed");
    assert_eq!(
        app.lists.track_list[1].play_count,
        Some(5),
        "row 2 untouched (library_id mismatch)"
    );
    assert_eq!(
        app.lists.track_list[2].play_count,
        Some(7),
        "row 3 untouched (library_id mismatch)"
    );
}

#[test]
fn position_at_threshold_records_play_once() {
    // 4-min track: threshold is 2 min. First Position past threshold
    // should bump play_count to 1; subsequent ones don't double-count.
    let mut app = app_with_now_playing(42, 240_000);
    let mut tx: Vec<AudioCommand> = Vec::new();
    app.handle_audio_event(
        AudioEvent::Position {
            elapsed_ms: 119_999,
        },
        &mut tx,
    );
    assert_eq!(
        app.player.local_plays.get(42).map(|p| p.play_count).unwrap_or(0),
        0,
        "below threshold must not count"
    );

    app.handle_audio_event(
        AudioEvent::Position {
            elapsed_ms: 120_000,
        },
        &mut tx,
    );
    assert_eq!(app.player.local_plays.get(42).unwrap().play_count, 1);

    app.handle_audio_event(
        AudioEvent::Position {
            elapsed_ms: 200_000,
        },
        &mut tx,
    );
    app.handle_audio_event(
        AudioEvent::Position {
            elapsed_ms: 230_000,
        },
        &mut tx,
    );
    assert_eq!(
        app.player.local_plays.get(42).unwrap().play_count,
        1,
        "post-threshold ticks must not double-count"
    );
}

#[test]
fn position_threshold_caps_at_four_minutes() {
    // 20-min track: 50% would be 10 min, but cap is 4 min.
    let mut app = app_with_now_playing(7, 1_200_000);
    let mut tx: Vec<AudioCommand> = Vec::new();
    app.handle_audio_event(
        AudioEvent::Position {
            elapsed_ms: 239_999,
        },
        &mut tx,
    );
    assert_eq!(app.player.local_plays.get(7).map(|p| p.play_count).unwrap_or(0), 0);
    app.handle_audio_event(
        AudioEvent::Position {
            elapsed_ms: 240_000,
        },
        &mut tx,
    );
    assert_eq!(app.player.local_plays.get(7).unwrap().play_count, 1);
}

#[test]
fn track_ended_records_play_for_short_clips() {
    // 1.5s clip: threshold is 750ms but Position events poll at ~250ms,
    // so a tiny race could miss the threshold. TrackEnded is the safety
    // net.
    let mut app = app_with_now_playing(99, 1_500);
    let mut tx: Vec<AudioCommand> = Vec::new();
    app.handle_audio_event(AudioEvent::TrackEnded, &mut tx);
    assert_eq!(app.player.local_plays.get(99).unwrap().play_count, 1);
}

#[test]
fn track_ended_after_play_recorded_is_idempotent() {
    let mut app = app_with_now_playing(1, 240_000);
    let mut tx: Vec<AudioCommand> = Vec::new();
    app.handle_audio_event(
        AudioEvent::Position {
            elapsed_ms: 130_000,
        },
        &mut tx,
    );
    assert_eq!(app.player.local_plays.get(1).unwrap().play_count, 1);
    // Track ends after threshold; play_count stays 1.
    app.handle_audio_event(AudioEvent::TrackEnded, &mut tx);
    assert_eq!(app.player.local_plays.get(1).unwrap().play_count, 1);
}

#[test]
fn next_before_threshold_records_skip() {
    let mut app = app_with_now_playing(5, 240_000);
    let mut tx: Vec<AudioCommand> = Vec::new();
    // Listen for 30s, then skip.
    app.handle_audio_event(AudioEvent::Position { elapsed_ms: 30_000 }, &mut tx);
    app.next_track(&mut tx);
    let entry = app.player.local_plays.get(5).unwrap();
    assert_eq!(entry.play_count, 0);
    assert_eq!(entry.skip_count, 1);
}

#[test]
fn next_after_threshold_does_not_record_skip() {
    let mut app = app_with_now_playing(5, 240_000);
    let mut tx: Vec<AudioCommand> = Vec::new();
    app.handle_audio_event(
        AudioEvent::Position {
            elapsed_ms: 130_000,
        },
        &mut tx,
    );
    // Skipping after the threshold is a play, not a skip.
    app.next_track(&mut tx);
    let entry = app.player.local_plays.get(5).unwrap();
    assert_eq!(entry.play_count, 1);
    assert_eq!(entry.skip_count, 0);
}

#[test]
fn prev_before_3s_with_index_zero_restarts_no_skip() {
    // Pressing prev within the first 3s with track_index=0 restarts
    // the same track — same session, no skip recorded.
    let mut app = app_with_now_playing(8, 240_000);
    let mut tx: Vec<AudioCommand> = Vec::new();
    app.handle_audio_event(AudioEvent::Position { elapsed_ms: 1_000 }, &mut tx);
    app.prev_track(&mut tx);
    let entry = app.player.local_plays.get(8);
    assert!(
        entry.is_none() || entry.unwrap().skip_count == 0,
        "restart-current must not record a skip"
    );
}

#[test]
fn stop_before_threshold_records_skip() {
    let mut app = app_with_now_playing(11, 240_000);
    let mut tx: Vec<AudioCommand> = Vec::new();
    app.handle_audio_event(AudioEvent::Position { elapsed_ms: 10_000 }, &mut tx);
    app.stop_playback(&mut tx);
    assert_eq!(app.player.local_plays.get(11).unwrap().skip_count, 1);
    assert!(app.player.now_playing.is_none());
}

#[test]
fn playback_error_records_neither() {
    let mut app = app_with_now_playing(13, 240_000);
    let mut tx: Vec<AudioCommand> = Vec::new();
    app.handle_audio_event(AudioEvent::Position { elapsed_ms: 30_000 }, &mut tx);
    app.handle_audio_event(AudioEvent::PlaybackError("boom".into()), &mut tx);
    let entry = app.player.local_plays.get(13);
    assert!(
        entry.is_none() || (entry.unwrap().play_count == 0 && entry.unwrap().skip_count == 0)
    );
    assert!(app.player.now_playing.is_none());
}

#[test]
fn replay_after_stop_starts_fresh_session() {
    // After stop+replay, the second listen-through should bump
    // play_count again (not be blocked by the prior session's flag).
    let mut app = app_with_now_playing(17, 240_000);
    let mut tx: Vec<AudioCommand> = Vec::new();
    app.handle_audio_event(
        AudioEvent::Position {
            elapsed_ms: 130_000,
        },
        &mut tx,
    );
    assert_eq!(app.player.local_plays.get(17).unwrap().play_count, 1);

    // Simulate stop + manual replay (the player goes through
    // play_selected_track; here we install a fresh NowPlaying directly).
    app.player.now_playing = Some(NowPlaying {
        track_name: "Song".into(),
        artist: "Artist".into(),
        album: "Album".into(),
        duration_ms: 240_000,
        elapsed_ms: 0,
        state: PlaybackState::Playing,
        track_index: 0,
        playlist: vec![],
        paused_frame: None,
        track_id: Some(17),
        counted: false,
        year: None,
        metadata_marquee: String::new(),
    });
    app.handle_audio_event(
        AudioEvent::Position {
            elapsed_ms: 130_000,
        },
        &mut tx,
    );
    assert_eq!(app.player.local_plays.get(17).unwrap().play_count, 2);
}

#[test]
fn no_track_id_skips_recording_silently() {
    // Device-mode rows don't resolve a library track_id. The threshold
    // must still flip `counted` (so we don't keep checking), but
    // local_plays stays empty.
    let mut app = app_with_now_playing(0, 240_000);
    if let Some(np) = app.player.now_playing.as_mut() {
        np.track_id = None;
    }
    let mut tx: Vec<AudioCommand> = Vec::new();
    app.handle_audio_event(
        AudioEvent::Position {
            elapsed_ms: 130_000,
        },
        &mut tx,
    );
    assert!(app.player.local_plays.is_empty());
    assert!(app.player.now_playing.as_ref().unwrap().counted);
}

#[test]
fn play_selected_track_resolves_track_number_prefixed_name() {
    // A device-mode TrackInfo with name "01 Song" must resolve to the
    // library track titled "Song" so the play actually gets recorded.
    let mut app = new_app();
    let track = Track {
        id: 99,
        name: "Song".into(),
        artist: "Artist".into(),
        album: "Album".into(),
        total_time_ms: Some(240_000),
        ..Default::default()
    };
    app.library = Some(library_of(vec![track]));
    // Build a TrackInfo as device_tracks_to_info would: name carries
    // the leading track-number prefix from the device filename.
    let info = TrackInfo::new(
        "01 Song".into(),
        "Artist".into(),
        "Album".into(),
        Some(240_000),
        None,
        Some("/tmp/song.mp3".into()),
        None,
        None,
        None,
        false,
    );
    app.lists.track_list = vec![info];
    app.lists.track_selected = 0;
    let mut tx: Vec<AudioCommand> = Vec::new();
    app.play_selected_track(&mut tx);
    assert_eq!(
        app.player.now_playing.as_ref().and_then(|np| np.track_id),
        Some(99),
        "device-mode TrackInfo with track-number prefix must still resolve a library id"
    );
}

fn app_with_library_for_merge() -> App {
    let mut app = new_app();
    let track = Track {
        id: 42,
        name: "Smells Like Teen Spirit".into(),
        artist: "Nirvana".into(),
        album: "Nevermind".into(),
        ..Default::default()
    };
    app.library = Some(library_of(vec![track]));
    app.device.family = Some(DeviceFamily::Zune);
    app.device.serial = Some("ABC123".into());
    app
}

fn matching_device_track(play: u32, skip: u32) -> DeviceEntry {
    DeviceEntry {
        object_id: 9001,
        format: "MP3".to_string(),
        name: "Nirvana/Nevermind/01 Smells Like Teen Spirit.mp3".to_string(),
        play_count: Some(play),
        skip_count: Some(skip),
        ..Default::default()
    }
}

#[test]
fn merge_walks_user_example() {
    // 2 plays in the player, then connect device with 7 plays
    // → aggregate 9. Reconnect with no change → still 9.
    let mut app = app_with_library_for_merge();
    app.player.local_plays.record_play(42, 100);
    app.player.local_plays.record_play(42, 200);
    assert_eq!(app.player.local_plays.get(42).unwrap().play_count, 2);

    app.device.tracks = vec![matching_device_track(7, 0)];
    app.merge_device_plays_into_local();
    assert_eq!(app.player.local_plays.get(42).unwrap().play_count, 9);

    // Reconnect, device still reports 7 — count holds at 9.
    app.merge_device_plays_into_local();
    assert_eq!(app.player.local_plays.get(42).unwrap().play_count, 9);
}

#[test]
fn merge_subsequent_observation_uses_delta_only() {
    let mut app = app_with_library_for_merge();
    app.device.tracks = vec![matching_device_track(5, 0)];
    app.merge_device_plays_into_local();
    assert_eq!(app.player.local_plays.get(42).unwrap().play_count, 5);

    // Device went 5 → 8 between syncs.
    app.device.tracks = vec![matching_device_track(8, 0)];
    app.merge_device_plays_into_local();
    assert_eq!(app.player.local_plays.get(42).unwrap().play_count, 8);
}

#[test]
fn merge_handles_track_number_prefix_in_filename() {
    // Library Track.name is "Smells Like Teen Spirit" (from ID3 title);
    // device filename is "01 Smells Like Teen Spirit.mp3". They must
    // still match via `strip_track_number` normalization.
    let mut app = app_with_library_for_merge();
    app.device.tracks = vec![matching_device_track(3, 1)];
    app.merge_device_plays_into_local();
    assert_eq!(app.player.local_plays.get(42).unwrap().play_count, 3);
    assert_eq!(app.player.local_plays.get(42).unwrap().skip_count, 1);
}

#[test]
fn merge_no_op_without_library() {
    let mut app = new_app();
    app.device.family = Some(DeviceFamily::Zune);
    app.device.tracks = vec![matching_device_track(5, 0)];
    app.merge_device_plays_into_local();
    // No library yet — nothing should land in the sidecar.
    assert!(app.player.local_plays.is_empty());
}

#[test]
fn merge_no_op_without_device_family() {
    let mut app = app_with_library_for_merge();
    app.device.family = None; // device hasn't connected
    app.device.tracks = vec![matching_device_track(5, 0)];
    app.merge_device_plays_into_local();
    assert!(app.player.local_plays.is_empty());
}

#[test]
fn merge_no_op_when_no_library_match() {
    let mut app = app_with_library_for_merge();
    app.device.tracks = vec![DeviceEntry {
        object_id: 5000,
        format: "MP3".into(),
        name: "Not An Artist/Some Album/track.mp3".into(),
        play_count: Some(10),
        skip_count: Some(2),
        ..Default::default()
    }];
    app.merge_device_plays_into_local();
    assert!(app.player.local_plays.is_empty());
}
