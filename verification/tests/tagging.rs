use zytunes_tui::app::{App, Config, Host};
use zytunes_tui::commands::BgCommand;
use zytunes_tui::input::{KeyCode, KeyEvent};
use zytunes_tui::library::Library;
use zytunes_tui::model::Track;
use zytunes_tui::tag_model::{
    AcoustIdHit, AcoustIdRecording, AcoustIdRelease, ArtistCredit, DiffScope,
    RecordingLookupResponse, RecordingReleaseRef, ReleaseSearchHit, TagManagerPhase,
    acoustid_hits_to_release_hits, recording_releases_to_search_hits,
};
use zytunes_tui::tracks::{AlbumInfo, TrackInfo};
use zytunes_tui::types::{BrowseMode, Panel};

fn new_app() -> App {
    App::new(Config::default(), Host::new(12, 12))
}

/// The first command that was sent, if any.
fn next<T>(sent: &mut Vec<T>) -> Result<T, ()> {
    if sent.is_empty() {
        Err(())
    } else {
        Ok(sent.remove(0))
    }
}

fn key(code: KeyCode) -> KeyEvent {
    KeyEvent { code, ctrl: false }
}

fn library_of(tracks: Vec<Track>) -> Library {
    Library { tracks, artists: vec![], albums: vec![], music_folder: None }
}

fn make_app_with_library_for_tagmgr() -> App {
    let mut app = new_app();
    // Seed an AlbumInfo + TrackInfo so open_tag_manager has something
    // to grab regardless of which panel is focused.
    app.lists.album_list.push(AlbumInfo {
        name: "Album X".into(),
        artist: "Artist X".into(),
        year: Some(1969),
    });
    app.lists.album_selected = 0;
    app.lists.track_list.push(TrackInfo::new(
        "Track Y".into(),
        "Artist X".into(),
        "Album X".into(),
        None,
        None,
        Some("/music/Artist X/Album X/01 - Track Y.mp3".into()),
        None,
        None,
        None,
        false,
    ));
    app.lists.track_selected = 0;
    app.library = Some(library_of(vec![]));
    app
}

#[test]
fn hotkey_m_opens_tag_manager_for_album_scope() {
    let mut app = make_app_with_library_for_tagmgr();
    app.nav.browse_mode = BrowseMode::Library;
    app.nav.active_panel = Panel::Albums;
    app.open_tag_manager(&mut Vec::new());
    let overlay = app.tags.manager.as_ref().expect("overlay should be open");
    assert_eq!(overlay.scope, DiffScope::Album);
    assert_eq!(overlay.query_artist, "Artist X");
    assert_eq!(overlay.query_album, "Album X");
    assert!(overlay.source_track_name.is_none());
}

#[test]
fn hotkey_m_opens_tag_manager_for_track_scope() {
    let mut app = make_app_with_library_for_tagmgr();
    app.nav.browse_mode = BrowseMode::Library;
    app.nav.active_panel = Panel::TrackList;
    app.open_tag_manager(&mut Vec::new());
    let overlay = app.tags.manager.as_ref().expect("overlay should be open");
    assert_eq!(overlay.scope, DiffScope::Track);
    assert_eq!(overlay.source_track_name.as_deref(), Some("Track Y"));
}

#[test]
fn hotkey_m_ignored_outside_library_mode() {
    let mut app = make_app_with_library_for_tagmgr();
    app.nav.browse_mode = BrowseMode::Device;
    app.nav.active_panel = Panel::Albums;
    app.open_tag_manager(&mut Vec::new());
    assert!(app.tags.manager.is_none());
}

#[test]
fn hotkey_m_ignored_when_library_missing() {
    let mut app = make_app_with_library_for_tagmgr();
    app.library = None;
    app.nav.browse_mode = BrowseMode::Library;
    app.nav.active_panel = Panel::Albums;
    app.open_tag_manager(&mut Vec::new());
    assert!(app.tags.manager.is_none());
}

#[test]
fn tag_manager_phase_advances_on_mb_search_results() {
    let mut app = make_app_with_library_for_tagmgr();
    app.nav.browse_mode = BrowseMode::Library;
    app.nav.active_panel = Panel::Albums;
    app.open_tag_manager(&mut Vec::new());
    // SearchPending immediately after open (command was sent to a dummy
    // channel — we drive the worker side manually below).
    assert_eq!(
        app.tags.manager.as_ref().unwrap().phase,
        TagManagerPhase::SearchPending
    );
    let token = app.tags.manager.as_ref().unwrap().pending_request_token;
    // Feed simulated results.
    app.handle_mb_search_results(token, Ok(vec![ReleaseSearchHit {
            id: "rel-1".into(),
            score: 100,
            title: "Album X".into(),
            date: Some("1969".into()),
            country: Some("GB".into()),
            artist_credit: vec![],
            release_group: None,
            track_count: Some(10),
        }]));
    let overlay = app.tags.manager.as_ref().unwrap();
    assert_eq!(overlay.phase, TagManagerPhase::SearchResults);
    assert_eq!(overlay.search_hits.len(), 1);
}

#[test]
fn tag_manager_search_failure_moves_to_error_phase() {
    let mut app = make_app_with_library_for_tagmgr();
    app.nav.browse_mode = BrowseMode::Library;
    app.nav.active_panel = Panel::Albums;
    app.open_tag_manager(&mut Vec::new());
    let token = app.tags.manager.as_ref().unwrap().pending_request_token;
    app.handle_mb_search_results(token, Err("network down".into()));
    let overlay = app.tags.manager.as_ref().unwrap();
    assert_eq!(overlay.phase, TagManagerPhase::Error);
    assert_eq!(overlay.error.as_deref(), Some("network down"));
}

#[test]
fn open_tag_manager_uses_lookup_when_library_has_release_mbid() {
    // When the library already knows the mb_release_id (e.g. Picard-tagged
    // file) we skip search and go directly to MbReleaseDetails. This is
    // both a perf win and the only thing that works on local MB mirrors
    // that have the DB populated but no Solr search index running.
    let mut tx: Vec<BgCommand> = Vec::new();
    let mut app = make_app_with_library_for_tagmgr();
    app.nav.browse_mode = BrowseMode::Library;
    app.nav.active_panel = Panel::Albums;
    // Replace the empty library with one that carries an mb_release_id
    // for the album the test selects.
    app.library = Some(library_of(vec![Track {
            id: 1,
            name: "Track Y".into(),
            artist: "Artist X".into(),
            album: "Album X".into(),
            mb_release_id: Some("rel-known-mbid".into()),
            ..Default::default()
        }]));
    app.open_tag_manager(&mut tx);

    // Phase should be LoadingRelease, not SearchPending.
    let overlay = app.tags.manager.as_ref().unwrap();
    assert_eq!(overlay.phase, TagManagerPhase::LoadingRelease);

    // The command on the wire should be MbReleaseDetails with the known MBID,
    // not MbSearchReleases.
    let cmd = next(&mut tx).expect("a command should have been sent");
    match cmd {
        BgCommand::MbReleaseDetails { mbid, .. } => {
            assert_eq!(mbid, "rel-known-mbid");
        }
        _ => panic!("expected MbReleaseDetails on the channel"),
    }
}

#[test]
fn open_tag_manager_dispatches_acoustid_when_no_mbid_but_fingerprint_and_key() {
    // No mb_release_id, but the library track carries acoustic_id +
    // total_time_ms AND the user has acoustid_app_key configured →
    // AcoustIdLookup is the right next step, not MbSearchReleases.
    let mut tx: Vec<BgCommand> = Vec::new();
    let mut app = make_app_with_library_for_tagmgr();
    app.nav.browse_mode = BrowseMode::Library;
    app.nav.active_panel = Panel::Albums;
    app.tags.acoustid_app_key = Some("test-key".into());
    app.library = Some(library_of(vec![Track {
            id: 1,
            name: "Track Y".into(),
            artist: "Artist X".into(),
            album: "Album X".into(),
            acoustic_id: Some("AQADtBRsomething".into()),
            total_time_ms: Some(240_000),
            ..Default::default()
        }]));
    app.open_tag_manager(&mut tx);
    let cmd = next(&mut tx).expect("a command should have been sent");
    match cmd {
        BgCommand::AcoustIdLookup {
            fingerprint,
            duration_secs,
            app_key,
            ..
        } => {
            assert_eq!(fingerprint, "AQADtBRsomething");
            assert_eq!(duration_secs, 240);
            assert_eq!(app_key, "test-key");
        }
        _ => panic!("expected AcoustIdLookup on the channel"),
    }
}

#[test]
fn open_tag_manager_skips_acoustid_when_app_key_unset() {
    // Same library setup but no app_key → fall through to MB search.
    let mut tx: Vec<BgCommand> = Vec::new();
    let mut app = make_app_with_library_for_tagmgr();
    app.nav.browse_mode = BrowseMode::Library;
    app.nav.active_panel = Panel::Albums;
    app.tags.acoustid_app_key = None;
    app.library = Some(library_of(vec![Track {
            id: 1,
            name: "Track Y".into(),
            artist: "Artist X".into(),
            album: "Album X".into(),
            acoustic_id: Some("AQADfp".into()),
            total_time_ms: Some(240_000),
            ..Default::default()
        }]));
    app.open_tag_manager(&mut tx);
    let cmd = next(&mut tx).expect("a command should have been sent");
    assert!(
        matches!(cmd, BgCommand::MbSearchReleases { .. }),
        "expected MbSearchReleases when no AcoustID key"
    );
}

#[test]
fn open_tag_manager_falls_back_to_search_when_no_mbid() {
    // No mb_release_id on any library track → fall back to search-first.
    let mut tx: Vec<BgCommand> = Vec::new();
    let mut app = make_app_with_library_for_tagmgr();
    app.nav.browse_mode = BrowseMode::Library;
    app.nav.active_panel = Panel::Albums;
    app.open_tag_manager(&mut tx);

    let overlay = app.tags.manager.as_ref().unwrap();
    assert_eq!(overlay.phase, TagManagerPhase::SearchPending);
    let cmd = next(&mut tx).expect("a command should have been sent");
    assert!(
        matches!(cmd, BgCommand::MbSearchReleases { .. }),
        "expected MbSearchReleases when library has no MBID"
    );
}

#[test]
fn tag_manager_drops_stale_mb_search_response() {
    // After closing and reopening the overlay, the MB search hits of the
    // previous open must not reach it: responses with another token are
    // dropped without advancing the phase.
    let mut app = make_app_with_library_for_tagmgr();
    app.nav.browse_mode = BrowseMode::Library;
    app.nav.active_panel = Panel::Albums;
    app.open_tag_manager(&mut Vec::new());
    let stale_token = app.tags.manager.as_ref().unwrap().pending_request_token;
    // Simulate close + reopen — both increment the token.
    app.close_tag_manager();
    app.open_tag_manager(&mut Vec::new());
    let current_token = app.tags.manager.as_ref().unwrap().pending_request_token;
    assert_ne!(stale_token, current_token);

    // Feed the stale token — should be ignored, phase must remain Pending.
    app.handle_mb_search_results(stale_token, Ok(vec![ReleaseSearchHit {
            id: "rel-stale".into(),
            score: 0,
            title: "STALE".into(),
            date: None,
            country: None,
            artist_credit: vec![],
            release_group: None,
            track_count: None,
        }]));
    let overlay = app.tags.manager.as_ref().unwrap();
    assert_eq!(
        overlay.phase,
        TagManagerPhase::SearchPending,
        "stale response must not advance the phase"
    );
    assert!(
        overlay.search_hits.is_empty(),
        "stale hits must not populate the overlay"
    );
}

#[test]
fn acoustid_resolved_with_hits_advances_to_search_results() {
    let mut app = make_app_with_library_for_tagmgr();
    app.nav.browse_mode = BrowseMode::Library;
    app.nav.active_panel = Panel::Albums;
    app.tags.acoustid_app_key = Some("test-key".into());
    app.library = Some(library_of(vec![Track {
            id: 1,
            name: "Track Y".into(),
            artist: "Artist X".into(),
            album: "Album X".into(),
            acoustic_id: Some("fp1".into()),
            total_time_ms: Some(240_000),
            ..Default::default()
        }]));
    app.open_tag_manager(&mut Vec::new());
    let token = app.tags.manager.as_ref().unwrap().pending_request_token;
    app.handle_acoustid_resolved(token, Ok(vec![AcoustIdHit {
            id: "ac1".into(),
            rank: 0.95f64.to_bits(),
            score: 95,
            recordings: vec![AcoustIdRecording {
                id: "rec1".into(),
                title: Some("Track Y".into()),
                artists: vec!["Artist X".into()],
                releases: vec![
                    AcoustIdRelease {
                        id: "rel-a".into(),
                        title: Some("Album X".into()),
                    },
                    AcoustIdRelease {
                        id: "rel-b".into(),
                        title: Some("Compilation X".into()),
                    },
                ],
            }],
        }]));
    let overlay = app.tags.manager.as_ref().unwrap();
    assert_eq!(overlay.phase, TagManagerPhase::SearchResults);
    // Two releases → two synthesized search hits, both at the
    // recording's score scaled to 0–100.
    assert_eq!(overlay.search_hits.len(), 2);
    assert_eq!(overlay.search_hits[0].score, 95);
    assert!(overlay
        .search_hits
        .iter()
        .any(|h| h.id == "rel-a" && h.title == "Album X"));
    assert!(overlay
        .search_hits
        .iter()
        .any(|h| h.id == "rel-b" && h.title == "Compilation X"));
}

#[test]
fn acoustid_resolved_empty_hits_lands_on_error_phase() {
    let mut app = make_app_with_library_for_tagmgr();
    app.nav.browse_mode = BrowseMode::Library;
    app.nav.active_panel = Panel::Albums;
    app.tags.acoustid_app_key = Some("test-key".into());
    app.library = Some(library_of(vec![Track {
            id: 1,
            name: "Track Y".into(),
            artist: "Artist X".into(),
            album: "Album X".into(),
            acoustic_id: Some("fp1".into()),
            total_time_ms: Some(240_000),
            ..Default::default()
        }]));
    app.open_tag_manager(&mut Vec::new());
    let token = app.tags.manager.as_ref().unwrap().pending_request_token;
    app.handle_acoustid_resolved(token, Ok(vec![]));
    let overlay = app.tags.manager.as_ref().unwrap();
    assert_eq!(overlay.phase, TagManagerPhase::Error);
    assert!(overlay
        .error
        .as_deref()
        .is_some_and(|e| e.contains("no matches")));
}

#[test]
fn acoustid_hits_without_releases_dispatch_mb_recording_lookup() {
    // AcoustID hits that name a recording but carry no releases are
    // followed up with an MB recording-releases lookup, since MB itself
    // knows the links AcoustID didn't include.
    let mut app = make_app_with_library_for_tagmgr();
    app.nav.browse_mode = BrowseMode::Library;
    app.nav.active_panel = Panel::Albums;
    app.tags.acoustid_app_key = Some("test-key".into());
    app.library = Some(library_of(vec![Track {
            id: 1,
            name: "Track Y".into(),
            artist: "Artist X".into(),
            album: "Album X".into(),
            acoustic_id: Some("fp1".into()),
            total_time_ms: Some(240_000),
            ..Default::default()
        }]));
    app.open_tag_manager(&mut Vec::new());
    let token = app.tags.manager.as_ref().unwrap().pending_request_token;
    app.handle_acoustid_resolved(token, Ok(vec![AcoustIdHit {
            id: "ac1".into(),
            rank: 0.9f64.to_bits(),
            score: 90,
            recordings: vec![AcoustIdRecording {
                id: "rec-no-releases".into(),
                title: Some("Track Y".into()),
                artists: vec![],
                releases: vec![],
            }],
        }]));
    let overlay = app.tags.manager.as_ref().unwrap();
    // Phase stays in SearchPending while the follow-up is in flight
    // (we never wrote a new phase — the MB recording lookup is the
    // current outstanding work).
    assert_eq!(overlay.phase, TagManagerPhase::SearchPending);
    // A MbRecordingReleases command should be pending dispatch.
    let recording_cmd = app
        .out.pending_bg_commands
        .iter()
        .find_map(|c| match c {
            BgCommand::MbRecordingReleases { recording_mbid, .. } => {
                Some(recording_mbid.clone())
            }
            _ => None,
        })
        .expect("MbRecordingReleases command should be queued");
    assert_eq!(recording_cmd, "rec-no-releases");
}

#[test]
fn acoustid_with_no_recordings_falls_back_to_mb_search() {
    // The "audio is in AcoustID but isn't linked to MB" case: AcoustID
    // returned a hit but every recording slot is empty, so there's no
    // MBID to follow up on. Instead of dead-ending the user on the
    // Error screen, the overlay should fall through to a plain MB
    // artist+album search — same path the user would have taken if
    // they had no AcoustID key at all.
    let mut app = make_app_with_library_for_tagmgr();
    app.nav.browse_mode = BrowseMode::Library;
    app.nav.active_panel = Panel::Albums;
    app.tags.acoustid_app_key = Some("k".into());
    app.library = Some(library_of(vec![Track {
            id: 1,
            name: "Track Y".into(),
            artist: "Artist X".into(),
            album: "Album X".into(),
            acoustic_id: Some("fp1".into()),
            total_time_ms: Some(240_000),
            ..Default::default()
        }]));
    app.open_tag_manager(&mut Vec::new());
    let token = app.tags.manager.as_ref().unwrap().pending_request_token;
    app.handle_acoustid_resolved(token, Ok(vec![AcoustIdHit {
            id: "ac1".into(),
            rank: 0.9f64.to_bits(),
            score: 90,
            recordings: vec![], // no MBID at all to follow up on
        }]));
    let overlay = app.tags.manager.as_ref().unwrap();
    assert_ne!(
        overlay.phase,
        TagManagerPhase::Error,
        "fallback path must not dead-end the user on Error"
    );
    // The fallback search command should be queued, scoped to the
    // overlay's source artist/album.
    let search = app
        .out.pending_bg_commands
        .iter()
        .find_map(|c| match c {
            BgCommand::MbSearchReleases { artist, album, .. } => {
                Some((artist.clone(), album.clone()))
            }
            _ => None,
        })
        .expect("MbSearchReleases fallback should be queued");
    assert_eq!(search.0, "Artist X");
    assert_eq!(search.1, "Album X");
}

#[test]
fn mb_recording_releases_lands_releases_into_search_results() {
    // Once the recording-releases lookup completes, the response
    // turns into a SearchResults row list the user picks from.
    let mut app = make_app_with_library_for_tagmgr();
    app.nav.browse_mode = BrowseMode::Library;
    app.nav.active_panel = Panel::Albums;
    // Open the overlay so there's an overlay to deliver into. We
    // don't actually go through the AcoustID dispatch — just simulate
    // the second-leg event by stamping the matching token.
    app.open_tag_manager(&mut Vec::new());
    let token = app.tags.manager.as_ref().unwrap().pending_request_token;
    app.handle_mb_recording_releases(token, Ok(RecordingLookupResponse {
            id: "rec1".into(),
            title: "Track Y".into(),
            artist_credit: vec![ArtistCredit {
                name: "Artist X".into(),
                joinphrase: None,
            }],
            releases: vec![
                RecordingReleaseRef {
                    id: "rel-x".into(),
                    title: "Album X".into(),
                    date: Some("1977".into()),
                    country: Some("GB".into()),
                    release_group: None,
                },
                RecordingReleaseRef {
                    id: "rel-y".into(),
                    title: "Compilation Y".into(),
                    date: Some("1988".into()),
                    country: Some("US".into()),
                    release_group: None,
                },
            ],
        }));
    let overlay = app.tags.manager.as_ref().unwrap();
    assert_eq!(overlay.phase, TagManagerPhase::SearchResults);
    assert_eq!(overlay.search_hits.len(), 2);
    assert!(overlay.search_hits.iter().any(|h| h.id == "rel-x"));
    assert!(overlay.search_hits.iter().any(|h| h.id == "rel-y"));
    // Score is fixed at 90 for MB-direct fallback rows (per
    // recording_releases_to_search_hits).
    assert!(overlay.search_hits.iter().all(|h| h.score == 90));
}

#[test]
fn acoustid_hits_to_release_hits_falls_back_to_source_artist_when_artists_empty() {
    // AcoustID legitimately returns recordings with no `artists` field
    // populated (data-quality variance). Without a fallback the picker
    // shows a blank Artist column for every row, which reads as
    // "[unknown]" to the user. The library's known artist is the best
    // signal we have at this point, so verify it gets dropped in.
    let hits = vec![AcoustIdHit {
        id: "ai1".into(),
        rank: 0.95f64.to_bits(),
            score: 95,
        recordings: vec![AcoustIdRecording {
            id: "rec1".into(),
            title: Some("Track Z".into()),
            artists: vec![], // <-- the crash-test case
            releases: vec![AcoustIdRelease {
                id: "rel-z".into(),
                title: Some("Album Z".into()),
            }],
        }],
    }];
    let out = acoustid_hits_to_release_hits(&hits, "Library Artist");
    assert_eq!(out.len(), 1);
    assert_eq!(out[0].artist_credit.len(), 1);
    assert_eq!(out[0].artist_credit[0].name, "Library Artist");

    // Empty fallback still maps to empty (don't fabricate text out of
    // thin air — the UI layer has its own "(unknown artist)" placeholder
    // that's clearly a placeholder rather than a misleading real value).
    let out = acoustid_hits_to_release_hits(&hits, "");
    assert!(out[0].artist_credit.is_empty());
}

#[test]
fn recording_releases_to_search_hits_falls_back_to_source_artist_when_credit_empty() {
    let rec = RecordingLookupResponse {
        id: "rec1".into(),
        title: "Track".into(),
        artist_credit: vec![],
        releases: vec![RecordingReleaseRef {
            id: "rel1".into(),
            title: "Album".into(),
            date: None,
            country: None,
            release_group: None,
        }],
    };
    let out = recording_releases_to_search_hits(&rec, "Library Artist");
    assert_eq!(out.len(), 1);
    assert_eq!(out[0].artist_credit.len(), 1);
    assert_eq!(out[0].artist_credit[0].name, "Library Artist");
}

#[test]
fn diff_preview_s_key_drops_to_search_input() {
    // Re-tagging flow: user lands on the diff via the auto-resolved
    // MBID, sees the proposed values are junk (the existing MBID points
    // at a stale or `[unknown]`-artist release), and wants to search MB
    // for a different release. Pressing `s` must drop to SearchInput.
    let mut tx: Vec<BgCommand> = Vec::new();
    let mut app = make_app_with_library_for_tagmgr();
    app.nav.browse_mode = BrowseMode::Library;
    app.nav.active_panel = Panel::Albums;
    app.open_tag_manager(&mut tx);
    // Force the overlay into DiffPreview as if a release loaded.
    let overlay = app.tags.manager.as_mut().unwrap();
    overlay.phase = TagManagerPhase::DiffPreview;
    app.handle_tag_manager_key(key(KeyCode::Char('s')), &mut tx);
    assert_eq!(
        app.tags.manager.as_ref().unwrap().phase,
        TagManagerPhase::SearchInput,
    );
}

#[test]
fn diff_preview_esc_with_no_hits_skips_empty_picker() {
    // When the user arrives at the diff via the direct-MBID fast path,
    // there are zero search hits behind them. Esc must not strand them
    // on an empty SearchResults page — drop straight to SearchInput.
    let mut tx: Vec<BgCommand> = Vec::new();
    let mut app = make_app_with_library_for_tagmgr();
    app.nav.browse_mode = BrowseMode::Library;
    app.nav.active_panel = Panel::Albums;
    app.open_tag_manager(&mut tx);
    let overlay = app.tags.manager.as_mut().unwrap();
    overlay.phase = TagManagerPhase::DiffPreview;
    assert!(overlay.search_hits.is_empty());
    app.handle_tag_manager_key(key(KeyCode::Esc), &mut tx);
    assert_eq!(
        app.tags.manager.as_ref().unwrap().phase,
        TagManagerPhase::SearchInput,
    );
}

#[test]
fn search_results_s_key_drops_to_search_input() {
    // From the picker, `s` should re-open the query so the user can
    // adjust artist/album and run another search.
    let mut tx: Vec<BgCommand> = Vec::new();
    let mut app = make_app_with_library_for_tagmgr();
    app.nav.browse_mode = BrowseMode::Library;
    app.nav.active_panel = Panel::Albums;
    app.open_tag_manager(&mut tx);
    let overlay = app.tags.manager.as_mut().unwrap();
    overlay.phase = TagManagerPhase::SearchResults;
    app.handle_tag_manager_key(key(KeyCode::Char('s')), &mut tx);
    assert_eq!(
        app.tags.manager.as_ref().unwrap().phase,
        TagManagerPhase::SearchInput,
    );
}

#[test]
fn mb_recording_releases_with_no_releases_errors_cleanly() {
    let mut app = make_app_with_library_for_tagmgr();
    app.nav.browse_mode = BrowseMode::Library;
    app.nav.active_panel = Panel::Albums;
    app.open_tag_manager(&mut Vec::new());
    let token = app.tags.manager.as_ref().unwrap().pending_request_token;
    app.handle_mb_recording_releases(token, Ok(RecordingLookupResponse {
            id: "rec1".into(),
            title: "Track Y".into(),
            artist_credit: vec![],
            releases: vec![],
        }));
    let overlay = app.tags.manager.as_ref().unwrap();
    assert_eq!(overlay.phase, TagManagerPhase::Error);
    assert!(overlay
        .error
        .as_deref()
        .is_some_and(|e| e.contains("no releases")));
}
