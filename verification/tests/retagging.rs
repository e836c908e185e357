use zytunes_tui::app::{App, Config, Host};
use zytunes_tui::commands::BgCommand;
use zytunes_tui::input::{KeyCode, KeyEvent};
use zytunes_tui::library::Library;
use zytunes_tui::model::Track;
use zytunes_tui::tag_model::{
    AcoustIdHit, DiffScope, FieldDiff, ReleaseDiff, SearchInputField, TagManagerPhase, TrackTagDiff,
};
use zytunes_tui::tracks::{AlbumInfo, TrackInfo};
use zytunes_tui::types::{BrowseMode, Panel, SidebarEntry};

fn key(code: KeyCode) -> KeyEvent {
    KeyEvent { code, ctrl: false }
}

fn track(id: u64, name: &str, artist: &str, album: &str) -> Track {
    Track {
        id,
        name: name.into(),
        artist: artist.into(),
        album: album.into(),
        location: Some(format!("/music/{name}.mp3")),
        ..Default::default()
    }
}

fn library(tracks: Vec<Track>, artists: &[&str]) -> Library {
    Library {
        tracks,
        artists: artists.iter().map(|a| a.to_string()).collect(),
        albums: vec![],
        music_folder: Some("/music".into()),
    }
}

fn album_row(name: &str, artist: &str) -> AlbumInfo {
    AlbumInfo { name: name.into(), artist: artist.into(), year: None }
}

/// Two artists; the tag manager is open on the album of the first.
fn managing(scope: DiffScope) -> App {
    let mut app = App::new(Config::default(), Host::new(12, 12));
    app.library = Some(library(
        vec![track(1, "One", "Abe", "Old"), track(2, "Two", "Abe", "Old"), track(3, "Three", "Zed", "Other")],
        &["Abe", "Zed"],
    ));
    app.refresh_sidebar();
    app.lists.album_list = vec![album_row("Old", "Abe")];
    let rows = app.library.as_ref().unwrap().tracks.clone();
    app.lists.track_list = rows
        .iter()
        .map(|t| {
            TrackInfo::new(
                t.name.clone(),
                t.artist.clone(),
                t.album.clone(),
                None,
                None,
                t.location.clone(),
                None,
                None,
                None,
                false,
            )
        })
        .collect();
    app.nav.active_panel = match scope {
        DiffScope::Album => Panel::Albums,
        DiffScope::Track => Panel::TrackList,
    };
    let mut sent: Vec<BgCommand> = Vec::new();
    app.open_tag_manager(&mut sent);
    assert!(matches!(sent[0], BgCommand::MbSearchReleases { token: 1, .. }));
    assert_eq!(sent.len(), 1);
    app
}

fn field(name: &str, current: Option<&str>, proposed: Option<&str>, enabled: bool) -> FieldDiff {
    FieldDiff {
        name: name.into(),
        current: current.map(String::from),
        proposed: proposed.map(String::from),
        enabled,
    }
}

fn two_track_diff() -> ReleaseDiff {
    ReleaseDiff {
        tracks: vec![
            TrackTagDiff {
                src_path: "/music/One.mp3".into(),
                fields: vec![
                    field("Title", Some("One"), Some("Uno"), true),
                    field("Album", Some("Old"), Some("New"), true),
                ],
            },
            TrackTagDiff {
                src_path: "/music/Two.mp3".into(),
                fields: vec![
                    field("Title", Some("Two"), Some("Dos"), false),
                    field("Album Artist", None, Some("Zed"), false),
                ],
            },
        ],
    }
}

/// The diff is on the screen.
fn previewing(scope: DiffScope) -> App {
    let mut app = managing(scope);
    app.handle_mb_release_loaded(1, Ok(two_track_diff()));
    assert_eq!(app.tags.manager.as_ref().unwrap().phase, TagManagerPhase::DiffPreview);
    app
}

fn press(app: &mut App, code: KeyCode) -> Vec<BgCommand> {
    let mut sent: Vec<BgCommand> = Vec::new();
    app.handle_tag_manager_key(key(code), &mut sent);
    sent
}

fn phase(app: &App) -> TagManagerPhase {
    app.tags.manager.as_ref().expect("open").phase
}

fn error(app: &App) -> Option<&str> {
    app.tags.manager.as_ref().expect("open").error.as_deref()
}

#[test]
fn a_release_is_compared_with_the_tracks_of_the_selection() {
    let app = managing(DiffScope::Album);
    let (tracks, root) = app.diff_source().expect("tracks to retag");
    assert_eq!(tracks.iter().map(|t| t.id).collect::<Vec<_>>(), vec![1, 2]);
    assert_eq!(root, "/music");
    let app = managing(DiffScope::Track);
    let (tracks, _) = app.diff_source().expect("tracks to retag");
    assert_eq!(tracks.iter().map(|t| t.id).collect::<Vec<_>>(), vec![1]);
}

#[test]
fn the_configured_music_directory_comes_first() {
    let mut app = managing(DiffScope::Album);
    app.import.music_dir = Some("/srv/music".into());
    assert_eq!(app.diff_source().unwrap().1, "/srv/music");
}

#[test]
fn a_failed_release_lookup_is_shown() {
    let mut app = managing(DiffScope::Album);
    app.handle_mb_release_loaded(1, Err("timeout".into()));
    assert_eq!(phase(&app), TagManagerPhase::Error);
    assert_eq!(error(&app), Some("timeout"));
}

#[test]
fn a_release_needs_a_library_tracks_and_a_root() {
    let mut app = managing(DiffScope::Album);
    app.library = None;
    app.handle_mb_release_loaded(1, Ok(two_track_diff()));
    assert_eq!(error(&app), Some("library not loaded"));

    let mut app = managing(DiffScope::Album);
    app.library = Some(library(vec![], &[]));
    app.handle_mb_release_loaded(1, Ok(two_track_diff()));
    assert_eq!(error(&app), Some("no library tracks matched the source selection"));

    let mut app = managing(DiffScope::Album);
    app.library.as_mut().unwrap().music_folder = None;
    app.handle_mb_release_loaded(1, Ok(two_track_diff()));
    assert_eq!(error(&app), Some("music root unknown — set music_dir in config"));

    let mut app = managing(DiffScope::Track);
    app.tags.manager.as_mut().unwrap().source_track_name = None;
    app.handle_mb_release_loaded(1, Ok(two_track_diff()));
    assert_eq!(error(&app), Some("track-scope overlay missing track name"));
}

#[test]
fn stale_answers_change_nothing_but_the_log() {
    let mut app = managing(DiffScope::Album);
    app.handle_mb_release_loaded(7, Ok(two_track_diff()));
    assert_eq!(phase(&app), TagManagerPhase::SearchPending);
    assert!(app.sync.log.is_empty());
    app.handle_mb_search_results(7, Err("late".into()));
    assert_eq!(phase(&app), TagManagerPhase::SearchPending);
    assert_eq!(
        app.sync.log,
        vec!["tag-manager: dropped MB search response (token=7 expected=1)".to_string()]
    );
    app.close_tag_manager();
    app.handle_acoustid_resolved(1, Ok(vec![]));
    assert_eq!(
        app.sync.log[1],
        "tag-manager: dropped AcoustID response (token=1) — overlay closed"
    );
    assert!(app.tags.manager.is_none());
}

#[test]
fn an_answer_to_an_overlay_of_before_is_not_taken_by_the_next() {
    let mut app = managing(DiffScope::Album);
    app.close_tag_manager();
    let mut sent: Vec<BgCommand> = Vec::new();
    app.open_tag_manager(&mut sent);
    assert!(matches!(sent[0], BgCommand::MbSearchReleases { token: 2, .. }));
    app.handle_mb_search_results(1, Ok(vec![]));
    assert_eq!(phase(&app), TagManagerPhase::SearchPending);
    app.handle_mb_search_results(2, Ok(vec![]));
    assert_eq!(phase(&app), TagManagerPhase::SearchResults);
}

#[test]
fn the_best_match_names_the_audio() {
    let hit = |id: &str, rank: u64| AcoustIdHit { id: id.into(), rank, score: 90, recordings: vec![] };
    let mut app = managing(DiffScope::Album);
    app.handle_acoustid_resolved(1, Ok(vec![hit("a", 5), hit("b", 9), hit("c", 9), hit("d", 1)]));
    // Of several best ones the last.
    assert_eq!(app.tags.manager.as_ref().unwrap().acoustid_uuid.as_deref(), Some("c"));
    // Nothing to follow up: a plain search goes out under the next number.
    match &app.out.pending_bg_commands[..] {
        [BgCommand::MbSearchReleases { token, artist, album, .. }] => {
            assert_eq!((*token, artist.as_str(), album.as_str()), (2, "Abe", "Old"));
        }
        _ => panic!("expected a search"),
    }
}

#[test]
fn fields_are_toggled_where_the_focus_is() {
    let mut app = previewing(DiffScope::Album);
    // Header, Title, Album, header, Title, Album Artist.
    press(&mut app, KeyCode::Down);
    press(&mut app, KeyCode::Char(' '));
    let on = |app: &App| {
        let d = app.tags.manager.as_ref().unwrap().diff.as_ref().unwrap();
        d.tracks.iter().flat_map(|t| t.fields.iter().map(|f| f.enabled)).collect::<Vec<_>>()
    };
    assert_eq!(on(&app), vec![false, true, false, false]);
    press(&mut app, KeyCode::Char('a'));
    assert_eq!(on(&app), vec![true; 4]);
    press(&mut app, KeyCode::Char('n'));
    assert_eq!(on(&app), vec![false; 4]);
    // Nothing is enabled: enter closes and sends nothing.
    assert!(press(&mut app, KeyCode::Enter).is_empty());
    assert!(app.tags.manager.is_none());
}

#[test]
fn the_focus_stays_in_the_table() {
    let mut app = previewing(DiffScope::Album);
    let at = |app: &App| app.tags.manager.as_ref().unwrap().focused_row;
    press(&mut app, KeyCode::Up);
    assert_eq!(at(&app), 0);
    press(&mut app, KeyCode::PageDown);
    assert_eq!(at(&app), 5);
    press(&mut app, KeyCode::Home);
    assert_eq!(at(&app), 0);
    press(&mut app, KeyCode::End);
    assert_eq!(at(&app), 5);
    // Folding the focused track leaves its header; the focus stays inside.
    press(&mut app, KeyCode::Char('c'));
    assert_eq!(app.tags.manager.as_ref().unwrap().rows.len(), 4);
    assert!(at(&app) < 4);
    press(&mut app, KeyCode::Char('C'));
    assert_eq!(app.tags.manager.as_ref().unwrap().rows.len(), 2);
    assert!(at(&app) < 2);
    press(&mut app, KeyCode::Char('X'));
    assert_eq!(app.tags.manager.as_ref().unwrap().rows.len(), 6);
}

#[test]
fn leaving_the_preview_goes_where_there_is_something() {
    let mut app = previewing(DiffScope::Album);
    press(&mut app, KeyCode::Esc);
    assert_eq!(phase(&app), TagManagerPhase::SearchInput);
    let mut app = previewing(DiffScope::Album);
    press(&mut app, KeyCode::Char('s'));
    assert_eq!(phase(&app), TagManagerPhase::SearchInput);
    press(&mut app, KeyCode::Esc);
    assert!(app.tags.manager.is_none());
}

#[test]
fn the_search_form_edits_one_text_at_a_time() {
    let mut app = previewing(DiffScope::Album);
    press(&mut app, KeyCode::Char('s'));
    let field_before = app.tags.manager.as_ref().unwrap().search_input_field;
    press(&mut app, KeyCode::Char('x'));
    press(&mut app, KeyCode::Tab);
    press(&mut app, KeyCode::Backspace);
    let o = app.tags.manager.as_ref().unwrap();
    assert_ne!(o.search_input_field, field_before);
    let expected = match field_before {
        SearchInputField::Artist => ("Abex", "Ol"),
        SearchInputField::Album => ("Ab", "Oldx"),
    };
    assert_eq!((o.query_artist.as_str(), o.query_album.as_str()), expected);
    let sent = press(&mut app, KeyCode::Enter);
    assert_eq!(phase(&app), TagManagerPhase::SearchPending);
    match &sent[..] {
        [BgCommand::MbSearchReleases { token: 2, artist, album, .. }] => {
            assert_eq!((artist.as_str(), album.as_str()), expected);
        }
        _ => panic!("expected a search"),
    }
}

#[test]
fn writing_cannot_be_left_and_ends_with_the_library() {
    let mut app = previewing(DiffScope::Album);
    let sent = press(&mut app, KeyCode::Enter);
    match &sent[..] {
        [BgCommand::ApplyTagDiff { token: 2, diff, music_dir, fingerprint: true }] => {
            assert_eq!(music_dir, "/music");
            assert_eq!(diff.tracks.len(), 2);
        }
        _ => panic!("expected the diff to be applied"),
    }
    for code in [KeyCode::Esc, KeyCode::Char('q'), KeyCode::Enter, KeyCode::Char('s')] {
        assert!(press(&mut app, code).is_empty());
        assert_eq!(phase(&app), TagManagerPhase::Applying);
    }
    app.handle_library_reread_complete(
        2,
        Ok(library(vec![track(3, "Three", "Zed", "Other"), track(1, "Uno", "Abe", "New")], &["Abe", "Zed"])),
    );
    assert_eq!(phase(&app), TagManagerPhase::Done);
    assert_eq!(app.track_count(), 2);
    press(&mut app, KeyCode::Char('x'));
    assert!(app.tags.manager.is_none());
}

#[test]
fn failures_are_logged_by_path() {
    let mut app = previewing(DiffScope::Album);
    press(&mut app, KeyCode::Enter);
    let renamed = vec![("/music/One.mp3".to_string(), "/music/Uno.mp3".to_string())];
    app.handle_tags_applied(2, vec![Ok(()), Err("read-only".into()), Err("odd".into())], renamed.clone());
    assert_eq!(
        app.sync.log,
        vec![
            "tag-manager: /music/Two.mp3: read-only".to_string(),
            "tag-manager: <unknown track>: odd".to_string(),
        ]
    );
    assert_eq!(app.tags.manager.as_ref().unwrap().last_rename_map, renamed);
    // A late report is logged without paths and leaves the overlay alone.
    app.handle_tags_applied(1, vec![Err("late".into())], vec![]);
    assert_eq!(app.sync.log[2], "tag-manager: <unknown track>: late");
    assert_eq!(app.tags.manager.as_ref().unwrap().last_rename_map, renamed);
}

#[test]
fn the_selection_follows_a_renamed_track() {
    let mut app = previewing(DiffScope::Track);
    press(&mut app, KeyCode::Enter);
    app.handle_library_reread_complete(
        2,
        Ok(library(
            vec![track(9, "Zero", "Abe", "Older"), track(2, "Two", "Abe", "New"), track(1, "Uno", "Abe", "New")],
            &["Abe"],
        )),
    );
    let anchor = &app.tags.manager.as_ref().unwrap().anchor;
    assert_eq!(anchor.artist, "Abe");
    assert_eq!(anchor.album.as_deref(), Some("New"));
    assert_eq!(anchor.track_name.as_deref(), Some("Uno"));
    assert_eq!(app.nav.sidebar_items[app.nav.sidebar_selected], SidebarEntry::Artist("Abe".into()));
    assert_eq!(app.lists.album_list[app.lists.album_selected].name, "New");
    assert_eq!(app.lists.track_list[app.lists.track_selected].name, "Uno");
}

#[test]
fn disabled_fields_do_not_move_the_selection() {
    let mut app = previewing(DiffScope::Album);
    app.tags.manager.as_mut().unwrap().diff.as_mut().unwrap().tracks[0].fields[1].enabled = false;
    app.rewrite_anchor_post_rename();
    let anchor = &app.tags.manager.as_ref().unwrap().anchor;
    assert_eq!(anchor.album.as_deref(), Some("Old"));
    assert_eq!(anchor.artist, "Abe");
    assert_eq!(anchor.track_name, None);
}

#[test]
fn a_failed_reread_is_shown_where_the_user_is() {
    let mut app = previewing(DiffScope::Album);
    press(&mut app, KeyCode::Enter);
    app.handle_library_reread_complete(1, Err("gone".into()));
    assert_eq!(phase(&app), TagManagerPhase::Applying);
    assert_eq!(app.toast_message.as_ref().unwrap().0, "library reread failed: gone");
    assert!(app.toast_message.as_ref().unwrap().2);
    app.handle_library_reread_complete(2, Err("gone".into()));
    assert_eq!(phase(&app), TagManagerPhase::Error);
    assert_eq!(error(&app), Some("gone"));
    // Esc recovers, anything else closes.
    press(&mut app, KeyCode::Esc);
    assert_eq!(phase(&app), TagManagerPhase::SearchInput);
    assert_eq!(error(&app), None);
}

#[test]
fn a_reread_replaces_the_library_whoever_looks() {
    let mut app = managing(DiffScope::Album);
    app.handle_library_reread_complete(99, Ok(library(vec![track(5, "Five", "Abe", "Old")], &["Abe"])));
    assert_eq!(app.track_count(), 1);
    assert_eq!(phase(&app), TagManagerPhase::SearchPending);
    assert_eq!(app.nav.sidebar_items.len(), 1);
}

#[test]
fn enter_without_a_music_directory_is_an_error() {
    let mut app = previewing(DiffScope::Album);
    app.library.as_mut().unwrap().music_folder = None;
    assert!(press(&mut app, KeyCode::Enter).is_empty());
    assert_eq!(error(&app), Some("music directory unknown"));
}

#[test]
fn the_tag_manager_opens_on_a_selection_of_the_library_only() {
    let open = |app: &mut App| {
        let mut sent: Vec<BgCommand> = Vec::new();
        app.open_tag_manager(&mut sent);
        sent.len()
    };
    let mut app = managing(DiffScope::Album);
    app.close_tag_manager();
    app.nav.active_panel = Panel::Library;
    assert_eq!(open(&mut app), 0);
    app.nav.active_panel = Panel::Albums;
    app.nav.browse_mode = BrowseMode::Playlists;
    assert_eq!(open(&mut app), 0);
    app.nav.browse_mode = BrowseMode::Library;
    app.lists.album_list.clear();
    assert_eq!(open(&mut app), 0);
    assert!(app.tags.manager.is_none());
}

#[test]
fn known_releases_and_fingerprints_come_before_a_search() {
    let mut app = managing(DiffScope::Album);
    app.close_tag_manager();
    let lib = app.library.as_mut().unwrap();
    lib.tracks[0].acoustic_id = Some("AQ".into());
    lib.tracks[0].total_time_ms = Some(61_999);
    app.tags.acoustid_app_key = Some("key".into());
    let mut sent: Vec<BgCommand> = Vec::new();
    app.open_tag_manager(&mut sent);
    assert_eq!(phase(&app), TagManagerPhase::SearchPending);
    match &sent[..] {
        [BgCommand::AcoustIdLookup { token: 2, fingerprint, duration_secs: 61, app_key }] => {
            assert_eq!((fingerprint.as_str(), app_key.as_str()), ("AQ", "key"));
        }
        _ => panic!("expected a lookup by fingerprint"),
    }
    let lib = app.library.as_mut().unwrap();
    lib.tracks[0].mb_release_id = Some("r1".into());
    lib.tracks[1].mb_release_id = Some("r2".into());
    let mut sent: Vec<BgCommand> = Vec::new();
    app.open_tag_manager(&mut sent);
    assert_eq!(phase(&app), TagManagerPhase::LoadingRelease);
    match &sent[..] {
        [BgCommand::MbReleaseDetails { token: 3, mbid, .. }] => assert_eq!(mbid, "r1"),
        _ => panic!("expected the release"),
    }
}
