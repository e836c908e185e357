use zytunes_tui::app::{App, Config, Host};
use zytunes_tui::cd::{
    CdDrive, CdStatusEvent, DiscToc, ImportField, MbTrack, Medium, PlannedFile, Release,
    RipFidelity, RipProgressState, RipScan, parse_default_fidelity,
};
use zytunes_tui::commands::BgCommand;
use zytunes_tui::input::{KeyCode, KeyEvent};

fn new_app() -> App {
    App::new(Config::default(), Host::new(12, 12))
}

/// The first command that was sent, if any.
fn next<T>(sent: &mut Vec<T>) -> Result<T, ()> {
    if sent.is_empty() {
        Err(())
    } else {
        Ok(sent.remove(0))
    }
}

fn key(code: KeyCode) -> KeyEvent {
    KeyEvent { code, ctrl: false }
}

fn mock_cd_drive() -> CdStatusEvent {
    CdStatusEvent::NoMedia {
        drive: CdDrive {
            path: "/dev/disk4".into(),
            name: "Optical Drive (/dev/disk4)".into(),
        },
    }
}

fn make_identified_status(release_title: &str) -> CdStatusEvent {
    CdStatusEvent::Identified {
        drive: CdDrive { path: "/dev/disk4".into(), name: "Optical".into() },
        toc: DiscToc { first_track: 1, last_track: 2, lead_out_lba: 100, tracks: vec![] },
        mb_disc_id: "abc".into(),
        primary: Release {
            id: "r1".into(),
            title: release_title.into(),
            artist: "Artist".into(),
            media: vec![Medium {
                tracks: vec![
                    MbTrack {
                        id: "t1".into(),
                        position: Some(1),
                        title: "Song A".into(),
                        length: Some(120_000),
                    },
                    MbTrack {
                        id: "t2".into(),
                        position: Some(2),
                        title: "Song B".into(),
                        length: Some(180_000),
                    },
                ],
            }],
        },
        alternates: vec![],
    }
}

/// What the host finds when both tracks are there already under an extension,
/// the planned one being flac.
fn scan_with(extension: &str) -> RipScan {
    let planned = |position: u32, stem: &str| PlannedFile {
        position,
        stem: Some(stem.to_string()),
        exists: extension == "flac",
    };
    RipScan {
        planned: vec![planned(1, "01 - Song A"), planned(2, "02 - Song B")],
        existing_stems: vec!["01 - Song A".into(), "02 - Song B".into()],
    }
}

#[test]
fn cd_detect_request_is_throttled_to_one_per_window() {
    let mut app = new_app();
    // `last_request` is seeded at startup so the first poll waits 5s —
    // null it out to simulate that the wait is over.
    app.cd.last_request = None;

    // First call queues a command.
    app.maybe_request_cd_detect();
    assert_eq!(app.out.pending_bg_commands.len(), 1);
    assert!(app.cd.detect_in_flight);
    // Second call while in-flight is suppressed.
    app.maybe_request_cd_detect();
    assert_eq!(app.out.pending_bg_commands.len(), 1);
    // Even if we mark the in-flight bit cleared, the 5s throttle holds.
    app.cd.detect_in_flight = false;
    app.maybe_request_cd_detect();
    assert_eq!(app.out.pending_bg_commands.len(), 1);
}

/// A fresh `App` must NOT fire `DetectCd` on its first tick: that would
/// poll the drive and MB before the user has interacted.
#[test]
fn cd_detect_does_not_fire_on_first_tick_after_startup() {
    let mut app = new_app();
    app.maybe_request_cd_detect();
    assert_eq!(
        app.out.pending_bg_commands.len(),
        0,
        "first poll should be gated by the seeded `last_request`"
    );
    assert!(!app.cd.detect_in_flight);
}

#[test]
fn cd_detect_passes_config_to_worker() {
    let mut app = new_app();
    app.cd.last_request = None; // bypass the first-tick throttle
    app.tags.mb_base_url = Some("http://localhost:5000/ws/2".into());
    app.tags.mb_user_agent = Some("test/1 (a@b)".into());
    app.maybe_request_cd_detect();
    match &app.out.pending_bg_commands[0] {
        BgCommand::DetectCd {
            mb_base_url,
            mb_user_agent,
        } => {
            assert_eq!(mb_base_url.as_deref(), Some("http://localhost:5000/ws/2"));
            assert_eq!(mb_user_agent.as_deref(), Some("test/1 (a@b)"));
        }
        _ => panic!("expected DetectCd command"),
    }
}

#[test]
fn cd_import_key_with_no_status_toasts_no_drive() {
    let mut app = new_app();
    app.handle_cd_import_key();
    let (msg, _, is_error) = app.toast_message.as_ref().expect("toast set");
    assert!(msg.contains("No optical drive"));
    assert!(*is_error);
}

#[test]
fn cd_import_key_with_no_media_prompts_insert() {
    let mut app = new_app();
    app.cd.last_status = Some(mock_cd_drive());
    app.handle_cd_import_key();
    let (msg, _, is_error) = app.toast_message.as_ref().unwrap();
    assert!(msg.contains("Insert"));
    assert!(*is_error);
}

#[test]
fn cd_import_key_with_identified_disc_opens_overlay() {
    let mut app = new_app();
    app.cd.last_status = Some(make_identified_status("Abbey Road"));
    app.handle_cd_import_key();
    assert!(app.import.overlay.is_some(), "overlay should open");
    let o = app.import.overlay.as_ref().unwrap();
    assert!(o.current_release_label().contains("Abbey Road"));
    assert_eq!(o.selected_count(), 2);
}

#[test]
fn overlay_esc_closes() {
    let mut app = new_app();
    app.cd.last_status = Some(make_identified_status("X"));
    app.handle_cd_import_key();
    assert!(app.handle_import_overlay_key(key(KeyCode::Esc)));
    assert!(app.import.overlay.is_none());
}

#[test]
fn overlay_tab_cycles_focus() {
    let mut app = new_app();
    app.cd.last_status = Some(make_identified_status("X"));
    app.handle_cd_import_key();
    let start = app.import.overlay.as_ref().unwrap().focus;
    assert!(app.handle_import_overlay_key(key(KeyCode::Tab)));
    let after = app.import.overlay.as_ref().unwrap().focus;
    assert_eq!(after, start.next());
    assert_ne!(after, ImportField::Tracks); // Tracks is the default
}

#[test]
fn overlay_enter_with_empty_selection_blocks_with_toast() {
    let mut app = new_app();
    app.cd.last_status = Some(make_identified_status("X"));
    app.handle_cd_import_key();
    // Deselect all then submit.
    app.handle_import_overlay_key(key(KeyCode::Char('n')));
    assert!(app.handle_import_overlay_key(key(KeyCode::Enter)));
    // Overlay stays open with an error toast.
    assert!(app.import.overlay.is_some());
    let (msg, _, is_error) = app.toast_message.as_ref().unwrap();
    assert!(is_error);
    assert!(msg.contains("Select at least one"));
}

#[test]
fn overlay_enter_with_selection_queues_rip_and_closes() {
    let mut app = new_app();
    app.import.music_dir = Some("/tmp/test-music".into());
    app.cd.last_status = Some(make_identified_status("Album"));
    app.handle_cd_import_key();
    assert!(app.handle_import_overlay_key(key(KeyCode::Enter)));
    assert!(app.import.overlay.is_none(), "overlay closes on confirm");
    // A RipAndImport command should be queued for the worker.
    assert!(
        app.out.pending_bg_commands
            .iter()
            .any(|c| matches!(c, BgCommand::RipAndImport(_))),
        "RipAndImport queued"
    );
    let (msg, _, is_error) = app.toast_message.as_ref().unwrap();
    assert!(!*is_error);
    assert!(msg.contains("Ripping"));
    assert!(msg.contains("2 tracks"));
    assert!(msg.contains("Album"));
}

#[test]
fn overlay_enter_with_existing_files_arms_overwrite_then_dispatches_on_second_enter() {
    // Mirror the existing happy-path test setup, but pre-create the
    // destination files (as the scan of the host reports them) so the
    // conflict pre-scan in `confirm_import` trips. First Enter should arm the overlay (no dispatch, toast
    // warns); second Enter should dispatch with no further check.
    let mut app = new_app();
    app.import.music_dir = Some("/tmp/test-music".into());
    app.cd.last_status = Some(make_identified_status("Album"));
    app.handle_cd_import_key();
    // make_identified_status produces 2 tracks both selected by default.
    // Build matching destination files so both conflict.
    // The fixture release is title="Album", artist="Artist" (see
    // make_identified_status), default fidelity = FLAC.
    app.host.rip_scan = Some(scan_with("flac"));

    // First Enter: arms overwrite, doesn't dispatch.
    assert!(app.handle_import_overlay_key(key(KeyCode::Enter)));
    assert!(
        app.import.overlay.is_some(),
        "overlay stays open on conflict warning"
    );
    let overlay = app.import.overlay.as_ref().unwrap();
    assert_eq!(overlay.conflict_count, 2);
    assert!(overlay.overwrite_armed);
    let (msg, _, is_error) = app.toast_message.as_ref().unwrap();
    assert!(is_error, "warning toast is error-styled");
    assert!(msg.contains("2 track"), "got: {msg}");
    assert!(
        !app.out.pending_bg_commands
            .iter()
            .any(|c| matches!(c, BgCommand::RipAndImport(_))),
        "no rip queued on first Enter"
    );

    // Second Enter: dispatches and closes.
    assert!(app.handle_import_overlay_key(key(KeyCode::Enter)));
    assert!(app.import.overlay.is_none(), "overlay closes on confirm");
    assert!(
        app.out.pending_bg_commands
            .iter()
            .any(|c| matches!(c, BgCommand::RipAndImport(_))),
        "RipAndImport queued on second Enter"
    );
}

#[test]
fn overlay_enter_warns_when_existing_file_has_different_extension() {
    // A re-rip at FLAC over a prior ALAC warns too, although the `.flac`
    // paths don't exist. The user's "I already ripped this album" mental
    // model is per-track-position, not per-file-extension. Verify a
    // pre-existing `.m4a` at the same `NN - Title` stem triggers the
    // arm even though the planned destination is `.flac`.
    let mut app = new_app();
    app.import.music_dir = Some("/tmp/test-music".into());
    app.cd.last_status = Some(make_identified_status("Album"));
    app.handle_cd_import_key();
    // Default fidelity is FLAC. Pre-create `.m4a` files at the same
    // stem to simulate a prior ALAC rip — fixture has track titles
    // "Song A" and "Song B" at positions 1 and 2.
    app.host.rip_scan = Some(scan_with("m4a"));

    // First Enter at FLAC fidelity should still arm the overwrite
    // prompt because the stems collide.
    assert!(app.handle_import_overlay_key(key(KeyCode::Enter)));
    let overlay = app.import.overlay.as_ref().unwrap();
    assert!(
        overlay.overwrite_armed,
        "cross-extension stem conflict must arm the overwrite prompt"
    );
    assert_eq!(overlay.conflict_count, 2);
}

#[test]
fn overlay_overwrite_armed_resets_on_track_toggle() {
    // Changing the selection invalidates the conflict count — armed
    // flag must clear so a new Enter does a fresh pre-scan.
    let mut app = new_app();
    app.import.music_dir = Some("/tmp/test-music".into());
    app.cd.last_status = Some(make_identified_status("Album"));
    app.handle_cd_import_key();
    app.host.rip_scan = Some(scan_with("flac"));

    // Arm via first Enter.
    app.handle_import_overlay_key(key(KeyCode::Enter));
    assert!(app.import.overlay.as_ref().unwrap().overwrite_armed);

    // Toggle a track — must disarm.
    app.import.overlay.as_mut().unwrap().toggle_current_track();
    let overlay = app.import.overlay.as_ref().unwrap();
    assert!(
        !overlay.overwrite_armed,
        "toggling a track must clear overwrite_armed"
    );
    assert_eq!(overlay.conflict_count, 0);
}

#[test]
fn overlay_enter_without_music_dir_blocks_with_error_toast() {
    let mut app = new_app();
    app.import.music_dir = None;
    app.cd.last_status = Some(make_identified_status("Album"));
    app.handle_cd_import_key();
    assert!(app.handle_import_overlay_key(key(KeyCode::Enter)));
    // Overlay stays open so the user can either configure or cancel.
    assert!(app.import.overlay.is_some());
    let (msg, _, is_error) = app.toast_message.as_ref().unwrap();
    assert!(is_error);
    assert!(msg.contains("music"));
}

#[test]
fn cancel_rip_emits_cancel_command_only_when_rip_active() {
    let mut app = new_app();
    // No active rip — no command queued.
    app.cancel_rip();
    assert!(app
        .out.pending_bg_commands
        .iter()
        .all(|c| !matches!(c, BgCommand::CancelRip)));
    // Active rip — command queued.
    app.cd.rip = Some(RipProgressState {
        current: 1,
        total: 3,
        track_title: "X".into(),
        track_length_ms: None,
        elapsed_ms: 0,
        errors: vec![],
    });
    app.cancel_rip();
    assert!(app
        .out.pending_bg_commands
        .iter()
        .any(|c| matches!(c, BgCommand::CancelRip)));
}

/// Ctrl-C must bubble through the overlay to the main dispatcher's quit
/// hatch.
#[test]
fn overlay_does_not_swallow_ctrl_c() {
    let mut app = new_app();
    app.cd.last_status = Some(make_identified_status("X"));
    app.handle_cd_import_key();
    let ev = KeyEvent { code: KeyCode::Char('c'), ctrl: true };
    assert!(
        !app.handle_import_overlay_key(ev),
        "Ctrl-C should fall through (not handled by overlay)"
    );
}

#[test]
fn overlay_swallows_keys_so_underlying_panel_doesnt_react() {
    let mut app = new_app();
    app.cd.last_status = Some(make_identified_status("X"));
    app.handle_cd_import_key();
    // `t` would open the theme picker in the main dispatcher — must NOT
    // bubble through while the overlay is up.
    assert!(app.handle_import_overlay_key(key(KeyCode::Char('t'))));
    assert!(!app.themes.show_picker);
}

#[test]
fn overlay_space_toggles_track_when_tracks_focused() {
    let mut app = new_app();
    app.cd.last_status = Some(make_identified_status("X"));
    app.handle_cd_import_key();
    // Default focus = Tracks, default cursor = 0 → track 1.
    let before = app.import.overlay.as_ref().unwrap().selected_count();
    app.handle_import_overlay_key(key(KeyCode::Char(' ')));
    let after = app.import.overlay.as_ref().unwrap().selected_count();
    assert_eq!(after, before - 1);
}

#[test]
fn parse_default_fidelity_cases() {
    assert_eq!(
        parse_default_fidelity(Some("flac")),
        Some(RipFidelity::Flac)
    );
    assert_eq!(
        parse_default_fidelity(Some("FLAC")),
        Some(RipFidelity::Flac)
    );
    assert_eq!(
        parse_default_fidelity(Some("mp3-cbr-320")),
        Some(RipFidelity::Mp3Cbr320)
    );
    assert_eq!(
        parse_default_fidelity(Some("mp3-320")),
        Some(RipFidelity::Mp3Cbr320)
    );
    assert_eq!(parse_default_fidelity(Some("aac")), Some(RipFidelity::Aac));
    assert_eq!(
        parse_default_fidelity(Some("aac-256")),
        Some(RipFidelity::Aac)
    );
    assert_eq!(
        parse_default_fidelity(Some("alac")),
        Some(RipFidelity::Alac)
    );
    assert_eq!(
        parse_default_fidelity(Some("apple-lossless")),
        Some(RipFidelity::Alac)
    );
    assert_eq!(parse_default_fidelity(Some("garbage")), None);
    assert_eq!(parse_default_fidelity(None), None);
}
