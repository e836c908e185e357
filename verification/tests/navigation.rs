use zytunes_tui::app::{App, Config, Host, NowPlaying};
use zytunes_tui::art::{ASCII_ART_RAMP, AlbumArtCache, ArtImage, ArtSamples};
use zytunes_tui::commands::AudioCommand;
use zytunes_tui::library::Library;
use zytunes_tui::model::Track;
use zytunes_tui::text::normalize_for_match;
use zytunes_tui::tracks::{AlbumInfo, TrackInfo, sort_album_tracks};
use zytunes_tui::types::{
    AlbumArtStyle, BrowseMode, Panel, PlaybackState, SidebarEntry, SidebarMode,
};

fn new_app() -> App {
    App::new(Config::default(), Host::new(12, 12))
}

fn library_of(tracks: Vec<Track>) -> Library {
    Library { tracks, artists: vec![], albums: vec![], music_folder: None }
}

#[test]
fn skip_forward_wraps() {
    let mut app = new_app();
    app.nav.active_panel = Panel::Library;
    app.nav.sidebar_items = vec![
        SidebarEntry::Artist("Apple".into()),
        SidebarEntry::Artist("Avocado".into()),
        SidebarEntry::Artist("Banana".into()),
        SidebarEntry::Artist("Cherry".into()),
    ];
    app.nav.sidebar_selected = 0;
    app.skip_forward(); // A -> B
    assert_eq!(app.nav.sidebar_selected, 2);
    app.skip_forward(); // B -> C
    assert_eq!(app.nav.sidebar_selected, 3);
    app.skip_forward(); // C -> wrap to 0
    assert_eq!(app.nav.sidebar_selected, 0);
}

#[test]
fn theme_picker_move_wraps() {
    let mut app = new_app();
    app.open_theme_picker();
    let count = app.host.theme_count;
    app.theme_picker_move(-1); // wraps to last
    assert_eq!(app.themes.picker_index, count - 1);
    app.theme_picker_move(1); // wraps back to 0
    assert_eq!(app.themes.picker_index, 0);
}

#[test]
fn theme_picker_cancel_restores() {
    let mut app = new_app();
    app.themes.current = 3;
    app.open_theme_picker();
    app.theme_picker_move(2); // changes preview
    app.theme_picker_cancel();
    assert_eq!(app.theme(), 3);
    assert!(!app.themes.show_picker);
}

fn populate_track_list(app: &mut App, names: &[&str]) {
    for n in names {
        app.lists.track_list.push(TrackInfo::new(
            (*n).to_string(),
            "Artist".into(),
            "Album".into(),
            None,
            None,
            None,
            None,
            None,
            None,
            false,
        ));
    }
}

#[test]
fn track_info_open_noop_on_empty_list() {
    let mut app = new_app();
    app.nav.active_panel = Panel::TrackList;
    app.open_track_info();
    assert!(
        !app.popup.show_track_info,
        "open_track_info on an empty list must stay closed"
    );
}

#[test]
fn track_info_open_sets_visible() {
    let mut app = new_app();
    app.nav.active_panel = Panel::TrackList;
    populate_track_list(&mut app, &["Idioteque"]);
    app.open_track_info();
    assert!(app.popup.show_track_info);
    assert_eq!(app.popup.track_info_scroll, 0);
}

#[test]
fn track_info_close_resets_scroll() {
    let mut app = new_app();
    app.nav.active_panel = Panel::TrackList;
    populate_track_list(&mut app, &["Idioteque"]);
    app.open_track_info();
    app.track_info_move(5);
    app.close_track_info();
    assert!(!app.popup.show_track_info);
    assert_eq!(app.popup.track_info_scroll, 0);
}

#[test]
fn track_info_scroll_does_not_underflow() {
    let mut app = new_app();
    app.nav.active_panel = Panel::TrackList;
    populate_track_list(&mut app, &["Idioteque"]);
    app.open_track_info();
    app.track_info_move(-1);
    app.track_info_move(-5);
    assert_eq!(app.popup.track_info_scroll, 0);
}

#[test]
fn track_info_home_resets_to_top() {
    let mut app = new_app();
    app.nav.active_panel = Panel::TrackList;
    populate_track_list(&mut app, &["Idioteque"]);
    app.open_track_info();
    app.track_info_move(8);
    app.track_info_home();
    assert_eq!(app.popup.track_info_scroll, 0);
}

#[test]
fn track_info_closes_on_panel_cycle() {
    let mut app = new_app();
    app.nav.active_panel = Panel::TrackList;
    populate_track_list(&mut app, &["Idioteque"]);
    app.open_track_info();
    app.cycle_panel();
    assert!(
        !app.popup.show_track_info,
        "cycle_panel should dismiss the popup since selection context is changing"
    );
}

#[test]
fn track_info_closes_on_track_selection_change() {
    let mut app = new_app();
    app.nav.active_panel = Panel::TrackList;
    populate_track_list(&mut app, &["Idioteque", "Optimistic"]);
    app.lists.track_selected = 0;
    app.open_track_info();
    app.move_down();
    assert!(
        !app.popup.show_track_info,
        "moving the track-list selection should dismiss the popup"
    );
}

#[test]
fn track_info_open_caches_library_track() {
    // The popup renderer reads `app.popup.track_info_lib` rather than walking
    // the library on every frame. Verify the cached lookup is populated
    // on open (matching by case-insensitive artist+album+name) and
    // cleared on close.
    let mut app = new_app();
    app.nav.active_panel = Panel::TrackList;
    let lib = library_of(vec![
            Track {
                id: 1,
                name: "Idioteque".into(),
                artist: "Radiohead".into(),
                album: "Kid A".into(),
                composer: Some("Thom Yorke".into()),
                ..Default::default()
            },
            Track {
                id: 2,
                name: "Decoy".into(),
                artist: "Other".into(),
                album: "Other".into(),
                ..Default::default()
            },
        ]);
    app.library = Some(lib);
    app.lists.track_list.push(TrackInfo::new(
        "Idioteque".into(),
        "RADIOHEAD".into(), // case mismatch on purpose
        "Kid A".into(),
        None,
        None,
        None,
        None,
        None,
        None,
        false,
    ));
    app.lists.track_selected = 0;

    app.open_track_info();
    let cached = app
        .popup.track_info_lib
        .as_ref()
        .expect("library lookup should resolve to a Track on open");
    assert_eq!(cached.id, 1);
    assert_eq!(cached.composer.as_deref(), Some("Thom Yorke"));

    app.close_track_info();
    assert!(
        app.popup.track_info_lib.is_none(),
        "close_track_info must drop the cached library reference"
    );
}

#[test]
fn track_info_open_caches_none_when_no_match() {
    // Track is in the TUI list but does not exist in the library — the
    // cache should be `None`, not panic, and the popup still opens with
    // just the TrackInfo identity fields.
    let mut app = new_app();
    app.nav.active_panel = Panel::TrackList;
    app.library = Some(library_of(Vec::new()));
    populate_track_list(&mut app, &["Orphan"]);
    app.open_track_info();
    assert!(app.popup.show_track_info);
    assert!(app.popup.track_info_lib.is_none());
}

#[test]
fn toggle_playback_without_now_playing_is_noop() {
    let mut app = new_app();
    // toggle_playback needs an audio_tx; when now_playing is None and track_list is empty,
    // play_selected_track returns early, so nothing happens.
    let mut audio_tx: Vec<AudioCommand> = Vec::new();
    app.toggle_playback(&mut audio_tx);
    assert!(app.player.now_playing.is_none());
}

#[test]
fn search_filters_sidebar() {
    let mut app = new_app();
    // Populate sidebar items directly (simulating a loaded library sidebar)
    app.nav.sidebar_items = vec![
        SidebarEntry::Artist("Beatles".into()),
        SidebarEntry::Artist("Beach Boys".into()),
        SidebarEntry::Artist("Radiohead".into()),
        SidebarEntry::Artist("Rolling Stones".into()),
    ];
    // Activate search with a query
    app.nav.search_active = true;
    app.nav.search_query = "bea".into();
    // refresh_sidebar in Library mode with no library clears items,
    // so instead we test the filtering logic directly on Device mode
    app.nav.browse_mode = BrowseMode::Device;
    app.device.artists = vec![
        "Beatles".into(),
        "Beach Boys".into(),
        "Radiohead".into(),
        "Rolling Stones".into(),
    ];
    app.nav.sidebar_mode = SidebarMode::Artists;
    app.refresh_sidebar();
    assert_eq!(app.nav.sidebar_items.len(), 2);
    assert!(app
        .nav.sidebar_items
        .contains(&SidebarEntry::Artist("Beatles".into())));
    assert!(app
        .nav.sidebar_items
        .contains(&SidebarEntry::Artist("Beach Boys".into())));
}

#[test]
fn album_year_sort_oldest_first() {
    let mut app = new_app();
    app.lists.album_list = vec![
        AlbumInfo {
            name: "C".into(),
            artist: "X".into(),
            year: None,
        },
        AlbumInfo {
            name: "A".into(),
            artist: "X".into(),
            year: Some(2000),
        },
        AlbumInfo {
            name: "B".into(),
            artist: "X".into(),
            year: Some(1990),
        },
    ];
    // Simulate the sort that select_sidebar_item does.
    app.lists.album_list.sort_by(|a, b| match (a.year, b.year) {
        (Some(ya), Some(yb)) => ya.cmp(&yb).then_with(|| a.name.cmp(&b.name)),
        (Some(_), None) => std::cmp::Ordering::Less,
        (None, Some(_)) => std::cmp::Ordering::Greater,
        (None, None) => a.name.cmp(&b.name),
    });
    assert_eq!(app.lists.album_list[0].name, "B"); // 1990
    assert_eq!(app.lists.album_list[1].name, "A"); // 2000
    assert_eq!(app.lists.album_list[2].name, "C"); // None (last)
}

#[test]
fn skip_forward_albums_by_year() {
    let mut app = new_app();
    app.nav.active_panel = Panel::Albums;
    app.lists.album_list = vec![
        AlbumInfo {
            name: "A".into(),
            artist: "X".into(),
            year: Some(1990),
        },
        AlbumInfo {
            name: "B".into(),
            artist: "X".into(),
            year: Some(1990),
        },
        AlbumInfo {
            name: "C".into(),
            artist: "X".into(),
            year: Some(2000),
        },
        AlbumInfo {
            name: "D".into(),
            artist: "X".into(),
            year: None,
        },
    ];
    app.lists.album_selected = 0;
    app.skip_forward(); // 1990 -> 2000
    assert_eq!(app.lists.album_selected, 2);
    app.skip_forward(); // 2000 -> None
    assert_eq!(app.lists.album_selected, 3);
    app.skip_forward(); // None -> wrap to 0
    assert_eq!(app.lists.album_selected, 0);
}

#[test]
fn skip_back_albums_by_year() {
    let mut app = new_app();
    app.nav.active_panel = Panel::Albums;
    app.lists.album_list = vec![
        AlbumInfo {
            name: "A".into(),
            artist: "X".into(),
            year: Some(1990),
        },
        AlbumInfo {
            name: "B".into(),
            artist: "X".into(),
            year: Some(1990),
        },
        AlbumInfo {
            name: "C".into(),
            artist: "X".into(),
            year: Some(2000),
        },
        AlbumInfo {
            name: "D".into(),
            artist: "X".into(),
            year: None,
        },
    ];
    app.lists.album_selected = 3;
    app.skip_back(); // None -> start of 2000
    assert_eq!(app.lists.album_selected, 2);
    app.skip_back(); // 2000 -> start of 1990
    assert_eq!(app.lists.album_selected, 0);
    app.skip_back(); // 1990 at start -> wrap to end
    assert_eq!(app.lists.album_selected, 3);
}

#[test]
fn new_app_show_keys_defaults_false() {
    let app = new_app();
    assert!(!app.popup.show_keys);
}

#[test]
fn sidebar_entry_display_matches_legacy_stitched_form() {
    // Artist and album stand around " — " (em-dash), exactly.
    let a = SidebarEntry::Artist("Queen".into());
    assert_eq!(a.display(), "Queen");
    
    let alb = SidebarEntry::Album {
        artist: "Queen".into(),
        album: "A Night at the Opera".into(),
    };
    assert_eq!(alb.display(), "Queen \u{2014} A Night at the Opera");
    
}

#[test]
fn sidebar_entry_lowercase_key_album_matches_either_side() {
    // The cached lowercase key powers the `/` search filter. Album entries
    // must let a substring query match either artist or album, but not
    // span the separator — otherwise "he\nok" would match "Radiohead\nOK"
    // by accident.
    let a = SidebarEntry::Album {
        artist: "Radiohead".into(),
        album: "OK Computer".into(),
    };
    let lc = a.lowercase_key();
    assert!(lc.contains("radio"), "matches on artist");
    assert!(lc.contains("computer"), "matches on album");
    assert!(!lc.contains("idioteque"));
    assert!(
        !lc.contains("headok"),
        "match must not span artist/album boundary"
    );
}

#[test]
fn sort_album_tracks_orders_by_disc_then_track_number() {
    // Album view must render tracks in tagged order (disc, then track
    // number) regardless of whether they came from the library or the
    // device index. Missing numbers fall to the bottom so tagged tracks
    // keep their album order.
    fn ti(name: &str, disc: Option<u32>, track: Option<u32>) -> TrackInfo {
        TrackInfo::new(
            name.into(),
            "Artist".into(),
            "Album".into(),
            None,
            None,
            None,
            track,
            disc,
            None,
            false,
        )
    }
    let mut tracks = vec![
        ti("Disc2 Track2", Some(2), Some(2)),
        ti("No Number", None, None),
        ti("Disc1 Track3", Some(1), Some(3)),
        ti("Disc1 Track1", Some(1), Some(1)),
        ti("Disc2 Track1", Some(2), Some(1)),
    ];
    sort_album_tracks(&mut tracks);
    let order: Vec<&str> = tracks.iter().map(|t| t.name.as_str()).collect();
    assert_eq!(
        order,
        vec![
            "Disc1 Track1",
            "Disc1 Track3",
            "Disc2 Track1",
            "Disc2 Track2",
            "No Number",
        ]
    );
}

#[test]
fn search_filter_reuses_cached_lowercase() {
    // Verify the two-tier sidebar design: rebuild_sidebar_source populates
    // the full list once, apply_sidebar_filter builds the visible view
    // from the cached lowercase form without re-allocating per row.
    let mut app = new_app();
    app.nav.browse_mode = BrowseMode::Device;
    app.device.artists = vec!["Beatles".into(), "Radiohead".into(), "Zero 7".into()];
    app.nav.sidebar_mode = SidebarMode::Artists;
    app.refresh_sidebar();
    assert_eq!(app.nav.sidebar_items.len(), 3);
    assert_eq!(app.nav.sidebar_items_full.len(), 3);
    assert_eq!(app.nav.sidebar_lowercase_full.len(), 3);

    app.nav.search_active = true;
    app.nav.search_query = "HEAD".into();
    app.apply_sidebar_filter();
    assert_eq!(app.nav.sidebar_items.len(), 1);
    assert!(matches!(&app.nav.sidebar_items[0], SidebarEntry::Artist(a) if a == "Radiohead"));
    // Full list is untouched — cheap re-filter is possible on next keystroke.
    assert_eq!(app.nav.sidebar_items_full.len(), 3);

    app.nav.search_query.clear();
    app.apply_sidebar_filter();
    assert_eq!(app.nav.sidebar_items.len(), 3);
}

#[test]
fn sidebar_entry_nav_key_is_artist_for_both_variants() {
    let a = SidebarEntry::Artist("Beatles".into());
    let alb = SidebarEntry::Album {
        artist: "Beatles".into(),
        album: "Revolver".into(),
    };
    // First-letter jump navigation must behave the same whether we're in
    // Artists or Albums sidebar mode — both key off the artist name.
    assert_eq!(a.nav_key(), "Beatles");
    assert_eq!(alb.nav_key(), "Beatles");
}

#[test]
fn track_info_new_precomputes_match_keys() {
    let ti = TrackInfo::new(
        "  The Song  ".into(),
        "*NSYNC".into(),
        "Album".into(),
        None,
        None,
        None,
        None,
        None,
        None,
        false,
    );
    // Keys should be normalized (lowercased, edge-stripped) so device
    // lookup runs against the same form used in `track_set`.
    assert_eq!(ti.artist_key, normalize_for_match("*NSYNC"));
    assert_eq!(ti.name_key, normalize_for_match("  The Song  "));
}

#[test]
fn album_art_style_from_str_round_trip() {
    for s in ["ascii", "halfblock"] {
        let style: AlbumArtStyle = s.parse().expect("valid style");
        assert_eq!(style.as_str(), s);
    }
    assert!("bogus".parse::<AlbumArtStyle>().is_err());
}

#[test]
fn flip_art_style_in_memory_flips_and_clears_caches() {
    let mut app = new_app();
    app.art.album_art_style = AlbumArtStyle::Halfblock;
    app.art.album_art_cache = Some(AlbumArtCache::Halfblock(vec![vec![(
        '▀',
        [1, 2, 3],
        [4, 5, 6],
    )]]));
    app.art.album_art_size = (80, 24);

    app.flip_art_style_in_memory();
    assert_eq!(app.art.album_art_style, AlbumArtStyle::Ascii);
    assert!(app.art.album_art_cache.is_none());
    assert_eq!(app.art.album_art_size, (0, 0));

    // Seed the ascii variant and flip back; covers the other match arm.
    app.art.album_art_cache = Some(AlbumArtCache::Ascii(vec![vec![('@', [0, 0, 0])]]));
    app.flip_art_style_in_memory();
    assert_eq!(app.art.album_art_style, AlbumArtStyle::Halfblock);
    assert!(app.art.album_art_cache.is_none());
}

#[test]
fn render_album_art_populates_only_active_cache() {
    let mut app = new_app();
    // Tiny gradient test image so the renderer has pixels to sample.
    let mut img = image::RgbaImage::new(8, 8);
    for (x, y, px) in img.enumerate_pixels_mut() {
        let v = ((x + y) * 16).min(255) as u8;
        *px = image::Rgba([v, v, v, 255]);
    }
    let rgba = ArtSamples::Eight(img.into_raw());
    app.art.album_art = Some(ArtImage { width: 8, height: 8, rgba });

    app.art.album_art_style = AlbumArtStyle::Halfblock;
    app.render_album_art(16, 8);
    assert!(matches!(
        app.art.album_art_cache,
        Some(AlbumArtCache::Halfblock(_))
    ));

    // Toggling should invalidate the cache so the other renderer fills its buffer.
    app.art.album_art_style = AlbumArtStyle::Ascii;
    app.art.album_art_cache = None;
    app.art.album_art_size = (0, 0);
    app.render_album_art(16, 8);
    let Some(AlbumArtCache::Ascii(rows)) = app.art.album_art_cache.as_ref() else {
        panic!("expected Ascii cache");
    };

    // Every glyph should belong to the ramp.
    let ramp: &[u8] = &ASCII_ART_RAMP;
    for row in rows {
        for &(ch, _) in row {
            assert!(ramp.contains(&(ch as u8)), "unexpected glyph {:?}", ch);
        }
    }
}

#[test]
fn should_show_player_respects_playback_state() {
    let mut app = new_app();
    app.player.show_player = None;
    // No now_playing — panel stays hidden regardless of pref or height.
    assert!(!app.should_show_player(100));
    app.player.show_player = Some(true);
    assert!(!app.should_show_player(100));
}

#[test]
fn should_show_player_auto_uses_height_floor() {
    let mut app = new_app();
    app.player.now_playing = Some(NowPlaying {
        track_name: "t".into(),
        artist: "a".into(),
        album: "al".into(),
        duration_ms: 0,
        elapsed_ms: 0,
        state: PlaybackState::Playing,
        track_index: 0,
        playlist: vec![],
        paused_frame: None,
        track_id: None,
        counted: false,
        year: None,
        metadata_marquee: String::new(),
    });
    app.player.show_player = None;
    assert!(!app.should_show_player(19));
    assert!(app.should_show_player(20));
}

#[test]
fn should_show_player_force_hide_always_wins() {
    let mut app = new_app();
    app.player.now_playing = Some(NowPlaying {
        track_name: "t".into(),
        artist: "a".into(),
        album: "al".into(),
        duration_ms: 0,
        elapsed_ms: 0,
        state: PlaybackState::Playing,
        track_index: 0,
        playlist: vec![],
        paused_frame: None,
        track_id: None,
        counted: false,
        year: None,
        metadata_marquee: String::new(),
    });
    app.player.show_player = Some(false);
    assert!(!app.should_show_player(100));
}

#[test]
fn should_show_player_force_show_ignores_height() {
    // Force-show lets users see the panel on short terminals where auto
    // would hide it. LayoutMetrics enforces the absolute floor.
    let mut app = new_app();
    app.player.now_playing = Some(NowPlaying {
        track_name: "t".into(),
        artist: "a".into(),
        album: "al".into(),
        duration_ms: 0,
        elapsed_ms: 0,
        state: PlaybackState::Playing,
        track_index: 0,
        playlist: vec![],
        paused_frame: None,
        track_id: None,
        counted: false,
        year: None,
        metadata_marquee: String::new(),
    });
    app.player.show_player = Some(true);
    assert!(app.should_show_player(12));
}

#[test]
fn cycle_show_player_in_memory_rotates() {
    let mut app = new_app();
    app.player.show_player = None;
    assert_eq!(app.cycle_show_player_in_memory(), "Player: hidden");
    assert_eq!(app.player.show_player, Some(false));
    assert_eq!(app.cycle_show_player_in_memory(), "Player: always on");
    assert_eq!(app.player.show_player, Some(true));
    assert_eq!(app.cycle_show_player_in_memory(), "Player: auto");
    assert_eq!(app.player.show_player, None);
}
