use zytunes_tui::app::{App, Config, Host};
use zytunes_tui::art::{cells_for, AlbumArtCache, ArtImage, ArtSamples, ASCII_ART_RAMP};
use zytunes_tui::commands::BgCommand;
use zytunes_tui::precision::round_to;
use zytunes_tui::tracks::TrackInfo;
use zytunes_tui::types::AlbumArtStyle;

fn app_with(picture: ArtImage, style: AlbumArtStyle) -> App {
    let mut app = App::new(Config::default(), Host::new(12, 12));
    app.art.album_art = Some(picture);
    app.art.album_art_style = style;
    app
}

fn picture(width: u32, height: u32, pixels: &[[u8; 3]]) -> ArtImage {
    let mut rgba: Vec<u8> = Vec::new();
    for p in pixels {
        rgba.extend_from_slice(&[p[0], p[1], p[2], 255]);
    }
    ArtImage { width, height, rgba: ArtSamples::Eight(rgba) }
}

/// Columns and rows by way of double-precision arithmetic.
fn cells_in_doubles(iw: u32, ih: u32, w: u16, h: u16) -> (u32, u32) {
    let scale = (w as f64 / iw as f64).min((h as u32 * 2) as f64 / ih as f64);
    let cols = ((iw as f64 * scale).round() as u32).max(1);
    let px_h = ((ih as f64 * scale).round() as u32).max(2);
    (cols, px_h / 2)
}

#[test]
fn cells_agree_with_double_precision() {
    let sides = [1, 2, 3, 5, 7, 10, 33, 99, 100, 127, 300, 301, 600, 1000, 1400, 3000, 65_537, 4_294_967_295];
    let areas = [0, 1, 2, 3, 7, 16, 31, 80, 200, 255, 999, 65_535];
    for iw in sides {
        for ih in sides {
            for w in areas {
                for h in areas {
                    assert_eq!(
                        cells_for(iw, ih, w, h),
                        cells_in_doubles(iw, ih, w, h),
                        "{iw}x{ih} in {w}x{h}"
                    );
                }
            }
        }
    }
}

#[test]
fn cells_of_an_empty_picture_agree_with_double_precision() {
    for (iw, ih) in [(0, 0), (0, 5), (5, 0)] {
        for (w, h) in [(0, 0), (4, 0), (0, 4), (10, 6)] {
            assert_eq!(cells_for(iw, ih, w, h), cells_in_doubles(iw, ih, w, h), "{iw}x{ih} in {w}x{h}");
        }
    }
}

#[test]
fn a_square_cover_fills_the_narrower_side() {
    // Two pixel rows to a cell: 600 pixels of height fit into 20 rows.
    assert_eq!(cells_for(600, 600, 80, 20), (40, 20));
    assert_eq!(cells_for(600, 600, 30, 20), (30, 15));
    assert_eq!(cells_for(600, 300, 30, 20), (30, 7));
}

#[test]
fn halfblock_cells_pack_two_rows_of_pixels() {
    let img = picture(2, 2, &[[1, 2, 3], [4, 5, 6], [7, 8, 9], [10, 11, 12]]);
    let mut app = app_with(img, AlbumArtStyle::Halfblock);
    assert!(app.can_render_album_art(2, 1));
    app.render_album_art(2, 1);
    match app.art.album_art_cache {
        Some(AlbumArtCache::Halfblock(rows)) => assert_eq!(
            rows,
            vec![vec![('▀', [1, 2, 3], [7, 8, 9]), ('▀', [4, 5, 6], [10, 11, 12])]]
        ),
        _ => panic!("expected halfblocks"),
    }
    assert_eq!(app.art.album_art_size, (2, 1));
}

#[test]
fn ascii_glyphs_agree_with_single_precision() {
    let mut pixels: Vec<[u8; 3]> = Vec::new();
    for v in 0..=255u8 {
        pixels.push([v, v, v]);
        pixels.push([v, 255 - v, v / 2]);
        pixels.push([v / 3, v, 255]);
        pixels.push([255, v / 7, v.wrapping_mul(37)]);
    }
    let n = pixels.len();
    let img = picture(n as u32, 1, &pixels);
    let mut app = app_with(img, AlbumArtStyle::Ascii);
    app.render_album_art(n as u16, 1);
    let Some(AlbumArtCache::Ascii(rows)) = app.art.album_art_cache else {
        panic!("expected glyphs");
    };
    assert_eq!(rows.len(), 1);
    assert_eq!(rows[0].len(), n);
    for (cell, p) in rows[0].iter().zip(&pixels) {
        let lum = (0.2126 * p[0] as f32 + 0.7152 * p[1] as f32 + 0.0722 * p[2] as f32) as u32;
        let idx = (lum * 10 / 256).min(9) as usize;
        assert_eq!(cell.0, ASCII_ART_RAMP[idx] as char, "{p:?}");
        assert_eq!(cell.1, *p);
    }
}

#[test]
fn black_is_blank_and_white_is_dense() {
    let img = picture(2, 1, &[[0, 0, 0], [255, 255, 255]]);
    let mut app = app_with(img, AlbumArtStyle::Ascii);
    app.render_album_art(2, 1);
    let Some(AlbumArtCache::Ascii(rows)) = app.art.album_art_cache else {
        panic!("expected glyphs");
    };
    assert_eq!(rows, vec![vec![(' ', [0, 0, 0]), ('@', [255, 255, 255])]]);
}

#[test]
fn a_resized_picture_has_the_new_size() {
    let img = picture(2, 2, &[[200, 10, 30]; 4]);
    let mut app = app_with(img, AlbumArtStyle::Halfblock);
    app.render_album_art(8, 4);
    let cache = app.art.album_art_cache.as_ref().expect("rendered");
    assert_eq!((cache.width(), cache.rows()), (8, 4));
    // A picture of one colour keeps it, whatever the size.
    let AlbumArtCache::Halfblock(rows) = cache else {
        panic!("expected halfblocks");
    };
    for cell in rows.iter().flatten() {
        assert_eq!((cell.1, cell.2), ([200, 10, 30], [200, 10, 30]));
    }
}

#[test]
fn sixteen_bit_samples_are_rounded_to_eight() {
    let row: Vec<u16> = vec![0, 128, 129, 65_535, 385, 386, 32_767, 65_535];
    let img = ArtImage { width: 2, height: 1, rgba: ArtSamples::Sixteen(row) };
    let mut app = app_with(img, AlbumArtStyle::Ascii);
    app.render_album_art(2, 1);
    let Some(AlbumArtCache::Ascii(rows)) = app.art.album_art_cache else {
        panic!("expected glyphs");
    };
    assert_eq!(rows, vec![vec![(' ', [0, 0, 1]), (' ', [1, 2, 127])]]);
}

#[test]
fn a_deep_picture_is_resized_before_it_is_reduced() {
    let (w, h) = (9, 7);
    let deep: Vec<u16> = (0..w * h * 4).map(|i| (i * 7919 % 65_536) as u16).collect();
    let buffer = image::ImageBuffer::from_raw(w, h, deep.clone()).expect("a buffer of that size");
    let whole = image::DynamicImage::ImageRgba16(buffer);
    let filter = image::imageops::FilterType::Lanczos3;
    let img = ArtImage { width: w, height: h, rgba: ArtSamples::Sixteen(deep) };
    let mut app = app_with(img, AlbumArtStyle::Ascii);
    app.render_album_art(40, 20);
    let Some(AlbumArtCache::Ascii(rows)) = app.art.album_art_cache else {
        panic!("expected glyphs");
    };
    let (cols, high) = (rows[0].len() as u32, rows.len() as u32);
    let late = whole.resize_exact(cols, high, filter).to_rgba8();
    let reduced = image::DynamicImage::ImageRgba8(whole.to_rgba8());
    let early = reduced.resize_exact(cols, high, filter).to_rgba8();
    assert_ne!(late, early);
    for (y, line) in rows.iter().enumerate() {
        for (x, cell) in line.iter().enumerate() {
            let p = late.get_pixel(x as u32, y as u32);
            assert_eq!(cell.1, [p[0], p[1], p[2]]);
        }
    }
}

#[test]
fn a_picture_without_pixels_gives_black_cells() {
    let img = picture(0, 0, &[]);
    let mut app = app_with(img, AlbumArtStyle::Ascii);
    app.render_album_art(4, 4);
    let Some(AlbumArtCache::Ascii(rows)) = app.art.album_art_cache else {
        panic!("expected glyphs");
    };
    assert!(rows.iter().flatten().all(|cell| *cell == (' ', [0, 0, 0])));
}

#[test]
fn bytes_of_another_size_cannot_be_drawn() {
    let img = ArtImage { width: 2, height: 2, rgba: ArtSamples::Sixteen(vec![0; 17]) };
    assert!(!img.is_drawable(AlbumArtStyle::Halfblock, 4, 4));
    let img = ArtImage { width: 2, height: 2, rgba: ArtSamples::Eight(vec![0; 15]) };
    assert!(!img.is_drawable(AlbumArtStyle::Halfblock, 4, 4));
    let app = app_with(img, AlbumArtStyle::Halfblock);
    assert!(!app.can_render_album_art(4, 4));
    assert!(App::new(Config::default(), Host::new(12, 12)).can_render_album_art(4, 4));
}

#[test]
fn rendering_again_for_the_same_area_keeps_the_cells() {
    let mut app = app_with(picture(1, 2, &[[9, 9, 9], [8, 8, 8]]), AlbumArtStyle::Halfblock);
    app.render_album_art(1, 1);
    // The cells are current, so a picture that came since is not looked at.
    app.art.album_art = None;
    app.render_album_art(1, 1);
    assert!(app.art.album_art_cache.is_some());
    // Another area does away with them.
    app.render_album_art(2, 1);
    assert!(app.art.album_art_cache.is_none());
    assert_eq!(app.art.album_art_size, (2, 1));
}

#[test]
fn toggling_the_style_twice_comes_back() {
    let mut app = app_with(picture(1, 1, &[[0, 0, 0]]), AlbumArtStyle::Halfblock);
    app.render_album_art(4, 4);
    app.toggle_album_art_style();
    assert_eq!(app.art.album_art_style, AlbumArtStyle::Ascii);
    assert!(app.art.album_art_cache.is_none());
    app.toggle_album_art_style();
    assert_eq!(app.art.album_art_style, AlbumArtStyle::Halfblock);
}

fn row(artist: &str, album: &str, location: Option<&str>) -> TrackInfo {
    TrackInfo::new(
        "Song".into(),
        artist.into(),
        album.into(),
        None,
        None,
        location.map(String::from),
        None,
        None,
        None,
        false,
    )
}

#[test]
fn art_is_asked_for_once_for_an_album() {
    let mut app = app_with(picture(1, 1, &[[0, 0, 0]]), AlbumArtStyle::Halfblock);
    app.lists.track_list = vec![row("A", "B", Some("/1.mp3")), row("A", "B", None)];
    app.refresh_album_art();
    app.refresh_album_art();
    assert_eq!(app.art.album_art_key, "A/B");
    assert!(app.art.album_art.is_none());
    assert_eq!(app.out.pending_bg_commands.len(), 1);
    match &app.out.pending_bg_commands[0] {
        BgCommand::LoadAlbumArt { key, artist, album, paths } => {
            assert_eq!((key.as_str(), artist.as_str(), album.as_str()), ("A/B", "A", "B"));
            assert_eq!(*paths, vec!["/1.mp3".to_string()]);
        }
        _ => panic!("expected a request for art"),
    }
    // No tracks, no art.
    app.lists.track_list.clear();
    app.refresh_album_art();
    assert_eq!(app.art.album_art_key, "");
    assert_eq!(app.out.pending_bg_commands.len(), 1);
}

#[test]
fn rounding_agrees_with_doubles() {
    for n in [0u128, 1, (1 << 53) - 1, 1 << 53, (1 << 53) + 1, (1 << 53) + 3, u64::MAX as u128, (1 << 60) + 127] {
        assert_eq!(round_to(n, 1 << 53), n as f64 as u128, "{n}");
    }
    for n in [0u128, 16_777_215, 16_777_217, 16_777_219, 123_456_789] {
        assert_eq!(round_to(n, 1 << 24), n as f32 as u128, "{n}");
    }
}
