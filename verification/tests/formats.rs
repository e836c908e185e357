use zytunes_tui::format::{
    first_char_upper, format_bytes_compact, format_duration, format_khz, format_megabytes,
    format_with_commas,
};
use zytunes_tui::model::Track;
use zytunes_tui::tracks::build_now_playing_metadata;

#[test]
fn format_with_commas_cases() {
    assert_eq!(format_with_commas(0), "0");
    assert_eq!(format_with_commas(5), "5");
    assert_eq!(format_with_commas(999), "999");
    assert_eq!(format_with_commas(1000), "1,000");
    assert_eq!(format_with_commas(12345), "12,345");
    assert_eq!(format_with_commas(1_000_000), "1,000,000");
}

#[test]
fn format_duration_cases() {
    assert_eq!(format_duration(0), "0:00");
    assert_eq!(format_duration(1000), "0:01");
    assert_eq!(format_duration(60_000), "1:00");
    assert_eq!(format_duration(61_000), "1:01");
    assert_eq!(format_duration(3_723_000), "62:03");
    assert_eq!(format_duration(500), "0:00"); // rounds down
}

#[test]
fn format_bytes_compact_cases() {
    assert_eq!(format_bytes_compact(0), "0 B");
    assert_eq!(format_bytes_compact(512), "512 B");
    assert_eq!(format_bytes_compact(1500), "1.5 KB");
    assert_eq!(format_bytes_compact(2 * 1024 * 1024), "2.0 MB");
    assert_eq!(format_bytes_compact(3 * 1024 * 1024 * 1024), "3.00 GB");
}

#[test]
fn quotients_agree_with_floating_point() {
    for n in [
        1023u64, 1024, 1075, 1126, 1_048_575, 1_048_576, 1_100_000, 1_073_741_823, 1_073_741_824,
        1_079_110_533, 5_368_709_120, 123_456_789_012, 9_007_199_254_740_993, u64::MAX,
    ] {
        let f = n as f64;
        let expected = if n >= 1_073_741_824 {
            format!("{:.2} GB", f / 1_073_741_824.0)
        } else if n >= 1_048_576 {
            format!("{:.1} MB", f / 1_048_576.0)
        } else if n >= 1024 {
            format!("{:.1} KB", f / 1024.0)
        } else {
            format!("{} B", n)
        };
        assert_eq!(format_bytes_compact(n), expected);
        assert_eq!(format_megabytes(n), format!("{:.1}", f / 1_048_576.0));
    }
    for hz in [0u32, 8_000, 11_025, 22_050, 44_100, 48_000, 88_250, 96_050, 192_000, u32::MAX] {
        assert_eq!(format_khz(hz), format!("{:.1} kHz", hz as f64 / 1000.0));
    }
}

#[test]
fn build_now_playing_metadata_none_track_yields_empty() {
    let (year, line) = build_now_playing_metadata(None);
    assert_eq!(year, None);
    assert!(line.is_empty());
}

#[test]
fn build_now_playing_metadata_skips_missing_fields() {
    // A bare-bones Track with only the identity fields populated should
    // produce no marquee segments.
    let t = Track {
        id: 1,
        name: "Song".into(),
        artist: "Artist".into(),
        album: "Album".into(),
        ..Track::default()
    };
    let (year, line) = build_now_playing_metadata(Some(&t));
    assert_eq!(year, None);
    assert_eq!(line, "");
}

#[test]
fn build_now_playing_metadata_assembles_segments_in_order() {
    let t = Track {
        id: 1,
        name: "Song".into(),
        artist: "Artist".into(),
        album: "Album".into(),
        year: Some(2023),
        genre: Some("Rock".into()),
        bpm: Some(128),
        initial_key: Some("Am".into()),
        audio_bitrate_kbps: Some(320),
        sample_rate: Some(44_100),
        bit_depth: Some(16),
        channels: Some(2),
        file_size_bytes: Some(8 * 1024 * 1024),
        ..Track::default()
    };
    let (year, line) = build_now_playing_metadata(Some(&t));
    assert_eq!(year, Some(2023));
    // Order locks the user-visible reading flow: musical first, then
    // technical, then file.
    assert_eq!(
        line,
        "Genre: Rock | BPM: 128 | Key: Am | 320 kbps | 44.1 kHz | 16-bit | Stereo | 8.0 MB"
    );
}

#[test]
fn build_now_playing_metadata_suppresses_redundant_album_artist() {
    // When album_artist matches artist it adds no signal, so it is dropped.
    let t = Track {
        id: 1,
        name: "Song".into(),
        artist: "Artist".into(),
        album: "Album".into(),
        album_artist: Some("artist".into()),
        ..Track::default()
    };
    let (_, line) = build_now_playing_metadata(Some(&t));
    assert!(
        !line.contains("Album Artist"),
        "expected no album-artist segment, got `{}`",
        line
    );
}

#[test]
fn build_now_playing_metadata_includes_distinct_album_artist() {
    // Compilations and split-credit releases still want the album artist.
    let t = Track {
        id: 1,
        name: "Song".into(),
        artist: "Sufjan Stevens".into(),
        album: "Compilation".into(),
        album_artist: Some("Various Artists".into()),
        ..Track::default()
    };
    let (_, line) = build_now_playing_metadata(Some(&t));
    assert!(line.contains("Album Artist: Various Artists"), "{line}");
}

#[test]
fn first_char_upper_cases() {
    assert_eq!(first_char_upper("hello"), 'H');
    assert_eq!(first_char_upper("Hello"), 'H');
    assert_eq!(first_char_upper("123"), '1');
    assert_eq!(first_char_upper(""), ' ');
    assert_eq!(first_char_upper("über"), 'Ü');
}
