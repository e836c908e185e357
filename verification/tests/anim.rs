use std::collections::HashSet;
use zytunes_tui::anim::{
    connection_screen_lines, progress_bar_with_shine, shine_offset, skin_bios, skin_everforest_dark,
    skin_everforest_light, skin_gruvbox_dark, skin_gruvbox_light, skin_ibm, skin_itunes, skin_newport,
    skin_red_sands, skin_system7, skin_tokyo_night, skin_win95, typing_reveal, PlayerSkin,
};
use zytunes_tui::model::DeviceFamily;

#[test]
fn typing_reveal_progression() {
    let text = "zytunes";
    assert_eq!(typing_reveal(text, 0), "");
    assert_eq!(typing_reveal(text, 2), "z");
    assert_eq!(typing_reveal(text, 4), "zy");
}

#[test]
fn typing_reveal_complete() {
    let text = "zytunes";
    assert_eq!(typing_reveal(text, 100), "zytunes");
}

#[test]
fn typing_reveal_counts_characters() {
    let text = "Björk — Jóga";
    assert_eq!(typing_reveal(text, 6), "Bjö");
    assert_eq!(typing_reveal(text, 23), "Björk — Jóg");
    assert_eq!(typing_reveal(text, 24), text);
}

#[test]
fn shine_offset_wraps() {
    let bar_width = 10;
    let mut positions = Vec::new();
    for frame in 0..100 {
        if let Some(pos) = shine_offset(frame, bar_width) {
            positions.push(pos);
        }
    }
    // Should wrap around: values < bar_width appear more than once.
    assert!(positions.len() > bar_width);
}

#[test]
fn shine_offset_zero_width() {
    assert_eq!(shine_offset(5, 0), None);
}

#[test]
fn shine_offset_exact_values() {
    assert_eq!(shine_offset(0, 10), Some(0));
    assert_eq!(shine_offset(1, 10), Some(0));
    assert_eq!(shine_offset(24, 10), Some(12));
    assert_eq!(shine_offset(26, 10), Some(0));
}

#[test]
fn connection_screen_lines_fit_width() {
    for family in [
        None,
        Some(DeviceFamily::Zune),
        Some(DeviceFamily::Ipod),
        Some(DeviceFamily::Gogear),
    ] {
        for frame in 0..100 {
            let (line1, line2) = connection_screen_lines(frame, family);
            assert!(
                line1.len() <= 12,
                "line1 '{}' exceeds 12 chars at frame {} family {:?}",
                line1,
                frame,
                family
            );
            assert!(
                line2.len() <= 12,
                "line2 '{}' exceeds 12 chars at frame {} family {:?}",
                line2,
                frame,
                family
            );
        }
    }
}

#[test]
fn connection_screen_stages_progress() {
    let (l1_0, _) = connection_screen_lines(0, None);
    let (_, l2_20) = connection_screen_lines(20, Some(DeviceFamily::Ipod));
    let (l1_40_zune, _) = connection_screen_lines(40, Some(DeviceFamily::Zune));
    let (l1_40_ipod, _) = connection_screen_lines(40, Some(DeviceFamily::Ipod));
    assert!(l1_0.starts_with("Scanning"));
    assert_eq!(l2_20, "iPod");
    assert!(l1_40_zune.starts_with("MTPZ"));
    assert!(l1_40_ipod.starts_with("Opening"));
}

#[test]
fn connection_screen_exact_lines() {
    assert_eq!(connection_screen_lines(5, None), ("Scanning.", ""));
    assert_eq!(connection_screen_lines(20, None), ("Found", "Device"));
    assert_eq!(connection_screen_lines(50, None), ("USB..", "Connect"));
    assert_eq!(
        connection_screen_lines(59, Some(DeviceFamily::Gogear)),
        ("Opening...", "Volume")
    );
    assert_eq!(
        connection_screen_lines(75, Some(DeviceFamily::Zune)),
        ("Ready...", "Connecting")
    );
}

#[test]
fn progress_bar_correct_length() {
    let bar = progress_bar_with_shine(10, 5, 0);
    assert_eq!(bar.len(), 15);
    // First 10 should be filled ('='), last 5 should be empty (' ').
    for (i, &(ch, _)) in bar.iter().enumerate() {
        if i < 10 {
            assert_eq!(ch, '=');
        } else {
            assert_eq!(ch, ' ');
        }
    }
}

#[test]
fn progress_bar_shines_three_wide() {
    let shining = |frame: usize| -> Vec<usize> {
        progress_bar_with_shine(6, 2, frame)
            .iter()
            .enumerate()
            .filter(|(_, c)| c.1)
            .map(|(i, _)| i)
            .collect()
    };
    assert_eq!(shining(0), vec![0, 1]);
    assert_eq!(shining(6), vec![2, 3, 4]);
    // The empty part never shines.
    assert_eq!(shining(14), Vec::<usize>::new());
}

#[test]
fn skin_animation_frames() {
    // At least a couple of skins animate (produce distinct frames).
    let tokyo = skin_tokyo_night();
    let frames: Vec<_> = (0..20).map(|f| tokyo.art_fn(true, f)).collect();
    let unique: HashSet<String> = frames.iter().map(|f| format!("{:?}", f)).collect();
    assert!(unique.len() >= 2, "Tokyo Night should have animated frames");

    let ibm = skin_ibm();
    let frames: Vec<_> = (0..20).map(|f| ibm.art_fn(true, f)).collect();
    let unique: HashSet<String> = frames.iter().map(|f| format!("{:?}", f)).collect();
    assert!(unique.len() >= 2, "IBM should have animated frames");
}

#[test]
fn skin_art_keeps_its_size() {
    let skins: Vec<PlayerSkin> = vec![
        skin_itunes(),
        skin_gruvbox_dark(),
        skin_gruvbox_light(),
        skin_everforest_dark(),
        skin_everforest_light(),
        skin_tokyo_night(),
        skin_ibm(),
        skin_win95(),
        skin_system7(),
        skin_bios(),
        skin_red_sands(),
        skin_newport(),
    ];
    for (k, skin) in skins.iter().enumerate() {
        let first = skin.art_fn(true, 0);
        assert_eq!(first.len(), 5, "skin {}", k);
        for frame in 0..60 {
            let art = skin.art_fn(true, frame);
            assert_eq!(art.len(), 5, "skin {} frame {}", k, frame);
            for row in art.iter() {
                assert_eq!(row.chars().count(), 14, "skin {} frame {}", k, frame);
            }
        }
    }
}
