//! Animation frames: sweeping highlights, typewriter text, connection screens
//! and the art of the player skins.
use vstd::prelude::*;
use crate::model::DeviceFamily;
use crate::text::{has_substring, occurs_at};

verus! {

/// Returns the position of a 3-char "shine" highlight sweeping across a bar.
/// Sweeps across the full `total_width`, not just the filled portion. Returns
/// `None` if total_width is 0.
pub fn shine_offset(frame: usize, total_width: usize) -> (r: Option<usize>)
    requires
        total_width + 3 <= usize::MAX,
    ensures
        r == shine_at(frame as nat, total_width as nat),
{
    if total_width == 0 {
        return None;
    }
    let cycle: usize = total_width + 3;
    let pos: usize = (frame / 2) % cycle;
    Some(pos)
}

/// The highlight moves one position every two frames and starts over behind
/// the bar.
pub open spec fn shine_at(frame: nat, total_width: nat) -> Option<usize> {
    if total_width == 0 {
        None
    } else {
        Some(((frame / 2) % (total_width + 3)) as usize)
    }
}

/// One cell of the progress bar: filled up to `filled`, and lit where the
/// highlight is at most one cell away.
pub open spec fn bar_cell(filled: nat, total: nat, frame: nat, i: int) -> (char, bool) {
    if i < filled {
        match shine_at(frame, total) {
            Some(sp) => ('=', sp - 1 <= i <= sp + 1),
            None => ('=', false),
        }
    } else {
        (' ', false)
    }
}

/// Builds a progress bar with a sweeping shine highlight: one cell per
/// position, with a flag for the cells that use a brighter style.
pub fn progress_bar_with_shine(filled: usize, empty: usize, frame: usize) -> (r: Vec<(char, bool)>)
    requires
        filled + empty + 3 <= usize::MAX,
    ensures
        r@ == Seq::new(
            (filled + empty) as nat,
            |i: int| bar_cell(filled as nat, (filled + empty) as nat, frame as nat, i),
        ),
{
    let total: usize = filled + empty;
    let shine_pos = shine_offset(frame, total);
    let mut r: Vec<(char, bool)> = Vec::new();
    let mut i: usize = 0;
    while i < total
        invariant
            i <= total,
            total == filled + empty,
            total + 3 <= usize::MAX,
            shine_pos == shine_at(frame as nat, total as nat),
            r@ == Seq::new(
                i as nat,
                |k: int| bar_cell(filled as nat, total as nat, frame as nat, k),
            ),
        decreases total - i,
    {
        let cell: (char, bool) = if i < filled {
            match shine_pos {
                Some(sp) => {
                    let low: usize = if sp == 0 {
                        0
                    } else {
                        sp - 1
                    };
                    ('=', i >= low && i <= sp + 1)
                },
                None => ('=', false),
            }
        } else {
            (' ', false)
        };
        r.push(cell);
        i = i + 1;
    }
    r
}

/// Returns a slice of `text` revealed character-by-character over time: one
/// more character every two frames.
pub fn typing_reveal(text: &str, elapsed_frames: usize) -> (r: &str)
    ensures
        r@ == text@.take(
            if elapsed_frames / 2 < text@.len() {
                elapsed_frames as int / 2
            } else {
                text@.len() as int
            },
        ),
{
    let chars_to_show: usize = elapsed_frames / 2;
    let n = text.unicode_len();
    if chars_to_show >= n {
        proof {
            assert(text@.take(text@.len() as int) =~= text@);
        }
        return text;
    }
    proof {
        assert(text@.subrange(0, chars_to_show as int) =~= text@.take(chars_to_show as int));
    }
    text.substring_char(0, chars_to_show)
}

/// The number of dots behind a label in the given frame: none, one, two,
/// three, each for a quarter of a second.
pub open spec fn dots_at(frame: nat) -> nat {
    frame % 20 / 5
}

/// The label with its dots.
pub open spec fn dotted(frame: nat, plain: Seq<char>, one: Seq<char>, two: Seq<char>, three: Seq<char>) -> Seq<char> {
    if dots_at(frame) == 0 {
        plain
    } else if dots_at(frame) == 1 {
        one
    } else if dots_at(frame) == 2 {
        two
    } else {
        three
    }
}

fn with_dots(
    frame: usize,
    plain: &'static str,
    one: &'static str,
    two: &'static str,
    three: &'static str,
) -> (r: &'static str)
    ensures
        r@ == dotted(frame as nat, plain@, one@, two@, three@),
{
    let k: usize = (frame % 20) / 5;
    if k == 0 {
        plain
    } else if k == 1 {
        one
    } else if k == 2 {
        two
    } else {
        three
    }
}

/// The two lines of the connection screen: scanning, then what was found, then
/// how it is opened, then ready; one second each.
pub open spec fn connection_lines(frame: nat, family: Option<DeviceFamily>) -> (Seq<char>, Seq<char>) {
    let stage = frame / 20;
    if stage == 0 {
        (dotted(frame, "Scanning"@, "Scanning."@, "Scanning.."@, "Scanning..."@), ""@)
    } else if stage == 1 {
        (
            dotted(frame, "Found"@, "Found."@, "Found.."@, "Found..."@),
            match family {
                Some(f) => f.text(),
                None => "Device"@,
            },
        )
    } else if stage == 2 {
        match family {
            Some(DeviceFamily::Zune) => (
                dotted(frame, "MTPZ"@, "MTPZ."@, "MTPZ.."@, "MTPZ..."@),
                "Handshake"@,
            ),
            Some(_) => (
                dotted(frame, "Opening"@, "Opening."@, "Opening.."@, "Opening..."@),
                "Volume"@,
            ),
            None => (dotted(frame, "USB"@, "USB."@, "USB.."@, "USB..."@), "Connect"@),
        }
    } else {
        (dotted(frame, "Ready"@, "Ready."@, "Ready.."@, "Ready..."@), "Connecting"@)
    }
}

/// Returns two screen lines for the device ASCII art during connection. Each
/// line is at most 12 chars. Frame counter starts at 0 when connection begins.
/// `family` is whatever was last detected (or `None` while still scanning) so
/// an iPod connect never paints "Zune" or "MTPZ Handshake".
pub fn connection_screen_lines(frame: usize, family: Option<DeviceFamily>) -> (r: (
    &'static str,
    &'static str,
))
    ensures
        (r.0@, r.1@) == connection_lines(frame as nat, family),
        r.0@.len() <= 12,
        r.1@.len() <= 12,
{
    let stage: usize = frame / 20;
    let found_label: &'static str = match family {
        Some(f) => f.label(),
        None => "Device",
    };
    let lines: (&'static str, &'static str) = if stage == 0 {
        (with_dots(frame, "Scanning", "Scanning.", "Scanning..", "Scanning..."), "")
    } else if stage == 1 {
        (with_dots(frame, "Found", "Found.", "Found..", "Found..."), found_label)
    } else if stage == 2 {
        match family {
            Some(DeviceFamily::Ipod) | Some(DeviceFamily::Gogear) => (
                with_dots(frame, "Opening", "Opening.", "Opening..", "Opening..."),
                "Volume",
            ),
            Some(DeviceFamily::Zune) => (
                with_dots(frame, "MTPZ", "MTPZ.", "MTPZ..", "MTPZ..."),
                "Handshake",
            ),
            None => (with_dots(frame, "USB", "USB.", "USB..", "USB..."), "Connect"),
        }
    } else {
        (with_dots(frame, "Ready", "Ready.", "Ready..", "Ready..."), "Connecting")
    };
    proof {
        connection_lines_fit(frame as nat, family);
    }
    lines
}

/// No line of the connection screen is wider than the screen.
pub proof fn connection_lines_fit(frame: nat, family: Option<DeviceFamily>)
    ensures
        connection_lines(frame, family).0.len() <= 12,
        connection_lines(frame, family).1.len() <= 12,
{
    reveal_strlit("Scanning");
    reveal_strlit("Scanning.");
    reveal_strlit("Scanning..");
    reveal_strlit("Scanning...");
    reveal_strlit("Found");
    reveal_strlit("Found.");
    reveal_strlit("Found..");
    reveal_strlit("Found...");
    reveal_strlit("MTPZ");
    reveal_strlit("MTPZ.");
    reveal_strlit("MTPZ..");
    reveal_strlit("MTPZ...");
    reveal_strlit("Opening");
    reveal_strlit("Opening.");
    reveal_strlit("Opening..");
    reveal_strlit("Opening...");
    reveal_strlit("USB");
    reveal_strlit("USB.");
    reveal_strlit("USB..");
    reveal_strlit("USB...");
    reveal_strlit("Ready");
    reveal_strlit("Ready.");
    reveal_strlit("Ready..");
    reveal_strlit("Ready...");
    reveal_strlit("");
    reveal_strlit("Device");
    reveal_strlit("Zune");
    reveal_strlit("iPod");
    reveal_strlit("GoGear");
    reveal_strlit("Handshake");
    reveal_strlit("Volume");
    reveal_strlit("Connect");
    reveal_strlit("Connecting");
}

proof fn no_z_no_word(line: Seq<char>, word: Seq<char>, at: int)
    requires
        !line.contains('Z'),
        0 <= at < word.len(),
        word[at] == 'Z',
    ensures
        !has_substring(line, word),
{
    if has_substring(line, word) {
        let i = choose|i: int| occurs_at(line, word, i);
        assert(line.subrange(i, i + word.len())[at] == line[i + at]);
        assert(line.contains(line[i + at]));
    }
}

/// Connecting anything but a Zune never shows "Zune" or "MTPZ Handshake".
pub proof fn only_a_zune_shows_zune(frame: nat, family: Option<DeviceFamily>)
    requires
        family != Some(DeviceFamily::Zune),
    ensures
        !has_substring(connection_lines(frame, family).0, "Zune"@),
        !has_substring(connection_lines(frame, family).1, "Zune"@),
        !has_substring(connection_lines(frame, family).0, "MTPZ"@),
        !has_substring(connection_lines(frame, family).1, "MTPZ"@),
        connection_lines(frame, family).1 != "Handshake"@,
{
    reveal_strlit("Scanning");
    reveal_strlit("Scanning.");
    reveal_strlit("Scanning..");
    reveal_strlit("Scanning...");
    reveal_strlit("Found");
    reveal_strlit("Found.");
    reveal_strlit("Found..");
    reveal_strlit("Found...");
    reveal_strlit("Opening");
    reveal_strlit("Opening.");
    reveal_strlit("Opening..");
    reveal_strlit("Opening...");
    reveal_strlit("USB");
    reveal_strlit("USB.");
    reveal_strlit("USB..");
    reveal_strlit("USB...");
    reveal_strlit("Ready");
    reveal_strlit("Ready.");
    reveal_strlit("Ready..");
    reveal_strlit("Ready...");
    reveal_strlit("");
    reveal_strlit("Device");
    reveal_strlit("iPod");
    reveal_strlit("GoGear");
    reveal_strlit("Handshake");
    reveal_strlit("Volume");
    reveal_strlit("Connect");
    reveal_strlit("Connecting");
    reveal_strlit("Zune");
    reveal_strlit("MTPZ");
    let (a, b) = connection_lines(frame, family);
    assert(!a.contains('Z'));
    assert(!b.contains('Z'));
    assert(b.len() != 9);
    no_z_no_word(a, "Zune"@, 0);
    no_z_no_word(b, "Zune"@, 0);
    no_z_no_word(a, "MTPZ"@, 3);
    no_z_no_word(b, "MTPZ"@, 3);
}

/// Theme-specific player skin for the Now Playing panel.
pub struct PlayerSkin {
    pub play: &'static str,
    pub pause: &'static str,
    pub next: &'static str,
    pub prev: &'static str,
    pub bar_filled: char,
    pub bar_empty: char,
    /// Which animation the skin plays.
    pub art: SkinArt,
}

/// The animations of the player skins.
#[derive(Debug, Clone, Copy, PartialEq, Eq, Structural)]
pub enum SkinArt {
    Itunes,
    GruvboxDark,
    GruvboxLight,
    EverforestDark,
    EverforestLight,
    TokyoNight,
    Ibm,
    Win95,
    System7,
    Bios,
    RedSands,
    Newport,
}

/// The size of all art: five rows, each exactly 14 characters wide. A consistent
/// width prevents centering jitter.
pub open spec fn art_fits(rows: Seq<&'static str>) -> bool {
    rows.len() == 5 && forall|i: int| 0 <= i < 5 ==> (#[trigger] rows[i])@.len() == 14
}

/// Five rows of one frame, as a vector.
fn rows_of(rows: &[&'static str; 5]) -> (r: Vec<&'static str>)
    ensures
        r@ == rows@,
{
    let mut out: Vec<&'static str> = Vec::new();
    let mut i: usize = 0;
    while i < 5
        invariant
            i <= 5,
            out@ == rows@.take(i as int),
        decreases 5 - i,
    {
        out.push(rows[i]);
        i = i + 1;
    }
    out
}

// --- iTunes 2004: spinning CD ---
pub const ITUNES_0: [&'static str; 5] = [
    " .--=====--.  ",
    " | .---=-. |  ",
    " | |  O  | |  ",
    " | `---=-' |  ",
    " `--=====--'  ",
];

pub const ITUNES_1: [&'static str; 5] = [
    " .--=====--.  ",
    " | .--+--. |  ",
    " | |  O  | |  ",
    " | `--+--' |  ",
    " `--=====--'  ",
];

pub const ITUNES_2: [&'static str; 5] = [
    " .--=====--.  ",
    " | .--*--. |  ",
    " | |  O  | |  ",
    " | `--*--' |  ",
    " `--=====--'  ",
];

pub const ITUNES_3: [&'static str; 5] = [
    " .--=====--.  ",
    " | .--~--. |  ",
    " | |  O  | |  ",
    " | `--~--' |  ",
    " `--=====--'  ",
];

/// The rows of the frame.
pub open spec fn itunes_rows(frame: nat) -> Seq<&'static str> {
    let p = (frame / 4) % 4;
    if p == 0 {
        ITUNES_0@
    } else if p == 1 {
        ITUNES_1@
    } else if p == 2 {
        ITUNES_2@
    } else {
        ITUNES_3@
    }
}

proof fn itunes_fits(frame: nat)
    ensures
        art_fits(itunes_rows(frame)),
{
    reveal_strlit(" .--=====--.  ");
    reveal_strlit(" | .---=-. |  ");
    reveal_strlit(" | |  O  | |  ");
    reveal_strlit(" | `---=-' |  ");
    reveal_strlit(" `--=====--'  ");
    reveal_strlit(" | .--+--. |  ");
    reveal_strlit(" | `--+--' |  ");
    reveal_strlit(" | .--*--. |  ");
    reveal_strlit(" | `--*--' |  ");
    reveal_strlit(" | .--~--. |  ");
    reveal_strlit(" | `--~--' |  ");
}

pub fn art_itunes(_playing: bool, frame: usize) -> (r: Vec<&'static str>)
    ensures
        r@ == itunes_rows(frame as nat),
        r@.len() == 5,
        forall|i: int| 0 <= i < 5 ==> (#[trigger] r@[i])@.len() == 14,
{
    proof {
        itunes_fits(frame as nat);
    }
    let p: usize = (frame / 4) % 4;
    if p == 0 {
        rows_of(&ITUNES_0)
    } else if p == 1 {
        rows_of(&ITUNES_1)
    } else if p == 2 {
        rows_of(&ITUNES_2)
    } else {
        rows_of(&ITUNES_3)
    }
}

pub fn skin_itunes() -> (r: PlayerSkin)
    ensures
        r.play@ == "▶"@,
        r.pause@ == "❚❚"@,
        r.next@ == "▷▷"@,
        r.prev@ == "◁◁"@,
        r.bar_filled == '━',
        r.bar_empty == '─',
        r.art == SkinArt::Itunes,
{
    PlayerSkin {
        play: "▶",
        pause: "❚❚",
        next: "▷▷",
        prev: "◁◁",
        bar_filled: '━',
        bar_empty: '─',
        art: SkinArt::Itunes,
    }
}

// --- Gruvbox Dark: bouncing EQ bars ---
pub const GRUVBOX_DARK_0: [&'static str; 5] = [
    " █       █    ",
    " █ █   █ █    ",
    " █ █ █ █ █    ",
    " █ █ █ █ █    ",
    " █ █ █ █ █    ",
];

pub const GRUVBOX_DARK_1: [&'static str; 5] = [
    "   █   █      ",
    " █ █   █ █    ",
    " █ █   █ █    ",
    " █ █ █ █ █    ",
    " █ █ █ █ █    ",
];

pub const GRUVBOX_DARK_2: [&'static str; 5] = [
    "     █        ",
    "   █ █ █      ",
    " █ █ █ █ █    ",
    " █ █ █ █ █    ",
    " █ █ █ █ █    ",
];

pub const GRUVBOX_DARK_3: [&'static str; 5] = [
    "   █   █      ",
    " █ █ █ █ █    ",
    " █ █ █ █ █    ",
    " █ █ █ █ █    ",
    " █ █ █ █ █    ",
];

/// The rows of the frame.
pub open spec fn gruvbox_dark_rows(frame: nat) -> Seq<&'static str> {
    let p = (frame / 3) % 4;
    if p == 0 {
        GRUVBOX_DARK_0@
    } else if p == 1 {
        GRUVBOX_DARK_1@
    } else if p == 2 {
        GRUVBOX_DARK_2@
    } else {
        GRUVBOX_DARK_3@
    }
}

proof fn gruvbox_dark_fits(frame: nat)
    ensures
        art_fits(gruvbox_dark_rows(frame)),
{
    reveal_strlit(" █       █    ");
    reveal_strlit(" █ █   █ █    ");
    reveal_strlit(" █ █ █ █ █    ");
    reveal_strlit("   █   █      ");
    reveal_strlit("     █        ");
    reveal_strlit("   █ █ █      ");
}

pub fn art_gruvbox_dark(_playing: bool, frame: usize) -> (r: Vec<&'static str>)
    ensures
        r@ == gruvbox_dark_rows(frame as nat),
        r@.len() == 5,
        forall|i: int| 0 <= i < 5 ==> (#[trigger] r@[i])@.len() == 14,
{
    proof {
        gruvbox_dark_fits(frame as nat);
    }
    let p: usize = (frame / 3) % 4;
    if p == 0 {
        rows_of(&GRUVBOX_DARK_0)
    } else if p == 1 {
        rows_of(&GRUVBOX_DARK_1)
    } else if p == 2 {
        rows_of(&GRUVBOX_DARK_2)
    } else {
        rows_of(&GRUVBOX_DARK_3)
    }
}

pub fn skin_gruvbox_dark() -> (r: PlayerSkin)
    ensures
        r.play@ == "►"@,
        r.pause@ == "▪"@,
        r.next@ == "▸▸"@,
        r.prev@ == "◂◂"@,
        r.bar_filled == '●',
        r.bar_empty == '○',
        r.art == SkinArt::GruvboxDark,
{
    PlayerSkin {
        play: "►",
        pause: "▪",
        next: "▸▸",
        prev: "◂◂",
        bar_filled: '●',
        bar_empty: '○',
        art: SkinArt::GruvboxDark,
    }
}

// --- Gruvbox Light: same EQ bars ---
pub fn art_gruvbox_light(playing: bool, frame: usize) -> (r: Vec<&'static str>)
    ensures
        r@ == gruvbox_dark_rows(frame as nat),
        r@.len() == 5,
        forall|i: int| 0 <= i < 5 ==> (#[trigger] r@[i])@.len() == 14,
{
    art_gruvbox_dark(playing, frame)
}

pub fn skin_gruvbox_light() -> (r: PlayerSkin)
    ensures
        r.play@ == "►"@,
        r.pause@ == "■"@,
        r.next@ == "▸▸"@,
        r.prev@ == "◂◂"@,
        r.bar_filled == '◆',
        r.bar_empty == '◇',
        r.art == SkinArt::GruvboxLight,
{
    PlayerSkin {
        play: "►",
        pause: "■",
        next: "▸▸",
        prev: "◂◂",
        bar_filled: '◆',
        bar_empty: '◇',
        art: SkinArt::GruvboxLight,
    }
}

// --- Everforest Dark: waveform ---
pub const EVERFOREST_DARK_0: [&'static str; 5] = [
    "              ",
    " ~   ~   ~   ~",
    "  ~ ~ ~ ~ ~ ~ ",
    "   ~   ~   ~  ",
    "              ",
];

pub const EVERFOREST_DARK_1: [&'static str; 5] = [
    "              ",
    "~ ~   ~   ~   ",
    " ~ ~ ~ ~ ~ ~  ",
    "    ~   ~   ~ ",
    "              ",
];

pub const EVERFOREST_DARK_2: [&'static str; 5] = [
    "              ",
    "  ~ ~   ~   ~ ",
    " ~ ~ ~ ~ ~ ~  ",
    "~   ~   ~   ~ ",
    "              ",
];

pub const EVERFOREST_DARK_3: [&'static str; 5] = [
    "              ",
    "   ~ ~   ~   ~",
    "  ~ ~ ~ ~ ~ ~ ",
    " ~   ~   ~    ",
    "              ",
];

/// The rows of the frame.
pub open spec fn everforest_dark_rows(frame: nat) -> Seq<&'static str> {
    let p = (frame / 3) % 4;
    if p == 0 {
        EVERFOREST_DARK_0@
    } else if p == 1 {
        EVERFOREST_DARK_1@
    } else if p == 2 {
        EVERFOREST_DARK_2@
    } else {
        EVERFOREST_DARK_3@
    }
}

proof fn everforest_dark_fits(frame: nat)
    ensures
        art_fits(everforest_dark_rows(frame)),
{
    reveal_strlit("              ");
    reveal_strlit(" ~   ~   ~   ~");
    reveal_strlit("  ~ ~ ~ ~ ~ ~ ");
    reveal_strlit("   ~   ~   ~  ");
    reveal_strlit("~ ~   ~   ~   ");
    reveal_strlit(" ~ ~ ~ ~ ~ ~  ");
    reveal_strlit("    ~   ~   ~ ");
    reveal_strlit("  ~ ~   ~   ~ ");
    reveal_strlit("~   ~   ~   ~ ");
    reveal_strlit("   ~ ~   ~   ~");
    reveal_strlit(" ~   ~   ~    ");
}

pub fn art_everforest_dark(_playing: bool, frame: usize) -> (r: Vec<&'static str>)
    ensures
        r@ == everforest_dark_rows(frame as nat),
        r@.len() == 5,
        forall|i: int| 0 <= i < 5 ==> (#[trigger] r@[i])@.len() == 14,
{
    proof {
        everforest_dark_fits(frame as nat);
    }
    let p: usize = (frame / 3) % 4;
    if p == 0 {
        rows_of(&EVERFOREST_DARK_0)
    } else if p == 1 {
        rows_of(&EVERFOREST_DARK_1)
    } else if p == 2 {
        rows_of(&EVERFOREST_DARK_2)
    } else {
        rows_of(&EVERFOREST_DARK_3)
    }
}

pub fn skin_everforest_dark() -> (r: PlayerSkin)
    ensures
        r.play@ == "▶"@,
        r.pause@ == "||"@,
        r.next@ == "▷▷"@,
        r.prev@ == "◁◁"@,
        r.bar_filled == '▓',
        r.bar_empty == '░',
        r.art == SkinArt::EverforestDark,
{
    PlayerSkin {
        play: "▶",
        pause: "||",
        next: "▷▷",
        prev: "◁◁",
        bar_filled: '▓',
        bar_empty: '░',
        art: SkinArt::EverforestDark,
    }
}

// --- Everforest Light: same waveform ---
pub fn art_everforest_light(playing: bool, frame: usize) -> (r: Vec<&'static str>)
    ensures
        r@ == everforest_dark_rows(frame as nat),
        r@.len() == 5,
        forall|i: int| 0 <= i < 5 ==> (#[trigger] r@[i])@.len() == 14,
{
    art_everforest_dark(playing, frame)
}

pub fn skin_everforest_light() -> (r: PlayerSkin)
    ensures
        r.play@ == "▶"@,
        r.pause@ == "||"@,
        r.next@ == "▷▷"@,
        r.prev@ == "◁◁"@,
        r.bar_filled == '▓',
        r.bar_empty == '░',
        r.art == SkinArt::EverforestLight,
{
    PlayerSkin {
        play: "▶",
        pause: "||",
        next: "▷▷",
        prev: "◁◁",
        bar_filled: '▓',
        bar_empty: '░',
        art: SkinArt::EverforestLight,
    }
}

// --- Tokyo Night: turntable with tone arm ---
pub const TOKYO_NIGHT_0: [&'static str; 5] = [
    " .----------. ",
    " | .---.  O | ",
    " | | + | /  | ",
    " | `---'    | ",
    " `----------' ",
];

pub const TOKYO_NIGHT_1: [&'static str; 5] = [
    " .----------. ",
    " | .---. O  | ",
    " | | + |/   | ",
    " | `---'    | ",
    " `----------' ",
];

pub const TOKYO_NIGHT_2: [&'static str; 5] = [
    " .----------. ",
    " | .---.O   | ",
    " | | + /    | ",
    " | `---'    | ",
    " `----------' ",
];

pub const TOKYO_NIGHT_3: [&'static str; 5] = [
    " .----------. ",
    " | .---. O  | ",
    " | | + |\\   | ",
    " | `---'    | ",
    " `----------' ",
];

/// The rows of the frame.
pub open spec fn tokyo_night_rows(frame: nat) -> Seq<&'static str> {
    let p = (frame / 3) % 4;
    if p == 0 {
        TOKYO_NIGHT_0@
    } else if p == 1 {
        TOKYO_NIGHT_1@
    } else if p == 2 {
        TOKYO_NIGHT_2@
    } else {
        TOKYO_NIGHT_3@
    }
}

proof fn tokyo_night_fits(frame: nat)
    ensures
        art_fits(tokyo_night_rows(frame)),
{
    reveal_strlit(" .----------. ");
    reveal_strlit(" | .---.  O | ");
    reveal_strlit(" | | + | /  | ");
    reveal_strlit(" | `---'    | ");
    reveal_strlit(" `----------' ");
    reveal_strlit(" | .---. O  | ");
    reveal_strlit(" | | + |/   | ");
    reveal_strlit(" | .---.O   | ");
    reveal_strlit(" | | + /    | ");
    reveal_strlit(" | | + |\\   | ");
}

pub fn art_tokyo_night(_playing: bool, frame: usize) -> (r: Vec<&'static str>)
    ensures
        r@ == tokyo_night_rows(frame as nat),
        r@.len() == 5,
        forall|i: int| 0 <= i < 5 ==> (#[trigger] r@[i])@.len() == 14,
{
    proof {
        tokyo_night_fits(frame as nat);
    }
    let p: usize = (frame / 3) % 4;
    if p == 0 {
        rows_of(&TOKYO_NIGHT_0)
    } else if p == 1 {
        rows_of(&TOKYO_NIGHT_1)
    } else if p == 2 {
        rows_of(&TOKYO_NIGHT_2)
    } else {
        rows_of(&TOKYO_NIGHT_3)
    }
}

pub fn skin_tokyo_night() -> (r: PlayerSkin)
    ensures
        r.play@ == "▶"@,
        r.pause@ == "||"@,
        r.next@ == "▷▷"@,
        r.prev@ == "◁◁"@,
        r.bar_filled == '█',
        r.bar_empty == '░',
        r.art == SkinArt::TokyoNight,
{
    PlayerSkin {
        play: "▶",
        pause: "||",
        next: "▷▷",
        prev: "◁◁",
        bar_filled: '█',
        bar_empty: '░',
        art: SkinArt::TokyoNight,
    }
}

// --- IBM Mainframe: cassette reels ---
pub const IBM_0: [&'static str; 5] = [
    " +-----------+",
    " | /--\\ /--\\ |",
    " | |  | |  | |",
    " | \\--/ \\--/ |",
    " +===+======+=",
];

pub const IBM_1: [&'static str; 5] = [
    " +-----------+",
    " | /--\\ /--\\ |",
    " | |- | | -| |",
    " | \\--/ \\--/ |",
    " +=+========+=",
];

pub const IBM_2: [&'static str; 5] = [
    " +-----------+",
    " | /--\\ /--\\ |",
    " | |  | |  | |",
    " | \\--/ \\--/ |",
    " +=+=======+=+",
];

pub const IBM_3: [&'static str; 5] = [
    " +-----------+",
    " | /--\\ /--\\ |",
    " | | -| |- | |",
    " | \\--/ \\--/ |",
    " +==+======+=+",
];

/// The rows of the frame.
pub open spec fn ibm_rows(frame: nat) -> Seq<&'static str> {
    let p = (frame / 3) % 4;
    if p == 0 {
        IBM_0@
    } else if p == 1 {
        IBM_1@
    } else if p == 2 {
        IBM_2@
    } else {
        IBM_3@
    }
}

proof fn ibm_fits(frame: nat)
    ensures
        art_fits(ibm_rows(frame)),
{
    reveal_strlit(" +-----------+");
    reveal_strlit(" | /--\\ /--\\ |");
    reveal_strlit(" | |  | |  | |");
    reveal_strlit(" | \\--/ \\--/ |");
    reveal_strlit(" +===+======+=");
    reveal_strlit(" | |- | | -| |");
    reveal_strlit(" +=+========+=");
    reveal_strlit(" +=+=======+=+");
    reveal_strlit(" | | -| |- | |");
    reveal_strlit(" +==+======+=+");
}

pub fn art_ibm(_playing: bool, frame: usize) -> (r: Vec<&'static str>)
    ensures
        r@ == ibm_rows(frame as nat),
        r@.len() == 5,
        forall|i: int| 0 <= i < 5 ==> (#[trigger] r@[i])@.len() == 14,
{
    proof {
        ibm_fits(frame as nat);
    }
    let p: usize = (frame / 3) % 4;
    if p == 0 {
        rows_of(&IBM_0)
    } else if p == 1 {
        rows_of(&IBM_1)
    } else if p == 2 {
        rows_of(&IBM_2)
    } else {
        rows_of(&IBM_3)
    }
}

pub fn skin_ibm() -> (r: PlayerSkin)
    ensures
        r.play@ == "►"@,
        r.pause@ == "[]"@,
        r.next@ == ">>"@,
        r.prev@ == "<<"@,
        r.bar_filled == '▓',
        r.bar_empty == '░',
        r.art == SkinArt::Ibm,
{
    PlayerSkin {
        play: "►",
        pause: "[]",
        next: ">>",
        prev: "<<",
        bar_filled: '▓',
        bar_empty: '░',
        art: SkinArt::Ibm,
    }
}

// --- Windows 95: bouncing note ---
pub const WIN95_0: [&'static str; 5] = [
    " +-----------+",
    " | d         |",
    " |           |",
    " |           |",
    " +-----------+",
];

pub const WIN95_1: [&'static str; 5] = [
    " +-----------+",
    " |           |",
    " |     d     |",
    " |           |",
    " +-----------+",
];

pub const WIN95_2: [&'static str; 5] = [
    " +-----------+",
    " |           |",
    " |           |",
    " |        d  |",
    " +-----------+",
];

pub const WIN95_3: [&'static str; 5] = [
    " +-----------+",
    " |           |",
    " |  d        |",
    " |           |",
    " +-----------+",
];

/// The rows of the frame.
pub open spec fn win95_rows(frame: nat) -> Seq<&'static str> {
    let p = (frame / 5) % 4;
    if p == 0 {
        WIN95_0@
    } else if p == 1 {
        WIN95_1@
    } else if p == 2 {
        WIN95_2@
    } else {
        WIN95_3@
    }
}

proof fn win95_fits(frame: nat)
    ensures
        art_fits(win95_rows(frame)),
{
    reveal_strlit(" +-----------+");
    reveal_strlit(" | d         |");
    reveal_strlit(" |           |");
    reveal_strlit(" |     d     |");
    reveal_strlit(" |        d  |");
    reveal_strlit(" |  d        |");
}

pub fn art_win95(_playing: bool, frame: usize) -> (r: Vec<&'static str>)
    ensures
        r@ == win95_rows(frame as nat),
        r@.len() == 5,
        forall|i: int| 0 <= i < 5 ==> (#[trigger] r@[i])@.len() == 14,
{
    proof {
        win95_fits(frame as nat);
    }
    let p: usize = (frame / 5) % 4;
    if p == 0 {
        rows_of(&WIN95_0)
    } else if p == 1 {
        rows_of(&WIN95_1)
    } else if p == 2 {
        rows_of(&WIN95_2)
    } else {
        rows_of(&WIN95_3)
    }
}

pub fn skin_win95() -> (r: PlayerSkin)
    ensures
        r.play@ == "|>"@,
        r.pause@ == "||"@,
        r.next@ == ">>|"@,
        r.prev@ == "|<<"@,
        r.bar_filled == '█',
        r.bar_empty == '░',
        r.art == SkinArt::Win95,
{
    PlayerSkin {
        play: "|>",
        pause: "||",
        next: ">>|",
        prev: "|<<",
        bar_filled: '█',
        bar_empty: '░',
        art: SkinArt::Win95,
    }
}

// --- System 7: pulsing speaker ---
pub const SYSTEM7_0: [&'static str; 5] = [
    "              ",
    "   |\\         ",
    "   | \\  )     ",
    "   | /        ",
    "   |/         ",
];

pub const SYSTEM7_1: [&'static str; 5] = [
    "              ",
    "   |\\         ",
    "   | \\ ) )    ",
    "   | /        ",
    "   |/         ",
];

pub const SYSTEM7_2: [&'static str; 5] = [
    "              ",
    "   |\\         ",
    "   | \\ ) ) )  ",
    "   | /        ",
    "   |/         ",
];

/// The rows of the frame.
pub open spec fn system7_rows(frame: nat) -> Seq<&'static str> {
    let p = (frame / 4) % 3;
    if p == 0 {
        SYSTEM7_0@
    } else if p == 1 {
        SYSTEM7_1@
    } else {
        SYSTEM7_2@
    }
}

proof fn system7_fits(frame: nat)
    ensures
        art_fits(system7_rows(frame)),
{
    reveal_strlit("              ");
    reveal_strlit("   |\\         ");
    reveal_strlit("   | \\  )     ");
    reveal_strlit("   | /        ");
    reveal_strlit("   |/         ");
    reveal_strlit("   | \\ ) )    ");
    reveal_strlit("   | \\ ) ) )  ");
}

pub fn art_system7(_playing: bool, frame: usize) -> (r: Vec<&'static str>)
    ensures
        r@ == system7_rows(frame as nat),
        r@.len() == 5,
        forall|i: int| 0 <= i < 5 ==> (#[trigger] r@[i])@.len() == 14,
{
    proof {
        system7_fits(frame as nat);
    }
    let p: usize = (frame / 4) % 3;
    if p == 0 {
        rows_of(&SYSTEM7_0)
    } else if p == 1 {
        rows_of(&SYSTEM7_1)
    } else {
        rows_of(&SYSTEM7_2)
    }
}

pub fn skin_system7() -> (r: PlayerSkin)
    ensures
        r.play@ == "▶"@,
        r.pause@ == "■"@,
        r.next@ == "▷▷"@,
        r.prev@ == "◁◁"@,
        r.bar_filled == '█',
        r.bar_empty == '·',
        r.art == SkinArt::System7,
{
    PlayerSkin {
        play: "▶",
        pause: "■",
        next: "▷▷",
        prev: "◁◁",
        bar_filled: '█',
        bar_empty: '·',
        art: SkinArt::System7,
    }
}

// --- BIOS: spinning pipe ---
pub const BIOS_0: [&'static str; 5] = [
    "              ",
    "  PLAYING...  ",
    "              ",
    "      |       ",
    "              ",
];

pub const BIOS_1: [&'static str; 5] = [
    "              ",
    "  PLAYING...  ",
    "              ",
    "      /       ",
    "              ",
];

pub const BIOS_2: [&'static str; 5] = [
    "              ",
    "  PLAYING...  ",
    "              ",
    "      -       ",
    "              ",
];

pub const BIOS_3: [&'static str; 5] = [
    "              ",
    "  PLAYING...  ",
    "              ",
    "      \\       ",
    "              ",
];

/// The rows of the frame.
pub open spec fn bios_rows(frame: nat) -> Seq<&'static str> {
    let p = (frame / 4) % 4;
    if p == 0 {
        BIOS_0@
    } else if p == 1 {
        BIOS_1@
    } else if p == 2 {
        BIOS_2@
    } else {
        BIOS_3@
    }
}

proof fn bios_fits(frame: nat)
    ensures
        art_fits(bios_rows(frame)),
{
    reveal_strlit("              ");
    reveal_strlit("  PLAYING...  ");
    reveal_strlit("      |       ");
    reveal_strlit("      /       ");
    reveal_strlit("      -       ");
    reveal_strlit("      \\       ");
}

pub fn art_bios(_playing: bool, frame: usize) -> (r: Vec<&'static str>)
    ensures
        r@ == bios_rows(frame as nat),
        r@.len() == 5,
        forall|i: int| 0 <= i < 5 ==> (#[trigger] r@[i])@.len() == 14,
{
    proof {
        bios_fits(frame as nat);
    }
    let p: usize = (frame / 4) % 4;
    if p == 0 {
        rows_of(&BIOS_0)
    } else if p == 1 {
        rows_of(&BIOS_1)
    } else if p == 2 {
        rows_of(&BIOS_2)
    } else {
        rows_of(&BIOS_3)
    }
}

pub fn skin_bios() -> (r: PlayerSkin)
    ensures
        r.play@ == "|>"@,
        r.pause@ == "||"@,
        r.next@ == ">>|"@,
        r.prev@ == "|<<"@,
        r.bar_filled == '=',
        r.bar_empty == '-',
        r.art == SkinArt::Bios,
{
    PlayerSkin {
        play: "|>",
        pause: "||",
        next: ">>|",
        prev: "|<<",
        bar_filled: '=',
        bar_empty: '-',
        art: SkinArt::Bios,
    }
}

// --- Red Sands: moon phases ---
pub const RED_SANDS_0: [&'static str; 5] = [
    "   .----.     ",
    "  /      \\    ",
    " |        |   ",
    "  \\      /    ",
    "   `----'     ",
];

pub const RED_SANDS_1: [&'static str; 5] = [
    "   .----.     ",
    "  / |    \\    ",
    " |  |     |   ",
    "  \\ |    /    ",
    "   `----'     ",
];

pub const RED_SANDS_2: [&'static str; 5] = [
    "   .----.     ",
    "  /###   \\    ",
    " |###     |   ",
    "  \\###   /    ",
    "   `----'     ",
];

pub const RED_SANDS_3: [&'static str; 5] = [
    "   .----.     ",
    "  /#####.\\    ",
    " |#######.|   ",
    "  \\#####./    ",
    "   `----'     ",
];

pub const RED_SANDS_4: [&'static str; 5] = [
    "   .----.     ",
    "  /######\\    ",
    " |########|   ",
    "  \\######/    ",
    "   `----'     ",
];

pub const RED_SANDS_5: [&'static str; 5] = [
    "   .----.     ",
    "  /.#####\\    ",
    " |.#######|   ",
    "  \\.#####/    ",
    "   `----'     ",
];

pub const RED_SANDS_6: [&'static str; 5] = [
    "   .----.     ",
    "  /   ###\\    ",
    " |     ###|   ",
    "  \\   ###/    ",
    "   `----'     ",
];

pub const RED_SANDS_7: [&'static str; 5] = [
    "   .----.     ",
    "  /    | \\    ",
    " |     |  |   ",
    "  \\    | /    ",
    "   `----'     ",
];

/// The rows of the frame.
pub open spec fn red_sands_rows(frame: nat) -> Seq<&'static str> {
    let p = (frame / 10) % 8;
    if p == 0 {
        RED_SANDS_0@
    } else if p == 1 {
        RED_SANDS_1@
    } else if p == 2 {
        RED_SANDS_2@
    } else if p == 3 {
        RED_SANDS_3@
    } else if p == 4 {
        RED_SANDS_4@
    } else if p == 5 {
        RED_SANDS_5@
    } else if p == 6 {
        RED_SANDS_6@
    } else {
        RED_SANDS_7@
    }
}

proof fn red_sands_fits(frame: nat)
    ensures
        art_fits(red_sands_rows(frame)),
{
    reveal_strlit("   .----.     ");
    reveal_strlit("  /      \\    ");
    reveal_strlit(" |        |   ");
    reveal_strlit("  \\      /    ");
    reveal_strlit("   `----'     ");
    reveal_strlit("  / |    \\    ");
    reveal_strlit(" |  |     |   ");
    reveal_strlit("  \\ |    /    ");
    reveal_strlit("  /###   \\    ");
    reveal_strlit(" |###     |   ");
    reveal_strlit("  \\###   /    ");
    reveal_strlit("  /#####.\\    ");
    reveal_strlit(" |#######.|   ");
    reveal_strlit("  \\#####./    ");
    reveal_strlit("  /######\\    ");
    reveal_strlit(" |########|   ");
    reveal_strlit("  \\######/    ");
    reveal_strlit("  /.#####\\    ");
    reveal_strlit(" |.#######|   ");
    reveal_strlit("  \\.#####/    ");
    reveal_strlit("  /   ###\\    ");
    reveal_strlit(" |     ###|   ");
    reveal_strlit("  \\   ###/    ");
    reveal_strlit("  /    | \\    ");
    reveal_strlit(" |     |  |   ");
    reveal_strlit("  \\    | /    ");
}

pub fn art_red_sands(_playing: bool, frame: usize) -> (r: Vec<&'static str>)
    ensures
        r@ == red_sands_rows(frame as nat),
        r@.len() == 5,
        forall|i: int| 0 <= i < 5 ==> (#[trigger] r@[i])@.len() == 14,
{
    proof {
        red_sands_fits(frame as nat);
    }
    let p: usize = (frame / 10) % 8;
    if p == 0 {
        rows_of(&RED_SANDS_0)
    } else if p == 1 {
        rows_of(&RED_SANDS_1)
    } else if p == 2 {
        rows_of(&RED_SANDS_2)
    } else if p == 3 {
        rows_of(&RED_SANDS_3)
    } else if p == 4 {
        rows_of(&RED_SANDS_4)
    } else if p == 5 {
        rows_of(&RED_SANDS_5)
    } else if p == 6 {
        rows_of(&RED_SANDS_6)
    } else {
        rows_of(&RED_SANDS_7)
    }
}

pub fn skin_red_sands() -> (r: PlayerSkin)
    ensures
        r.play@ == "▸"@,
        r.pause@ == "◾"@,
        r.next@ == "▸▸"@,
        r.prev@ == "◂◂"@,
        r.bar_filled == '▬',
        r.bar_empty == '·',
        r.art == SkinArt::RedSands,
{
    PlayerSkin {
        play: "▸",
        pause: "◾",
        next: "▸▸",
        prev: "◂◂",
        bar_filled: '▬',
        bar_empty: '·',
        art: SkinArt::RedSands,
    }
}

// --- Newport Lights: cigarette out of pack, then horizontal with smoke ---
pub const NEWPORT_0: [&'static str; 5] = [
    "  /NEWPORT/|  ",
    " /       / |  ",
    "/________/ |  ",
    "|       | /   ",
    "|_______|/    ",
];

pub const NEWPORT_1: [&'static str; 5] = [
    "    []        ",
    "  /N||PORT/|  ",
    " /       / |  ",
    "/________/ |  ",
    "|_______|/    ",
];

pub const NEWPORT_2: [&'static str; 5] = [
    "    []        ",
    "    ||        ",
    "  /N||PORT/|  ",
    " /________/|  ",
    " |_______|/   ",
];

pub const NEWPORT_3: [&'static str; 5] = [
    "    []        ",
    "    ||        ",
    "    ||        ",
    "  /NEWPORT/|  ",
    "  |_______|/  ",
];

pub const NEWPORT_4: [&'static str; 5] = [
    "              ",
    "              ",
    "   _______    ",
    " ()_______))))",
    "              ",
];

pub const NEWPORT_5: [&'static str; 5] = [
    "              ",
    "         (    ",
    "   ______     ",
    " ()______)))  ",
    "              ",
];

pub const NEWPORT_6: [&'static str; 5] = [
    "        (     ",
    "       )      ",
    "   _____      ",
    " ()_____)))   ",
    "              ",
];

pub const NEWPORT_7: [&'static str; 5] = [
    "       )      ",
    "      (       ",
    "   ____       ",
    " ()____))     ",
    "              ",
];

/// The rows of the frame.
pub open spec fn newport_rows(frame: nat) -> Seq<&'static str> {
    let p = (frame / 8) % 8;
    if p == 0 {
        NEWPORT_0@
    } else if p == 1 {
        NEWPORT_1@
    } else if p == 2 {
        NEWPORT_2@
    } else if p == 3 {
        NEWPORT_3@
    } else if p == 4 {
        NEWPORT_4@
    } else if p == 5 {
        NEWPORT_5@
    } else if p == 6 {
        NEWPORT_6@
    } else {
        NEWPORT_7@
    }
}

proof fn newport_fits(frame: nat)
    ensures
        art_fits(newport_rows(frame)),
{
    reveal_strlit("  /NEWPORT/|  ");
    reveal_strlit(" /       / |  ");
    reveal_strlit("/________/ |  ");
    reveal_strlit("|       | /   ");
    reveal_strlit("|_______|/    ");
    reveal_strlit("    []        ");
    reveal_strlit("  /N||PORT/|  ");
    reveal_strlit("    ||        ");
    reveal_strlit(" /________/|  ");
    reveal_strlit(" |_______|/   ");
    reveal_strlit("  |_______|/  ");
    reveal_strlit("              ");
    reveal_strlit("   _______    ");
    reveal_strlit(" ()_______))))");
    reveal_strlit("         (    ");
    reveal_strlit("   ______     ");
    reveal_strlit(" ()______)))  ");
    reveal_strlit("        (     ");
    reveal_strlit("       )      ");
    reveal_strlit("   _____      ");
    reveal_strlit(" ()_____)))   ");
    reveal_strlit("      (       ");
    reveal_strlit("   ____       ");
    reveal_strlit(" ()____))     ");
}

pub fn art_newport(_playing: bool, frame: usize) -> (r: Vec<&'static str>)
    ensures
        r@ == newport_rows(frame as nat),
        r@.len() == 5,
        forall|i: int| 0 <= i < 5 ==> (#[trigger] r@[i])@.len() == 14,
{
    proof {
        newport_fits(frame as nat);
    }
    let p: usize = (frame / 8) % 8;
    if p == 0 {
        rows_of(&NEWPORT_0)
    } else if p == 1 {
        rows_of(&NEWPORT_1)
    } else if p == 2 {
        rows_of(&NEWPORT_2)
    } else if p == 3 {
        rows_of(&NEWPORT_3)
    } else if p == 4 {
        rows_of(&NEWPORT_4)
    } else if p == 5 {
        rows_of(&NEWPORT_5)
    } else if p == 6 {
        rows_of(&NEWPORT_6)
    } else {
        rows_of(&NEWPORT_7)
    }
}

pub fn skin_newport() -> (r: PlayerSkin)
    ensures
        r.play@ == "▶"@,
        r.pause@ == "||"@,
        r.next@ == "▷▷"@,
        r.prev@ == "◁◁"@,
        r.bar_filled == '█',
        r.bar_empty == '░',
        r.art == SkinArt::Newport,
{
    PlayerSkin {
        play: "▶",
        pause: "||",
        next: "▷▷",
        prev: "◁◁",
        bar_filled: '█',
        bar_empty: '░',
        art: SkinArt::Newport,
    }
}

/// The rows that an animation shows in a frame.
pub open spec fn skin_rows(art: SkinArt, frame: nat) -> Seq<&'static str> {
    match art {
        SkinArt::Itunes => itunes_rows(frame),
        SkinArt::GruvboxDark => gruvbox_dark_rows(frame),
        SkinArt::GruvboxLight => gruvbox_dark_rows(frame),
        SkinArt::EverforestDark => everforest_dark_rows(frame),
        SkinArt::EverforestLight => everforest_dark_rows(frame),
        SkinArt::TokyoNight => tokyo_night_rows(frame),
        SkinArt::Ibm => ibm_rows(frame),
        SkinArt::Win95 => win95_rows(frame),
        SkinArt::System7 => system7_rows(frame),
        SkinArt::Bios => bios_rows(frame),
        SkinArt::RedSands => red_sands_rows(frame),
        SkinArt::Newport => newport_rows(frame),
    }
}

/// Every frame of every animation has the size of all art.
pub proof fn skin_art_fits(art: SkinArt, frame: nat)
    ensures
        art_fits(skin_rows(art, frame)),
{
    itunes_fits(frame);
    gruvbox_dark_fits(frame);
    everforest_dark_fits(frame);
    tokyo_night_fits(frame);
    ibm_fits(frame);
    win95_fits(frame);
    system7_fits(frame);
    bios_fits(frame);
    red_sands_fits(frame);
    newport_fits(frame);
}

impl PlayerSkin {
    /// Returns ASCII art lines for the player. `playing` and `frame` drive
    /// animations.
    pub fn art_fn(&self, playing: bool, frame: usize) -> (r: Vec<&'static str>)
        ensures
            r@ == skin_rows(self.art, frame as nat),
            r@.len() == 5,
            forall|i: int| 0 <= i < 5 ==> (#[trigger] r@[i])@.len() == 14,
    {
        match self.art {
            SkinArt::Itunes => art_itunes(playing, frame),
            SkinArt::GruvboxDark => art_gruvbox_dark(playing, frame),
            SkinArt::GruvboxLight => art_gruvbox_light(playing, frame),
            SkinArt::EverforestDark => art_everforest_dark(playing, frame),
            SkinArt::EverforestLight => art_everforest_light(playing, frame),
            SkinArt::TokyoNight => art_tokyo_night(playing, frame),
            SkinArt::Ibm => art_ibm(playing, frame),
            SkinArt::Win95 => art_win95(playing, frame),
            SkinArt::System7 => art_system7(playing, frame),
            SkinArt::Bios => art_bios(playing, frame),
            SkinArt::RedSands => art_red_sands(playing, frame),
            SkinArt::Newport => art_newport(playing, frame),
        }
    }
}

} // verus!
