//! What is written and drawn: numbers, durations, sizes, bars and pictures.
use vstd::prelude::*;
use crate::anim::{bar_cell, connection_lines, dots_at, shine_at, skin_rows, SkinArt};
use crate::app::{elapsed, App};
use crate::art::{
    cell_size, colour_at, eight_bits, fit_factor, is_ascii_cell, is_halfblock_cell, luma,
    ramp_index, AlbumArtCache, ArtImage, ArtSamples,
};
use crate::format::{
    bytes_text, comma_decimal, decimal, digit_char, double_of, duration_text, first_upper,
    hundredths_text, joined, khz_tenths, khz_text, megabytes_text, nearest, scaled_up, tenths_text,
    three_digits, two_digits,
};
use crate::model::{DeviceFamily, Track};
use crate::precision::{
    nearest_is_near, quotient_scale, rounded, rounding_is_close, scale_lifts, scaled_length,
    scaled_length_fits, DOUBLE_LIMIT,
};
use crate::text::same_ignoring_case;
use crate::tracks::{
    album_artist_part, channels_part, marquee_parts, nat32, nat8, number_part, text_part,
};
use crate::types::AlbumArtStyle;

verus! {

/// What a digit stands for.
pub open spec fn value_of(c: char) -> int {
    c as int - '0' as int
}

/// What a row of digits stands for.
pub open spec fn number_of(s: Seq<char>) -> int
    decreases s.len(),
{
    if s.len() == 0 {
        0
    } else {
        10 * number_of(s.drop_last()) + value_of(s.last())
    }
}

/// A digit.
pub open spec fn is_numeral(c: char) -> bool {
    '0' <= c <= '9'
}

/// A number is written in digits that stand for it, and without a leading zero
/// but for zero itself.
pub proof fn numerals_stand_for_their_number(n: nat)
    ensures
        number_of(decimal(n)) == n,
        decimal(n).len() > 0,
        forall|i: int| 0 <= i < decimal(n).len() ==> is_numeral(#[trigger] decimal(n)[i]),
        n > 0 ==> decimal(n)[0] != '0',
        n == 0 ==> decimal(n).len() == 1,
    decreases n,
{
    let s = decimal(n);
    if n < 10 {
        assert(s.drop_last() =~= Seq::<char>::empty());
        assert(number_of(s.drop_last()) == 0);
    } else {
        numerals_stand_for_their_number(n / 10);
        assert(s.drop_last() =~= decimal(n / 10));
    }
}

/// A digit stands for its number.
pub proof fn digits_stand_for_their_number(d: nat)
    requires
        d < 10,
    ensures
        value_of(digit_char(d)) == d,
        is_numeral(digit_char(d)),
{
}

/// Two digits stand for a number below a hundred, three for one below a thousand.
pub proof fn padded_numerals_stand_for_their_number(n: nat)
    ensures
        two_digits(n).len() == 2,
        three_digits(n).len() == 3,
        n < 100 ==> 10 * value_of(two_digits(n)[0]) + value_of(two_digits(n)[1]) == n,
        n < 1000 ==> 100 * value_of(three_digits(n)[0]) + 10 * value_of(three_digits(n)[1]) + value_of(
            three_digits(n)[2],
        ) == n,
{
    digits_stand_for_their_number(n % 10);
    digits_stand_for_their_number(n / 10 % 10);
    if n < 100 {
        digits_stand_for_their_number(n / 10);
    }
    if n < 1000 {
        digits_stand_for_their_number(n / 100);
    }
}

/// A duration is written as minutes, a colon and two digits of seconds: minutes
/// and seconds make up the duration but for less than a second.
pub proof fn durations_are_minutes_and_seconds(ms: nat)
    ensures
        exists|m: nat, s: nat|
            {
                &&& #[trigger] clock_time(m, s) <= ms < clock_time(m, s) + 1000
                &&& s < 60
                &&& duration_text(ms) == decimal(m) + ":"@ + two_digits(s)
            },
{
    assert(clock_time(ms / 60000, ms / 1000 % 60) <= ms);
}

/// Minutes and seconds in milliseconds.
pub open spec fn clock_time(m: nat, s: nat) -> nat {
    60000 * m + 1000 * s
}

/// Grouped digits part where a thousand is full, and commas stand nowhere else.
pub proof fn commas_stand_between_thousands(n: nat)
    ensures
        n < 1000 ==> comma_decimal(n) == decimal(n),
        n >= 1000 ==> {
            let s = comma_decimal(n);
            &&& s.len() == comma_decimal(n / 1000).len() + 4
            &&& s[s.len() - 4] == ','
            &&& s.take(s.len() - 4) == comma_decimal(n / 1000)
            &&& s.skip(s.len() - 3) == three_digits(n % 1000)
        },
{
    if n >= 1000 {
        let s = comma_decimal(n);
        let head = comma_decimal(n / 1000);
        assert(s.take(s.len() - 4) =~= head);
        assert(s.skip(s.len() - 3) =~= three_digits(n % 1000));
    }
}

/// A fraction is written as its whole part, a point and its decimals.
pub proof fn fractions_stand_for_their_value(t: nat)
    ensures
        tenths_text(t).len() == decimal(t / 10).len() + 2,
        10 * number_of(decimal(t / 10)) + value_of(tenths_text(t).last()) == t,
        tenths_text(t)[tenths_text(t).len() - 2] == '.',
        hundredths_text(t).len() == decimal(t / 100).len() + 3,
        hundredths_text(t)[hundredths_text(t).len() - 3] == '.',
        100 * number_of(decimal(t / 100)) + 10 * value_of(
            hundredths_text(t)[hundredths_text(t).len() - 2],
        ) + value_of(hundredths_text(t).last()) == t,
{
    reveal_strlit(".");
    numerals_stand_for_their_number(t / 10);
    numerals_stand_for_their_number(t / 100);
    padded_numerals_stand_for_their_number(t % 100);
}

/// A size is written in the greatest unit that it fills: exactly in bytes, to
/// within half a tenth of a kilobyte or megabyte, and half a hundredth of a
/// gigabyte.
pub proof fn sizes_are_near_what_is_written(n: nat)
    ensures
        n < 1024 ==> bytes_text(n) == decimal(n) + " B"@,
        1024 <= n < 1048576 ==> exists|t: nat|
            {
                &&& bytes_text(n) == #[trigger] tenths_text(t) + " KB"@
                &&& 20 * n <= 2 * (t * 1024) + 1024
                &&& 2 * (t * 1024) <= 20 * n + 1024
            },
        1048576 <= n < 1073741824 ==> exists|t: nat|
            {
                &&& bytes_text(n) == #[trigger] tenths_text(t) + " MB"@
                &&& 20 * n <= 2 * (t * 1048576) + 1048576
                &&& 2 * (t * 1048576) <= 20 * n + 1048576
            },
        1073741824 <= n < 0x20_0000_0000_0000 ==> exists|t: nat|
            {
                &&& bytes_text(n) == #[trigger] hundredths_text(t) + " GB"@
                &&& 200 * n <= 2 * (t * 1073741824) + 1073741824
                &&& 2 * (t * 1073741824) <= 200 * n + 1073741824
            },
{
    if 1073741824 <= n < 0x20_0000_0000_0000 {
        rounding_is_close(n, DOUBLE_LIMIT as nat);
        assert(double_of(n) == n);
        nearest_is_near(100 * n, 1073741824);
        let t = nearest(100 * n, 1073741824);
        assert(bytes_text(n) == hundredths_text(t) + " GB"@);
    }
    nearest_is_near(10 * n, 1024);
    nearest_is_near(10 * n, 1048576);
    if 1024 <= n < 1048576 {
        let t = nearest(10 * n, 1024);
        assert(bytes_text(n) == tenths_text(t) + " KB"@);
    }
    if 1048576 <= n < 1073741824 {
        let t = nearest(10 * n, 1048576);
        assert(bytes_text(n) == tenths_text(t) + " MB"@);
    }
}

/// Of two whole numbers that are equally near, the even one is taken.
pub proof fn ties_go_to_the_even_number(q: nat, b: nat)
    requires
        b > 0,
    ensures
        nearest(2 * q * b + b, 2 * b) % 2 == 0,
        nearest(q * b, b) == q,
{
    assert(2 * q * b + b == q * (2 * b) + b) by (nonlinear_arith);
    vstd::arithmetic::div_mod::lemma_fundamental_div_mod_converse(
        (2 * q * b + b) as int,
        (2 * b) as int,
        q as int,
        b as int,
    );
    vstd::arithmetic::div_mod::lemma_fundamental_div_mod_converse(
        (q * b) as int,
        b as int,
        q as int,
        0,
    );
}

/// Parts are joined in order, with the separator between each two and nowhere
/// else.
pub proof fn joining_puts_separators_between(parts: Seq<Seq<char>>, sep: Seq<char>, more: Seq<char>)
    ensures
        joined(Seq::<Seq<char>>::empty(), sep).len() == 0,
        joined(seq![more], sep) == more,
        parts.len() > 0 ==> joined(parts.push(more), sep) == joined(parts, sep) + sep + more,
{
    assert(parts.push(more).drop_last() =~= parts);
}

/// One part for what is there.
pub open spec fn one_if(b: bool) -> nat {
    if b {
        1
    } else {
        0
    }
}

/// A tag that a track has makes one part of the text that runs while it plays,
/// under its own label; a tag that it lacks makes none.
pub proof fn each_tag_makes_one_part(label: Seq<char>, unit: Seq<char>, text: Option<String>, n: Option<u32>)
    ensures
        text is None ==> text_part(label, text).len() == 0,
        text is Some ==> text_part(label, text) == seq![label + text->0@],
        n is None ==> number_part(label, nat32(n), unit).len() == 0,
        n is Some ==> number_part(label, nat32(n), unit) == seq![label + decimal(n->0 as nat) + unit],
{
}

/// The running text has one part for each tag that the track has, and nothing
/// else. An album artist that repeats the artist counts for nothing.
pub proof fn the_running_text_has_the_tags(t: Track)
    ensures
        marquee_parts(t).len() == one_if(t.genre is Some) + one_if(t.bpm is Some) + one_if(
            t.initial_key is Some,
        ) + one_if(t.mood is Some) + one_if(t.audio_bitrate_kbps is Some) + one_if(
            t.sample_rate is Some,
        ) + one_if(t.bit_depth is Some) + one_if(t.channels is Some) + one_if(
            t.album_artist is Some && !same_ignoring_case(t.album_artist->0@, t.artist@),
        ) + one_if(t.composer is Some) + one_if(t.publisher is Some) + one_if(
            t.file_size_bytes is Some,
        ) + one_if(t.encoder is Some),
        t.genre is Some ==> marquee_parts(t)[0] == "Genre: "@ + t.genre->0@,
        t.encoder is Some ==> marquee_parts(t).last() == "Encoder: "@ + t.encoder->0@,
{
    let genre = text_part("Genre: "@, t.genre);
    let bpm = number_part("BPM: "@, nat32(t.bpm), ""@);
    let key = text_part("Key: "@, t.initial_key);
    let mood = text_part("Mood: "@, t.mood);
    let rate = number_part(""@, nat32(t.audio_bitrate_kbps), " kbps"@);
    let hertz = match t.sample_rate {
        Some(hz) => seq![khz_text(hz as nat)],
        None => Seq::empty(),
    };
    let depth = number_part(""@, nat8(t.bit_depth), "-bit"@);
    let channels = channels_part(t.channels);
    let by = album_artist_part(t);
    let composer = text_part("Composer: "@, t.composer);
    let publisher = text_part("Publisher: "@, t.publisher);
    let size = match t.file_size_bytes {
        Some(n) => seq![bytes_text(n as nat)],
        None => Seq::empty(),
    };
    let encoder = text_part("Encoder: "@, t.encoder);
    runs_on(genre, bpm, key, mood, rate, hertz, depth);
    let front = genre + bpm + key + mood + rate + hertz + depth;
    runs_on(front, channels, by, composer, publisher, size, encoder);
}

/// Each tag that the track has stands in the running text under its own label.
pub proof fn the_running_text_names_each_tag(t: Track)
    ensures
        t.bpm is Some ==> marquee_parts(t).contains("BPM: "@ + decimal(t.bpm->0 as nat) + ""@),
        t.initial_key is Some ==> marquee_parts(t).contains("Key: "@ + t.initial_key->0@),
        t.mood is Some ==> marquee_parts(t).contains("Mood: "@ + t.mood->0@),
        t.audio_bitrate_kbps is Some ==> marquee_parts(t).contains(
            ""@ + decimal(t.audio_bitrate_kbps->0 as nat) + " kbps"@,
        ),
        t.sample_rate is Some ==> marquee_parts(t).contains(khz_text(t.sample_rate->0 as nat)),
        t.bit_depth is Some ==> marquee_parts(t).contains(
            ""@ + decimal(t.bit_depth->0 as nat) + "-bit"@,
        ),
        t.channels is Some ==> marquee_parts(t).contains(channels_part(t.channels)[0]),
        t.album_artist is Some && !same_ignoring_case(t.album_artist->0@, t.artist@)
            ==> marquee_parts(t).contains("Album Artist: "@ + t.album_artist->0@),
        t.composer is Some ==> marquee_parts(t).contains("Composer: "@ + t.composer->0@),
        t.publisher is Some ==> marquee_parts(t).contains("Publisher: "@ + t.publisher->0@),
        t.file_size_bytes is Some ==> marquee_parts(t).contains(
            bytes_text(t.file_size_bytes->0 as nat),
        ),
{
    let genre = text_part("Genre: "@, t.genre);
    let bpm = number_part("BPM: "@, nat32(t.bpm), ""@);
    let key = text_part("Key: "@, t.initial_key);
    let mood = text_part("Mood: "@, t.mood);
    let rate = number_part(""@, nat32(t.audio_bitrate_kbps), " kbps"@);
    let hertz = match t.sample_rate {
        Some(hz) => seq![khz_text(hz as nat)],
        None => Seq::empty(),
    };
    let depth = number_part(""@, nat8(t.bit_depth), "-bit"@);
    let channels = channels_part(t.channels);
    let by = album_artist_part(t);
    let composer = text_part("Composer: "@, t.composer);
    let publisher = text_part("Publisher: "@, t.publisher);
    let size = match t.file_size_bytes {
        Some(n) => seq![bytes_text(n as nat)],
        None => Seq::empty(),
    };
    let encoder = text_part("Encoder: "@, t.encoder);
    runs_on(genre, bpm, key, mood, rate, hertz, depth);
    let front = genre + bpm + key + mood + rate + hertz + depth;
    runs_on(front, channels, by, composer, publisher, size, encoder);
    if t.bpm is Some {
        runs_on_has(front, channels, by, composer, publisher, size, encoder, bpm[0]);
    }
    if t.initial_key is Some {
        runs_on_has(front, channels, by, composer, publisher, size, encoder, key[0]);
    }
    if t.mood is Some {
        runs_on_has(front, channels, by, composer, publisher, size, encoder, mood[0]);
    }
    if t.audio_bitrate_kbps is Some {
        runs_on_has(front, channels, by, composer, publisher, size, encoder, rate[0]);
    }
    if t.sample_rate is Some {
        runs_on_has(front, channels, by, composer, publisher, size, encoder, hertz[0]);
    }
    if t.bit_depth is Some {
        runs_on_has(front, channels, by, composer, publisher, size, encoder, depth[0]);
    }
}

proof fn runs_on_has(
    a: Seq<Seq<char>>,
    b: Seq<Seq<char>>,
    c: Seq<Seq<char>>,
    d: Seq<Seq<char>>,
    e: Seq<Seq<char>>,
    f: Seq<Seq<char>>,
    g: Seq<Seq<char>>,
    x: Seq<char>,
)
    requires
        a.contains(x),
    ensures
        (a + b + c + d + e + f + g).contains(x),
{
    let i = a.index_of(x);
    assert((a + b + c + d + e + f + g)[i] == x);
}

proof fn runs_on(
    a: Seq<Seq<char>>,
    b: Seq<Seq<char>>,
    c: Seq<Seq<char>>,
    d: Seq<Seq<char>>,
    e: Seq<Seq<char>>,
    f: Seq<Seq<char>>,
    g: Seq<Seq<char>>,
)
    ensures
        (a + b + c + d + e + f + g).len() == a.len() + b.len() + c.len() + d.len() + e.len() + f.len()
            + g.len(),
        a.len() > 0 ==> (a + b + c + d + e + f + g)[0] == a[0],
        g.len() > 0 ==> (a + b + c + d + e + f + g).last() == g.last(),
        b.len() > 0 ==> (a + b + c + d + e + f + g).contains(b[0]),
        c.len() > 0 ==> (a + b + c + d + e + f + g).contains(c[0]),
        d.len() > 0 ==> (a + b + c + d + e + f + g).contains(d[0]),
        e.len() > 0 ==> (a + b + c + d + e + f + g).contains(e[0]),
        f.len() > 0 ==> (a + b + c + d + e + f + g).contains(f[0]),
        g.len() > 0 ==> (a + b + c + d + e + f + g).contains(g[0]),
{
    let all = a + b + c + d + e + f + g;
    let nb = a.len();
    let nc = nb + b.len();
    let nd = nc + c.len();
    let ne = nd + d.len();
    let nf = ne + e.len();
    let ng = nf + f.len();
    if b.len() > 0 {
        assert(all[nb as int] == b[0]);
    }
    if c.len() > 0 {
        assert(all[nc as int] == c[0]);
    }
    if d.len() > 0 {
        assert(all[nd as int] == d[0]);
    }
    if e.len() > 0 {
        assert(all[ne as int] == e[0]);
    }
    if f.len() > 0 {
        assert(all[nf as int] == f[0]);
    }
    if g.len() > 0 {
        assert(all[ng as int] == g[0]);
    }
}

/// A jump letter is the upper case of the first character.
pub proof fn jump_letters_are_first_letters(s: Seq<char>)
    requires
        s.len() > 0,
        crate::text::uppercase_of(s[0]).len() > 0,
    ensures
        first_upper(s) == crate::text::uppercase_of(s[0])[0],
{
}

/// The filled part of a bar comes first, and only filled cells are ever lit.
pub proof fn bars_fill_from_the_left(filled: nat, total: nat, frame: nat, i: int, j: int)
    requires
        0 <= i < j < total,
        filled <= total,
        total + 3 <= usize::MAX,
    ensures
        bar_cell(filled, total, frame, i).0 == '=' <==> i < filled,
        bar_cell(filled, total, frame, i).0 == ' ' <==> i >= filled,
        bar_cell(filled, total, frame, j).0 == '=' ==> bar_cell(filled, total, frame, i).0 == '=',
        bar_cell(filled, total, frame, i).1 ==> i < filled,
        bar_cell(filled, total, frame, i).1 && bar_cell(filled, total, frame, j).1 ==> j - i <= 2,
{
    vstd::arithmetic::div_mod::lemma_mod_bound((frame / 2) as int, (total + 3) as int);
}

/// The highlight moves one cell every two frames, until it starts over.
pub proof fn highlights_move_on(frame: nat, total: nat)
    requires
        0 < total,
        total + 3 <= usize::MAX,
    ensures
        shine_at(frame, total) is Some,
        shine_at(frame + 2, total) is Some,
        shine_at(frame + 2, total)->0 == shine_at(frame, total)->0 + 1 || shine_at(frame + 2, total)->0 == 0,
        shine_at(frame, total)->0 < total + 3,
{
    let m = (total + 3) as int;
    let a = (frame / 2) as int;
    let r = a % m;
    vstd::arithmetic::div_mod::lemma_mod_bound(a, m);
    vstd::arithmetic::div_mod::lemma_fundamental_div_mod(a, m);
    assert((frame + 2) / 2 == a + 1);
    let q = a / m;
    if r + 1 < m {
        assert(a + 1 == q * m + (r + 1)) by (nonlinear_arith)
            requires
                a == m * q + r,
        ;
        vstd::arithmetic::div_mod::lemma_fundamental_div_mod_converse(a + 1, m, q, r + 1);
    } else {
        assert(a + 1 == (q + 1) * m + 0) by (nonlinear_arith)
            requires
                a == m * q + r,
                r + 1 == m,
        ;
        vstd::arithmetic::div_mod::lemma_fundamental_div_mod_converse(a + 1, m, q + 1, 0);
    }
}

/// Dots come one by one, each after five frames, from none to three.
pub proof fn dots_come_one_by_one(frame: nat)
    ensures
        dots_at(frame) <= 3,
        dots_at(frame + 5) == dots_at(frame) + 1 || dots_at(frame + 5) == 0 && dots_at(frame) == 3,
        dots_at(0) == 0,
{
}

/// A picture is scaled by the same factor both ways, so that one side fills the
/// area and the other stays within it.
pub proof fn pictures_keep_their_shape(width: nat, height: nat, w: nat, h: nat)
    requires
        width > 0,
        height > 0,
    ensures
        ({
            let (n, d) = fit_factor(width, height, w, h);
            &&& n * width == w * d || n * height == h * d
            &&& n * width <= w * d
            &&& n * height <= h * d
        }),
{
    let (n, d) = fit_factor(width, height, w, h);
    assert(n * width <= w * d && n * height <= h * d) by (nonlinear_arith)
        requires
            (n == w && d == width && w * height <= h * width) || (n == h && d == height && h * width
                <= w * height),
    ;
}

/// A sixteen-bit sample becomes the nearest eight-bit one: black stays black,
/// white white, and lighter never becomes darker.
pub proof fn samples_keep_their_light(a: u16, b: u16)
    ensures
        257 * eight_bits(a) <= a + 128,
        a <= 257 * eight_bits(a) + 128,
        a <= b ==> eight_bits(a) <= eight_bits(b),
        eight_bits(0) == 0,
        eight_bits(65535) == 255,
{
}

/// Red, green and blue of a pixel are its first three bytes of four.
pub proof fn colours_are_those_of_the_pixel(rgba: Seq<u8>, pixel: int)
    requires
        0 <= pixel,
        4 * pixel + 3 < rgba.len(),
    ensures
        colour_at(rgba, pixel).len() == 3,
        colour_at(rgba, pixel)[0] == rgba[4 * pixel],
        colour_at(rgba, pixel)[1] == rgba[4 * pixel + 1],
        colour_at(rgba, pixel)[2] == rgba[4 * pixel + 2],
{
}

/// A half-block cell shows two pixels of one column, the upper in the foreground;
/// a character shows one, in its own colour.
pub proof fn cells_show_the_pixels_in_place(
    cache: AlbumArtCache,
    style: AlbumArtStyle,
    rgba: Seq<u8>,
    cols: int,
    rows: int,
    r: int,
    c: int,
)
    requires
        cache.shows(style, rgba, cols, rows),
        0 <= r < rows,
        0 <= c < cols,
    ensures
        match cache {
            AlbumArtCache::Halfblock(v) => style == AlbumArtStyle::Halfblock && v@.len() == rows && v@[r]@.len()
                == cols && v@[r]@[c].1@ == colour_at(rgba, 2 * r * cols + c) && v@[r]@[c].2@ == colour_at(
                rgba,
                2 * r * cols + c + cols,
            ),
            AlbumArtCache::Ascii(v) => style == AlbumArtStyle::Ascii && v@.len() == rows && v@[r]@.len()
                == cols && v@[r]@[c].1@ == colour_at(rgba, r * cols + c),
        },
{
    assert((2 * r + 1) * cols + c == 2 * r * cols + c + cols) by (nonlinear_arith);
    match cache {
        AlbumArtCache::Halfblock(v) => {
            assert(is_halfblock_cell(v@[r]@[c], rgba, cols, r, c));
        },
        AlbumArtCache::Ascii(v) => {
            assert(is_ascii_cell(v@[r]@[c], rgba, cols, r, c));
        },
    }
}

/// Black takes the sparsest character.
pub proof fn black_is_sparsest(rgb: Seq<u8>)
    requires
        rgb.len() == 3,
        rgb[0] == 0 && rgb[1] == 0 && rgb[2] == 0,
    ensures
        luma(rgb) == 0,
        ramp_index(rgb) == 0,
{
    let limit = crate::precision::SINGLE_LIMIT as nat;
    crate::precision::rounding_is_close(0, limit);
    assert(crate::precision::spacing(0, limit, 1) == 1);
    assert(nearest(0, 1) == 0);
}

/// A message stays for five seconds.
pub proof fn messages_stay_five_seconds(app: App)
    requires
        app.toast_message is Some,
        (app.toast_message->0).1 <= app.host.clock_ms,
    ensures
        app.toast_is_over() <==> app.host.clock_ms - (app.toast_message->0).1 >= 5000,
        elapsed(app.host.clock_ms, (app.toast_message->0).1) == app.host.clock_ms
            - (app.toast_message->0).1,
{
}

/// How many frames of the animation a picture of the art stays.
pub open spec fn frames_per_picture(art: SkinArt) -> nat {
    match art {
        SkinArt::Itunes => 4,
        SkinArt::GruvboxDark => 3,
        SkinArt::GruvboxLight => 3,
        SkinArt::EverforestDark => 3,
        SkinArt::EverforestLight => 3,
        SkinArt::TokyoNight => 3,
        SkinArt::Ibm => 3,
        SkinArt::Win95 => 5,
        SkinArt::System7 => 4,
        SkinArt::Bios => 4,
        SkinArt::RedSands => 10,
        SkinArt::Newport => 8,
    }
}

/// How many pictures the art has.
pub open spec fn pictures(art: SkinArt) -> nat {
    match art {
        SkinArt::Itunes => 4,
        SkinArt::GruvboxDark => 4,
        SkinArt::GruvboxLight => 4,
        SkinArt::EverforestDark => 4,
        SkinArt::EverforestLight => 4,
        SkinArt::TokyoNight => 4,
        SkinArt::Ibm => 4,
        SkinArt::Win95 => 4,
        SkinArt::System7 => 3,
        SkinArt::Bios => 4,
        SkinArt::RedSands => 8,
        SkinArt::Newport => 8,
    }
}

/// Skin art shows one picture for its number of frames, and starts over once it
/// has shown them all.
pub proof fn skin_art_turns_at_its_pace(art: SkinArt, k: nat, r: nat)
    requires
        r < frames_per_picture(art),
    ensures
        skin_rows(art, frames_per_picture(art) * k + r) == skin_rows(art, frames_per_picture(art) * k),
        skin_rows(art, frames_per_picture(art) * (k + pictures(art))) == skin_rows(
            art,
            frames_per_picture(art) * k,
        ),
{
    let n = frames_per_picture(art) as int;
    let c = pictures(art) as int;
    assert(n * k + r == k * n + r && n * k == k * n + 0 && n * (k + c) == (k + c) * n + 0)
        by (nonlinear_arith);
    vstd::arithmetic::div_mod::lemma_fundamental_div_mod_converse(n * k + r, n, k as int, r as int);
    vstd::arithmetic::div_mod::lemma_fundamental_div_mod_converse(n * k, n, k as int, 0);
    vstd::arithmetic::div_mod::lemma_fundamental_div_mod_converse(n * (k + c), n, k + c, 0);
    vstd::arithmetic::div_mod::lemma_mod_add_multiples_vanish(k as int, c);
    assert((k + c) % c == (k as int) % c);
}

/// The light and the dark skin of a kind share their art.
pub proof fn light_and_dark_share_their_art(frame: nat)
    ensures
        skin_rows(SkinArt::GruvboxLight, frame) == skin_rows(SkinArt::GruvboxDark, frame),
        skin_rows(SkinArt::EverforestLight, frame) == skin_rows(SkinArt::EverforestDark, frame),
{
}

/// While a device is sought the screen says so; once it was found it is named,
/// each stage for twenty frames.
pub proof fn connecting_names_the_device(frame: nat, family: DeviceFamily)
    requires
        20 <= frame < 40,
    ensures
        connection_lines(frame, Some(family)).1 == family.text(),
        connection_lines((frame - 20) as nat, Some(family)).1.len() == 0,
        connection_lines((frame - 20) as nat, None) == connection_lines(
            (frame - 20) as nat,
            Some(family),
        ),
{
    reveal_strlit("");
}

/// A size in megabytes is written to within half a tenth.
pub proof fn megabytes_are_near(n: nat)
    requires
        n < 0x20_0000_0000_0000,
    ensures
        exists|t: nat|
            {
                &&& megabytes_text(n) == #[trigger] tenths_text(t)
                &&& 20 * n <= 2 * (t * 1048576) + 1048576
                &&& 2 * (t * 1048576) <= 20 * n + 1048576
            },
{
    rounding_is_close(n, DOUBLE_LIMIT as nat);
    assert(double_of(n) == n);
    nearest_is_near(10 * n, 1048576);
    let t = nearest(10 * n, 1048576);
    assert(megabytes_text(n) == tenths_text(t));
}

proof fn scaling_keeps_the_ratio(hz: nat, x: nat, p: nat)
    requires
        x == hz * p,
        hz > 0,
        hz < 0x1_0000_0000,
        0 < p,
        x < 9007199254740992000,
    ensures
        ({
            let (y, q) = scaled_up(x, p);
            &&& y == hz * q
            &&& q >= 1000000000
        }),
    decreases 9007199254740992000 - x,
{
    assert(x > 0) by (nonlinear_arith)
        requires
            x == hz * p,
            hz > 0,
            p > 0,
    ;
    if x >= 4503599627370496000 {
        assert(p >= 1000000000) by (nonlinear_arith)
            requires
                x == hz * p,
                hz < 0x1_0000_0000,
                x >= 4503599627370496000,
        ;
    } else {
        assert(2 * x == hz * (2 * p)) by (nonlinear_arith)
            requires
                x == hz * p,
        ;
        scaling_keeps_the_ratio(hz, 2 * x, 2 * p);
    }
}

/// A sample rate is written in kilohertz, to within half a tenth.
pub proof fn sample_rates_are_near(hz: nat)
    requires
        0 < hz < 0x1_0000_0000,
    ensures
        khz_text(hz) == tenths_text(khz_tenths(hz)) + " kHz"@,
        2 * hz <= 2 * (100 * khz_tenths(hz)) + 101,
        2 * (100 * khz_tenths(hz)) <= 2 * hz + 101,
{
    scaling_keeps_the_ratio(hz, hz, 1);
    let (x, p) = scaled_up(hz, 1);
    let n = nearest(x, 1000);
    let t = nearest(10 * n, p);
    nearest_is_near(x, 1000);
    nearest_is_near(10 * n, p);
    assert(2 * (100 * t) <= 2 * hz + 101 && 2 * hz <= 2 * (100 * t) + 101) by (nonlinear_arith)
        requires
            x == hz * p,
            p >= 1000000000,
            2 * (n * 1000) <= 2 * x + 1000,
            2 * x <= 2 * (n * 1000) + 1000,
            2 * (t * p) <= 2 * (10 * n) + p,
            2 * (10 * n) <= 2 * (t * p) + p,
    ;
}

/// One and two channels are named, others counted.
pub proof fn channels_are_named_or_counted(n: u8)
    ensures
        channels_part(None).len() == 0,
        channels_part(Some(n)).len() == 1,
        n == 1 ==> channels_part(Some(n))[0] == "Mono"@,
        n == 2 ==> channels_part(Some(n))[0] == "Stereo"@,
        n > 2 ==> channels_part(Some(n))[0] == decimal(n as nat) + "ch"@,
{
}

proof fn scaled_length_reaches(side: nat, n: nat, d: nat, limit: nat)
    requires
        0 < n < 0x100_0000,
        d > 0,
        side * n >= limit * d,
        limit < 0x100_0000,
    ensures
        scaled_length(side, n, d) >= limit,
{
    let p = quotient_scale(n, d, 1);
    let m = nearest(n * p, d);
    let s = side * m;
    let v = rounded(s, DOUBLE_LIMIT as nat);
    let l: int = 0x10_0000_0000_0000;
    scale_lifts(n, d, 1);
    nearest_is_near(n * p, d);
    rounding_is_close(s, DOUBLE_LIMIT as nat);
    let np = (n * p) as int;
    let b = 2 * l - 1;
    assert(2 * (m * d) * l >= np * b) by (nonlinear_arith)
        requires
            2 * np <= 2 * (m * d) + d,
            np >= d * l,
            b == 2 * l - 1,
            l == 0x10_0000_0000_0000,
    ;
    assert(2 * (v * l) >= s * b) by (nonlinear_arith)
        requires
            2 * (s * (2 * l)) <= 2 * (v * (2 * l)) + 2 * s,
            b == 2 * l - 1,
    ;
    assert(side * np >= limit * d * p) by (nonlinear_arith)
        requires
            np == n * p,
            side * n >= limit * d,
            p > 0,
    ;
    assert((2 * (v * l)) * (2 * d * l) >= (s * b) * (2 * d * l)) by (nonlinear_arith)
        requires
            2 * (v * l) >= s * b,
            d > 0,
            l > 0,
    ;
    assert((s * b) * (2 * d * l) == side * b * (2 * (m * d) * l)) by (nonlinear_arith)
        requires
            s == side * m,
    ;
    assert(side * b * (2 * (m * d) * l) >= side * b * (np * b)) by (nonlinear_arith)
        requires
            2 * (m * d) * l >= np * b,
            side >= 0,
            b > 0,
    ;
    assert(side * b * (np * b) == (side * np) * (b * b)) by (nonlinear_arith);
    assert((side * np) * (b * b) >= (limit * d * p) * (b * b)) by (nonlinear_arith)
        requires
            side * np >= limit * d * p,
    ;
    assert((2 * (v * l)) * (2 * d * l) == d * (4 * v * l * l)) by (nonlinear_arith);
    assert((limit * d * p) * (b * b) == d * (limit * p * (b * b))) by (nonlinear_arith);
    let lhs = 4 * v * l * l;
    let rhs = limit * p * (b * b);
    assert(lhs >= rhs) by (nonlinear_arith)
        requires
            d * lhs >= d * rhs,
            d > 0,
    ;
    let w = (limit * p) as int;
    assert(rhs == w * (4 * (l * l) - 4 * l + 1)) by (nonlinear_arith)
        requires
            rhs == limit * p * (b * b),
            b == 2 * l - 1,
            w == limit * p,
    ;
    assert(w < 0x100_0000 * p) by (nonlinear_arith)
        requires
            w == limit * p,
            limit < 0x100_0000,
            p > 0,
    ;
    assert(2 * v >= 2 * w - p) by (nonlinear_arith)
        requires
            4 * v * l * l >= w * (4 * (l * l) - 4 * l + 1),
            w < 0x100_0000 * p,
            w >= 0,
            p > 0,
            l == 0x10_0000_0000_0000,
    ;
    assert((2 * v + p) / (2 * p) >= limit) by (nonlinear_arith)
        requires
            2 * v >= 2 * w - p,
            w == limit * p,
            p > 0,
    ;
}

/// A picture fills the area in one direction, and is no narrower or lower in the
/// other than its shape asks for.
pub proof fn pictures_fill_their_area(width: nat, height: nat, w: nat, h: nat, limit: nat)
    requires
        width > 0,
        height > 0,
        0 < w <= 0xffff,
        0 < h <= 0xffff,
        limit < 0x100_0000,
    ensures
        ({
            let (n, d) = fit_factor(width, height, w, 2 * h);
            let (cols, rows) = cell_size(width, height, w, h);
            &&& cols == w || rows == h
            &&& width * n >= limit * d ==> cols >= limit
            &&& width * n <= limit * d ==> cols <= limit || cols == 1
            &&& height * n >= limit * d ==> 2 * rows + 1 >= limit
            &&& height * n <= limit * d ==> 2 * rows <= limit || rows == 1
        }),
{
    let (n, d) = fit_factor(width, height, w, 2 * h);
    if width * n >= limit * d {
        scaled_length_reaches(width, n, d, limit);
    }
    if width * n <= limit * d {
        scaled_length_fits(width, n, d, limit);
    }
    if height * n >= limit * d {
        scaled_length_reaches(height, n, d, limit);
    }
    if height * n <= limit * d {
        scaled_length_fits(height, n, d, limit);
    }
    if n == w && d == width {
        assert(width * n >= w * d && width * n <= w * d) by (nonlinear_arith)
            requires
                n == w,
                d == width,
        ;
        scaled_length_reaches(width, n, d, w);
        scaled_length_fits(width, n, d, w);
    } else {
        assert(height * n >= (2 * h) * d && height * n <= (2 * h) * d) by (nonlinear_arith)
            requires
                n == 2 * h,
                d == height,
        ;
        scaled_length_reaches(height, n, d, 2 * h);
        scaled_length_fits(height, n, d, 2 * h);
    }
}

/// The light of a colour weighs red, green and blue as the eye does, but for the
/// last bits.
pub proof fn light_is_weighed(rgb: Seq<u8>)
    requires
        rgb.len() == 3,
    ensures
        ({
            let light = 28534688 * rgb[0] + 95992520 * rgb[1] + 9690520 * rgb[2];
            light - 8192 <= luma(rgb) <= light + 8192
        }),
{
    let limit = crate::precision::SINGLE_LIMIT as nat;
    let r = (28534688 * rgb[0]) as nat;
    let g = (95992520 * rgb[1]) as nat;
    let b = (9690520 * rgb[2]) as nat;
    rounding_is_close(r, limit);
    rounding_is_close(g, limit);
    rounding_is_close(b, limit);
    let rr = rounded(r, limit);
    let rg = rounded(g, limit);
    let rb = rounded(b, limit);
    rounding_is_close(rr + rg, limit);
    rounding_is_close(rounded(rr + rg, limit) + rb, limit);
}

/// The step of the ramp grows with the light, one step for each tenth of it.
pub proof fn steps_follow_the_light(rgb: Seq<u8>)
    ensures
        ramp_index(rgb) <= 9,
        ramp_index(rgb) < 9 ==> ramp_index(rgb) * 256 <= luma(rgb) / 0x800_0000 * 10 < (ramp_index(rgb) + 1)
            * 256,
        ramp_index(rgb) == 9 ==> luma(rgb) / 0x800_0000 * 10 >= 9 * 256,
{
}

/// A picture that has the size of the cells already is drawn pixel by pixel: in
/// half blocks two rows to a cell, in characters one.
pub proof fn pictures_of_the_size_are_drawn_as_they_are(
    img: ArtImage,
    cache: AlbumArtCache,
    style: AlbumArtStyle,
    w: u16,
    h: u16,
    bytes: Vec<u8>,
    r: int,
    c: int,
)
    requires
        img.drawn_as(cache, style, w, h),
        img.rgba == ArtSamples::Eight(bytes),
        ({
            let (cols, rows) = cell_size(img.width as nat, img.height as nat, w as nat, h as nat);
            &&& img.width == cols
            &&& style == AlbumArtStyle::Halfblock ==> img.height == 2 * rows
            &&& style == AlbumArtStyle::Ascii ==> img.height == rows
            &&& 0 <= r < rows
            &&& 0 <= c < cols
        }),
    ensures
        cache.in_style(style),
        match cache {
            AlbumArtCache::Halfblock(v) => v@[r]@[c].1@ == colour_at(bytes@, 2 * r * img.width + c)
                && v@[r]@[c].2@ == colour_at(bytes@, 2 * r * img.width + c + img.width),
            AlbumArtCache::Ascii(v) => v@[r]@[c].1@ == colour_at(bytes@, r * img.width + c),
        },
{
    let (cols, rows) = cell_size(img.width as nat, img.height as nat, w as nat, h as nat);
    let rgba = choose|rgba: Seq<u8>|
        #[trigger] img.resized_to(
            rgba,
            cols as int,
            (AlbumArtCache::pixel_rows(style) * rows) as int,
        ) && cache.shows(style, rgba, cols as int, rows as int);
    cells_show_the_pixels_in_place(cache, style, rgba, cols as int, rows as int, r, c);
}

} // verus!
