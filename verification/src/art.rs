//! Album art: the picture, and the two ways of drawing it in terminal cells.
use vstd::prelude::*;
use crate::precision::{round_to, rounded, scale_length, scaled_length, SINGLE_LIMIT};
use crate::types::AlbumArtStyle;

verus! {

/// Character ramp for ASCII art, ordered sparse to dense: ` .:-=+*%#@`.
pub const ASCII_ART_RAMP: [u8; 10] = [32, 46, 58, 45, 61, 43, 42, 37, 35, 64];

/// The samples of a picture, in the depth in which it was stored.
#[derive(Debug)]
pub enum ArtSamples {
    Eight(Vec<u8>),
    Sixteen(Vec<u16>),
}

/// A sixteen-bit sample in eight bits, rounded to the nearest.
pub open spec fn eight_bits(c: u16) -> u8 {
    ((c + 128) / 257) as u8
}

impl ArtSamples {
    /// How many samples there are.
    pub open spec fn count(&self) -> nat {
        match self {
            ArtSamples::Eight(v) => v@.len(),
            ArtSamples::Sixteen(v) => v@.len(),
        }
    }

    /// The bytes that one sample takes.
    pub open spec fn sample_bytes(&self) -> nat {
        match self {
            ArtSamples::Eight(_) => 1,
            ArtSamples::Sixteen(_) => 2,
        }
    }

    /// The samples in eight bits each.
    pub open spec fn in_eight_bits(&self) -> Seq<u8> {
        match self {
            ArtSamples::Eight(v) => v@,
            ArtSamples::Sixteen(v) => v@.map_values(|c: u16| eight_bits(c)),
        }
    }
}

/// A picture: rows of pixels, four samples each (red, green, blue, alpha).
#[derive(Debug)]
pub struct ArtImage {
    pub width: u32,
    pub height: u32,
    pub rgba: ArtSamples,
}

impl ArtImage {
    /// There are four samples for each pixel.
    pub open spec fn valid(&self) -> bool {
        self.rgba.count() == 4 * (self.width * self.height)
    }

    /// These are the bytes of the picture in another size, four to a pixel. A
    /// picture of that size already keeps its pixels, and one without pixels
    /// gives black.
    pub open spec fn resized_to(&self, rgba: Seq<u8>, width: int, height: int) -> bool {
        &&& rgba.len() == 4 * (width * height)
        &&& self.width == width && self.height == height ==> rgba == self.rgba.in_eight_bits()
        &&& self.width == 0 || self.height == 0 ==> forall|i: int|
            0 <= i < rgba.len() ==> #[trigger] rgba[i] == 0
    }
}

/// Rendered album-art buffer. The variant tracks which renderer produced the
/// buffer, so the cache can never drift out of sync with the active style.
#[derive(Debug)]
pub enum AlbumArtCache {
    /// Halfblock cells: one terminal cell packs two vertical pixels, the upper
    /// as the foreground and the lower as the background of an upper half
    /// block.
    Halfblock(Vec<Vec<(char, [u8; 3], [u8; 3])>>),
    /// ASCII cells: one pixel per cell, character picked from the luminance
    /// ramp, foreground = pixel color.
    Ascii(Vec<Vec<(char, [u8; 3])>>),
}

impl AlbumArtCache {
    pub open spec fn row_count(&self) -> nat {
        match self {
            AlbumArtCache::Halfblock(v) => v@.len(),
            AlbumArtCache::Ascii(v) => v@.len(),
        }
    }

    pub fn rows(&self) -> (n: usize)
        ensures
            n == self.row_count(),
    {
        match self {
            AlbumArtCache::Halfblock(v) => v.len(),
            AlbumArtCache::Ascii(v) => v.len(),
        }
    }

    pub open spec fn row_width(&self) -> nat {
        match self {
            AlbumArtCache::Halfblock(v) => if v@.len() == 0 {
                0
            } else {
                v@[0]@.len()
            },
            AlbumArtCache::Ascii(v) => if v@.len() == 0 {
                0
            } else {
                v@[0]@.len()
            },
        }
    }

    /// The width of the first row.
    pub fn width(&self) -> (n: usize)
        ensures
            n == self.row_width(),
    {
        match self {
            AlbumArtCache::Halfblock(v) => if v.len() == 0 {
                0
            } else {
                v[0].len()
            },
            AlbumArtCache::Ascii(v) => if v.len() == 0 {
                0
            } else {
                v[0].len()
            },
        }
    }

    pub open spec fn in_style(&self, style: AlbumArtStyle) -> bool {
        match style {
            AlbumArtStyle::Halfblock => self is Halfblock,
            AlbumArtStyle::Ascii => self is Ascii,
        }
    }

    pub fn matches_style(&self, style: AlbumArtStyle) -> (r: bool)
        ensures
            r == self.in_style(style),
    {
        match self {
            AlbumArtCache::Halfblock(_) => style == AlbumArtStyle::Halfblock,
            AlbumArtCache::Ascii(_) => style == AlbumArtStyle::Ascii,
        }
    }
}


// ---------------------------------------------------------------------------
// Size
// ---------------------------------------------------------------------------
/// The factor by which a picture is scaled into an area of `w` by `h` pixels,
/// as a quotient: the smaller of the two that make a side fit. A side without
/// length fits anyway.
pub open spec fn fit_factor(width: nat, height: nat, w: nat, h: nat) -> (nat, nat) {
    if height == 0 || width > 0 && w * height <= h * width {
        (w, width)
    } else {
        (h, height)
    }
}

/// Columns and rows of the cells for a picture in an area of `w` by `h` cells.
/// A cell is one pixel wide and two pixels high.
pub open spec fn cell_size(width: nat, height: nat, w: nat, h: nat) -> (nat, nat) {
    let (n, d) = fit_factor(width, height, w, 2 * h);
    let cols = scaled_length(width, n, d);
    let high = scaled_length(height, n, d);
    (
        if cols < 1 {
            1
        } else {
            cols
        },
        if high < 2 {
            1
        } else {
            high / 2
        },
    )
}

proof fn factor_fits(width: nat, height: nat, w: nat, h: nat)
    ensures
        ({
            let (n, d) = fit_factor(width, height, w, h);
            width * n <= w * d && height * n <= h * d
        }),
{
    let (n, d) = fit_factor(width, height, w, h);
    assert(width * w == w * width && height * w == w * height) by (nonlinear_arith);
    assert(width * h == h * width && height * h == h * height) by (nonlinear_arith);
    assert(0 * w == 0 && 0 * h == 0 && h * width >= 0 && w * height >= 0) by (nonlinear_arith);
}

/// The cells of a picture stay within the area, save that there is always one.
pub proof fn cells_fit_the_area(width: nat, height: nat, w: nat, h: nat)
    requires
        w <= 0xffff,
        h <= 0xffff,
    ensures
        1 <= cell_size(width, height, w, h).0,
        cell_size(width, height, w, h).0 <= w || cell_size(width, height, w, h).0 == 1,
        1 <= cell_size(width, height, w, h).1,
        cell_size(width, height, w, h).1 <= h || cell_size(width, height, w, h).1 == 1,
{
    let (n, d) = fit_factor(width, height, w, 2 * h);
    if n > 0 && d > 0 {
        factor_fits(width, height, w, 2 * h);
        crate::precision::scaled_length_fits(width, n, d, w);
        crate::precision::scaled_length_fits(height, n, d, 2 * h);
    }
}

/// Columns and rows of the cells for a picture in an area of cells.
pub fn cells_for(width: u32, height: u32, w: u16, h: u16) -> (r: (u32, u32))
    ensures
        r.0 == cell_size(width as nat, height as nat, w as nat, h as nat).0,
        r.1 == cell_size(width as nat, height as nat, w as nat, h as nat).1,
        1 <= r.0 <= 0xffff,
        1 <= r.1 <= 0xffff,
{
    let max_w: u32 = w as u32;
    let max_h: u32 = h as u32 * 2;
    proof {
        assert(max_w * height <= 0xffff * 0xffff_ffff && max_h * width <= 0x1_fffe * 0xffff_ffff)
            by (nonlinear_arith)
            requires
                max_w <= 0xffff,
                max_h <= 0x1_fffe,
                height <= 0xffff_ffff,
                width <= 0xffff_ffff,
        ;
        cells_fit_the_area(width as nat, height as nat, w as nat, h as nat);
    }
    let (n, d): (u32, u32) = if height == 0 || width > 0 && max_w as u64 * height as u64 <= max_h as u64
        * width as u64 {
        (max_w, width)
    } else {
        (max_h, height)
    };
    proof {
        factor_fits(width as nat, height as nat, max_w as nat, max_h as nat);
    }
    let cols = scale_length(width, n, d, Ghost(max_w as nat));
    let high = scale_length(height, n, d, Ghost(max_h as nat));
    (
        if cols < 1 {
            1
        } else {
            cols
        },
        if high < 2 {
            1
        } else {
            high / 2
        },
    )
}

// ---------------------------------------------------------------------------
// Cells
// ---------------------------------------------------------------------------
/// The character of a halfblock cell.
pub const UPPER_HALF_BLOCK: char = '\u{2580}';

/// Red, green and blue of a pixel.
pub open spec fn colour_at(rgba: Seq<u8>, pixel: int) -> Seq<u8> {
    seq![rgba[4 * pixel], rgba[4 * pixel + 1], rgba[4 * pixel + 2]]
}

/// The luma of a colour in single precision, in units of `2^-27`: the weights
/// 0.2126, 0.7152 and 0.0722, every product and every sum rounded to 24 bits.
pub open spec fn luma(rgb: Seq<u8>) -> nat {
    let limit = SINGLE_LIMIT as nat;
    let r = rounded((28534688 * rgb[0]) as nat, limit);
    let g = rounded((95992520 * rgb[1]) as nat, limit);
    let b = rounded((9690520 * rgb[2]) as nat, limit);
    rounded(rounded(r + g, limit) + b, limit)
}

/// The step of the ramp for a colour: the darker, the sparser.
pub open spec fn ramp_index(rgb: Seq<u8>) -> nat {
    let step = luma(rgb) / 0x800_0000 * 10 / 256;
    if step < 9 {
        step
    } else {
        9
    }
}

/// One halfblock cell: the pixel above as foreground, the one below as
/// background.
pub open spec fn is_halfblock_cell(
    cell: (char, [u8; 3], [u8; 3]),
    rgba: Seq<u8>,
    cols: int,
    row: int,
    col: int,
) -> bool {
    &&& cell.0 == UPPER_HALF_BLOCK
    &&& cell.1@ == colour_at(rgba, 2 * row * cols + col)
    &&& cell.2@ == colour_at(rgba, (2 * row + 1) * cols + col)
}

/// One cell of ASCII art: a step of the ramp in the colour of the pixel.
pub open spec fn is_ascii_cell(
    cell: (char, [u8; 3]),
    rgba: Seq<u8>,
    cols: int,
    row: int,
    col: int,
) -> bool {
    let rgb = colour_at(rgba, row * cols + col);
    &&& cell.0 == ASCII_ART_RAMP[ramp_index(rgb) as int] as char
    &&& cell.1@ == rgb
}

impl AlbumArtCache {
    /// How many pixel rows the style packs into a row of cells.
    pub open spec fn pixel_rows(style: AlbumArtStyle) -> nat {
        match style {
            AlbumArtStyle::Halfblock => 2,
            AlbumArtStyle::Ascii => 1,
        }
    }

    /// The cells show these pixels, `cols` to a row.
    pub open spec fn shows(&self, style: AlbumArtStyle, rgba: Seq<u8>, cols: int, rows: int) -> bool {
        match (style, *self) {
            (AlbumArtStyle::Halfblock, AlbumArtCache::Halfblock(v)) => {
                &&& v@.len() == rows
                &&& forall|r: int| 0 <= r < rows ==> (#[trigger] v@[r])@.len() == cols
                &&& forall|r: int, c: int|
                    0 <= r < rows && 0 <= c < cols ==> is_halfblock_cell(
                        #[trigger] v@[r]@[c],
                        rgba,
                        cols,
                        r,
                        c,
                    )
            },
            (AlbumArtStyle::Ascii, AlbumArtCache::Ascii(v)) => {
                &&& v@.len() == rows
                &&& forall|r: int| 0 <= r < rows ==> (#[trigger] v@[r])@.len() == cols
                &&& forall|r: int, c: int|
                    0 <= r < rows && 0 <= c < cols ==> is_ascii_cell(
                        #[trigger] v@[r]@[c],
                        rgba,
                        cols,
                        r,
                        c,
                    )
            },
            _ => false,
        }
    }

    /// Draws pixels in terminal cells.
    pub fn draw(style: AlbumArtStyle, rgba: &Vec<u8>, cols: u32, rows: u32) -> (r: Self)
        requires
            0 < cols <= 0xffff,
            0 < rows <= 0xffff,
            rgba@.len() == 4 * (cols * (AlbumArtCache::pixel_rows(style) * rows)),
        ensures
            r.shows(style, rgba@, cols as int, rows as int),
    {
        match style {
            AlbumArtStyle::Halfblock => AlbumArtCache::Halfblock(halfblock_cells(rgba, cols, rows)),
            AlbumArtStyle::Ascii => AlbumArtCache::Ascii(ascii_cells(rgba, cols, rows)),
        }
    }
}

proof fn pixel_in_bounds(cols: int, rows: int, row: int, col: int)
    requires
        0 <= row < rows,
        0 <= col < cols,
    ensures
        0 <= row * cols + col < cols * rows,
{
    assert(0 <= row * cols + col < cols * rows) by (nonlinear_arith)
        requires
            0 <= row < rows,
            0 <= col < cols,
    ;
}

fn colour_of(rgba: &Vec<u8>, pixel: usize) -> (r: [u8; 3])
    requires
        4 * pixel + 3 < rgba@.len(),
    ensures
        r@ == colour_at(rgba@, pixel as int),
{
    let len = rgba.len();
    let r = [rgba[4 * pixel], rgba[4 * pixel + 1], rgba[4 * pixel + 2]];
    proof {
        assert(r@ =~= colour_at(rgba@, pixel as int));
    }
    r
}

fn ramp_char(rgb: &[u8; 3]) -> (r: char)
    ensures
        r == ASCII_ART_RAMP[ramp_index(rgb@) as int] as char,
{
    let r = round_to(28534688 * rgb[0] as u128, SINGLE_LIMIT);
    let g = round_to(95992520 * rgb[1] as u128, SINGLE_LIMIT);
    let b = round_to(9690520 * rgb[2] as u128, SINGLE_LIMIT);
    let s = round_to(r + g, SINGLE_LIMIT);
    let l = round_to(s + b, SINGLE_LIMIT);
    let step: u128 = l / 0x800_0000 * 10 / 256;
    let i: usize = if step < 9 {
        step as usize
    } else {
        9
    };
    ASCII_ART_RAMP[i] as char
}

fn halfblock_cells(rgba: &Vec<u8>, cols: u32, rows: u32) -> (r: Vec<Vec<(char, [u8; 3], [u8; 3])>>)
    requires
        0 < cols <= 0xffff,
        0 < rows <= 0xffff,
        rgba@.len() == 4 * (cols * (2 * rows)),
    ensures
        AlbumArtCache::Halfblock(r).shows(
            AlbumArtStyle::Halfblock,
            rgba@,
            cols as int,
            rows as int,
        ),
{
    let len = rgba.len();
    let mut lines: Vec<Vec<(char, [u8; 3], [u8; 3])>> = Vec::new();
    let mut row: u32 = 0;
    while row < rows
        invariant
            0 < cols <= 0xffff,
            0 < rows <= 0xffff,
            len == 4 * (cols * (2 * rows)),
            len == rgba@.len(),
            row <= rows,
            lines@.len() == row,
            forall|r: int| 0 <= r < row ==> (#[trigger] lines@[r])@.len() == cols,
            forall|r: int, c: int|
                0 <= r < row && 0 <= c < cols ==> is_halfblock_cell(
                    #[trigger] lines@[r]@[c],
                    rgba@,
                    cols as int,
                    r,
                    c,
                ),
        decreases rows - row,
    {
        let mut line: Vec<(char, [u8; 3], [u8; 3])> = Vec::new();
        let mut col: u32 = 0;
        while col < cols
            invariant
                0 < cols <= 0xffff,
                0 < rows <= 0xffff,
                len == 4 * (cols * (2 * rows)),
                len == rgba@.len(),
                row < rows,
                col <= cols,
                line@.len() == col,
                forall|c: int|
                    0 <= c < col ==> is_halfblock_cell(
                        #[trigger] line@[c],
                        rgba@,
                        cols as int,
                        row as int,
                        c,
                    ),
            decreases cols - col,
        {
            proof {
                pixel_in_bounds(cols as int, 2 * rows as int, 2 * row as int, col as int);
                pixel_in_bounds(cols as int, 2 * rows as int, 2 * row + 1, col as int);
                assert(0 <= 2 * row * cols <= 0x1_fffe * 0xffff && (2 * row + 1) * cols <= 0x1_ffff
                    * 0xffff && 2 * row * cols <= (2 * row + 1) * cols) by (nonlinear_arith)
                    requires
                        0 <= row <= 0xffff,
                        0 < cols <= 0xffff,
                ;
            }
            let above: usize = 2 * row as usize * cols as usize + col as usize;
            let below: usize = (2 * row as usize + 1) * cols as usize + col as usize;
            let cell = (UPPER_HALF_BLOCK, colour_of(rgba, above), colour_of(rgba, below));
            line.push(cell);
            col = col + 1;
        }
        let ghost before = lines@;
        lines.push(line);
        proof {
            assert forall|r: int, c: int| 0 <= r <= row && 0 <= c < cols implies is_halfblock_cell(
                #[trigger] lines@[r]@[c],
                rgba@,
                cols as int,
                r,
                c,
            ) by {
                if r < row {
                    assert(lines@[r] == before[r]);
                    assert(is_halfblock_cell(before[r]@[c], rgba@, cols as int, r, c));
                } else {
                    assert(lines@[r] == line);
                }
            }
        }
        row = row + 1;
    }
    lines
}

fn ascii_cells(rgba: &Vec<u8>, cols: u32, rows: u32) -> (r: Vec<Vec<(char, [u8; 3])>>)
    requires
        0 < cols <= 0xffff,
        0 < rows <= 0xffff,
        rgba@.len() == 4 * (cols * rows),
    ensures
        AlbumArtCache::Ascii(r).shows(AlbumArtStyle::Ascii, rgba@, cols as int, rows as int),
{
    let len = rgba.len();
    let mut lines: Vec<Vec<(char, [u8; 3])>> = Vec::new();
    let mut row: u32 = 0;
    while row < rows
        invariant
            0 < cols <= 0xffff,
            0 < rows <= 0xffff,
            len == 4 * (cols * rows),
            len == rgba@.len(),
            row <= rows,
            lines@.len() == row,
            forall|r: int| 0 <= r < row ==> (#[trigger] lines@[r])@.len() == cols,
            forall|r: int, c: int|
                0 <= r < row && 0 <= c < cols ==> is_ascii_cell(
                    #[trigger] lines@[r]@[c],
                    rgba@,
                    cols as int,
                    r,
                    c,
                ),
        decreases rows - row,
    {
        let mut line: Vec<(char, [u8; 3])> = Vec::new();
        let mut col: u32 = 0;
        while col < cols
            invariant
                0 < cols <= 0xffff,
                0 < rows <= 0xffff,
                len == 4 * (cols * rows),
                len == rgba@.len(),
                row < rows,
                col <= cols,
                line@.len() == col,
                forall|c: int|
                    0 <= c < col ==> is_ascii_cell(
                        #[trigger] line@[c],
                        rgba@,
                        cols as int,
                        row as int,
                        c,
                    ),
            decreases cols - col,
        {
            proof {
                pixel_in_bounds(cols as int, rows as int, row as int, col as int);
                assert(0 <= row * cols <= 0xffff * 0xffff) by (nonlinear_arith)
                    requires
                        0 <= row <= 0xffff,
                        0 < cols <= 0xffff,
                ;
            }
            let rgb = colour_of(rgba, row as usize * cols as usize + col as usize);
            line.push((ramp_char(&rgb), rgb));
            col = col + 1;
        }
        let ghost before = lines@;
        lines.push(line);
        proof {
            assert forall|r: int, c: int| 0 <= r <= row && 0 <= c < cols implies is_ascii_cell(
                #[trigger] lines@[r]@[c],
                rgba@,
                cols as int,
                r,
                c,
            ) by {
                if r < row {
                    assert(lines@[r] == before[r]);
                    assert(is_ascii_cell(before[r]@[c], rgba@, cols as int, r, c));
                } else {
                    assert(lines@[r] == line);
                }
            }
        }
        row = row + 1;
    }
    lines
}

// ---------------------------------------------------------------------------
// Resizing
// ---------------------------------------------------------------------------
impl ArtImage {
    /// The buffers that resizing needs can be allocated.
    pub open spec fn can_resize(&self, width: int, height: int) -> bool {
        &&& 16 * (self.width * height) <= isize::MAX
        &&& 4 * self.rgba.sample_bytes() * (width * height) <= isize::MAX
    }
}

/// Calls `image::DynamicImage::resize_exact` with the Lanczos filter of window
/// three on the picture in its own depth, and then `into_rgba8`, which reduces
/// what came out to eight bits. Claims that the result has four bytes for each
/// pixel of the new size, that a picture of that size keeps its pixels, each
/// sixteen-bit sample rounded to eight bits, and that one without pixels gives
/// zeros. Nothing else is said of the bytes: they rest on sines, whose last bits
/// differ from machine to machine.
#[verifier::external_body]
fn resize_exact(picture: &ArtImage, new_width: u32, new_height: u32) -> (r: Option<Vec<u8>>)
    requires
        picture.valid(),
        new_width > 0,
        new_height > 0,
        picture.can_resize(new_width as int, new_height as int),
    ensures
        r is Some,
        picture.resized_to(r->0@, new_width as int, new_height as int),
{
    let (w, h) = (picture.width, picture.height);
    let held = match &picture.rgba {
        ArtSamples::Eight(v) => image::ImageBuffer::from_raw(w, h, v.clone()).map(
            image::DynamicImage::ImageRgba8,
        ),
        ArtSamples::Sixteen(v) => image::ImageBuffer::from_raw(w, h, v.clone()).map(
            image::DynamicImage::ImageRgba16,
        ),
    };
    let filter = image::imageops::FilterType::Lanczos3;
    held.map(|p| p.resize_exact(new_width, new_height, filter).into_rgba8().into_raw())
}

impl ArtImage {
    /// The picture can be drawn in an area of cells.
    pub open spec fn can_draw(&self, style: AlbumArtStyle, w: u16, h: u16) -> bool {
        let size = cell_size(self.width as nat, self.height as nat, w as nat, h as nat);
        &&& self.valid()
        &&& self.can_resize(
            size.0 as int,
            (AlbumArtCache::pixel_rows(style) * size.1) as int,
        )
    }

    /// Whether the picture can be drawn in an area of cells: its samples are those
    /// of its size, and the machine can hold the buffers.
    pub fn is_drawable(&self, style: AlbumArtStyle, w: u16, h: u16) -> (r: bool)
        ensures
            r == self.can_draw(style, w, h),
    {
        let (cols, rows) = cells_for(self.width, self.height, w, h);
        let high: u32 = match style {
            AlbumArtStyle::Halfblock => 2 * rows,
            AlbumArtStyle::Ascii => rows,
        };
        proof {
            assert(self.width * self.height <= 0xffff_ffff * 0xffff_ffff && self.width * high
                <= 0xffff_ffff * 0x1_fffe && cols * high <= 0xffff * 0x1_fffe) by (nonlinear_arith)
                requires
                    self.width <= 0xffff_ffff,
                    self.height <= 0xffff_ffff,
                    high <= 0x1_fffe,
                    cols <= 0xffff,
            ;
        }
        let (count, depth): (usize, u128) = match &self.rgba {
            ArtSamples::Eight(v) => (v.len(), 1),
            ArtSamples::Sixteen(v) => (v.len(), 2),
        };
        let samples: u128 = 4 * (self.width as u128 * self.height as u128);
        let between: u128 = 16 * (self.width as u128 * high as u128);
        let after: u128 = 4 * depth * (cols as u128 * high as u128);
        count as u128 == samples && between <= isize::MAX as u128 && after <= isize::MAX as u128
    }

    /// The picture drawn in an area of cells.
    pub open spec fn drawn_as(&self, cache: AlbumArtCache, style: AlbumArtStyle, w: u16, h: u16) -> bool {
        let size = cell_size(self.width as nat, self.height as nat, w as nat, h as nat);
        exists|rgba: Seq<u8>|
            #[trigger] self.resized_to(
                rgba,
                size.0 as int,
                (AlbumArtCache::pixel_rows(style) * size.1) as int,
            ) && cache.shows(style, rgba, size.0 as int, size.1 as int)
    }

    /// Draws the picture in an area of cells.
    pub fn draw_in(&self, style: AlbumArtStyle, w: u16, h: u16) -> (r: Option<AlbumArtCache>)
        requires
            self.can_draw(style, w, h),
        ensures
            r is Some,
            self.drawn_as(r->0, style, w, h),
    {
        let (cols, rows) = cells_for(self.width, self.height, w, h);
        let high: u32 = match style {
            AlbumArtStyle::Halfblock => 2 * rows,
            AlbumArtStyle::Ascii => rows,
        };
        match resize_exact(self, cols, high) {
            Some(rgba) => {
                proof {
                    assert(self.resized_to(rgba@, cols as int, high as int));
                }
                Some(AlbumArtCache::draw(style, &rgba, cols, rows))
            },
            None => None,
        }
    }
}

} // verus!
