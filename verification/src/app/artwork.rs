//! The album-art cells that are kept between frames.
use vstd::prelude::*;
use crate::app::{App, ArtState};

verus! {

impl ArtState {
    /// The cells that are kept are those for the area, in the current style.
    pub open spec fn is_current(&self, w: u16, h: u16) -> bool {
        &&& self.album_art_size == (w, h)
        &&& self.album_art_cache matches Some(c) && c.in_style(self.album_art_style)
    }
}

impl App {
    /// The album art, if there is any, can be drawn in an area of cells.
    pub open spec fn can_render(&self, w: u16, h: u16) -> bool {
        self.art.album_art matches Some(img) ==> img.can_draw(self.art.album_art_style, w, h)
    }

    /// Whether the album art, if there is any, can be drawn in an area of cells.
    pub fn can_render_album_art(&self, width: u16, height: u16) -> (r: bool)
        ensures
            r == self.can_render(width, height),
    {
        match &self.art.album_art {
            Some(img) => img.is_drawable(self.art.album_art_style, width, height),
            None => true,
        }
    }

    /// The cells are those of the album art for an area. What is current is
    /// kept.
    pub open spec fn art_rendered(&self, before: &App, w: u16, h: u16) -> bool {
        if before.art.is_current(w, h) {
            *self == *before
        } else {
            &&& *self == (App { art: self.art, ..*before })
            &&& self.art == (ArtState {
                album_art_size: (w, h),
                album_art_cache: self.art.album_art_cache,
                ..before.art
            })
            &&& match before.art.album_art {
                Some(img) => self.art.album_art_cache matches Some(c) && img.drawn_as(
                    c,
                    before.art.album_art_style,
                    w,
                    h,
                ),
                None => self.art.album_art_cache is None,
            }
        }
    }

    /// Rebuild the album-art cache sized to fit within the given terminal area,
    /// using the renderer selected by the style:
    ///
    /// - halfblock: each cell packs two vertical pixels, the upper as foreground
    ///   and the lower as background, doubling vertical resolution;
    /// - ASCII: one pixel per cell, mapped to a character ramp by luminance.
    ///
    /// Only the cache for the active style is populated.
    pub fn render_album_art(&mut self, width: u16, height: u16)
        requires
            old(self).can_render(width, height),
        ensures
            final(self).art_rendered(old(self), width, height),
            old(self).valid() ==> final(self).valid(),
    {
        let cached = match &self.art.album_art_cache {
            Some(c) => c.matches_style(self.art.album_art_style),
            None => false,
        };
        if cached && self.art.album_art_size.0 == width && self.art.album_art_size.1 == height {
            return;
        }
        let style = self.art.album_art_style;
        self.art.album_art_size = (width, height);
        self.art.album_art_cache = match &self.art.album_art {
            Some(img) => img.draw_in(style, width, height),
            None => None,
        };
    }
}

/// Rendered art is always in the style that is selected.
pub proof fn art_is_in_style(before: App, after: App, w: u16, h: u16)
    requires
        after.art_rendered(&before, w, h),
    ensures
        after.art.album_art_style == before.art.album_art_style,
        after.art.album_art_cache matches Some(c) ==> c.in_style(after.art.album_art_style),
        after.art.album_art is Some ==> after.art.is_current(w, h),
{
}

/// Rendering for the same area again changes nothing.
pub proof fn rendering_again_keeps_the_art(before: App, once: App, twice: App, w: u16, h: u16)
    requires
        before.art.album_art is Some,
        once.art_rendered(&before, w, h),
        twice.art_rendered(&once, w, h),
    ensures
        twice == once,
{
    art_is_in_style(before, once, w, h);
}

} // verus!
