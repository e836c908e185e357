//! The now-playing panel, themes, and the track-info popup.
use vstd::prelude::*;
use crate::app::{App, ArtState, PlayerState, PopupState, ThemeState};
use crate::commands::HostRequest;
use crate::library::{first_where, is_row, Library};
use crate::model::Track;
use crate::tracks::TrackInfo;
use crate::types::{AlbumArtStyle, StemStatus};

verus! {

/// The preference after one press: auto, hidden, always on, auto.
pub open spec fn next_show_player(p: Option<bool>) -> Option<bool> {
    match p {
        None => Some(false),
        Some(false) => Some(true),
        Some(true) => None,
    }
}

/// The label of a preference.
pub open spec fn show_player_label(p: Option<bool>) -> Seq<char> {
    match p {
        None => "Player: auto"@,
        Some(false) => "Player: hidden"@,
        Some(true) => "Player: always on"@,
    }
}

/// Three presses come back to the same preference.
pub proof fn show_player_cycles(p: Option<bool>)
    ensures
        next_show_player(next_show_player(next_show_player(p))) == p,
        next_show_player(p) != p,
        next_show_player(next_show_player(p)) != p,
{
}

/// The other way of drawing art.
pub open spec fn other_style(s: AlbumArtStyle) -> AlbumArtStyle {
    match s {
        AlbumArtStyle::Halfblock => AlbumArtStyle::Ascii,
        AlbumArtStyle::Ascii => AlbumArtStyle::Halfblock,
    }
}

/// Toggling twice comes back to the same style.
pub proof fn style_toggle_is_an_involution(s: AlbumArtStyle)
    ensures
        other_style(other_style(s)) == s,
        other_style(s) != s,
{
}

/// A position moved round a ring of `count` places.
pub open spec fn wrapped(index: int, delta: int, count: int) -> int {
    (index + delta) % count
}

/// Moving round the ring and back is no move.
pub proof fn wrapping_back_undoes(index: int, delta: int, count: int)
    requires
        0 <= index < count,
    ensures
        wrapped(wrapped(index, delta, count), -delta, count) == index,
{
    let m = (index + delta) % count;
    let q = (index + delta) / count;
    vstd::arithmetic::div_mod::lemma_fundamental_div_mod(index + delta, count);
    assert(m - delta == count * (-q) + index) by (nonlinear_arith)
        requires
            index + delta == count * q + m,
    ;
    assert((-q) * count == count * (-q)) by (nonlinear_arith);
    vstd::arithmetic::div_mod::lemma_fundamental_div_mod_converse(m - delta, count, -q, index);
}

/// Moves an index round a ring.
pub fn wrap_index(index: usize, delta: isize, count: usize) -> (r: usize)
    requires
        count > 0,
    ensures
        r == wrapped(index as int, delta as int, count as int),
        r < count,
{
    let c: u128 = count as u128;
    let sum: u128 = if delta >= 0 {
        index as u128 + delta as u128
    } else {
        let back: u128 = ((-(delta as i128)) as u128) % c;
        proof {
            let d = -(delta as int);
            vstd::arithmetic::div_mod::lemma_fundamental_div_mod(d, c as int);
            let k = d / (c as int);
            let s = index + c - back;
            assert(index + delta == s + (-(k + 1)) * c) by (nonlinear_arith)
                requires
                    delta == -d,
                    d == c * k + back,
                    s == index + c - back,
            ;
            vstd::arithmetic::div_mod::lemma_mod_multiples_vanish(-(k + 1), s, c as int);
            assert(c * (-(k + 1)) + s == s + (-(k + 1)) * c) by (nonlinear_arith);
        }
        index as u128 + (c - back)
    };
    let r: u128 = sum % c;
    r as usize
}

/// The library row that a track row stands for.
pub open spec fn library_row(library: Option<Library>, t: TrackInfo) -> Option<Track> {
    match library {
        Some(l) => first_where(l.tracks@, |x: Track| is_row(x, t.name@, t.artist@, t.album@)),
        None => None,
    }
}

impl App {
    /// Cycle through the three player-panel preferences: auto, force hide,
    /// force show. Returns a label describing the new state. Asks the host to
    /// write the choice to the configuration.
    pub fn cycle_show_player(&mut self) -> (label: &'static str)
        ensures
            *final(self) == (App { player: final(self).player, out: final(self).out, ..*old(self) }),
            final(self).player == (PlayerState {
                show_player: next_show_player(old(self).player.show_player),
                ..old(self).player
            }),
            final(self).out.asks(&old(self).out, HostRequest::SaveShowPlayer),
            label@ == show_player_label(final(self).player.show_player),
            old(self).valid() ==> final(self).valid(),
    {
        let label = self.cycle_show_player_in_memory();
        self.ask_host(HostRequest::SaveShowPlayer);
        label
    }

    /// In-memory half of `cycle_show_player`: advances the preference and
    /// returns the label.
    pub fn cycle_show_player_in_memory(&mut self) -> (label: &'static str)
        ensures
            *final(self) == (App { player: final(self).player, ..*old(self) }),
            final(self).player == (PlayerState {
                show_player: next_show_player(old(self).player.show_player),
                ..old(self).player
            }),
            label@ == show_player_label(final(self).player.show_player),
            old(self).valid() ==> final(self).valid(),
    {
        match self.player.show_player {
            None => {
                self.player.show_player = Some(false);
                "Player: hidden"
            },
            Some(on) => {
                if on {
                    self.player.show_player = None;
                    "Player: auto"
                } else {
                    self.player.show_player = Some(true);
                    "Player: always on"
                }
            },
        }
    }

    pub open spec fn shows_player(&self, height: u16) -> bool {
        self.player.now_playing is Some && match self.player.show_player {
            Some(on) => on,
            None => height >= 20,
        }
    }

    /// Whether the now-playing panel should render at `height`, given the
    /// user's preference and current playback state.
    pub fn should_show_player(&self, height: u16) -> (r: bool)
        ensures
            r == self.shows_player(height),
    {
        if self.player.now_playing.is_none() {
            return false;
        }
        match self.player.show_player {
            Some(on) => on,
            None => height >= 20,
        }
    }

    /// Rows the now-playing panel occupies when shown: one extra while a stem
    /// strip is rendering inside it.
    pub fn player_panel_height(&self) -> (r: u16)
        ensures
            r == if self.stems.state.status != StemStatus::Off {
                10u16
            } else {
                9u16
            },
    {
        match self.stems.state.status {
            StemStatus::Off => 9,
            _ => 10,
        }
    }

    pub open spec fn shows_strip(&self) -> bool {
        self.shows_player(self.player.last_term_height) && self.player.last_term_height
            >= self.host.player_min_height
    }

    /// Whether the stem strip is actually on screen: the now-playing panel is
    /// enabled and the terminal clears the panel's physical floor.
    pub fn stem_strip_visible(&self) -> (r: bool)
        ensures
            r == self.shows_strip(),
    {
        self.should_show_player(self.player.last_term_height) && self.player.last_term_height
            >= self.host.player_min_height
    }

    /// Toggle between halfblock and ASCII album art renderers, invalidating
    /// caches so the next render rebuilds. Asks the host to write the choice.
    pub fn toggle_album_art_style(&mut self)
        ensures
            *final(self) == (App { art: final(self).art, out: final(self).out, ..*old(self) }),
            final(self).art == flipped(old(self).art),
            final(self).out.asks(&old(self).out, HostRequest::SaveAlbumArtStyle),
            old(self).valid() ==> final(self).valid(),
    {
        self.flip_art_style_in_memory();
        self.ask_host(HostRequest::SaveAlbumArtStyle);
    }

    /// In-memory half of `toggle_album_art_style`: flips the style and
    /// invalidates the cached art for the old style.
    pub fn flip_art_style_in_memory(&mut self)
        ensures
            *final(self) == (App { art: final(self).art, ..*old(self) }),
            final(self).art == flipped(old(self).art),
            old(self).valid() ==> final(self).valid(),
    {
        self.art.album_art_style = match self.art.album_art_style {
            AlbumArtStyle::Halfblock => AlbumArtStyle::Ascii,
            AlbumArtStyle::Ascii => AlbumArtStyle::Halfblock,
        };
        self.art.album_art_cache = None;
        self.art.album_art_size = (0, 0);
    }

    // -- Themes --
    /// The theme, by its place in the list of themes.
    pub fn theme(&self) -> (r: usize)
        ensures
            r == self.themes.current,
    {
        self.themes.current
    }

    pub fn open_theme_picker(&mut self)
        ensures
            *final(self) == (App { themes: final(self).themes, ..*old(self) }),
            final(self).themes == old(self).themes.opened(),
            old(self).valid() ==> final(self).valid(),
    {
        self.themes.before_picker = self.themes.current;
        self.themes.picker_index = self.themes.current;
        self.themes.show_picker = true;
    }

    /// Moves the picker, round and round, and shows the theme under it.
    pub fn theme_picker_move(&mut self, delta: isize)
        requires
            old(self).host.theme_count > 0,
            old(self).themes.picker_index <= isize::MAX,
        ensures
            *final(self) == (App { themes: final(self).themes, ..*old(self) }),
            final(self).themes == old(self).themes.at(
                wrapped(
                    old(self).themes.picker_index as int,
                    delta as int,
                    old(self).host.theme_count as int,
                ),
            ),
            final(self).themes.picker_index < final(self).host.theme_count,
            old(self).valid() ==> final(self).valid(),
    {
        let i = wrap_index(self.themes.picker_index, delta, self.host.theme_count);
        self.themes.picker_index = i;
        self.themes.current = i;
    }

    pub fn theme_picker_confirm(&mut self)
        ensures
            *final(self) == (App { themes: final(self).themes, out: final(self).out, ..*old(self) }),
            final(self).themes == (ThemeState { show_picker: false, ..old(self).themes }),
            final(self).out.asks(&old(self).out, HostRequest::SaveTheme),
            old(self).valid() ==> final(self).valid(),
    {
        self.themes.show_picker = false;
        self.ask_host(HostRequest::SaveTheme);
    }

    pub fn theme_picker_cancel(&mut self)
        ensures
            *final(self) == (App { themes: final(self).themes, ..*old(self) }),
            final(self).themes == old(self).themes.cancelled(),
            old(self).valid() ==> final(self).valid(),
    {
        self.themes.current = self.themes.before_picker;
        self.themes.show_picker = false;
    }

    // -- Track-info popup --
    /// The library row of the selected track.
    pub open spec fn selected_library_row(&self) -> Option<Track> {
        if self.lists.track_selected < self.lists.track_list@.len() {
            library_row(self.library, self.lists.track_list@[self.lists.track_selected as int])
        } else {
            None
        }
    }

    fn resolve_selected_row(&self) -> (r: Option<Track>)
        ensures
            r == self.selected_library_row(),
    {
        if self.lists.track_selected >= self.lists.track_list.len() {
            return None;
        }
        let t = &self.lists.track_list[self.lists.track_selected];
        match &self.library {
            Some(lib) => lib.find_row(t.name.as_str(), t.artist.as_str(), t.album.as_str()),
            None => None,
        }
    }

    /// Open the metadata-inspector popup for the currently selected track.
    /// Nothing changes when there is no row to describe.
    pub fn open_track_info(&mut self)
        ensures
            *final(self) == (App { popup: final(self).popup, ..*old(self) }),
            final(self).popup == if old(self).lists.track_selected < old(self).lists.track_list@.len() {
                PopupState {
                    track_info_lib: old(self).selected_library_row(),
                    track_info_scroll: 0,
                    show_track_info: true,
                    ..old(self).popup
                }
            } else {
                old(self).popup
            },
            old(self).valid() ==> final(self).valid(),
    {
        if self.lists.track_selected >= self.lists.track_list.len() {
            return;
        }
        self.popup.track_info_lib = self.resolve_selected_row();
        self.popup.track_info_scroll = 0;
        self.popup.show_track_info = true;
    }

    pub fn close_track_info(&mut self)
        ensures
            *final(self) == (App { popup: final(self).popup, ..*old(self) }),
            final(self).popup == old(self).popup.without_info(),
            old(self).valid() ==> final(self).valid(),
    {
        self.popup.show_track_info = false;
        self.popup.track_info_scroll = 0;
        self.popup.track_info_lib = None;
    }

    /// Re-resolve the popup's library track against the current library. When
    /// the popup is closed, the track is dropped.
    pub fn refresh_track_info_lib(&mut self)
        ensures
            *final(self) == (App { popup: final(self).popup, ..*old(self) }),
            final(self).popup == (PopupState {
                track_info_lib: if old(self).popup.show_track_info {
                    old(self).selected_library_row()
                } else {
                    None
                },
                ..old(self).popup
            }),
            old(self).valid() ==> final(self).valid(),
    {
        if !self.popup.show_track_info {
            self.popup.track_info_lib = None;
            return;
        }
        self.popup.track_info_lib = self.resolve_selected_row();
    }

    /// Move the popup scroll cursor by `delta` rows. Negative values clamp at
    /// zero; positive values are clamped against the content height in the
    /// renderer.
    pub fn track_info_move(&mut self, delta: isize)
        ensures
            *final(self) == (App { popup: final(self).popup, ..*old(self) }),
            final(self).popup == old(self).popup.scrolled_to(
                scrolled(old(self).popup.track_info_scroll as int, delta as int),
            ),
            old(self).valid() ==> final(self).valid(),
    {
        self.popup.track_info_scroll = if delta < 0 {
            let back: u128 = (-(delta as i128)) as u128;
            if back > self.popup.track_info_scroll as u128 {
                0
            } else {
                (self.popup.track_info_scroll as u128 - back) as usize
            }
        } else {
            self.popup.track_info_scroll.saturating_add(delta as usize)
        };
    }

    /// Page-sized jump.
    pub fn track_info_page(&mut self, delta: isize)
        requires
            isize::MIN <= delta * 10 <= isize::MAX,
        ensures
            *final(self) == (App { popup: final(self).popup, ..*old(self) }),
            final(self).popup == old(self).popup.scrolled_to(
                scrolled(old(self).popup.track_info_scroll as int, delta * 10),
            ),
            old(self).valid() ==> final(self).valid(),
    {
        self.track_info_move(delta * 10);
    }

    pub fn track_info_home(&mut self)
        ensures
            *final(self) == (App { popup: final(self).popup, ..*old(self) }),
            final(self).popup == old(self).popup.scrolled_to(0),
            old(self).valid() ==> final(self).valid(),
    {
        self.popup.track_info_scroll = 0;
    }

    pub fn track_info_end(&mut self)
        ensures
            *final(self) == (App { popup: final(self).popup, ..*old(self) }),
            final(self).popup == old(self).popup.scrolled_to(usize::MAX as int),
            old(self).valid() ==> final(self).valid(),
    {
        self.popup.track_info_scroll = usize::MAX;
    }
}

impl PopupState {
    /// The track-info popup closed.
    pub open spec fn without_info(self) -> PopupState {
        PopupState { show_track_info: false, track_info_scroll: 0, track_info_lib: None, ..self }
    }

    /// The track-info popup scrolled to a row.
    pub open spec fn scrolled_to(self, row: int) -> PopupState {
        PopupState { track_info_scroll: row as usize, ..self }
    }
}

impl ThemeState {
    pub open spec fn opened(self) -> ThemeState {
        ThemeState {
            before_picker: self.current,
            picker_index: self.current,
            show_picker: true,
            ..self
        }
    }

    pub open spec fn at(self, i: int) -> ThemeState {
        ThemeState { picker_index: i as usize, current: i as usize, ..self }
    }

    pub open spec fn cancelled(self) -> ThemeState {
        ThemeState { current: self.before_picker, show_picker: false, ..self }
    }
}

/// Cancelling the picker restores the theme that it was opened on, however it
/// was moved.
pub proof fn cancelling_restores_theme(t: ThemeState, moves: Seq<int>)
    ensures
        moves.fold_left(t.opened(), |s: ThemeState, i: int| s.at(i)).cancelled().current == t.current,
    decreases moves.len(),
{
    let step = |s: ThemeState, i: int| s.at(i);
    moved_keeps_origin(t.opened(), moves);
}

proof fn moved_keeps_origin(t: ThemeState, moves: Seq<int>)
    ensures
        moves.fold_left(t, |s: ThemeState, i: int| s.at(i)).before_picker == t.before_picker,
    decreases moves.len(),
{
    if moves.len() > 0 {
        moved_keeps_origin(t, moves.drop_last());
    }
}

/// The other style, with nothing rendered.
pub open spec fn flipped(art: ArtState) -> ArtState {
    ArtState {
        album_art_style: other_style(art.album_art_style),
        album_art_cache: None,
        album_art_size: (0u16, 0u16),
        ..art
    }
}

/// A scroll position moved by `delta`, held within what can be counted.
pub open spec fn scrolled(at: int, delta: int) -> int {
    if at + delta < 0 {
        0
    } else if at + delta > usize::MAX {
        usize::MAX as int
    } else {
        at + delta
    }
}

} // verus!
