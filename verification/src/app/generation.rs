//! The generation form: opening it, editing it, and what becomes of the pick.
use vstd::prelude::*;
use crate::app::playlist_ops::{quote, quoted};
use crate::app::{App, PlaylistUi};
use crate::commands::HostRequest;
use crate::format::{concat5, decimal, decimal_of};
use crate::input::{type_key, typed, KeyCode};
use crate::model::Track;
use crate::ordmap::OrdSet;
use crate::playlists::{
    missing_context, penalty_bag, penalty_ids, playlist_index, strategy_is_backed,
    GenerationFormState, GenerationOutcome, GenerationRequest, Playlist,
    PlaylistKind, FIELD_DIVERSITY, FIELD_EXCLUDE_DEVICE, FIELD_MAX_PER_ALBUM, FIELD_MAX_PER_ARTIST,
    FIELD_NAME, FIELD_NOVELTY, FIELD_SEED_COUNT, FIELD_SEED_STRATEGY, FIELD_TARGET_LEN,
    FIELD_WINDOW_DAYS,
};
use crate::text::{is_blank, match_key, normalize_for_match, trim, trimmed};
use crate::tracks::TrackInfo;
use crate::types::{BrowseMode, DeviceStatus, Panel, SidebarEntry};

verus! {

/// One more, held at `top`.
pub open spec fn raised(n: u32, top: u32) -> u32 {
    if n < top {
        (n + 1) as u32
    } else {
        top
    }
}

/// One less, held at 1.
pub open spec fn lowered(n: u32) -> u32 {
    if n > 1 {
        (n - 1) as u32
    } else {
        1
    }
}

/// Five percent more, a hundred at most.
pub open spec fn share_raised(n: u32) -> u32 {
    if n <= 95 {
        (n + 5) as u32
    } else {
        100
    }
}

/// Five percent less, zero at least.
pub open spec fn share_lowered(n: u32) -> u32 {
    if n >= 5 {
        (n - 5) as u32
    } else {
        0
    }
}

/// A number field after a key: right or `>` raises it, left or `<` lowers it.
pub open spec fn stepped(n: u32, code: KeyCode, up: u32, down: u32) -> u32 {
    if code == KeyCode::Right || code == KeyCode::Char('>') {
        up
    } else if code == KeyCode::Left || code == KeyCode::Char('<') {
        down
    } else {
        n
    }
}

fn step(n: u32, code: KeyCode, up: u32, down: u32) -> (r: u32)
    ensures
        r == stepped(n, code, up, down),
{
    if code == KeyCode::Right || code == KeyCode::Char('>') {
        up
    } else if code == KeyCode::Left || code == KeyCode::Char('<') {
        down
    } else {
        n
    }
}

fn raise(n: u32, top: u32) -> (r: u32)
    ensures
        r == raised(n, top),
{
    if n < top {
        n + 1
    } else {
        top
    }
}

fn lower(n: u32) -> (r: u32)
    ensures
        r == lowered(n),
{
    if n > 1 {
        n - 1
    } else {
        1
    }
}

fn raise_share(n: u32) -> (r: u32)
    ensures
        r == share_raised(n),
{
    if n <= 95 {
        n + 5
    } else {
        100
    }
}

fn lower_share(n: u32) -> (r: u32)
    ensures
        r == share_lowered(n),
{
    if n >= 5 {
        n - 5
    } else {
        0
    }
}

/// The chosen seed strategy after a key.
pub open spec fn strategy_after(i: usize, code: KeyCode) -> usize {
    if code == KeyCode::Up || code == KeyCode::Char('k') {
        if i == 0 {
            4
        } else {
            (i - 1) as usize
        }
    } else if code == KeyCode::Down || code == KeyCode::Char('j') || code == KeyCode::Char(' ') {
        ((i + 1) % 5) as usize
    } else {
        i
    }
}

/// The form after a key on the field that has the focus.
pub open spec fn form_edited(f: GenerationFormState, code: KeyCode, g: GenerationFormState) -> bool {
    if f.selected_field == FIELD_NAME {
        g == (GenerationFormState { name: g.name, ..f }) && g.name@ == typed(f.name@, code)
    } else {
        g == if f.selected_field == FIELD_SEED_STRATEGY {
            GenerationFormState { seed_strategy_idx: strategy_after(f.seed_strategy_idx, code), ..f }
        } else if f.selected_field == FIELD_WINDOW_DAYS {
            GenerationFormState {
                window_days: stepped(
                    f.window_days,
                    code,
                    raised(f.window_days, u32::MAX),
                    if f.window_days > 0 {
                        (f.window_days - 1) as u32
                    } else {
                        0
                    },
                ),
                ..f
            }
        } else if f.selected_field == FIELD_SEED_COUNT {
            GenerationFormState {
                seed_count: stepped(f.seed_count, code, raised(f.seed_count, 100), lowered(f.seed_count)),
                ..f
            }
        } else if f.selected_field == FIELD_TARGET_LEN {
            GenerationFormState {
                target_length: stepped(
                    f.target_length,
                    code,
                    raised(f.target_length, 500),
                    lowered(f.target_length),
                ),
                ..f
            }
        } else if f.selected_field == FIELD_MAX_PER_ARTIST {
            GenerationFormState {
                max_per_artist: stepped(
                    f.max_per_artist,
                    code,
                    raised(f.max_per_artist, 20),
                    lowered(f.max_per_artist),
                ),
                ..f
            }
        } else if f.selected_field == FIELD_MAX_PER_ALBUM {
            GenerationFormState {
                max_per_album: stepped(
                    f.max_per_album,
                    code,
                    raised(f.max_per_album, 20),
                    lowered(f.max_per_album),
                ),
                ..f
            }
        } else if f.selected_field == FIELD_DIVERSITY {
            GenerationFormState {
                diversity_pct: stepped(
                    f.diversity_pct,
                    code,
                    share_raised(f.diversity_pct),
                    share_lowered(f.diversity_pct),
                ),
                ..f
            }
        } else if f.selected_field == FIELD_NOVELTY {
            GenerationFormState {
                novelty_pct: stepped(
                    f.novelty_pct,
                    code,
                    share_raised(f.novelty_pct),
                    share_lowered(f.novelty_pct),
                ),
                ..f
            }
        } else if f.selected_field == FIELD_EXCLUDE_DEVICE && (code == KeyCode::Char(' ') || code
            == KeyCode::Enter) {
            GenerationFormState { exclude_on_device: !f.exclude_on_device, ..f }
        } else {
            f
        }
    }
}

/// The number fields are within the limits that the keys hold them to.
pub open spec fn form_in_limits(f: GenerationFormState) -> bool {
    &&& f.seed_strategy_idx < 5
    &&& 1 <= f.seed_count <= 100
    &&& 1 <= f.target_length <= 500
    &&& 1 <= f.max_per_artist <= 20
    &&& 1 <= f.max_per_album <= 20
    &&& f.diversity_pct <= 100
    &&& f.novelty_pct <= 100
}

/// No key takes a field out of its limits.
pub proof fn editing_keeps_limits(f: GenerationFormState, code: KeyCode, g: GenerationFormState)
    requires
        form_in_limits(f),
        form_edited(f, code, g),
    ensures
        form_in_limits(g),
{
}

fn edit_form(f: &mut GenerationFormState, code: KeyCode)
    requires
        old(f).seed_strategy_idx < usize::MAX,
    ensures
        form_edited(*old(f), code, *final(f)),
{
    if f.selected_field == FIELD_NAME {
        type_key(&mut f.name, code);
    } else if f.selected_field == FIELD_SEED_STRATEGY {
        let i: usize = f.seed_strategy_idx;
        if code == KeyCode::Up || code == KeyCode::Char('k') {
            f.seed_strategy_idx = if i == 0 {
                4
            } else {
                i - 1
            };
        } else if code == KeyCode::Down || code == KeyCode::Char('j') || code == KeyCode::Char(' ') {
            f.seed_strategy_idx = (i + 1) % 5;
        }
    } else if f.selected_field == FIELD_WINDOW_DAYS {
        let n: u32 = f.window_days;
        f.window_days = step(n, code, n.saturating_add(1), n.saturating_sub(1));
    } else if f.selected_field == FIELD_SEED_COUNT {
        let n: u32 = f.seed_count;
        f.seed_count = step(n, code, raise(n, 100), lower(n));
    } else if f.selected_field == FIELD_TARGET_LEN {
        let n: u32 = f.target_length;
        f.target_length = step(n, code, raise(n, 500), lower(n));
    } else if f.selected_field == FIELD_MAX_PER_ARTIST {
        let n: u32 = f.max_per_artist;
        f.max_per_artist = step(n, code, raise(n, 20), lower(n));
    } else if f.selected_field == FIELD_MAX_PER_ALBUM {
        let n: u32 = f.max_per_album;
        f.max_per_album = step(n, code, raise(n, 20), lower(n));
    } else if f.selected_field == FIELD_DIVERSITY {
        let n: u32 = f.diversity_pct;
        f.diversity_pct = step(n, code, raise_share(n), lower_share(n));
    } else if f.selected_field == FIELD_NOVELTY {
        let n: u32 = f.novelty_pct;
        f.novelty_pct = step(n, code, raise_share(n), lower_share(n));
    } else if f.selected_field == FIELD_EXCLUDE_DEVICE {
        if code == KeyCode::Char(' ') || code == KeyCode::Enter {
            f.exclude_on_device = !f.exclude_on_device;
        }
    }
}

/// The library tracks that the device has under their own keys.
pub open spec fn ids_on_device(
    tracks: Seq<Track>,
    set: Set<(Seq<char>, Seq<char>)>,
) -> Seq<u64>
    decreases tracks.len(),
{
    if tracks.len() == 0 {
        Seq::empty()
    } else {
        let rest = ids_on_device(tracks.drop_last(), set);
        let t = tracks.last();
        if set.contains((match_key(t.artist@), match_key(t.name@))) {
            rest.push(t.id)
        } else {
            rest
        }
    }
}

/// What a generated playlist is announced with.
pub open spec fn generation_text(
    verb: Seq<char>,
    name: Seq<char>,
    tracks: nat,
    seeds: nat,
    eligible: nat,
) -> Seq<char> {
    quoted(verb, name) + " \u{2014} "@ + decimal(tracks) + " tracks (seeds: "@ + decimal(seeds)
        + ", eligible: "@ + decimal(eligible) + ")"@
}

fn generation_message(verb: &str, name: &str, tracks: usize, seeds: u64, eligible: u64) -> (r: String)
    ensures
        r@ == generation_text(verb@, name@, tracks as nat, seeds as nat, eligible as nat),
{
    let mut s = quote(verb, name);
    s.append(" \u{2014} ");
    let a = decimal_of(tracks as u64);
    s.append(a.as_str());
    s.append(" tracks (seeds: ");
    let b = decimal_of(seeds);
    s.append(b.as_str());
    s.append(", eligible: ");
    let c = decimal_of(eligible);
    s.append(c.as_str());
    s.append(")");
    s
}

/// What is said of a pick that found nothing.
pub open spec fn no_match_text(eligible: nat, candidates: nat) -> Seq<char> {
    "No tracks matched (eligible: "@ + decimal(eligible) + ", candidates: "@ + decimal(candidates)
        + ")"@
}

fn collect_ids_on_device(tracks: &Vec<Track>, set: &OrdSet<(String, String)>) -> (r: Vec<u64>)
    ensures
        r@ == ids_on_device(tracks@, set@),
{
    let mut r: Vec<u64> = Vec::new();
    let mut i: usize = 0;
    while i < tracks.len()
        invariant
            i <= tracks.len(),
            r@ == ids_on_device(tracks@.take(i as int), set@),
        decreases tracks.len() - i,
    {
        let t = &tracks[i];
        proof {
            assert(tracks@.take(i + 1).drop_last() =~= tracks@.take(i as int));
        }
        let key = (normalize_for_match(t.artist.as_str()), normalize_for_match(t.name.as_str()));
        if set.contains(&key) {
            r.push(t.id);
        }
        i = i + 1;
    }
    proof {
        assert(tracks@.take(tracks@.len() as int) =~= tracks@);
    }
    r
}

/// What is known of the row that a form is opened on: track, artist, genre, the
/// strategy that is chosen at first, and the label.
pub struct FormContext {
    pub track_id: Option<u64>,
    pub artist: Option<Seq<char>>,
    pub genre: Option<Seq<char>>,
    pub strategy: int,
    pub label: Seq<char>,
}

/// The context of a track row: everything it has.
pub open spec fn track_context(t: TrackInfo) -> FormContext {
    FormContext {
        track_id: t.library_id,
        artist: if t.artist@.len() == 0 {
            None
        } else {
            Some(t.artist@)
        },
        genre: match t.genre {
            Some(g) => if is_blank(g@) {
                None
            } else {
                Some(g@)
            },
            None => None,
        },
        strategy: if t.library_id is Some {
            2
        } else if t.artist@.len() > 0 {
            3
        } else {
            0
        },
        label: if t.library_id is Some {
            t.name@
        } else {
            t.artist@
        },
    }
}

/// The context of an artist.
pub open spec fn artist_context(artist: Seq<char>) -> FormContext {
    FormContext { track_id: None, artist: Some(artist), genre: None, strategy: 3, label: artist }
}

impl App {
    /// What the focused row offers to a form.
    pub open spec fn form_context(&self) -> Option<FormContext> {
        if self.nav.browse_mode != BrowseMode::Library {
            None
        } else {
            match self.nav.active_panel {
                Panel::TrackList => if self.lists.track_selected < self.lists.track_list@.len() {
                    Some(track_context(self.lists.track_list@[self.lists.track_selected as int]))
                } else {
                    None
                },
                Panel::Albums => if self.lists.album_selected < self.lists.album_list@.len() {
                    Some(
                        artist_context(
                            self.lists.album_list@[self.lists.album_selected as int].artist@,
                        ),
                    )
                } else {
                    None
                },
                Panel::Library => if self.nav.sidebar_selected < self.nav.sidebar_items@.len() {
                    match self.nav.sidebar_items@[self.nav.sidebar_selected as int] {
                        SidebarEntry::Artist(a) => Some(artist_context(a@)),
                        SidebarEntry::Album { artist, .. } => Some(artist_context(artist@)),
                        SidebarEntry::Playlist { .. } => None,
                    }
                } else {
                    None
                },
                _ => None,
            }
        }
    }

    /// Only the form changed.
    pub open spec fn only_form(&self, before: &App) -> bool {
        *self == (App {
            playlists: PlaylistUi { form: self.playlists.form, ..before.playlists },
            ..*before
        })
    }

    /// The form as it opens: on the focused row's context, or with the weekly
    /// defaults.
    pub open spec fn form_opened(&self, before: &App) -> bool {
        &&& self.only_form(before)
        &&& self.playlists.form matches Some(f) && match before.form_context() {
            Some(c) => f.opened_on(c.track_id, c.artist, c.genre, c.strategy, c.label),
            None => f.is_weekly(),
        }
    }

    fn form_on_track(&self, t: &TrackInfo) -> (f: GenerationFormState)
        ensures
            ({
                let c = track_context(*t);
                f.opened_on(c.track_id, c.artist, c.genre, c.strategy, c.label)
            }),
    {
        let artist: Option<String> = if t.artist.as_str().is_empty() {
            None
        } else {
            Some(t.artist.clone())
        };
        let genre: Option<String> = match &t.genre {
            Some(g) => {
                let s = trim(g.as_str());
                if s.as_str().is_empty() {
                    None
                } else {
                    Some(g.clone())
                }
            },
            None => None,
        };
        let known = t.library_id.is_some();
        let label: &str = if known {
            t.name.as_str()
        } else {
            t.artist.as_str()
        };
        let default_idx: usize = if known {
            2
        } else if artist.is_some() {
            3
        } else {
            0
        };
        GenerationFormState::for_library_context(
            self.host.unix_ms,
            t.library_id,
            artist,
            genre,
            default_idx,
            label,
        )
    }

    fn form_on_artist(&self, artist: &String) -> (f: GenerationFormState)
        ensures
            ({
                let c = artist_context(artist@);
                f.opened_on(c.track_id, c.artist, c.genre, c.strategy, c.label)
            }),
    {
        GenerationFormState::for_library_context(
            self.host.unix_ms,
            None,
            Some(artist.clone()),
            None,
            3,
            artist.as_str(),
        )
    }

    /// Open the generation form. The source panel decides what context is
    /// stashed and which seed strategy is pre-selected.
    pub fn open_generation_form(&mut self)
        ensures
            final(self).form_opened(old(self)),
            old(self).valid() ==> final(self).valid(),
    {
        if self.nav.browse_mode == BrowseMode::Library {
            match self.nav.active_panel {
                Panel::TrackList => {
                    if self.lists.track_selected < self.lists.track_list.len() {
                        let f = self.form_on_track(&self.lists.track_list[self.lists.track_selected]);
                        self.playlists.form = Some(f);
                        return;
                    }
                },
                Panel::Albums => {
                    if self.lists.album_selected < self.lists.album_list.len() {
                        let f = self.form_on_artist(
                            &self.lists.album_list[self.lists.album_selected].artist,
                        );
                        self.playlists.form = Some(f);
                        return;
                    }
                },
                Panel::Library => {
                    if self.nav.sidebar_selected < self.nav.sidebar_items.len() {
                        let f: Option<GenerationFormState> =
                            match &self.nav.sidebar_items[self.nav.sidebar_selected] {
                            SidebarEntry::Artist(a) => Some(self.form_on_artist(a)),
                            SidebarEntry::Album { artist, .. } => Some(self.form_on_artist(artist)),
                            SidebarEntry::Playlist { .. } => None,
                        };
                        if f.is_some() {
                            self.playlists.form = f;
                            return;
                        }
                    }
                },
                _ => {},
            }
        }
        self.playlists.form = Some(
            GenerationFormState::discover_weekly_default(self.host.unix_ms),
        );
    }

    /// What asking to regenerate the selected playlist does.
    pub open spec fn regenerate_opened(&self, before: &App) -> bool {
        if before.nav.browse_mode != BrowseMode::Playlists {
            *self == *before
        } else {
            match before.selected_playlist() {
                None => *self == *before,
                Some(id) => match playlist_index(before.playlists.store.playlists@, id) {
                    None => *self == *before,
                    Some(i) => {
                        let p = before.playlists.store.playlists@[i as int];
                        match p.kind {
                            PlaylistKind::Manual => {
                                &&& *self == (App { toast_message: self.toast_message, ..*before })
                                &&& self.says("Only generated playlists can be regenerated"@, true)
                            },
                            PlaylistKind::Generated { params, .. } => {
                                &&& self.only_form(before)
                                &&& self.playlists.form matches Some(f) && f.regenerates(p, params)
                            },
                        }
                    },
                },
            }
        }
    }

    /// Open the generation form pre-filled to regenerate the selected generated
    /// playlist.
    pub fn open_generation_form_for_regenerate(&mut self)
        ensures
            final(self).regenerate_opened(old(self)),
            old(self).valid() ==> final(self).valid(),
    {
        if self.nav.browse_mode != BrowseMode::Playlists {
            return;
        }
        let id: u64 = match self.selected_playlist_id() {
            Some(id) => id,
            None => {
                return;
            },
        };
        let form: Option<GenerationFormState> = match self.playlists.store.get(id) {
            Some(p) => GenerationFormState::for_regenerate(p),
            None => {
                return;
            },
        };
        match form {
            Some(f) => {
                self.playlists.form = Some(f);
            },
            None => {
                self.set_toast("Only generated playlists can be regenerated".to_owned(), true);
            },
        }
    }

    /// Route a key to the editor of the form field that has the focus.
    pub fn generation_form_dispatch_field_key(&mut self, code: KeyCode)
        requires
            old(self).playlists.form matches Some(f) ==> f.seed_strategy_idx < usize::MAX,
        ensures
            final(self).only_form(old(self)),
            match old(self).playlists.form {
                Some(f) => final(self).playlists.form matches Some(g) && form_edited(f, code, g),
                None => final(self).playlists.form is None,
            },
            old(self).valid() ==> final(self).valid(),
    {
        if let Some(f) = &mut self.playlists.form {
            edit_form(f, code);
        }
    }

    /// The form closed.
    pub open spec fn form_closed(before: App) -> App {
        App { playlists: PlaylistUi { form: None, ..before.playlists }, ..before }
    }

    /// The ids that the form's parameters leave out: what is on the connected
    /// device, where that was asked for.
    pub open spec fn left_out(&self, f: GenerationFormState) -> Seq<u64> {
        if f.exclude_on_device && self.device.status == DeviceStatus::Connected {
            ids_on_device(self.library->0.tracks@, self.device.track_set@)
        } else {
            Seq::empty()
        }
    }

    /// The request that the form stands for.
    pub open spec fn is_request(&self, f: GenerationFormState, r: GenerationRequest) -> bool {
        &&& r.name@ == trimmed(f.name@)
        &&& r.params.exclude_track_ids@ == self.left_out(f)
        &&& crate::playlists::is_strategy_of(f, r.params.seed_strategy)
        &&& r.params.target_length == f.target_length
        &&& r.params.max_per_artist == f.max_per_artist
        &&& r.params.max_per_album == f.max_per_album
        &&& r.params.diversity_pct == f.diversity_pct
        &&& r.params.novelty_pct == f.novelty_pct
        &&& r.params.exclude_on_device == f.exclude_on_device
        &&& r.regenerating == f.regenerating
        &&& r.previously@ == match f.regenerating {
            Some(id) => match playlist_index(self.playlists.store.playlists@, id) {
                Some(i) => penalty_bag(self.playlists.store.playlists@[i as int]),
                None => Seq::empty(),
            },
            None => Seq::empty(),
        }
    }

    /// What submitting the form does: a form that lacks something stays open
    /// with a message; else the recommender is asked.
    pub open spec fn form_submitted(&self, before: &App) -> bool {
        match before.playlists.form {
            None => *self == *before,
            Some(f) => if !strategy_is_backed(f) {
                &&& *self == (App { toast_message: self.toast_message, ..*before })
                &&& self.says(missing_context(f), true)
            } else if is_blank(f.name@) {
                &&& *self == (App { toast_message: self.toast_message, ..*before })
                &&& self.says("Playlist name cannot be empty"@, true)
            } else if before.library is None {
                &&& *self == (App {
                    toast_message: self.toast_message,
                    ..App::form_closed(*before)
                })
                &&& self.says("Library not loaded yet"@, true)
            } else {
                exists|r: GenerationRequest|
                    *self == (App { out: self.out, ..App::form_closed(*before) })
                        && #[trigger] before.is_request(f, r) && self.out.asks(
                        &before.out,
                        HostRequest::GeneratePlaylist(r),
                    )
            },
        }
    }

    /// Submit the generation form: check it, and ask the host to run the
    /// recommender on its parameters.
    pub fn commit_generation_form(&mut self)
        ensures
            final(self).form_submitted(old(self)),
            old(self).valid() ==> final(self).valid(),
    {
        let taken = self.playlists.form.take();
        let form = match taken {
            Some(f) => f,
            None => {
                return;
            },
        };
        if let Err(msg) = form.validate_strategy_context() {
            self.set_toast(msg.to_owned(), true);
            self.playlists.form = Some(form);
            return;
        }
        let mut params = form.to_params();
        let name = trim(form.name.as_str());
        if name.as_str().is_empty() {
            self.set_toast("Playlist name cannot be empty".to_owned(), true);
            self.playlists.form = Some(form);
            return;
        }
        if self.library.is_none() {
            self.set_toast("Library not loaded yet".to_owned(), true);
            return;
        }
        if let Some(lib) = &self.library {
            if params.exclude_on_device && self.device.status == DeviceStatus::Connected {
                params.exclude_track_ids = collect_ids_on_device(&lib.tracks, &self.device.track_set);
            }
        }
        let previously: Vec<u64> = match form.regenerating {
            Some(id) => match self.playlists.store.get(id) {
                Some(p) => penalty_ids(p),
                None => Vec::new(),
            },
            None => Vec::new(),
        };
        let request = GenerationRequest {
            name,
            params,
            previously,
            regenerating: form.regenerating,
        };
        proof {
            assert(old(self).is_request(form, request));
        }
        self.ask_host(HostRequest::GeneratePlaylist(request));
    }

    /// A playlist was given another pick, and the sidebar made anew.
    pub open spec fn playlist_regenerated(
        &self,
        before: &App,
        id: u64,
        r: GenerationRequest,
        picked: GenerationOutcome,
    ) -> bool {
        exists|mid: App, shown: App|
            {
                let was = before.playlists.store.playlists@;
                let now = mid.playlists.store.playlists@;
                &&& mid.playlists.store.next_id == before.playlists.store.next_id
                &&& match playlist_index(was, id) {
                    Some(i) => {
                        &&& now == was.update(
                            i as int,
                            Playlist {
                                name: r.name,
                                kind: PlaylistKind::Generated {
                                    params: r.params,
                                    last_generated_ms: before.host.unix_ms,
                                },
                                track_ids: picked.track_ids,
                                previously_recommended: now[i as int].previously_recommended,
                                updated_at_ms: before.host.unix_ms,
                                ..was[i as int]
                            },
                        )
                        &&& now[i as int].previously_recommended@ == penalty_bag(was[i as int])
                    },
                    None => now == was,
                }
                &&& #[trigger] mid.store_put(before, mid.playlists.store)
                &&& #[trigger] shown.resided(&mid)
                &&& *self == (App { toast_message: self.toast_message, ..shown })
                &&& self.says(
                    generation_text(
                        "Regenerated"@,
                        r.name@,
                        picked.track_ids@.len(),
                        picked.seed_count as nat,
                        picked.eligible_count as nat,
                    ),
                    false,
                )
            }
    }

    /// What becomes of a pick: nothing is kept of an empty one, unless a
    /// playlist is generated anew.
    pub open spec fn pick_applied(
        &self,
        before: &App,
        r: GenerationRequest,
        picked: GenerationOutcome,
    ) -> bool {
        match r.regenerating {
            Some(id) => self.playlist_regenerated(before, id, r, picked),
            None => if picked.track_ids@.len() == 0 {
                &&& *self == (App { toast_message: self.toast_message, ..*before })
                &&& self.says(
                    no_match_text(picked.eligible_count as nat, picked.candidate_count as nat),
                    true,
                )
            } else {
                exists|p: Playlist|
                    p.name == r.name && p.kind == (PlaylistKind::Generated {
                        params: r.params,
                        last_generated_ms: before.host.unix_ms,
                    }) && p.track_ids == picked.track_ids && p.previously_recommended@.len() == 0
                        && p.updated_at_ms == before.host.unix_ms && #[trigger] self.playlist_added(
                        before,
                        p,
                        generation_text(
                            "Generated"@,
                            r.name@,
                            picked.track_ids@.len(),
                            picked.seed_count as nat,
                            picked.eligible_count as nat,
                        ),
                    )
            },
        }
    }

    /// Takes what the recommender picked for a request: a new playlist, or
    /// another pick for the one that is generated anew.
    pub fn apply_generation(&mut self, request: GenerationRequest, outcome: GenerationOutcome)
        requires
            old(self).playlists.store.next_id < u64::MAX,
        ensures
            final(self).pick_applied(old(self), request, outcome),
            old(self).valid() ==> final(self).valid(),
    {
        let tracks = outcome.track_ids.len();
        let now: u64 = self.host.unix_ms;
        match request.regenerating {
            Some(id) => {
                let msg = generation_message(
                    "Regenerated",
                    request.name.as_str(),
                    tracks,
                    outcome.seed_count,
                    outcome.eligible_count,
                );
                self.playlists.store.regenerate(
                    id,
                    request.name,
                    request.params,
                    outcome.track_ids,
                    now,
                );
                self.persist_playlists();
                let ghost mid = *self;
                self.refresh_sidebar();
                let ghost shown = *self;
                self.set_toast(msg, false);
                proof {
                    assert(mid.store_put(old(self), mid.playlists.store));
                    assert(shown.resided(&mid));
                }
            },
            None => {
                if tracks == 0 {
                    let a = decimal_of(outcome.eligible_count);
                    let b = decimal_of(outcome.candidate_count);
                    let msg = concat5(
                        "No tracks matched (eligible: ",
                        a.as_str(),
                        ", candidates: ",
                        b.as_str(),
                        ")",
                    );
                    self.set_toast(msg, true);
                    return;
                }
                let msg = generation_message(
                    "Generated",
                    request.name.as_str(),
                    tracks,
                    outcome.seed_count,
                    outcome.eligible_count,
                );
                let p = Playlist::new_generated(
                    request.name,
                    request.params,
                    outcome.track_ids,
                    now,
                );
                self.add_playlist(p, msg);
                proof {
                    assert(self.playlist_added(old(self), p, msg@));
                }
            },
        }
    }
}

} // verus!
