//! Keys while a modal is open. An open modal claims every key.
use vstd::prelude::*;
use crate::app::player::{scrolled, wrapped};
use crate::app::generation::form_edited;
use crate::app::{
    App, NavState, PlaylistUi, PopupState, RemovalState, StemUi, ThemeState,
};
use crate::commands::{one_more, BgCommand, HostRequest};
use crate::format::{concat3, decimal, decimal_of};
use crate::input::{type_key, typed, KeyCode, KeyEvent};
use crate::playlists::{AddToPlaylistPicker, GenerationFormState, FIELD_COUNT};
use crate::stem_model::{StemConsent, StemPanel, StemState, RECIPE_COUNT};
use crate::types::{Panel, StemStatus};

verus! {

/// The key confirms a question.
pub open spec fn is_yes(code: KeyCode) -> bool {
    code == KeyCode::Enter || code == KeyCode::Char('y') || code == KeyCode::Char('Y')
}

/// The key declines a question.
pub open spec fn is_no(code: KeyCode) -> bool {
    code == KeyCode::Esc || code == KeyCode::Char('n') || code == KeyCode::Char('N')
}

/// The key moves up.
pub open spec fn is_up(code: KeyCode) -> bool {
    code == KeyCode::Up || code == KeyCode::Char('k')
}

/// The key moves down.
pub open spec fn is_down(code: KeyCode) -> bool {
    code == KeyCode::Down || code == KeyCode::Char('j')
}

pub(crate) fn says_yes(code: KeyCode) -> (r: bool)
    ensures
        r == is_yes(code),
{
    code == KeyCode::Enter || code == KeyCode::Char('y') || code == KeyCode::Char('Y')
}

pub(crate) fn says_no(code: KeyCode) -> (r: bool)
    ensures
        r == is_no(code),
{
    code == KeyCode::Esc || code == KeyCode::Char('n') || code == KeyCode::Char('N')
}

pub(crate) fn goes_up(code: KeyCode) -> (r: bool)
    ensures
        r == is_up(code),
{
    code == KeyCode::Up || code == KeyCode::Char('k')
}

pub(crate) fn goes_down(code: KeyCode) -> (r: bool)
    ensures
        r == is_down(code),
{
    code == KeyCode::Down || code == KeyCode::Char('j')
}

// ---------------------------------------------------------------------------
// Playlist modals
// ---------------------------------------------------------------------------
impl App {
    /// What a key does to the playlist-name input.
    pub open spec fn name_pressed(&self, before: &App, code: KeyCode) -> bool {
        match code {
            KeyCode::Esc => *self == (App {
                playlists: PlaylistUi { name_input: None, rename_target: None, ..before.playlists },
                ..*before
            }),
            KeyCode::Enter => self.name_committed(before),
            _ => {
                &&& *self == (App {
                    playlists: PlaylistUi {
                        name_input: self.playlists.name_input,
                        ..before.playlists
                    },
                    ..*before
                })
                &&& self.playlists.name_input matches Some(text) && text@ == typed(
                    before.playlists.name_input->0@,
                    code,
                )
            },
        }
    }

    /// Playlist name input modal: creates a playlist, or renames one.
    pub fn handle_playlist_name_input_key(&mut self, key: KeyEvent) -> (r: bool)
        requires
            old(self).playlists.store.next_id < u64::MAX,
        ensures
            r == old(self).playlists.name_input is Some,
            r ==> final(self).name_pressed(old(self), key.code),
            !r ==> *final(self) == *old(self),
            old(self).valid() ==> final(self).valid(),
    {
        if self.playlists.name_input.is_none() {
            return false;
        }
        match key.code {
            KeyCode::Esc => {
                self.playlists.name_input = None;
                self.playlists.rename_target = None;
            },
            KeyCode::Enter => {
                self.commit_playlist_name_input();
            },
            _ => {
                if let Some(text) = &mut self.playlists.name_input {
                    type_key(text, key.code);
                }
            },
        }
        true
    }

    /// Another generation form, and nothing else.
    pub open spec fn with_form(before: App, form: Option<GenerationFormState>) -> App {
        App { playlists: PlaylistUi { form, ..before.playlists }, ..before }
    }

    /// What a key does to the generation form.
    pub open spec fn form_pressed(&self, before: &App, code: KeyCode) -> bool {
        let f = before.playlists.form->0;
        match code {
            KeyCode::Esc => *self == App::with_form(*before, None),
            KeyCode::Enter => self.form_submitted(before),
            KeyCode::Tab => *self == App::with_form(
                *before,
                Some(
                    GenerationFormState {
                        selected_field: ((f.selected_field + 1) % FIELD_COUNT as int) as usize,
                        ..f
                    },
                ),
            ),
            KeyCode::BackTab => *self == App::with_form(
                *before,
                Some(
                    GenerationFormState {
                        selected_field: if f.selected_field == 0 {
                            (FIELD_COUNT - 1) as usize
                        } else {
                            (f.selected_field - 1) as usize
                        },
                        ..f
                    },
                ),
            ),
            _ => {
                &&& self.only_form(before)
                &&& self.playlists.form matches Some(g) && form_edited(f, code, g)
            },
        }
    }

    /// Playlist generation form.
    pub fn handle_generation_form_key(&mut self, key: KeyEvent) -> (r: bool)
        requires
            old(self).playlists.form matches Some(f) ==> f.selected_field < usize::MAX
                && f.seed_strategy_idx < usize::MAX,
        ensures
            r == old(self).playlists.form is Some,
            r ==> final(self).form_pressed(old(self), key.code),
            !r ==> *final(self) == *old(self),
            old(self).valid() ==> final(self).valid(),
    {
        if self.playlists.form.is_none() {
            return false;
        }
        match key.code {
            KeyCode::Esc => {
                self.playlists.form = None;
            },
            KeyCode::Enter => {
                self.commit_generation_form();
            },
            KeyCode::Tab => {
                if let Some(f) = &mut self.playlists.form {
                    f.selected_field = (f.selected_field + 1) % FIELD_COUNT;
                }
            },
            KeyCode::BackTab => {
                if let Some(f) = &mut self.playlists.form {
                    f.selected_field = if f.selected_field == 0 {
                        FIELD_COUNT - 1
                    } else {
                        f.selected_field - 1
                    };
                }
            },
            _ => {
                self.generation_form_dispatch_field_key(key.code);
            },
        }
        true
    }

    /// Another playlist picker, and nothing else.
    pub open spec fn with_picker(before: App, picker: Option<AddToPlaylistPicker>) -> App {
        App { playlists: PlaylistUi { picker, ..before.playlists }, ..before }
    }

    /// What a key does to the playlist picker.
    pub open spec fn picker_pressed(&self, before: &App, code: KeyCode) -> bool {
        let p = before.playlists.picker->0;
        if code == KeyCode::Esc {
            *self == App::with_picker(*before, None)
        } else if code == KeyCode::Enter {
            self.picker_confirmed(before)
        } else if is_up(code) && p.selected > 0 {
            *self == App::with_picker(
                *before,
                Some(AddToPlaylistPicker { selected: (p.selected - 1) as usize, ..p }),
            )
        } else if is_down(code) && p.selected + 1 < p.options@.len() {
            *self == App::with_picker(
                *before,
                Some(AddToPlaylistPicker { selected: (p.selected + 1) as usize, ..p }),
            )
        } else {
            *self == *before
        }
    }

    /// "Add this track to a playlist" picker.
    pub fn handle_add_to_playlist_picker_key(&mut self, key: KeyEvent) -> (r: bool)
        ensures
            r == old(self).playlists.picker is Some,
            r ==> final(self).picker_pressed(old(self), key.code),
            !r ==> *final(self) == *old(self),
            old(self).valid() ==> final(self).valid(),
    {
        if self.playlists.picker.is_none() {
            return false;
        }
        if key.code == KeyCode::Esc {
            self.playlists.picker = None;
        } else if key.code == KeyCode::Enter {
            self.confirm_add_to_playlist();
        } else if goes_up(key.code) {
            if let Some(p) = &mut self.playlists.picker {
                if p.selected > 0 {
                    p.selected = p.selected - 1;
                }
            }
        } else if goes_down(key.code) {
            if let Some(p) = &mut self.playlists.picker {
                let n = p.options.len();
                if p.selected < n && p.selected + 1 < n {
                    p.selected = p.selected + 1;
                }
            }
        }
        true
    }

    /// No deletion waits for an answer any more.
    pub open spec fn deletion_answered(before: App) -> App {
        App { playlists: PlaylistUi { pending_delete: None, ..before.playlists }, ..before }
    }

    /// What a key does to the question whether to delete a playlist.
    pub open spec fn deletion_pressed(&self, before: &App, code: KeyCode) -> bool {
        if is_yes(code) {
            self.playlist_deleted(
                &App::deletion_answered(*before),
                before.playlists.pending_delete->0,
            )
        } else if code == KeyCode::Esc || code == KeyCode::Char('n') {
            *self == App::deletion_answered(*before)
        } else {
            *self == *before
        }
    }

    /// Playlist delete confirmation.
    pub fn handle_playlist_delete_key(&mut self, key: KeyEvent) -> (r: bool)
        ensures
            r == old(self).playlists.pending_delete is Some,
            r ==> final(self).deletion_pressed(old(self), key.code),
            !r ==> *final(self) == *old(self),
            old(self).valid() ==> final(self).valid(),
    {
        let id: u64 = match self.playlists.pending_delete {
            Some(id) => id,
            None => {
                return false;
            },
        };
        if says_yes(key.code) {
            self.playlists.pending_delete = None;
            self.commit_playlist_delete(id);
        } else if key.code == KeyCode::Esc || key.code == KeyCode::Char('n') {
            self.playlists.pending_delete = None;
        }
        true
    }
}

// ---------------------------------------------------------------------------
// Search and themes
// ---------------------------------------------------------------------------
impl NavState {
    /// The query, and whether it is being typed, changed.
    pub open spec fn query_put(&self, before: &NavState, active: bool, query: Seq<char>) -> bool {
        &&& *self == (NavState {
            search_active: active,
            search_query: self.search_query,
            ..*before
        })
        &&& self.search_query@ == query
    }

    /// The sidebar was filtered by another query.
    pub open spec fn searched(&self, before: &NavState, active: bool, query: Seq<char>) -> bool {
        exists|mid: NavState| #[trigger]
            mid.query_put(before, active, query) && self.refiltered(&mid)
    }
}

impl App {
    /// What a key does to the live search.
    pub open spec fn search_pressed(&self, before: &App, code: KeyCode) -> bool {
        &&& *self == (App { nav: self.nav, ..*before })
        &&& match code {
            KeyCode::Esc => self.nav.searched(&before.nav, false, Seq::empty()),
            KeyCode::Enter => self.nav == (NavState {
                search_active: false,
                active_panel: Panel::Library,
                ..before.nav
            }),
            KeyCode::Backspace | KeyCode::Char(_) => self.nav.searched(
                &before.nav,
                true,
                typed(before.nav.search_query@, code),
            ),
            _ => self.nav == before.nav,
        }
    }

    /// Live sidebar search (`/`).
    pub fn handle_search_key(&mut self, key: KeyEvent) -> (r: bool)
        ensures
            r == old(self).nav.search_active,
            r ==> final(self).search_pressed(old(self), key.code),
            !r ==> *final(self) == *old(self),
            old(self).nav.valid() ==> final(self).nav.valid(),
            old(self).valid() ==> final(self).valid(),
    {
        if !self.nav.search_active {
            return false;
        }
        match key.code {
            KeyCode::Esc => {
                self.nav.search_active = false;
                self.nav.search_query = String::new();
                let ghost mid = self.nav;
                proof {
                    assert(mid.query_put(&old(self).nav, false, Seq::empty()));
                }
                self.apply_sidebar_filter();
            },
            KeyCode::Enter => {
                self.nav.search_active = false;
                self.nav.active_panel = Panel::Library;
            },
            KeyCode::Backspace | KeyCode::Char(_) => {
                type_key(&mut self.nav.search_query, key.code);
                let ghost mid = self.nav;
                proof {
                    assert(mid.query_put(
                        &old(self).nav,
                        true,
                        typed(old(self).nav.search_query@, key.code),
                    ));
                }
                self.apply_sidebar_filter();
            },
            _ => {},
        }
        true
    }

    /// What a key does to the theme picker.
    pub open spec fn theme_pressed(&self, before: &App, code: KeyCode) -> bool {
        &&& *self == (App { themes: self.themes, out: self.out, ..*before })
        &&& match code {
            KeyCode::Esc => self.themes == before.themes.cancelled() && self.out == before.out,
            KeyCode::Enter => {
                &&& self.themes == (ThemeState { show_picker: false, ..before.themes })
                &&& self.out.asks(&before.out, HostRequest::SaveTheme)
            },
            KeyCode::Up => {
                &&& self.themes == before.themes.at(
                    wrapped(
                        before.themes.picker_index as int,
                        -1,
                        before.host.theme_count as int,
                    ),
                )
                &&& self.out == before.out
            },
            KeyCode::Down => {
                &&& self.themes == before.themes.at(
                    wrapped(before.themes.picker_index as int, 1, before.host.theme_count as int),
                )
                &&& self.out == before.out
            },
            _ => self.themes == before.themes && self.out == before.out,
        }
    }

    /// Theme picker overlay (`t`).
    pub fn handle_theme_picker_key(&mut self, key: KeyEvent) -> (r: bool)
        requires
            old(self).host.theme_count > 0,
            old(self).themes.picker_index <= isize::MAX,
        ensures
            r == old(self).themes.show_picker,
            r ==> final(self).theme_pressed(old(self), key.code),
            !r ==> *final(self) == *old(self),
            old(self).valid() ==> final(self).valid(),
    {
        if !self.themes.show_picker {
            return false;
        }
        match key.code {
            KeyCode::Esc => {
                self.theme_picker_cancel();
            },
            KeyCode::Enter => {
                self.theme_picker_confirm();
            },
            KeyCode::Up => {
                self.theme_picker_move(-1);
            },
            KeyCode::Down => {
                self.theme_picker_move(1);
            },
            _ => {},
        }
        true
    }
}

// ---------------------------------------------------------------------------
// Stems
// ---------------------------------------------------------------------------
impl App {
    /// The recipe of the panel was chosen, and is to be saved.
    pub open spec fn recipe_confirmed(&self, before: &App) -> bool {
        &&& (App { out: before.out, ..*self }).recipe_chosen(before)
        &&& if before.stems.panel is Some {
            self.out.asks(&before.out, HostRequest::SaveStemRecipe)
        } else {
            self.out == before.out
        }
    }

    /// The stem cache is to be cleared, and the panel closed.
    pub open spec fn cache_clear_sent(&self, before: &App) -> bool {
        &&& *self == (App {
            out: self.out,
            toast_message: self.toast_message,
            ..App::with_panel(*before, None)
        })
        &&& self.out.sends(&before.out)
        &&& self.out.pending_bg_commands@.last() == (BgCommand::ClearStemCache {
            cache_dir: before.stems.cfg.cache_root(),
        })
        &&& self.says("Clearing stem cache\u{2026}"@, false)
    }

    /// What a key does to the stem settings panel.
    pub open spec fn panel_pressed(&self, before: &App, code: KeyCode) -> bool {
        let p = before.stems.panel->0;
        if p.confirm_uninstall {
            if code == KeyCode::Enter || code == KeyCode::Char('y') {
                self.uninstall_sent(before, false)
            } else if code == KeyCode::Char('Y') {
                self.uninstall_sent(before, true)
            } else if is_no(code) {
                *self == App::with_panel(
                    *before,
                    Some(StemPanel { confirm_uninstall: false, ..p }),
                )
            } else {
                *self == *before
            }
        } else if p.confirm_clear_cache {
            if is_yes(code) {
                self.cache_clear_sent(before)
            } else if is_no(code) {
                *self == App::with_panel(
                    *before,
                    Some(StemPanel { confirm_clear_cache: false, ..p }),
                )
            } else {
                *self == *before
            }
        } else if code == KeyCode::Esc {
            *self == App::with_panel(*before, None)
        } else if code == KeyCode::Enter {
            self.recipe_confirmed(before)
        } else if is_up(code) || is_down(code) {
            *self == App::with_panel(
                *before,
                Some(
                    StemPanel {
                        selected: wrapped(
                            p.selected as int,
                            if is_up(code) {
                                -1
                            } else {
                                1
                            },
                            RECIPE_COUNT as int,
                        ) as usize,
                        ..p
                    },
                ),
            )
        } else if code == KeyCode::Char('u') {
            self.uninstall_asked(before)
        } else if code == KeyCode::Char('c') {
            self.clear_asked(before)
        } else {
            *self == *before
        }
    }

    fn handle_uninstall_question_key(&mut self, code: KeyCode)
        requires
            old(self).stems.valid(),
            old(self).stems.panel is Some,
            old(self).stems.panel->0.confirm_uninstall,
        ensures
            final(self).panel_pressed(old(self), code),
            old(self).valid() ==> final(self).valid(),
    {
        if code == KeyCode::Enter || code == KeyCode::Char('y') {
            self.stem_panel_uninstall(false);
        } else if code == KeyCode::Char('Y') {
            self.stem_panel_uninstall(true);
        } else if says_no(code) {
            if let Some(p) = &mut self.stems.panel {
                p.confirm_uninstall = false;
            }
        }
    }

    fn handle_clear_question_key(&mut self, code: KeyCode)
        requires
            old(self).stems.panel is Some,
            !old(self).stems.panel->0.confirm_uninstall,
            old(self).stems.panel->0.confirm_clear_cache,
        ensures
            final(self).panel_pressed(old(self), code),
            old(self).valid() ==> final(self).valid(),
    {
        if says_yes(code) {
            self.stem_panel_clear_cache();
        } else if says_no(code) {
            if let Some(p) = &mut self.stems.panel {
                p.confirm_clear_cache = false;
            }
        }
    }

    /// Stem settings panel (`o`). The uninstall confirmation is a sub-state: `y`
    /// or Enter uninstalls the engine and evicts its models, `Y` also deletes
    /// the separated stems, `n` or Esc backs out.
    pub fn handle_stem_panel_key(&mut self, key: KeyEvent) -> (r: bool)
        requires
            old(self).stems.valid(),
        ensures
            r == old(self).stems.panel is Some,
            r ==> final(self).panel_pressed(old(self), key.code),
            !r ==> *final(self) == *old(self),
            old(self).valid() ==> final(self).valid(),
    {
        let code = key.code;
        let (uninstall, clear): (bool, bool) = match &self.stems.panel {
            Some(p) => (p.confirm_uninstall, p.confirm_clear_cache),
            None => {
                return false;
            },
        };
        if uninstall {
            self.handle_uninstall_question_key(code);
        } else if clear {
            self.handle_clear_question_key(code);
        } else if code == KeyCode::Esc {
            self.stems.panel = None;
        } else if code == KeyCode::Enter {
            self.stem_panel_confirm();
        } else if goes_up(code) {
            self.stem_panel_move(-1);
        } else if goes_down(code) {
            self.stem_panel_move(1);
        } else if code == KeyCode::Char('u') {
            self.stem_panel_request_uninstall();
        } else if code == KeyCode::Char('c') {
            self.stem_panel_request_clear_cache();
        }
        true
    }

    /// Another consent question, and nothing else.
    pub open spec fn with_consent(before: App, consent: Option<StemConsent>) -> App {
        App {
            stems: StemUi { state: StemState { consent, ..before.stems.state }, ..before.stems },
            ..before
        }
    }

    /// An engine install was sent: a running batch is set aside for it.
    pub open spec fn install_sent(&self, before: &App) -> bool {
        let c = before.stems.state.consent->0;
        exists|mid: App| #[trigger]
            mid.batch_set_aside(&App::with_consent(*before, None)) && self.install_follows(&mid, c)
    }

    /// An engine install was sent.
    pub open spec fn install_follows(&self, mid: &App, c: StemConsent) -> bool {
        let job_gen = (mid.stems.state.job_gen + 1) as u64;
        &&& *self == (App {
            stems: StemUi {
                state: StemState {
                    job_gen,
                    status: StemStatus::Provisioning,
                    ..mid.stems.state
                },
                ..mid.stems
            },
            out: self.out,
            ..*mid
        })
        &&& self.out.sends(&mid.out)
        &&& self.out.pending_bg_commands@.last() == (BgCommand::ProvisionStemEngine {
            gen: job_gen,
            engine: c.engine,
            package: c.package,
            gpu: c.gpu,
        })
    }

    /// What a key does to the question whether to install a stem engine.
    pub open spec fn consent_pressed(&self, before: &App, code: KeyCode) -> bool {
        if is_yes(code) {
            self.install_sent(before)
        } else if is_no(code) {
            &&& *self == (App {
                stems: StemUi {
                    state: StemState { consent: None, pending_path: None, ..before.stems.state },
                    ..before.stems
                },
                toast_message: self.toast_message,
                ..*before
            })
            &&& self.says("Stem engine install skipped"@, false)
        } else {
            *self == *before
        }
    }

    /// Engine-install consent overlay, opened by `M` when no stem engine is
    /// found and engines are provisioned automatically.
    pub fn handle_stem_consent_key(&mut self, key: KeyEvent) -> (r: bool)
        requires
            old(self).stems.state.job_gen < u64::MAX,
        ensures
            r == old(self).stems.state.consent is Some,
            r ==> final(self).consent_pressed(old(self), key.code),
            !r ==> *final(self) == *old(self),
            old(self).valid() ==> final(self).valid(),
    {
        if self.stems.state.consent.is_none() {
            return false;
        }
        if says_yes(key.code) {
            if let Some(consent) = self.stems.state.consent.take() {
                self.suspend_batch_for_interactive();
                let ghost mid = *self;
                proof {
                    assert(mid.batch_set_aside(&App::with_consent(*old(self), None)));
                }
                self.stems.state.job_gen = self.stems.state.job_gen + 1;
                self.stems.state.status = StemStatus::Provisioning;
                let gen = self.stems.state.job_gen;
                self.out.pending_bg_commands.push(
                    BgCommand::ProvisionStemEngine {
                        gen,
                        engine: consent.engine,
                        package: consent.package,
                        gpu: consent.gpu,
                    },
                );
                proof {
                    assert(self.out.pending_bg_commands@.drop_last()
                        =~= mid.out.pending_bg_commands@);
                    assert(self.install_follows(&mid, old(self).stems.state.consent->0));
                }
            }
        } else if says_no(key.code) {
            self.stems.state.consent = None;
            self.stems.state.pending_path = None;
            self.set_toast("Stem engine install skipped".to_owned(), false);
        }
        true
    }

    /// What a key does to the question whether to split a whole album.
    pub open spec fn bulk_pressed(&self, before: &App, code: KeyCode) -> bool {
        if is_yes(code) {
            self.bulk_accepted(before)
        } else if is_no(code) {
            *self == (App { stems: StemUi { bulk_confirm: None, ..before.stems }, ..*before })
        } else {
            *self == *before
        }
    }

    /// Album bulk-separation confirmation (`M` on an album entry).
    pub fn handle_stem_bulk_confirm_key(&mut self, key: KeyEvent) -> (r: bool)
        requires
            old(self).stems.batch_gen < u64::MAX,
        ensures
            r == old(self).stems.bulk_confirm is Some,
            r ==> final(self).bulk_pressed(old(self), key.code),
            !r ==> *final(self) == *old(self),
            old(self).valid() ==> final(self).valid(),
    {
        if self.stems.bulk_confirm.is_none() {
            return false;
        }
        if says_yes(key.code) {
            self.stem_bulk_confirm_accept();
        } else if says_no(key.code) {
            self.stems.bulk_confirm = None;
        }
        true
    }

    /// The stem that a digit key switches: while a split plays and its strip
    /// shows, the digits of the layout do.
    pub open spec fn stem_of_key(&self, code: KeyCode) -> Option<int> {
        match code {
            KeyCode::Char(c) => if self.stems.state.status == StemStatus::Active && self.shows_strip()
                && '1' <= c <= '8' && self.stems.state.layout is Some && (c as int) - ('1' as int)
                < self.stems.state.layout->0.size() {
                Some((c as int) - ('1' as int))
            } else {
                None
            },
            _ => None,
        }
    }

    /// While stem playback is active, the digit keys of the layout switch stems.
    /// Digits beyond the layout fall through, and so do all of them while the
    /// strip does not show.
    pub fn handle_stem_key(&mut self, key: KeyEvent) -> (r: bool)
        ensures
            r == old(self).stem_of_key(key.code) is Some,
            r ==> final(self).stem_switched(old(self), old(self).stem_of_key(key.code)->0),
            !r ==> *final(self) == *old(self),
            old(self).valid() ==> final(self).valid(),
    {
        if self.stems.state.status != StemStatus::Active || !self.stem_strip_visible() {
            return false;
        }
        let c: char = match key.code {
            KeyCode::Char(c) => c,
            _ => {
                return false;
            },
        };
        if c < '1' || c > '8' {
            return false;
        }
        let index: usize = (c as u32 - '1' as u32) as usize;
        let count: usize = match self.stems.state.layout {
            Some(l) => l.len(),
            None => 0,
        };
        if index < count {
            self.toggle_stem(index);
            return true;
        }
        false
    }
}

// ---------------------------------------------------------------------------
// Confirmations and popups
// ---------------------------------------------------------------------------
impl App {
    /// What a key does to the question whether to clear the playback cache.
    pub open spec fn cache_pressed(&self, before: &App, code: KeyCode) -> bool {
        let answered = App {
            popup: PopupState { pending_cache_clear: false, ..before.popup },
            ..*before
        };
        if is_yes(code) {
            &&& *self == (App { out: self.out, ..answered })
            &&& self.out.asks(&before.out, HostRequest::ClearPlaybackCache)
        } else if is_no(code) {
            *self == answered
        } else {
            *self == *before
        }
    }

    /// Playback-cache clear confirmation (`X`).
    pub fn handle_cache_clear_key(&mut self, key: KeyEvent) -> (r: bool)
        ensures
            r == old(self).popup.pending_cache_clear,
            r ==> final(self).cache_pressed(old(self), key.code),
            !r ==> *final(self) == *old(self),
            old(self).valid() ==> final(self).valid(),
    {
        if !self.popup.pending_cache_clear {
            return false;
        }
        if says_yes(key.code) {
            self.popup.pending_cache_clear = false;
            self.ask_host(HostRequest::ClearPlaybackCache);
        } else if says_no(key.code) {
            self.popup.pending_cache_clear = false;
        }
        true
    }

    /// What a key does to the question whether to remove tracks from the
    /// device.
    pub open spec fn removal_pressed(
        &self,
        before: &App,
        code: KeyCode,
        sent: Seq<BgCommand>,
        sent_after: Seq<BgCommand>,
    ) -> bool {
        if is_yes(code) {
            let items = before.removal.pending_removal->0;
            &&& *self == (App {
                removal: self.removal,
                toast_message: self.toast_message,
                ..*before
            })
            &&& self.removal.pending_removal is None
            &&& self.removal.removal_queue@.len() == 0
            &&& self.says(
                "Removing "@ + decimal(items@.len()) + " track(s) from device..."@,
                false,
            )
            &&& one_more(sent, sent_after)
            &&& sent_after.last() == BgCommand::RemoveFromDevice(items)
        } else {
            &&& sent_after == sent
            &&& *self == if is_no(code) {
                App {
                    removal: RemovalState { pending_removal: None, ..before.removal },
                    ..*before
                }
            } else {
                *before
            }
        }
    }

    /// Device-removal confirmation (`D` in device mode).
    pub fn handle_removal_confirm_key(&mut self, key: KeyEvent, cmd_tx: &mut Vec<BgCommand>) -> (r: bool)
        ensures
            r == old(self).removal.pending_removal is Some,
            r ==> final(self).removal_pressed(old(self), key.code, old(cmd_tx)@, final(cmd_tx)@),
            !r ==> *final(self) == *old(self) && final(cmd_tx)@ == old(cmd_tx)@,
            old(self).valid() ==> final(self).valid(),
    {
        if self.removal.pending_removal.is_none() {
            return false;
        }
        if says_yes(key.code) {
            if let Some(items) = self.removal.pending_removal.take() {
                let n = decimal_of(items.len() as u64);
                let msg = concat3("Removing ", n.as_str(), " track(s) from device...");
                self.set_toast(msg, false);
                cmd_tx.push(BgCommand::RemoveFromDevice(items));
                proof {
                    assert(cmd_tx@.drop_last() =~= old(cmd_tx)@);
                }
                self.removal.removal_queue = Vec::new();
            }
        } else if says_no(key.code) {
            self.removal.pending_removal = None;
        }
        true
    }

    /// What a key does to the help overlay.
    pub open spec fn help_pressed(&self, before: &App, code: KeyCode) -> bool {
        *self == if code == KeyCode::Esc || code == KeyCode::Char('?') || code == KeyCode::Char('q') {
            App { popup: PopupState { show_help: false, ..before.popup }, ..*before }
        } else {
            *before
        }
    }

    /// Help overlay (`?`).
    pub fn handle_help_key(&mut self, key: KeyEvent) -> (r: bool)
        ensures
            r == old(self).popup.show_help,
            r ==> final(self).help_pressed(old(self), key.code),
            !r ==> *final(self) == *old(self),
            old(self).valid() ==> final(self).valid(),
    {
        if !self.popup.show_help {
            return false;
        }
        if key.code == KeyCode::Esc || key.code == KeyCode::Char('?') || key.code == KeyCode::Char('q') {
            self.popup.show_help = false;
        }
        true
    }

    /// What a key does to the track-info popup.
    pub open spec fn info_pressed(&self, before: &App, code: KeyCode) -> bool {
        let at = before.popup.track_info_scroll as int;
        &&& *self == (App { popup: self.popup, ..*before })
        &&& self.popup == if code == KeyCode::Esc || code == KeyCode::Char('q') || code
            == KeyCode::Char('I') {
            before.popup.without_info()
        } else if is_up(code) {
            before.popup.scrolled_to(scrolled(at, -1))
        } else if is_down(code) {
            before.popup.scrolled_to(scrolled(at, 1))
        } else if code == KeyCode::PageUp {
            before.popup.scrolled_to(scrolled(at, -10))
        } else if code == KeyCode::PageDown {
            before.popup.scrolled_to(scrolled(at, 10))
        } else if code == KeyCode::Char('g') {
            before.popup.scrolled_to(0)
        } else if code == KeyCode::Char('G') {
            before.popup.scrolled_to(usize::MAX as int)
        } else {
            before.popup
        }
    }

    /// Track-info popup (`I`).
    pub fn handle_track_info_key(&mut self, key: KeyEvent) -> (r: bool)
        ensures
            r == old(self).popup.show_track_info,
            r ==> final(self).info_pressed(old(self), key.code),
            !r ==> *final(self) == *old(self),
            old(self).valid() ==> final(self).valid(),
    {
        let code = key.code;
        if !self.popup.show_track_info {
            return false;
        }
        if code == KeyCode::Esc || code == KeyCode::Char('q') || code == KeyCode::Char('I') {
            self.close_track_info();
        } else if goes_up(code) {
            self.track_info_move(-1);
        } else if goes_down(code) {
            self.track_info_move(1);
        } else if code == KeyCode::PageUp {
            self.track_info_page(-1);
        } else if code == KeyCode::PageDown {
            self.track_info_page(1);
        } else if code == KeyCode::Char('g') {
            self.track_info_home();
        } else if code == KeyCode::Char('G') {
            self.track_info_end();
        }
        true
    }
}

} // verus!
