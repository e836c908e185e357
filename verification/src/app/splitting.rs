//! Stem playback: splitting the playing track, album batches, and the settings
//! panel.
use vstd::prelude::*;
use crate::app::player::{wrap_index, wrapped};
use crate::app::{App, Outbox, StemUi, SyncState};
use crate::commands::{one_more, AudioCommand, BgCommand, HostRequest, SwapTarget};
use crate::format::{concat3, decimal, decimal_of, texts};
use crate::model::Track;
use crate::stem_model::{
    recipe_at, EngineKind, FoundEngine, RecipeKind, StemBatchState, StemBulkConfirm, StemConsent,
    StemPanel, StemState, StemsConfig, EST_STEM_BYTES_PER_TRACK, RECIPE_COUNT,
};
use crate::text::str_eq;
use crate::types::{SidebarEntry, StemStatus};

verus! {

/// A line was added to the log.
pub open spec fn logs(before: Seq<String>, after: Seq<String>, line: Seq<char>) -> bool {
    one_more(before, after) && after.last()@ == line
}

/// The recipe that is used: the configured one, or demucs where its name is
/// unknown.
pub open spec fn recipe_in_use(cfg: StemsConfig) -> RecipeKind {
    match cfg.chosen_recipe() {
        Some(r) => r,
        None => RecipeKind::Demucs,
    }
}

/// A request to separate one track.
pub open spec fn is_separation(
    cmd: BgCommand,
    gen: u64,
    path: Seq<char>,
    recipe: RecipeKind,
    cfg: StemsConfig,
) -> bool {
    match cmd {
        BgCommand::SeparateStems {
            gen: g,
            track_path,
            engine_command,
            recipe: r,
            model,
            cache_max_bytes,
            cache_dir,
        } => {
            &&& g == gen
            &&& track_path@ == path
            &&& engine_command == cfg.command
            &&& r == recipe
            &&& model@ == cfg.model_text()
            &&& cache_max_bytes == cfg.cache_limit()
            &&& cache_dir == cfg.cache_root()
        },
        _ => false,
    }
}

/// A request to separate several tracks.
pub open spec fn is_batch(
    cmd: BgCommand,
    gen: u64,
    paths: Seq<Seq<char>>,
    recipe: RecipeKind,
    cfg: StemsConfig,
) -> bool {
    match cmd {
        BgCommand::SeparateStemsBatch {
            gen: g,
            track_paths,
            engine_command,
            recipe: r,
            model,
            cache_max_bytes,
            cache_dir,
        } => {
            &&& g == gen
            &&& texts(track_paths@) == paths
            &&& engine_command == cfg.command
            &&& r == recipe
            &&& model@ == cfg.model_text()
            &&& cache_max_bytes == cfg.cache_limit()
            &&& cache_dir == cfg.cache_root()
        },
        _ => false,
    }
}

/// The files of the tracks that have one.
pub open spec fn track_files(tracks: Seq<Track>) -> Seq<Seq<char>>
    decreases tracks.len(),
{
    if tracks.len() == 0 {
        Seq::empty()
    } else {
        let rest = track_files(tracks.drop_last());
        match tracks.last().location {
            Some(p) => rest.push(p@),
            None => rest,
        }
    }
}

/// How many of the paths are among those that are split already.
pub open spec fn split_count(paths: Seq<Seq<char>>, split: Seq<Seq<char>>) -> nat
    decreases paths.len(),
{
    if paths.len() == 0 {
        0
    } else {
        split_count(paths.drop_last(), split) + if split.contains(paths.last()) {
            1nat
        } else {
            0
        }
    }
}

fn files_of(tracks: &Vec<Track>) -> (r: Vec<String>)
    ensures
        texts(r@) == track_files(tracks@),
        r@.len() <= tracks@.len(),
{
    let mut r: Vec<String> = Vec::new();
    let mut i: usize = 0;
    while i < tracks.len()
        invariant
            i <= tracks.len(),
            r.len() <= i,
            texts(r@) == track_files(tracks@.take(i as int)),
        decreases tracks.len() - i,
    {
        proof {
            assert(tracks@.take(i + 1).drop_last() =~= tracks@.take(i as int));
        }
        if let Some(p) = &tracks[i].location {
            let ghost before = texts(r@);
            r.push(p.clone());
            proof {
                assert(texts(r@) =~= before.push(p@));
            }
        }
        i = i + 1;
    }
    proof {
        assert(tracks@.take(tracks@.len() as int) =~= tracks@);
    }
    r
}

fn is_among(p: &String, list: &Vec<String>) -> (r: bool)
    ensures
        r == texts(list@).contains(p@),
{
    let mut i: usize = 0;
    while i < list.len()
        invariant
            i <= list.len(),
            forall|k: int| 0 <= k < i ==> #[trigger] texts(list@)[k] != p@,
        decreases list.len() - i,
    {
        if str_eq(list[i].as_str(), p.as_str()) {
            proof {
                assert(texts(list@)[i as int] == p@);
            }
            return true;
        }
        i = i + 1;
    }
    false
}

fn count_split(paths: &Vec<String>, split: &Vec<String>) -> (n: usize)
    ensures
        n == split_count(texts(paths@), texts(split@)),
        n <= paths@.len(),
{
    let mut n: usize = 0;
    let mut i: usize = 0;
    let ghost all = texts(paths@);
    while i < paths.len()
        invariant
            i <= paths.len(),
            n <= i,
            all == texts(paths@),
            n == split_count(all.take(i as int), texts(split@)),
        decreases paths.len() - i,
    {
        proof {
            assert(all.take(i + 1).drop_last() =~= all.take(i as int));
        }
        if is_among(&paths[i], split) {
            n = n + 1;
        }
        i = i + 1;
    }
    proof {
        assert(all.take(all.len() as int) =~= all);
    }
    n
}

fn copy_paths(paths: &Vec<String>) -> (r: Vec<String>)
    ensures
        r@ == paths@,
{
    let r = paths.clone();
    proof {
        assert(r@ =~= paths@);
    }
    r
}

impl App {
    /// Only the log changed.
    pub open spec fn only_log(&self, before: &App) -> bool {
        &&& *self == (App { sync: self.sync, ..*before })
        &&& self.sync == (SyncState { log: self.sync.log, ..before.sync })
    }

    fn push_log(&mut self, line: String)
        ensures
            final(self).only_log(old(self)),
            logs(old(self).sync.log@, final(self).sync.log@, line@),
    {
        self.sync.log.push(line);
        proof {
            assert(self.sync.log@.drop_last() =~= old(self).sync.log@);
        }
    }

    fn send_bg(&mut self, cmd: BgCommand)
        ensures
            *final(self) == (App { out: final(self).out, ..*old(self) }),
            final(self).out.sends(&old(self).out),
            final(self).out.pending_bg_commands@.last() == cmd,
    {
        self.out.pending_bg_commands.push(cmd);
        proof {
            assert(self.out.pending_bg_commands@.drop_last() =~= old(self).out.pending_bg_commands@);
        }
    }

    /// The engine was found on this machine.
    pub open spec fn has_engine(&self, engine: EngineKind) -> bool {
        match engine {
            EngineKind::Demucs => self.host.demucs is Some,
            EngineKind::AudioSeparator => self.host.audio_separator is Some,
        }
    }

    fn engine_is_found(&self, engine: EngineKind) -> (r: bool)
        ensures
            r == self.has_engine(engine),
    {
        match engine {
            EngineKind::Demucs => self.host.demucs.is_some(),
            EngineKind::AudioSeparator => self.host.audio_separator.is_some(),
        }
    }

    /// The configured recipe was read; an unknown name is logged.
    pub open spec fn recipe_read(&self, before: &App) -> bool {
        match before.stems.cfg.recipe {
            Some(raw) => if before.stems.cfg.chosen_recipe() is None {
                self.only_log(before) && logs(
                    before.sync.log@,
                    self.sync.log@,
                    "[stems] unknown recipe \""@ + raw@
                        + "\" in config.toml \u{2014} using \"demucs\""@,
                )
            } else {
                *self == *before
            },
            None => *self == *before,
        }
    }

    /// Recipe from the configuration; an unknown value falls back to demucs
    /// with a log line.
    pub fn stems_recipe(&mut self) -> (r: RecipeKind)
        ensures
            r == recipe_in_use(old(self).stems.cfg),
            final(self).recipe_read(old(self)),
            old(self).valid() ==> final(self).valid(),
    {
        match self.stems.cfg.recipe_kind() {
            Some(recipe) => recipe,
            None => {
                let line: Option<String> = match &self.stems.cfg.recipe {
                    Some(raw) => Some(
                        concat3(
                            "[stems] unknown recipe \"",
                            raw.as_str(),
                            "\" in config.toml \u{2014} using \"demucs\"",
                        ),
                    ),
                    None => None,
                };
                if let Some(line) = line {
                    self.push_log(line);
                }
                RecipeKind::Demucs
            },
        }
    }

    /// The playing track's file.
    pub open spec fn playing_path(&self) -> Option<String> {
        match self.player.now_playing {
            Some(np) => if np.track_index < np.playlist@.len() {
                np.playlist@[np.track_index as int].location
            } else {
                None
            },
            None => None,
        }
    }

    /// Library path of the track that is playing right now, if any.
    pub fn playing_track_path(&self) -> (r: Option<String>)
        ensures
            r == self.playing_path(),
    {
        match &self.player.now_playing {
            Some(np) => if np.track_index < np.playlist.len() {
                np.playlist[np.track_index].location.clone()
            } else {
                None
            },
            None => None,
        }
    }

    // -- Album batches --
    /// A batch was dispatched under a new generation.
    pub open spec fn batch_sent(
        &self,
        before: &App,
        album: String,
        paths: Seq<String>,
        recipe: RecipeKind,
        separated_so_far: usize,
    ) -> bool {
        &&& *self == (App { stems: self.stems, out: self.out, ..*before })
        &&& self.stems == (StemUi {
            batch: self.stems.batch,
            batch_gen: (before.stems.batch_gen + 1) as u64,
            ..before.stems
        })
        &&& (self.stems.batch matches Some(b) && b.track_paths@ == paths && b == (StemBatchState {
            gen: self.stems.batch_gen,
            album,
            track_paths: b.track_paths,
            current: 0,
            total: paths.len() as usize,
            pct: None,
            suspended: false,
            recipe,
            separated_so_far,
        }))
        &&& self.out.sends(&before.out)
        &&& is_batch(
            self.out.pending_bg_commands@.last(),
            self.stems.batch_gen,
            texts(paths),
            recipe,
            before.stems.cfg,
        )
    }

    /// Queue a batch job. Also the resume path: the worker skips what is cached
    /// already.
    pub fn dispatch_stem_batch(
        &mut self,
        album: String,
        track_paths: Vec<String>,
        recipe: RecipeKind,
        separated_so_far: usize,
    )
        requires
            old(self).stems.batch_gen < u64::MAX,
        ensures
            final(self).batch_sent(old(self), album, track_paths@, recipe, separated_so_far),
            old(self).valid() ==> final(self).valid(),
    {
        let gen: u64 = self.stems.batch_gen + 1;
        self.stems.batch_gen = gen;
        let engine_command = self.stems.cfg.command.clone();
        let model = self.stems.cfg.model();
        let cache_max_bytes = self.stems.cfg.cache_max_bytes();
        let cache_dir = self.stems.cfg.stem_cache_dir();
        let sent = copy_paths(&track_paths);
        self.send_bg(
            BgCommand::SeparateStemsBatch {
                gen,
                track_paths: sent,
                engine_command,
                recipe,
                model,
                cache_max_bytes,
                cache_dir,
            },
        );
        let total = track_paths.len();
        self.stems.batch = Some(
            StemBatchState {
                gen,
                album,
                track_paths,
                current: 0,
                total,
                pct: None,
                suspended: false,
                recipe,
                separated_so_far,
            },
        );
    }

    /// The batch was dropped for good.
    pub open spec fn batch_cancelled(&self, before: &App) -> bool {
        &&& *self == (App {
            stems: self.stems,
            out: self.out,
            toast_message: self.toast_message,
            ..*before
        })
        &&& self.stems == (StemUi {
            batch: None,
            batch_gen: (before.stems.batch_gen + 1) as u64,
            ..before.stems
        })
        &&& if before.stems.batch matches Some(b) && b.suspended {
            self.out == before.out
        } else {
            self.out.sends(&before.out) && self.out.pending_bg_commands@.last()
                == BgCommand::CancelSeparation
        }
        &&& self.says("Album stem batch cancelled"@, false)
    }

    /// Cancel the batch: drop the state so nothing resumes later. The worker is
    /// only told of a running batch; a suspended one has no job there.
    pub fn cancel_stem_batch(&mut self)
        requires
            old(self).stems.batch_gen < u64::MAX,
        ensures
            final(self).batch_cancelled(old(self)),
            old(self).valid() ==> final(self).valid(),
    {
        self.stems.batch_gen = self.stems.batch_gen + 1;
        let suspended = match &self.stems.batch {
            Some(b) => b.suspended,
            None => false,
        };
        self.stems.batch = None;
        if !suspended {
            self.send_bg(BgCommand::CancelSeparation);
        }
        self.set_toast("Album stem batch cancelled".to_owned(), false);
    }

    /// A suspended batch can go on: no job of a single track is in flight.
    pub open spec fn batch_can_resume(&self) -> bool {
        &&& self.stems.state.status == StemStatus::Off || self.stems.state.status == StemStatus::Active
        &&& self.stems.batch matches Some(b) && b.suspended
    }

    /// A suspended batch was dispatched again, with the recipe and the tally
    /// that it had.
    pub open spec fn batch_resumed(&self, before: &App) -> bool {
        if before.batch_can_resume() {
            let b = before.stems.batch->0;
            exists|mid: App|
                mid.stems == (StemUi { batch: None, ..before.stems }) && mid == (App {
                    stems: mid.stems,
                    sync: mid.sync,
                    ..*before
                }) && mid.sync == (SyncState { log: mid.sync.log, ..before.sync }) && logs(
                    before.sync.log@,
                    mid.sync.log@,
                    "[stems] resuming album batch: "@ + b.album@,
                ) && #[trigger] self.batch_sent(
                    &mid,
                    b.album,
                    b.track_paths@,
                    b.recipe,
                    b.separated_so_far,
                )
        } else {
            *self == *before
        }
    }

    /// Resume a suspended batch once no per-track job is in flight.
    pub fn maybe_resume_stem_batch(&mut self)
        requires
            old(self).stems.batch_gen < u64::MAX,
        ensures
            final(self).batch_resumed(old(self)),
            old(self).valid() ==> final(self).valid(),
    {
        let idle = match self.stems.state.status {
            StemStatus::Off => true,
            StemStatus::Active => true,
            _ => false,
        };
        let suspended = match &self.stems.batch {
            Some(b) => b.suspended,
            None => false,
        };
        if !idle || !suspended {
            return;
        }
        let taken = self.stems.batch.take();
        if let Some(b) = taken {
            let line = crate::format::concat2("[stems] resuming album batch: ", b.album.as_str());
            self.push_log(line);
            let ghost mid = *self;
            self.dispatch_stem_batch(b.album, b.track_paths, b.recipe, b.separated_so_far);
            proof {
                assert(self.batch_sent(
                    &mid,
                    old(self).stems.batch->0.album,
                    old(self).stems.batch->0.track_paths@,
                    old(self).stems.batch->0.recipe,
                    old(self).stems.batch->0.separated_so_far,
                ));
            }
        }
    }

    /// A running batch was set aside, and that is logged.
    pub open spec fn batch_set_aside(&self, before: &App) -> bool {
        match before.stems.batch {
            Some(b) => if b.suspended {
                *self == *before
            } else {
                &&& *self == (App { stems: self.stems, sync: self.sync, ..*before })
                &&& self.stems == (StemUi {
                    batch: Some(StemBatchState { suspended: true, ..b }),
                    ..before.stems
                })
                &&& self.sync == (SyncState { log: self.sync.log, ..before.sync })
                &&& logs(
                    before.sync.log@,
                    self.sync.log@,
                    "[stems] album batch suspended for the interactive split \u{2014} resumes after"@,
                )
            },
            None => *self == *before,
        }
    }

    /// An interactive stem job supersedes a running album batch; its state is
    /// kept as suspended so that the end of the interactive job resumes it.
    pub fn suspend_batch_for_interactive(&mut self)
        ensures
            final(self).batch_set_aside(old(self)),
            old(self).valid() ==> final(self).valid(),
    {
        let running = match &self.stems.batch {
            Some(b) => !b.suspended,
            None => false,
        };
        if running {
            if let Some(b) = &mut self.stems.batch {
                b.suspended = true;
            }
            self.push_log(
                "[stems] album batch suspended for the interactive split \u{2014} resumes after".to_owned(),
            );
        }
    }

    /// The album under the sidebar selection.
    pub open spec fn selected_album_entry(&self) -> Option<(String, String)> {
        if self.nav.sidebar_selected < self.nav.sidebar_items@.len() {
            match self.nav.sidebar_items@[self.nav.sidebar_selected as int] {
                SidebarEntry::Album { artist, album } => Some((artist, album)),
                _ => None,
            }
        } else {
            None
        }
    }

    /// The modal that asks whether to split an album.
    pub open spec fn is_bulk_confirm(
        &self,
        c: StemBulkConfirm,
        artist: String,
        album: String,
        files: Seq<Seq<char>>,
    ) -> bool {
        let cached = if self.stems.cfg.cache_root() is Some {
            split_count(files, texts(self.host.split_paths@))
        } else {
            0
        };
        &&& texts(c.track_paths@) == files
        &&& c == (StemBulkConfirm {
            artist,
            album,
            track_paths: c.track_paths,
            recipe: recipe_in_use(self.stems.cfg),
            cached: cached as usize,
            projected_bytes: (EST_STEM_BYTES_PER_TRACK * (files.len() - cached)) as u64,
            cache_used_bytes: if self.stems.cfg.cache_root() is Some {
                self.host.stems_used_bytes
            } else {
                0
            },
            cap_bytes: self.stems.cfg.cache_limit(),
        })
    }

    /// What the stem key does on an album of the sidebar.
    pub open spec fn album_split_pressed(&self, before: &App) -> bool {
        if before.stems.batch is Some {
            self.batch_cancelled(before)
        } else {
            match (before.selected_album_entry(), before.library) {
                (Some((artist, album)), Some(lib)) => {
                    let files = track_files(lib.by_artist_album(artist@, album@));
                    if files.len() == 0 {
                        &&& *self == (App { toast_message: self.toast_message, ..*before })
                        &&& self.says("No file paths for this album"@, true)
                    } else {
                        exists|mid: App| #[trigger]
                            mid.recipe_read(before) && *self == (App { stems: self.stems, ..mid })
                                && self.stems == (StemUi {
                                bulk_confirm: self.stems.bulk_confirm,
                                ..before.stems
                            }) && self.stems.bulk_confirm is Some && before.is_bulk_confirm(
                                self.stems.bulk_confirm->0,
                                artist,
                                album,
                                files,
                            )
                    }
                },
                _ => *self == *before,
            }
        }
    }

    /// The stem key on an album of the sidebar: a batch is cancelled; else the
    /// album's files are put up for confirmation.
    pub fn press_stem_mode_on_album(&mut self)
        requires
            old(self).can_project(),
            old(self).stems.batch is Some ==> old(self).stems.batch_gen < u64::MAX,
        ensures
            final(self).album_split_pressed(old(self)),
            old(self).valid() ==> final(self).valid(),
    {
        if self.stems.batch.is_some() {
            self.cancel_stem_batch();
            return;
        }
        if self.nav.sidebar_selected >= self.nav.sidebar_items.len() {
            return;
        }
        let (artist, album): (String, String) =
            match &self.nav.sidebar_items[self.nav.sidebar_selected] {
            SidebarEntry::Album { artist, album } => (artist.clone(), album.clone()),
            _ => {
                return;
            },
        };
        let track_paths: Vec<String> = match &self.library {
            Some(lib) => {
                let tracks = lib.album_tracks_by_artist(artist.as_str(), album.as_str());
                proof {
                    lib.tracks@.lemma_filter_len(
                        |t: Track| t.artist@ == artist@ && t.album@ == album@,
                    );
                }
                files_of(&tracks)
            },
            None => {
                return;
            },
        };
        proof {
            assert(texts(track_paths@).len() == track_paths@.len());
        }
        if track_paths.len() == 0 {
            self.set_toast("No file paths for this album".to_owned(), true);
            return;
        }
        let recipe = self.stems_recipe();
        let ghost mid = *self;
        let cache_dir = self.stems.cfg.stem_cache_dir();
        let cached: usize = if cache_dir.is_some() {
            count_split(&track_paths, &self.host.split_paths)
        } else {
            0
        };
        let cache_used_bytes: u64 = if cache_dir.is_some() {
            self.host.stems_used_bytes
        } else {
            0
        };
        let fresh: u64 = (track_paths.len() - cached) as u64;
        proof {
            let n = old(self).library->0.tracks@.len();
            assert(EST_STEM_BYTES_PER_TRACK * fresh <= EST_STEM_BYTES_PER_TRACK * n) by (nonlinear_arith)
                requires
                    fresh <= n,
            ;
        }
        let projected_bytes: u64 = EST_STEM_BYTES_PER_TRACK * fresh;
        let cap_bytes = self.stems.cfg.cache_max_bytes();
        self.stems.bulk_confirm = Some(
            StemBulkConfirm {
                artist,
                album,
                track_paths,
                recipe,
                cached,
                projected_bytes,
                cache_used_bytes,
                cap_bytes,
            },
        );
        proof {
            assert(mid.recipe_read(old(self)));
        }
    }

    /// The confirmed batch was dispatched, or the engine is missing.
    pub open spec fn bulk_accepted(&self, before: &App) -> bool {
        match before.stems.bulk_confirm {
            None => *self == *before,
            Some(c) => {
                let closed = App {
                    stems: StemUi { bulk_confirm: None, ..before.stems },
                    ..*before
                };
                if !before.has_engine(c.recipe.driver()) {
                    &&& *self == (App { toast_message: self.toast_message, ..closed })
                    &&& self.says(
                        "Stem engine not installed \u{2014} press M on a playing track first"@,
                        true,
                    )
                } else {
                    &&& (App { toast_message: before.toast_message, ..*self }).batch_sent(
                        &closed,
                        c.album,
                        c.track_paths@,
                        c.recipe,
                        0,
                    )
                    &&& self.says(
                        "Separating "@ + decimal(c.track_paths@.len())
                            + " track(s) in the background\u{2026}"@,
                        false,
                    )
                }
            },
        }
    }

    /// Confirmed bulk separation. The engine must already be installed.
    pub fn stem_bulk_confirm_accept(&mut self)
        requires
            old(self).stems.batch_gen < u64::MAX,
        ensures
            final(self).bulk_accepted(old(self)),
            old(self).valid() ==> final(self).valid(),
    {
        let taken = self.stems.bulk_confirm.take();
        let c = match taken {
            Some(c) => c,
            None => {
                return;
            },
        };
        if !self.engine_is_found(c.recipe.engine()) {
            self.set_toast(
                "Stem engine not installed \u{2014} press M on a playing track first".to_owned(),
                true,
            );
            return;
        }
        let total = c.track_paths.len();
        let n = decimal_of(total as u64);
        self.dispatch_stem_batch(c.album, c.track_paths, c.recipe, 0);
        let msg = concat3("Separating ", n.as_str(), " track(s) in the background\u{2026}");
        self.set_toast(msg, false);
    }

    // -- The playing track --
    /// A separation was dispatched under a new job identity.
    pub open spec fn separation_sent(&self, before: &App, path: String, recipe: RecipeKind) -> bool {
        exists|mid: App| #[trigger]
            mid.batch_set_aside(before) && *self == (App { stems: self.stems, out: self.out, ..mid })
                && self.stems == (StemUi {
                state: StemState {
                    job_gen: (before.stems.state.job_gen + 1) as u64,
                    status: StemStatus::Separating { pct: None },
                    for_path: Some(path),
                    ..before.stems.state
                },
                ..mid.stems
            }) && self.out.sends(&before.out) && is_separation(
                self.out.pending_bg_commands@.last(),
                self.stems.state.job_gen,
                path@,
                recipe,
                before.stems.cfg,
            )
    }

    /// Queue the separation of a track and show it as separating.
    pub fn dispatch_separation(&mut self, path: String, recipe: RecipeKind)
        requires
            old(self).stems.state.job_gen < u64::MAX,
        ensures
            final(self).separation_sent(old(self), path, recipe),
            old(self).valid() ==> final(self).valid(),
    {
        self.suspend_batch_for_interactive();
        let ghost mid = *self;
        proof {
            assert(mid.batch_set_aside(old(self)));
        }
        let gen: u64 = self.stems.state.job_gen + 1;
        self.stems.state.job_gen = gen;
        self.stems.state.status = StemStatus::Separating { pct: None };
        let track_path = path.clone();
        self.stems.state.for_path = Some(path);
        let engine_command = self.stems.cfg.command.clone();
        let model = self.stems.cfg.model();
        let cache_max_bytes = self.stems.cfg.cache_max_bytes();
        let cache_dir = self.stems.cfg.stem_cache_dir();
        self.send_bg(
            BgCommand::SeparateStems {
                gen,
                track_path,
                engine_command,
                recipe,
                model,
                cache_max_bytes,
                cache_dir,
            },
        );
    }

    /// What asking for the stems of the playing track does.
    pub open spec fn stems_requested(&self, before: &App) -> bool {
        match before.playing_path() {
            None => {
                &&& *self == (App { toast_message: self.toast_message, ..*before })
                &&& self.says("Play a track first \u{2014} M splits the playing track"@, true)
            },
            Some(path) => {
                let recipe = recipe_in_use(before.stems.cfg);
                exists|mid: App| #[trigger]
                    mid.recipe_read(before) && if before.has_engine(recipe.driver()) {
                        self.separation_sent(&mid, path, recipe)
                    } else if before.stems.cfg.provision != Some(false) {
                        &&& *self == (App { stems: self.stems, ..mid })
                        &&& self.stems == (StemUi {
                            state: StemState {
                                pending_path: Some(path),
                                consent: self.stems.state.consent,
                                ..before.stems.state
                            },
                            ..before.stems
                        })
                        &&& self.stems.state.consent matches Some(c) && c.package@
                            == before.stems.cfg.package_for(recipe.driver()) && c.gpu == (
                        before.stems.cfg.gpu == Some(true)) && c.engine == recipe.driver()
                    } else {
                        &&& *self == (App { toast_message: self.toast_message, ..mid })
                        &&& self.says(
                            "Stem engine not found \u{2014} set [stems] command in config.toml"@,
                            true,
                        )
                    }
            },
        }
    }

    /// Kick off the stem flow for the currently playing track.
    pub fn request_stems(&mut self)
        requires
            old(self).stems.state.job_gen < u64::MAX,
        ensures
            final(self).stems_requested(old(self)),
            old(self).valid() ==> final(self).valid(),
    {
        let path = match self.playing_track_path() {
            Some(p) => p,
            None => {
                self.set_toast(
                    "Play a track first \u{2014} M splits the playing track".to_owned(),
                    true,
                );
                return;
            },
        };
        let recipe = self.stems_recipe();
        let ghost mid = *self;
        proof {
            assert(mid.recipe_read(old(self)));
        }
        let engine = recipe.engine();
        if self.engine_is_found(engine) {
            self.dispatch_separation(path, recipe);
        } else if self.stems.cfg.auto_provision() {
            self.stems.state.pending_path = Some(path);
            let package = self.stems.cfg.resolved_package(engine);
            let gpu = self.stems.cfg.gpu();
            self.stems.state.consent = Some(StemConsent { package, gpu, engine });
        } else {
            self.set_toast(
                "Stem engine not found \u{2014} set [stems] command in config.toml".to_owned(),
                true,
            );
        }
    }

    /// Stem playback goes back to the original file.
    pub open spec fn stems_left(&self, before: &App) -> bool {
        &&& *self == (App { stems: self.stems, out: self.out, ..*before })
        &&& self.stems == (StemUi { state: self.stems.state, ..before.stems })
        &&& self.stems.state.is_off()
        &&& self.stems.state.keeps_job(&before.stems.state)
        &&& match before.stems.state.for_path {
            Some(path) => {
                &&& self.out == (Outbox {
                    pending_audio_commands: self.out.pending_audio_commands,
                    ..before.out
                })
                &&& self.out.pending_audio_commands@ == before.out.pending_audio_commands@.push(
                    AudioCommand::SwapSource { target: SwapTarget::File { path } },
                )
            },
            None => self.out == before.out,
        }
    }

    /// Swap live stem playback back to the original file.
    pub fn exit_stem_playback(&mut self)
        ensures
            final(self).stems_left(old(self)),
            old(self).valid() ==> final(self).valid(),
    {
        let path = self.stems.state.for_path.clone();
        if let Some(path) = path {
            self.out.pending_audio_commands.push(
                AudioCommand::SwapSource { target: SwapTarget::File { path } },
            );
        }
        self.stems.state.reset();
    }

    /// The job in flight was cancelled; what it still reports is stale.
    pub open spec fn job_cancelled(&self, before: &App) -> bool {
        &&& *self == (App {
            stems: self.stems,
            out: self.out,
            toast_message: self.toast_message,
            ..*before
        })
        &&& self.stems == (StemUi { state: self.stems.state, ..before.stems })
        &&& self.stems.state.is_off()
        &&& self.stems.state.pending_path is None
        &&& self.stems.state.consent == before.stems.state.consent
        &&& self.stems.state.job_gen == before.stems.state.job_gen + 1
        &&& self.out.sends(&before.out)
        &&& self.out.pending_bg_commands@.last() == BgCommand::CancelSeparation
        &&& self.says("Stem job cancelled"@, false)
    }

    /// What the stem key does.
    pub open spec fn split_pressed(&self, before: &App) -> bool {
        match before.stems.state.status {
            StemStatus::Active => self.stems_left(before),
            StemStatus::Off => self.stems_requested(before),
            _ => self.job_cancelled(before),
        }
    }

    /// The stem-mode entry point. Cycles by current status: off, request stems;
    /// provisioning or separating, cancel the job; active, back to the original
    /// file.
    pub fn press_stem_mode(&mut self)
        requires
            old(self).stems.state.job_gen < u64::MAX,
        ensures
            final(self).split_pressed(old(self)),
            old(self).valid() ==> final(self).valid(),
    {
        match self.stems.state.status {
            StemStatus::Active => {
                self.exit_stem_playback();
            },
            StemStatus::Off => {
                self.request_stems();
            },
            _ => {
                self.send_bg(BgCommand::CancelSeparation);
                self.stems.state.job_gen = self.stems.state.job_gen + 1;
                self.stems.state.reset();
                self.stems.state.pending_path = None;
                self.set_toast("Stem job cancelled".to_owned(), false);
            },
        }
    }

    /// A stem was switched, where stem playback has it.
    pub open spec fn stem_switched(&self, before: &App, index: int) -> bool {
        let st = before.stems.state;
        if st.status == StemStatus::Active && (st.layout matches Some(l) && index < l.size()) {
            let on = !st.enabled@[index];
            &&& *self == (App { stems: self.stems, ..*before })
            &&& self.stems == (StemUi { state: self.stems.state, ..before.stems })
            &&& self.stems.state == (StemState {
                enabled: self.stems.state.enabled,
                gains: self.stems.state.gains,
                ..st
            })
            &&& self.stems.state.enabled@ == st.enabled@.update(index, on)
            &&& match st.gains {
                Some(g) => self.stems.state.gains matches Some(h) && h.levels@ == if index
                    < g.levels@.len() {
                    g.levels@.update(index, on)
                } else {
                    g.levels@
                },
                None => self.stems.state.gains is None,
            }
        } else {
            *self == *before
        }
    }

    /// Toggle stem `index` (0-based) while stem playback is active. Bounded by
    /// the active layout.
    pub fn toggle_stem(&mut self, index: usize)
        ensures
            final(self).stem_switched(old(self), index as int),
            old(self).valid() ==> final(self).valid(),
    {
        let stem_count: usize = match self.stems.state.layout {
            Some(l) => l.len(),
            None => 0,
        };
        let active = match self.stems.state.status {
            StemStatus::Active => true,
            _ => false,
        };
        if !active || index >= stem_count {
            return;
        }
        let on = !self.stems.state.enabled[index];
        self.stems.state.enabled[index] = on;
        if let Some(g) = &mut self.stems.state.gains {
            if index < g.levels.len() {
                g.levels[index] = on;
            }
        }
    }

    /// The stem state let go of a track that is no longer playing.
    pub open spec fn stems_let_go(&self, before: &App) -> bool {
        let st = before.stems.state;
        let now = self.stems.state;
        &&& *self == (App { stems: self.stems, sync: self.sync, ..*before })
        &&& self.stems == (StemUi { state: now, ..before.stems })
        &&& self.sync == (SyncState { log: self.sync.log, ..before.sync })
        &&& now.pending_path is None
        &&& now.consent is None
        &&& match st.status {
            StemStatus::Provisioning => now == (StemState {
                pending_path: None,
                consent: None,
                ..st
            }),
            StemStatus::Separating { .. } => now.is_off() && now.job_gen == st.job_gen + 1,
            _ => now.is_off() && now.job_gen == st.job_gen,
        }
        &&& match (st.status, st.for_path) {
            (StemStatus::Separating { .. }, Some(path)) => logs(
                before.sync.log@,
                self.sync.log@,
                "[stems] track changed \u{2014} separation of "@ + path@
                    + " continues in the background and will be cached"@,
            ),
            _ => self.sync.log == before.sync.log,
        }
    }

    /// Stems are per-track: any track transition drops stem playback, closes a
    /// pending consent overlay, and detaches (does not cancel) a separation in
    /// flight. An engine install keeps its status; only its target goes.
    pub fn reset_stems_for_track_change(&mut self)
        requires
            old(self).stems.state.can_let_go(),
        ensures
            final(self).stems_let_go(old(self)),
            old(self).valid() ==> final(self).valid(),
    {
        match self.stems.state.status {
            StemStatus::Separating { .. } => {
                self.stems.state.job_gen = self.stems.state.job_gen + 1;
                let line: Option<String> = match &self.stems.state.for_path {
                    Some(path) => Some(
                        concat3(
                            "[stems] track changed \u{2014} separation of ",
                            path.as_str(),
                            " continues in the background and will be cached",
                        ),
                    ),
                    None => None,
                };
                if let Some(line) = line {
                    self.push_log(line);
                }
                self.stems.state.reset();
            },
            StemStatus::Provisioning => {},
            _ => {
                self.stems.state.reset();
            },
        }
        self.stems.state.pending_path = None;
        self.stems.state.consent = None;
    }

    // -- Settings panel --
    /// The panel as it opens.
    pub open spec fn panel_opened(&self, before: &App) -> bool {
        exists|mid: App| #[trigger]
            mid.recipe_read(before) && *self == (App { stems: self.stems, ..mid }) && self.stems == (
            StemUi {
                panel: Some(
                    StemPanel {
                        selected: recipe_in_use(before.stems.cfg).row() as usize,
                        confirm_uninstall: false,
                        confirm_clear_cache: false,
                        demucs: before.host.demucs,
                        audio_separator: before.host.audio_separator,
                        stems_cache_bytes: if before.stems.cfg.cache_root() is Some {
                            before.host.stems_cache_bytes
                        } else {
                            0
                        },
                        models_cache_bytes: before.host.models_cache_bytes,
                        stems_cache_path: before.stems.cfg.cache_root(),
                    },
                ),
                ..before.stems
            })
    }

    /// Open the settings panel: engines and cache sizes as of now.
    pub fn open_stem_panel(&mut self)
        ensures
            final(self).panel_opened(old(self)),
            old(self).valid() ==> final(self).valid(),
    {
        let recipe = self.stems_recipe();
        let ghost mid = *self;
        proof {
            assert(mid.recipe_read(old(self)));
        }
        let selected = recipe.index();
        let stems_cache_path = self.stems.cfg.stem_cache_dir();
        let stems_cache_bytes: u64 = if stems_cache_path.is_some() {
            self.host.stems_cache_bytes
        } else {
            0
        };
        let demucs: Option<FoundEngine> = self.host.demucs.clone();
        let audio_separator: Option<FoundEngine> = self.host.audio_separator.clone();
        self.stems.panel = Some(
            StemPanel {
                selected,
                confirm_uninstall: false,
                confirm_clear_cache: false,
                demucs,
                audio_separator,
                stems_cache_bytes,
                models_cache_bytes: self.host.models_cache_bytes,
                stems_cache_path,
            },
        );
    }

    /// Another panel state, and nothing else.
    pub open spec fn with_panel(before: App, panel: Option<StemPanel>) -> App {
        App { stems: StemUi { panel, ..before.stems }, ..before }
    }

    /// Move the recipe selection, wrapping.
    pub fn stem_panel_move(&mut self, delta: isize)
        requires
            old(self).stems.panel matches Some(p) ==> p.selected <= isize::MAX,
        ensures
            *final(self) == match old(self).stems.panel {
                Some(p) => App::with_panel(
                    *old(self),
                    Some(
                        StemPanel {
                            selected: wrapped(p.selected as int, delta as int, RECIPE_COUNT as int) as usize,
                            ..p
                        },
                    ),
                ),
                None => *old(self),
            },
            final(self).stems.valid(),
    {
        if let Some(p) = &mut self.stems.panel {
            p.selected = wrap_index(p.selected, delta, RECIPE_COUNT);
        }
    }

    /// The selected recipe was taken over and the panel closed.
    pub open spec fn recipe_chosen(&self, before: &App) -> bool {
        match before.stems.panel {
            None => *self == *before,
            Some(p) => {
                let recipe = recipe_at(p.selected as int);
                &&& *self == (App {
                    stems: self.stems,
                    toast_message: self.toast_message,
                    ..*before
                })
                &&& self.stems == (StemUi {
                    panel: None,
                    cfg: StemsConfig { recipe: self.stems.cfg.recipe, ..before.stems.cfg },
                    ..before.stems
                })
                &&& self.stems.cfg.recipe matches Some(r) && r@ == recipe.text()
                &&& self.says(
                    "Stem recipe: "@ + recipe.text() + " (takes effect on next M)"@,
                    false,
                )
            },
        }
    }

    /// In-memory half of `stem_panel_confirm`: applies the recipe, closes the
    /// panel, and returns the value to be written to the configuration.
    pub fn stem_panel_confirm_in_memory(&mut self) -> (r: Option<String>)
        requires
            old(self).stems.valid(),
        ensures
            final(self).recipe_chosen(old(self)),
            match old(self).stems.panel {
                Some(p) => r matches Some(v) && v@ == recipe_at(p.selected as int).text(),
                None => r is None,
            },
    {
        let taken = self.stems.panel.take();
        let panel = match taken {
            Some(p) => p,
            None => {
                return None;
            },
        };
        let recipe = RecipeKind::at(panel.selected);
        let value = recipe.config_value().to_owned();
        self.stems.cfg.recipe = Some(value.clone());
        let msg = concat3("Stem recipe: ", value.as_str(), " (takes effect on next M)");
        self.set_toast(msg, false);
        Some(value)
    }

    /// Take over the selected recipe, ask the host to write it, and close the
    /// panel.
    pub fn stem_panel_confirm(&mut self)
        requires
            old(self).stems.valid(),
        ensures
            (App { out: old(self).out, ..*final(self) }).recipe_chosen(old(self)),
            if old(self).stems.panel is Some {
                final(self).out.asks(&old(self).out, HostRequest::SaveStemRecipe)
            } else {
                final(self).out == old(self).out
            },
    {
        let value = self.stem_panel_confirm_in_memory();
        if value.is_some() {
            self.ask_host(HostRequest::SaveStemRecipe);
        }
    }

    /// A stem job is running.
    pub open spec fn job_runs(&self) -> bool {
        self.stems.state.status != StemStatus::Off && self.stems.state.status != StemStatus::Active
    }

    fn job_is_running(&self) -> (r: bool)
        ensures
            r == self.job_runs(),
    {
        match self.stems.state.status {
            StemStatus::Off => false,
            StemStatus::Active => false,
            _ => true,
        }
    }

    /// The engine of the selected recipe, and whether it was found when the
    /// panel opened.
    pub fn stem_panel_selected_engine(&self) -> (r: Option<(EngineKind, Option<FoundEngine>)>)
        requires
            self.stems.valid(),
        ensures
            match self.stems.panel {
                Some(p) => {
                    let engine = recipe_at(p.selected as int).driver();
                    r == Some(
                        (
                            engine,
                            match engine {
                                EngineKind::Demucs => p.demucs,
                                EngineKind::AudioSeparator => p.audio_separator,
                            },
                        ),
                    )
                },
                None => r is None,
            },
    {
        match &self.stems.panel {
            Some(p) => {
                let engine = RecipeKind::at(p.selected).engine();
                let found: Option<FoundEngine> = match engine {
                    EngineKind::Demucs => p.demucs.clone(),
                    EngineKind::AudioSeparator => p.audio_separator.clone(),
                };
                Some((engine, found))
            },
            None => None,
        }
    }

    /// What asking for an uninstall does.
    pub open spec fn uninstall_asked(&self, before: &App) -> bool {
        if before.job_runs() {
            &&& *self == (App { toast_message: self.toast_message, ..*before })
            &&& self.says("A stem job is running \u{2014} cancel it first (M)"@, true)
        } else {
            match before.stems.panel {
                None => *self == *before,
                Some(p) => {
                    let engine = recipe_at(p.selected as int).driver();
                    if p.has_engine(engine) {
                        *self == App::with_panel(
                            *before,
                            Some(StemPanel { confirm_uninstall: true, ..p }),
                        )
                    } else {
                        &&& *self == (App { toast_message: self.toast_message, ..*before })
                        &&& self.says(engine.exe() + " is not installed"@, true)
                    }
                },
            }
        }
    }

    /// Open the destructive uninstall confirmation for the selected recipe's
    /// engine. Refused while a stem job is running or when the engine isn't
    /// installed.
    pub fn stem_panel_request_uninstall(&mut self)
        requires
            old(self).stems.valid(),
        ensures
            final(self).uninstall_asked(old(self)),
    {
        if self.job_is_running() {
            self.set_toast("A stem job is running \u{2014} cancel it first (M)".to_owned(), true);
            return;
        }
        match self.stem_panel_selected_engine() {
            None => {},
            Some(pair) => {
                if pair.1.is_none() {
                    let msg = crate::format::concat2(pair.0.exe_name(), " is not installed");
                    self.set_toast(msg, true);
                } else if let Some(p) = &mut self.stems.panel {
                    p.confirm_uninstall = true;
                }
            },
        }
    }

    /// The uninstall was dispatched and the panel closed.
    pub open spec fn uninstall_sent(&self, before: &App, evict_stems: bool) -> bool {
        match before.stems.panel {
            None => *self == *before,
            Some(p) => {
                let e = recipe_at(p.selected as int).driver();
                &&& *self == (App {
                    out: self.out,
                    toast_message: self.toast_message,
                    ..App::with_panel(*before, None)
                })
                &&& self.out.sends(&before.out)
                &&& match self.out.pending_bg_commands@.last() {
                    BgCommand::UninstallStemEngine {
                        engine,
                        package,
                        evict_stems: evict,
                        stem_cache_dir,
                    } => engine == e && package@ == before.stems.cfg.package_for(e) && evict
                        == evict_stems && stem_cache_dir == before.stems.cfg.cache_root(),
                    _ => false,
                }
                &&& self.says("Uninstalling "@ + e.exe() + "\u{2026}"@, false)
            },
        }
    }

    /// Confirmed uninstall: dispatch to the worker and close the panel.
    pub fn stem_panel_uninstall(&mut self, evict_stems: bool)
        requires
            old(self).stems.valid(),
        ensures
            final(self).uninstall_sent(old(self), evict_stems),
    {
        match self.stem_panel_selected_engine() {
            None => {},
            Some(pair) => {
                let engine = pair.0;
                let package = self.stems.cfg.resolved_package(engine);
                let stem_cache_dir = self.stems.cfg.stem_cache_dir();
                self.send_bg(
                    BgCommand::UninstallStemEngine { engine, package, evict_stems, stem_cache_dir },
                );
                self.stems.panel = None;
                let msg = concat3("Uninstalling ", engine.exe_name(), "\u{2026}");
                self.set_toast(msg, false);
            },
        }
    }

    /// The size of the stem cache now.
    pub open spec fn cache_size(&self) -> u64 {
        if self.stems.cfg.cache_root() is Some {
            self.host.stems_cache_bytes
        } else {
            0
        }
    }

    /// What asking to clear the stem cache does.
    pub open spec fn clear_asked(&self, before: &App) -> bool {
        if before.job_runs() {
            &&& *self == (App { toast_message: self.toast_message, ..*before })
            &&& self.says("A stem job is running \u{2014} cancel it first (M)"@, true)
        } else if before.cache_size() == 0 {
            &&& *self == (App { toast_message: self.toast_message, ..*before })
            &&& self.says("Stem cache is already empty"@, false)
        } else {
            *self == match before.stems.panel {
                Some(p) => App::with_panel(
                    *before,
                    Some(
                        StemPanel {
                            stems_cache_bytes: before.cache_size(),
                            confirm_clear_cache: true,
                            ..p
                        },
                    ),
                ),
                None => *before,
            }
        }
    }

    /// Arm the stem-cache clear confirmation. Refused while a stem job is
    /// running; the size is read now, not when the panel opened.
    pub fn stem_panel_request_clear_cache(&mut self)
        ensures
            final(self).clear_asked(old(self)),
            old(self).valid() ==> final(self).valid(),
    {
        if self.job_is_running() {
            self.set_toast("A stem job is running \u{2014} cancel it first (M)".to_owned(), true);
            return;
        }
        let bytes: u64 = if self.stems.cfg.stem_cache_dir().is_some() {
            self.host.stems_cache_bytes
        } else {
            0
        };
        if bytes == 0 {
            self.set_toast("Stem cache is already empty".to_owned(), false);
            return;
        }
        if let Some(p) = &mut self.stems.panel {
            p.stems_cache_bytes = bytes;
            p.confirm_clear_cache = true;
        }
    }

    /// Confirmed stem-cache clear: dispatch to the worker and close the panel.
    /// The engine is left untouched.
    pub fn stem_panel_clear_cache(&mut self)
        ensures
            *final(self) == (App {
                out: final(self).out,
                toast_message: final(self).toast_message,
                ..App::with_panel(*old(self), None)
            }),
            final(self).out.sends(&old(self).out),
            final(self).out.pending_bg_commands@.last() == (BgCommand::ClearStemCache {
                cache_dir: old(self).stems.cfg.cache_root(),
            }),
            final(self).says("Clearing stem cache\u{2026}"@, false),
            old(self).valid() ==> final(self).valid(),
    {
        let cache_dir = self.stems.cfg.stem_cache_dir();
        self.send_bg(BgCommand::ClearStemCache { cache_dir });
        self.stems.panel = None;
        self.set_toast("Clearing stem cache\u{2026}".to_owned(), false);
    }
}

impl StemState {
    /// The modal, the pending target and the job identity are those of before.
    pub open spec fn keeps_job(&self, before: &StemState) -> bool {
        &&& self.pending_path == before.pending_path
        &&& self.consent == before.consent
        &&& self.job_gen == before.job_gen
    }
}

/// A batch that was set aside for an interactive job goes on, once no job is in
/// flight, with the album, the tracks, the recipe and the tally that it had.
pub proof fn set_aside_batches_go_on(before: App, aside: App, idle: App, after: App)
    requires
        before.stems.batch is Some,
        aside.batch_set_aside(&before),
        idle.stems.batch == aside.stems.batch,
        idle.stems.batch_gen < u64::MAX,
        idle.batch_can_resume(),
        after.batch_resumed(&idle),
    ensures
        ({
            let b = before.stems.batch->0;
            let a = after.stems.batch->0;
            &&& after.stems.batch is Some
            &&& !a.suspended
            &&& a.gen == idle.stems.batch_gen + 1
            &&& a.album == b.album
            &&& a.track_paths@ == b.track_paths@
            &&& a.recipe == b.recipe
            &&& a.separated_so_far == b.separated_so_far
            &&& is_batch(
                after.out.pending_bg_commands@.last(),
                a.gen,
                texts(b.track_paths@),
                b.recipe,
                idle.stems.cfg,
            )
        }),
{
}

/// Every dispatch and every cancel of a stem job gives it an identity that no
/// job had before, so what an earlier job still reports is told apart.
pub proof fn stem_jobs_are_told_apart(before: App, after: App)
    requires
        before.stems.state.job_gen < u64::MAX,
        after.separation_sent(&before, before.playing_path()->0, recipe_in_use(before.stems.cfg))
            || after.job_cancelled(&before),
    ensures
        after.stems.state.job_gen > before.stems.state.job_gen,
{
}

} // verus!
