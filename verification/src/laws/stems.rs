//! Stems: which files are split, by what, and which stems are heard.
use vstd::prelude::*;
use crate::app::splitting::{recipe_in_use, split_count, track_files};
use crate::app::App;
use crate::commands::{AudioCommand, BgCommand, SwapTarget};
use crate::format::texts;
use crate::input::KeyCode;
use crate::model::Track;
use crate::stem_model::{EngineKind, RecipeKind, StemBatchState, StemLayout, StemsConfig};
use crate::types::{SidebarEntry, StemStatus};

verus! {

/// Exactly the files of the tracks that have one are split.
pub proof fn files_of_the_tracks_are_split(tracks: Seq<Track>, f: Seq<char>)
    ensures
        track_files(tracks).len() <= tracks.len(),
        track_files(tracks).contains(f) <==> exists|i: int|
            0 <= i < tracks.len() && (#[trigger] tracks[i]).location is Some && tracks[i].location->0@ == f,
    decreases tracks.len(),
{
    if tracks.len() > 0 {
        let d = tracks.drop_last();
        let t = tracks.last();
        let rest = track_files(d);
        let all = track_files(tracks);
        let last = tracks.len() - 1;
        files_of_the_tracks_are_split(d, f);
        assert(tracks[last] == t);
        if rest.contains(f) {
            assert(all[rest.index_of(f)] == f);
            let i = choose|i: int|
                0 <= i < d.len() && (#[trigger] d[i]).location is Some && d[i].location->0@ == f;
            assert(tracks[i] == d[i]);
        }
        if t.location is Some {
            assert(all[all.len() - 1] == t.location->0@);
        }
        if all.contains(f) && !rest.contains(f) {
            let k = all.index_of(f);
            if k < rest.len() {
                assert(rest[k] == f);
            }
        }
        if exists|i: int|
            0 <= i < tracks.len() && (#[trigger] tracks[i]).location is Some && tracks[i].location->0@ == f {
            let i = choose|i: int|
                0 <= i < tracks.len() && (#[trigger] tracks[i]).location is Some && tracks[i].location->0@
                    == f;
            if i < last {
                assert(d[i] == tracks[i]);
            }
        }
    }
}

/// Files that are split already are counted one by one.
pub proof fn split_files_add_up(paths: Seq<Seq<char>>, split: Seq<Seq<char>>, p: Seq<char>)
    ensures
        split_count(paths.push(p), split) == split_count(paths, split) + if split.contains(p) {
            1nat
        } else {
            0
        },
        split_count(Seq::empty(), split) == 0,
{
    assert(paths.push(p).drop_last() =~= paths);
}

/// Asked about the selected album, the user sees that album, with the files of
/// its tracks in the library, and the recipe that is configured.
pub proof fn the_selected_album_is_asked_about(before: App, after: App, artist: String, album: String, f: Seq<char>)
    requires
        after.album_split_pressed(&before),
        before.stems.batch is None,
        before.library is Some,
        before.nav.sidebar_selected < before.nav.sidebar_items@.len(),
        before.nav.sidebar_items@[before.nav.sidebar_selected as int] == (SidebarEntry::Album {
            artist,
            album,
        }),
        track_files(before.library->0.by_artist_album(artist@, album@)).len() > 0,
    ensures
        after.stems.bulk_confirm is Some,
        ({
            let c = after.stems.bulk_confirm->0;
            let all = before.library->0.tracks@;
            &&& c.artist == artist && c.album == album
            &&& c.recipe == recipe_in_use(before.stems.cfg)
            &&& texts(c.track_paths@).contains(f) <==> exists|i: int|
                0 <= i < all.len() && (#[trigger] all[i]).artist@ == artist@ && all[i].album@ == album@
                    && all[i].location is Some && all[i].location->0@ == f
        }),
{
    let lib = before.library->0;
    let all = lib.tracks@;
    let tracks = lib.by_artist_album(artist@, album@);
    files_of_the_tracks_are_split(tracks, f);
    if track_files(tracks).contains(f) {
        let k = choose|k: int|
            0 <= k < tracks.len() && (#[trigger] tracks[k]).location is Some && tracks[k].location->0@ == f;
        crate::laws::listing::library_queries_find_what_they_name(lib, artist, album, tracks[k]);
        assert(tracks.contains(tracks[k]));
        let i = all.index_of(tracks[k]);
        assert(all[i] == tracks[k]);
    }
    if exists|i: int|
        0 <= i < all.len() && (#[trigger] all[i]).artist@ == artist@ && all[i].album@ == album@
            && all[i].location is Some && all[i].location->0@ == f {
        let i = choose|i: int|
            0 <= i < all.len() && (#[trigger] all[i]).artist@ == artist@ && all[i].album@ == album@
                && all[i].location is Some && all[i].location->0@ == f;
        crate::laws::listing::library_queries_find_what_they_name(lib, artist, album, all[i]);
        assert(all.contains(all[i]));
        let k = tracks.index_of(all[i]);
        assert(tracks[k].location->0@ == f);
    }
}

/// An accepted album is split as it was asked about: its own files, by its own
/// recipe, under a new number.
pub proof fn what_was_accepted_is_split(before: App, after: App)
    requires
        after.bulk_accepted(&before),
        before.stems.bulk_confirm is Some,
        before.has_engine(before.stems.bulk_confirm->0.recipe.driver()),
        before.stems.batch_gen < u64::MAX,
    ensures
        after.stems.bulk_confirm is None,
        after.stems.batch is Some,
        after.stems.batch->0.album == before.stems.bulk_confirm->0.album,
        after.stems.batch->0.track_paths@ == before.stems.bulk_confirm->0.track_paths@,
        after.stems.batch->0.recipe == before.stems.bulk_confirm->0.recipe,
        after.stems.batch->0.gen == before.stems.batch_gen + 1,
        !after.stems.batch->0.suspended,
        after.out.pending_bg_commands@.len() == before.out.pending_bg_commands@.len() + 1,
        after.out.pending_bg_commands@.last() is SeparateStemsBatch,
        texts(after.out.pending_bg_commands@.last()->SeparateStemsBatch_track_paths@) == texts(
            before.stems.bulk_confirm->0.track_paths@,
        ),
        after.out.pending_bg_commands@.last()->SeparateStemsBatch_recipe
            == before.stems.bulk_confirm->0.recipe,
        after.out.pending_bg_commands@.last()->SeparateStemsBatch_gen == after.stems.batch->0.gen,
        before.stems.cfg.model is Some
            ==> after.out.pending_bg_commands@.last()->SeparateStemsBatch_model@
            == before.stems.cfg.model->0@,
        after.out.pending_bg_commands@.last()->SeparateStemsBatch_engine_command
            == before.stems.cfg.command,
        after.out.pending_bg_commands@.last()->SeparateStemsBatch_cache_max_bytes
            == before.stems.cfg.cache_limit(),
{
}

/// A request to split one track names that file, the recipe, and the job that
/// the answer will be held to.
pub proof fn splits_are_of_the_file_asked_for(before: App, after: App, path: String, recipe: RecipeKind)
    requires
        after.separation_sent(&before, path, recipe),
        before.stems.state.job_gen < u64::MAX,
    ensures
        after.out.pending_bg_commands@.last() is SeparateStems,
        after.out.pending_bg_commands@.last()->SeparateStems_track_path@ == path@,
        after.out.pending_bg_commands@.last()->SeparateStems_recipe == recipe,
        after.out.pending_bg_commands@.last()->SeparateStems_gen == after.stems.state.job_gen,
        after.out.pending_bg_commands@.last()->SeparateStems_engine_command == before.stems.cfg.command,
        before.stems.cfg.model is Some ==> after.out.pending_bg_commands@.last()->SeparateStems_model@
            == before.stems.cfg.model->0@,
        after.out.pending_bg_commands@.last()->SeparateStems_cache_max_bytes
            == before.stems.cfg.cache_limit(),
        before.stems.cfg.cache_dir is Some
            ==> after.out.pending_bg_commands@.last()->SeparateStems_cache_dir
            == before.stems.cfg.cache_dir,
        after.stems.state.job_gen == before.stems.state.job_gen + 1,
        after.stems.state.for_path == Some(path),
        after.stems.state.status is Separating,
        before.stems.batch is Some ==> after.stems.batch is Some && after.stems.batch->0.suspended,
{
}

/// The stem key splits the track that plays; where stems play it goes back to the
/// file, and where a job runs it cancels it.
pub proof fn the_stem_key_goes_by_what_runs(before: App, after: App)
    requires
        after.split_pressed(&before),
        before.stems.state.job_gen < u64::MAX,
    ensures
        before.stems.state.status == StemStatus::Active ==> after.stems.state.status == StemStatus::Off
            && after.stems.state.for_path is None,
        before.stems.state.status is Separating ==> after.stems.state.status == StemStatus::Off
            && after.out.pending_bg_commands@.last() == BgCommand::CancelSeparation,
        before.stems.state.status == StemStatus::Off && before.playing_path() is Some
            && before.has_engine(recipe_in_use(before.stems.cfg).driver()) ==> after.stems.state.for_path
            == before.playing_path() && after.out.pending_bg_commands@.last() is SeparateStems,
        before.stems.state.status == StemStatus::Off && before.playing_path() is None ==> after.stems
            == before.stems && after.out == before.out,
{
}

/// The file that plays is that of the row that plays.
pub proof fn the_playing_file_is_that_of_the_row(app: App)
    ensures
        app.player.now_playing is None ==> app.playing_path() is None,
        app.player.now_playing matches Some(np) ==> (np.track_index < np.playlist@.len()
            ==> app.playing_path() == np.playlist@[np.track_index as int].location),
{
}

/// Switching a stem switches that one, in what is shown and in what is heard, and
/// no other.
pub proof fn switching_is_of_one_stem(before: App, after: App, index: int, j: int)
    requires
        after.stem_switched(&before, index),
        before.stems.state.status == StemStatus::Active,
        before.stems.state.layout is Some,
        0 <= index < before.stems.state.layout->0.size(),
        0 <= j < 8,
    ensures
        after.stems.state.enabled@[j] != before.stems.state.enabled@[j] <==> j == index,
        before.stems.state.gains is Some && index < before.stems.state.gains->0.levels@.len()
            ==> after.stems.state.gains is Some && after.stems.state.gains->0.levels@[index]
            == after.stems.state.enabled@[index],
        before.stems.state.gains is Some && j < before.stems.state.gains->0.levels@.len() && j != index
            ==> after.stems.state.gains is Some && after.stems.state.gains->0.levels@[j]
            == before.stems.state.gains->0.levels@[j],
{
}

/// A track change leaves no stems playing and no question open.
pub proof fn track_changes_leave_no_stems(before: App, after: App)
    requires
        after.stems_let_go(&before),
        before.stems.state.can_let_go(),
    ensures
        after.stems.state.consent is None,
        after.stems.state.pending_path is None,
        before.stems.state.status != StemStatus::Provisioning ==> after.stems.state.status
            == StemStatus::Off && after.stems.state.for_path is None,
        before.stems.state.status is Separating ==> after.stems.state.job_gen
            > before.stems.state.job_gen,
        after.out == before.out,
{
}

/// A suspended batch goes on with what it had, once nothing else is split.
pub proof fn batches_go_on_with_what_they_had(before: App, after: App, b: StemBatchState)
    requires
        after.batch_resumed(&before),
        before.stems.batch == Some(b),
        b.suspended,
        before.stems.state.status == StemStatus::Off || before.stems.state.status
            == StemStatus::Active,
        before.stems.batch_gen < u64::MAX,
    ensures
        after.stems.batch is Some,
        after.stems.batch->0.album == b.album,
        after.stems.batch->0.track_paths@ == b.track_paths@,
        after.stems.batch->0.recipe == b.recipe,
        !after.stems.batch->0.suspended,
        after.out.pending_bg_commands@.last() is SeparateStemsBatch,
{
}

/// While something is split, a suspended batch waits.
pub proof fn batches_wait_for_the_split(before: App, after: App)
    requires
        after.batch_resumed(&before),
        before.stems.state.status is Separating || before.stems.state.status == StemStatus::Provisioning,
    ensures
        after == before,
{
}

/// The recipe in use is the configured one; without one, or with one that does
/// not exist, it is the plain one. Each is run by its own engine.
pub proof fn recipes_are_those_configured(cfg: StemsConfig)
    ensures
        cfg.recipe is None ==> recipe_in_use(cfg) == RecipeKind::Demucs,
        cfg.recipe matches Some(r) ==> {
            &&& r@ == "demucs"@ ==> recipe_in_use(cfg) == RecipeKind::Demucs
            &&& recipe_in_use(cfg) == RecipeKind::Hq ==> r@ == "hq"@
            &&& recipe_in_use(cfg) == RecipeKind::Harmony ==> r@ == "harmony"@
        },
        RecipeKind::Demucs.driver() == EngineKind::Demucs,
        RecipeKind::Hq.driver() == EngineKind::AudioSeparator,
        RecipeKind::Harmony.driver() == EngineKind::AudioSeparator,
{
}

/// A configured limit of the cache is in gigabytes; without one it is ten.
pub proof fn cache_limits_are_in_gigabytes(cfg: StemsConfig)
    ensures
        cfg.cache_max_gb is None ==> cfg.cache_limit() == 10 * (1024 * 1024 * 1024),
        cfg.cache_max_gb is Some && cfg.cache_max_gb->0 * (1024 * 1024 * 1024) <= u64::MAX ==> cfg.cache_limit()
            == cfg.cache_max_gb->0 * (1024 * 1024 * 1024),
        cfg.cache_dir is Some ==> cfg.cache_root() == cfg.cache_dir,
        cfg.cache_dir is None ==> cfg.cache_root() == cfg.default_cache_dir,
{
}

/// Where the engine of the recipe is missing, the user is asked about that engine,
/// and the file that plays is kept for later; nothing is sent.
pub proof fn missing_engines_are_asked_about(before: App, after: App)
    requires
        after.stems_requested(&before),
        before.playing_path() is Some,
        !before.has_engine(recipe_in_use(before.stems.cfg).driver()),
        before.stems.cfg.provision != Some(false),
    ensures
        after.out == before.out,
        after.stems.state.pending_path == before.playing_path(),
        after.stems.state.consent is Some,
        after.stems.state.consent->0.engine == recipe_in_use(before.stems.cfg).driver(),
        after.stems.state.consent->0.gpu == (before.stems.cfg.gpu == Some(true)),
        before.stems.cfg.package is Some ==> after.stems.state.consent->0.package@
            == before.stems.cfg.package->0@,
{
}

/// Leaving the stems goes back to the file that they are of.
pub proof fn leaving_stems_goes_back_to_the_file(before: App, after: App)
    requires
        after.stems_left(&before),
        before.stems.state.for_path is Some,
    ensures
        after.out.pending_audio_commands@ == before.out.pending_audio_commands@.push(
            AudioCommand::SwapSource {
                target: SwapTarget::File { path: before.stems.state.for_path->0 },
            },
        ),
        after.stems.state.status == StemStatus::Off,
        after.stems.state.gains is None,
        forall|i: int| 0 <= i < 8 ==> #[trigger] after.stems.state.enabled@[i],
{
}

/// The recipe under the cursor of the panel becomes the one that is configured,
/// under a name that stands for it.
pub proof fn the_chosen_recipe_is_configured(before: App, after: App)
    requires
        after.recipe_chosen(&before),
        before.stems.panel is Some,
        before.stems.panel->0.selected < 3,
    ensures
        after.stems.panel is None,
        recipe_in_use(after.stems.cfg).row() == before.stems.panel->0.selected,
        after.stems.cfg.command == before.stems.cfg.command,
        after.stems.cfg.cache_dir == before.stems.cfg.cache_dir,
{
    crate::stem_model::recipe_name_round_trip(
        crate::stem_model::recipe_at(before.stems.panel->0.selected as int),
    );
}

/// The panel opens on the recipe in use.
pub proof fn the_panel_opens_on_the_recipe(before: App, after: App)
    requires
        after.panel_opened(&before),
    ensures
        after.stems.panel is Some,
        after.stems.panel->0.selected == recipe_in_use(before.stems.cfg).row(),
        !after.stems.panel->0.confirm_uninstall && !after.stems.panel->0.confirm_clear_cache,
        after.stems.panel->0.demucs == before.host.demucs,
        after.stems.panel->0.audio_separator == before.host.audio_separator,
{
}

/// An engine is uninstalled only after a question, which is put only where the
/// engine is there and no job runs; the stems go only where that was said.
pub proof fn engines_go_only_when_asked_for(
    before: App,
    asked: App,
    plain: App,
    all: App,
    other: App,
)
    requires
        asked.uninstall_asked(&before),
        before.stems.panel is Some,
        plain.panel_pressed(&asked, KeyCode::Char('y')),
        all.panel_pressed(&asked, KeyCode::Char('Y')),
        other.panel_pressed(&asked, KeyCode::Esc),
        before.has_engine_in_panel(),
        before.stems.state.status == StemStatus::Off,
    ensures
        asked.out == before.out,
        asked.stems.panel is Some && asked.stems.panel->0.confirm_uninstall,
        plain.out.pending_bg_commands@.last() is UninstallStemEngine,
        !plain.out.pending_bg_commands@.last()->UninstallStemEngine_evict_stems,
        all.out.pending_bg_commands@.last() is UninstallStemEngine,
        all.out.pending_bg_commands@.last()->UninstallStemEngine_evict_stems,
        plain.out.pending_bg_commands@.last()->UninstallStemEngine_engine
            == crate::stem_model::recipe_at(before.stems.panel->0.selected as int).driver(),
        other.out == before.out,
{
}

impl App {
    /// The engine of the recipe under the cursor of the panel is there.
    pub open spec fn has_engine_in_panel(&self) -> bool {
        self.stems.panel is Some && match crate::stem_model::recipe_at(
            self.stems.panel->0.selected as int,
        ).driver() {
            EngineKind::Demucs => self.stems.panel->0.demucs is Some,
            EngineKind::AudioSeparator => self.stems.panel->0.audio_separator is Some,
        }
    }
}

/// While a job runs neither an engine nor the cache is taken away.
pub proof fn running_jobs_keep_engine_and_cache(before: App, asked: App, cleared: App)
    requires
        asked.uninstall_asked(&before),
        cleared.clear_asked(&before),
        before.stems.state.status is Separating || before.stems.state.status == StemStatus::Provisioning,
    ensures
        asked.stems == before.stems && asked.out == before.out,
        cleared.stems == before.stems && cleared.out == before.out,
{
}

/// The cache that is cleared is the one that is configured.
pub proof fn the_configured_cache_is_cleared(before: App, after: App)
    requires
        after.cache_clear_sent(&before),
    ensures
        after.out.pending_bg_commands@.len() == before.out.pending_bg_commands@.len() + 1,
        after.out.pending_bg_commands@.last() is ClearStemCache,
        before.stems.cfg.cache_dir is Some
            ==> after.out.pending_bg_commands@.last()->ClearStemCache_cache_dir
            == before.stems.cfg.cache_dir,
        after.stems.panel is None,
{
}

/// Cancelling a batch drops it, and tells the worker where it had begun.
pub proof fn cancelled_batches_are_dropped(before: App, after: App, b: StemBatchState)
    requires
        after.batch_cancelled(&before),
        before.stems.batch == Some(b),
        before.stems.batch_gen < u64::MAX,
    ensures
        after.stems.batch is None,
        after.stems.batch_gen == before.stems.batch_gen + 1,
        b.suspended ==> after.out == before.out,
        !b.suspended ==> after.out.pending_bg_commands@.last() == BgCommand::CancelSeparation,
{
}

/// An album that is asked about is estimated by the files that are not split yet.
pub proof fn estimates_leave_out_what_is_split(before: App, after: App, artist: String, album: String)
    requires
        after.album_split_pressed(&before),
        before.stems.batch is None,
        before.library is Some,
        before.stems.cfg.cache_root() is Some,
        before.nav.sidebar_selected < before.nav.sidebar_items@.len(),
        before.nav.sidebar_items@[before.nav.sidebar_selected as int] == (SidebarEntry::Album {
            artist,
            album,
        }),
        track_files(before.library->0.by_artist_album(artist@, album@)).len() > 0,
        157286400 * track_files(before.library->0.by_artist_album(artist@, album@)).len() <= u64::MAX,
    ensures
        ({
            let c = after.stems.bulk_confirm->0;
            let split = split_count(
                track_files(before.library->0.by_artist_album(artist@, album@)),
                texts(before.host.split_paths@),
            );
            &&& c.cached == split
            &&& c.projected_bytes == 150 * (1024 * 1024) * (c.track_paths@.len() - split)
            &&& c.cache_used_bytes == before.host.stems_used_bytes
        }),
{
    let files = track_files(before.library->0.by_artist_album(artist@, album@));
    split_files_are_some_of_all(files, texts(before.host.split_paths@));
    let c = after.stems.bulk_confirm->0;
    assert(texts(c.track_paths@) == files);
    assert(c.track_paths@.len() == files.len());
    assert(c.track_paths.len() == c.track_paths@.len());
}

proof fn split_files_are_some_of_all(paths: Seq<Seq<char>>, split: Seq<Seq<char>>)
    ensures
        split_count(paths, split) <= paths.len(),
    decreases paths.len(),
{
    if paths.len() > 0 {
        split_files_are_some_of_all(paths.drop_last(), split);
    }
}

/// The package that is installed is the configured one, or else that of the
/// engine: the one for graphics cards only where those are asked for.
pub proof fn packages_are_those_of_the_engine(cfg: StemsConfig, engine: EngineKind)
    ensures
        cfg.package is Some ==> cfg.package_for(engine) == cfg.package->0@,
        cfg.package is None && engine == EngineKind::Demucs ==> cfg.package_for(engine) == "demucs"@,
        cfg.package is None && engine == EngineKind::AudioSeparator && cfg.gpu == Some(true)
            ==> cfg.package_for(engine) == "audio-separator[gpu]"@,
        cfg.package is None && engine == EngineKind::AudioSeparator && cfg.gpu != Some(true)
            ==> cfg.package_for(engine) == "audio-separator[cpu]"@,
{
}

/// The harmony layout has one stem more than the plain one, and no more than can
/// be switched.
pub proof fn layouts_have_their_stems(l: StemLayout)
    ensures
        l == StemLayout::Six ==> l.size() == 6,
        l == StemLayout::Harmony ==> l.size() == 7,
        l.size() <= 8,
{
}

} // verus!
