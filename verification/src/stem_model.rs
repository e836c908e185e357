//! Stem separation: engines, recipes, configuration and the state of a split.
use vstd::prelude::*;
use crate::text::str_eq;
use crate::types::StemStatus;

verus! {

/// The programs that can separate a track into stems.
#[derive(Debug, Clone, Copy, PartialEq, Eq, Structural)]
pub enum EngineKind {
    Demucs,
    AudioSeparator,
}

/// The recipes, in the order in which the settings panel lists them.
#[derive(Debug, Clone, Copy, PartialEq, Eq, Structural)]
pub enum RecipeKind {
    Demucs,
    Hq,
    Harmony,
}

/// How an engine was found.
#[derive(Debug, Clone, Copy, PartialEq, Eq, Structural)]
pub enum EngineSource {
    Explicit,
    PathEnv,
    Managed,
}

/// The stems of a split, in the order of the digit keys.
#[derive(Debug, Clone, Copy, PartialEq, Eq, Structural)]
pub enum StemLayout {
    Six,
    Harmony,
}

pub const RECIPE_COUNT: usize = 3;

/// Estimated bytes that one separated track adds to the stem cache.
pub const EST_STEM_BYTES_PER_TRACK: u64 = 157286400;

impl EngineKind {
    pub open spec fn exe(self) -> Seq<char> {
        match self {
            EngineKind::Demucs => "demucs"@,
            EngineKind::AudioSeparator => "audio-separator"@,
        }
    }

    /// The name of the engine's binary.
    pub fn exe_name(self) -> (r: &'static str)
        ensures
            r@ == self.exe(),
    {
        match self {
            EngineKind::Demucs => "demucs",
            EngineKind::AudioSeparator => "audio-separator",
        }
    }

    pub open spec fn package(self, gpu: bool) -> Seq<char> {
        match self {
            EngineKind::Demucs => "demucs"@,
            EngineKind::AudioSeparator => if gpu {
                "audio-separator[gpu]"@
            } else {
                "audio-separator[cpu]"@
            },
        }
    }

    /// The package that an install provisions.
    pub fn default_package(self, gpu: bool) -> (r: &'static str)
        ensures
            r@ == self.package(gpu),
    {
        match self {
            EngineKind::Demucs => "demucs",
            EngineKind::AudioSeparator => if gpu {
                "audio-separator[gpu]"
            } else {
                "audio-separator[cpu]"
            },
        }
    }
}

/// The recipe that a row of the settings panel stands for.
pub open spec fn recipe_at(i: int) -> RecipeKind {
    if i == 0 {
        RecipeKind::Demucs
    } else if i == 1 {
        RecipeKind::Hq
    } else {
        RecipeKind::Harmony
    }
}

/// The recipe that a configured name stands for.
pub open spec fn recipe_named(s: Seq<char>) -> Option<RecipeKind> {
    if s == "demucs"@ {
        Some(RecipeKind::Demucs)
    } else if s == "hq"@ {
        Some(RecipeKind::Hq)
    } else if s == "harmony"@ {
        Some(RecipeKind::Harmony)
    } else {
        None
    }
}

impl RecipeKind {
    pub open spec fn row(self) -> int {
        match self {
            RecipeKind::Demucs => 0,
            RecipeKind::Hq => 1,
            RecipeKind::Harmony => 2,
        }
    }

    /// The row of the settings panel that lists the recipe.
    pub fn index(self) -> (r: usize)
        ensures
            r == self.row(),
            r < RECIPE_COUNT,
            recipe_at(r as int) == self,
    {
        match self {
            RecipeKind::Demucs => 0,
            RecipeKind::Hq => 1,
            RecipeKind::Harmony => 2,
        }
    }

    /// The recipe of a row.
    pub fn at(i: usize) -> (r: RecipeKind)
        ensures
            r == recipe_at(i as int),
    {
        if i == 0 {
            RecipeKind::Demucs
        } else if i == 1 {
            RecipeKind::Hq
        } else {
            RecipeKind::Harmony
        }
    }

    pub open spec fn text(self) -> Seq<char> {
        match self {
            RecipeKind::Demucs => "demucs"@,
            RecipeKind::Hq => "hq"@,
            RecipeKind::Harmony => "harmony"@,
        }
    }

    /// The recipe's name in the configuration.
    pub fn config_value(self) -> (r: &'static str)
        ensures
            r@ == self.text(),
    {
        match self {
            RecipeKind::Demucs => "demucs",
            RecipeKind::Hq => "hq",
            RecipeKind::Harmony => "harmony",
        }
    }

    pub open spec fn driver(self) -> EngineKind {
        match self {
            RecipeKind::Demucs => EngineKind::Demucs,
            RecipeKind::Hq => EngineKind::AudioSeparator,
            RecipeKind::Harmony => EngineKind::AudioSeparator,
        }
    }

    /// The engine that runs the recipe.
    pub fn engine(self) -> (r: EngineKind)
        ensures
            r == self.driver(),
    {
        match self {
            RecipeKind::Demucs => EngineKind::Demucs,
            RecipeKind::Hq => EngineKind::AudioSeparator,
            RecipeKind::Harmony => EngineKind::AudioSeparator,
        }
    }
}

/// The recipe that the configured name of a recipe stands for is that recipe.
pub proof fn recipe_name_round_trip(recipe: RecipeKind)
    ensures
        recipe_named(recipe.text()) == Some(recipe),
{
    reveal_strlit("demucs");
    reveal_strlit("hq");
    reveal_strlit("harmony");
    assert("demucs"@[0] == 'd');
    assert("hq"@.len() == 2 && "demucs"@.len() == 6 && "harmony"@.len() == 7);
}

impl StemLayout {
    pub open spec fn size(self) -> nat {
        match self {
            StemLayout::Six => 6,
            StemLayout::Harmony => 7,
        }
    }

    /// How many stems the layout has.
    pub fn len(self) -> (r: usize)
        ensures
            r == self.size(),
    {
        match self {
            StemLayout::Six => 6,
            StemLayout::Harmony => 7,
        }
    }
}

/// The `[stems]` table of the configuration.
#[derive(Debug, Default)]
pub struct StemsConfig {
    /// Path of the engine binary, where one is set.
    pub command: Option<String>,
    pub recipe: Option<String>,
    pub model: Option<String>,
    pub cache_max_gb: Option<u32>,
    pub cache_dir: Option<String>,
    /// Where stems are cached when no directory is set.
    pub default_cache_dir: Option<String>,
    pub package: Option<String>,
    pub gpu: Option<bool>,
    /// Whether a missing engine may be installed on request.
    pub provision: Option<bool>,
}

impl StemsConfig {
    pub open spec fn model_text(&self) -> Seq<char> {
        match self.model {
            Some(m) => m@,
            None => "htdemucs_6s"@,
        }
    }

    pub fn model(&self) -> (r: String)
        ensures
            r@ == self.model_text(),
    {
        match &self.model {
            Some(m) => m.clone(),
            None => "htdemucs_6s".to_owned(),
        }
    }

    pub open spec fn cache_limit(&self) -> u64 {
        match self.cache_max_gb {
            Some(g) => (g * 1073741824) as u64,
            None => 10737418240,
        }
    }

    /// The limit of the stem cache in bytes.
    pub fn cache_max_bytes(&self) -> (r: u64)
        ensures
            r == self.cache_limit(),
    {
        match self.cache_max_gb {
            Some(g) => (g as u64) * 1073741824,
            None => 10737418240,
        }
    }

    pub open spec fn cache_root(&self) -> Option<String> {
        match self.cache_dir {
            Some(d) => Some(d),
            None => self.default_cache_dir,
        }
    }

    /// The directory that holds separated stems.
    pub fn stem_cache_dir(&self) -> (r: Option<String>)
        ensures
            r == self.cache_root(),
    {
        match &self.cache_dir {
            Some(d) => Some(d.clone()),
            None => self.default_cache_dir.clone(),
        }
    }

    pub open spec fn package_for(&self, engine: EngineKind) -> Seq<char> {
        match self.package {
            Some(p) => p@,
            None => engine.package(self.gpu == Some(true)),
        }
    }

    /// The package that installs an engine.
    pub fn resolved_package(&self, engine: EngineKind) -> (r: String)
        ensures
            r@ == self.package_for(engine),
    {
        match &self.package {
            Some(p) => p.clone(),
            None => engine.default_package(self.gpu()).to_owned(),
        }
    }

    pub fn gpu(&self) -> (r: bool)
        ensures
            r == (self.gpu == Some(true)),
    {
        match self.gpu {
            Some(g) => g,
            None => false,
        }
    }

    /// Whether a missing engine may be installed on request.
    pub fn auto_provision(&self) -> (r: bool)
        ensures
            r == (self.provision != Some(false)),
    {
        match self.provision {
            Some(p) => p,
            None => true,
        }
    }

    /// The configured recipe: demucs where none is set, nothing where the name
    /// is unknown.
    pub open spec fn chosen_recipe(&self) -> Option<RecipeKind> {
        match self.recipe {
            Some(r) => recipe_named(r@),
            None => Some(RecipeKind::Demucs),
        }
    }

    pub fn recipe_kind(&self) -> (r: Option<RecipeKind>)
        ensures
            r == self.chosen_recipe(),
    {
        match &self.recipe {
            Some(name) => {
                if str_eq(name.as_str(), "demucs") {
                    Some(RecipeKind::Demucs)
                } else if str_eq(name.as_str(), "hq") {
                    Some(RecipeKind::Hq)
                } else if str_eq(name.as_str(), "harmony") {
                    Some(RecipeKind::Harmony)
                } else {
                    None
                }
            },
            None => Some(RecipeKind::Demucs),
        }
    }
}

/// Consent overlay payload for the one-time engine install.
#[derive(Debug)]
pub struct StemConsent {
    pub package: String,
    pub gpu: bool,
    /// Which engine the install provisions.
    pub engine: EngineKind,
}

/// An engine binary and how it was found.
#[derive(Debug)]
pub struct FoundEngine {
    pub path: String,
    pub source: EngineSource,
}

impl Clone for FoundEngine {
    fn clone(&self) -> (r: Self)
        ensures
            r == *self,
    {
        FoundEngine { path: self.path.clone(), source: self.source }
    }
}

/// Stem settings panel: recipe picker, engine state, uninstall.
pub struct StemPanel {
    /// Selected row among the recipes.
    pub selected: usize,
    /// `true` while the destructive uninstall confirmation is showing.
    pub confirm_uninstall: bool,
    /// `true` while the stem-cache clear confirmation is showing.
    pub confirm_clear_cache: bool,
    /// Whether each engine was found when the panel opened.
    pub demucs: Option<FoundEngine>,
    pub audio_separator: Option<FoundEngine>,
    /// Size of the stem cache at open time.
    pub stems_cache_bytes: u64,
    /// Size of the model cache at open time.
    pub models_cache_bytes: u64,
    /// Resolved stem-cache directory.
    pub stems_cache_path: Option<String>,
}

impl StemPanel {
    /// The engine was found when the panel opened.
    pub open spec fn has_engine(&self, engine: EngineKind) -> bool {
        match engine {
            EngineKind::Demucs => self.demucs is Some,
            EngineKind::AudioSeparator => self.audio_separator is Some,
        }
    }
}

/// Bulk-separation confirmation modal.
pub struct StemBulkConfirm {
    pub artist: String,
    pub album: String,
    pub track_paths: Vec<String>,
    /// Recipe parsed once when the modal opened.
    pub recipe: RecipeKind,
    /// How many tracks already have a cached entry for the active recipe.
    pub cached: usize,
    /// Estimated new bytes the batch will add to the stem cache.
    pub projected_bytes: u64,
    /// Stem cache size right now.
    pub cache_used_bytes: u64,
    /// The cache limit in bytes.
    pub cap_bytes: u64,
}

/// A running (or suspended) album batch. The full track list is kept so a
/// suspend/resume cycle just re-dispatches it.
pub struct StemBatchState {
    /// Batch generation echoed by the worker's events; stale ones are ignored.
    pub gen: u64,
    pub album: String,
    pub track_paths: Vec<String>,
    /// 1-indexed track the worker is on.
    pub current: usize,
    pub total: usize,
    /// Engine percent within the current track, when the engine emits one.
    pub pct: Option<u8>,
    /// An interactive job superseded the batch; the state survives here and is
    /// dispatched again once the interactive job ends.
    pub suspended: bool,
    /// Recipe the batch started with.
    pub recipe: RecipeKind,
    /// Tracks separated in earlier rounds (before suspends).
    pub separated_so_far: usize,
}

/// Per-stem gain targets: on or off.
#[derive(Debug)]
pub struct StemGains {
    pub levels: Vec<bool>,
}

/// Stem-split playback state.
pub struct StemState {
    pub status: StemStatus,
    /// Gain targets while `Active`.
    pub gains: Option<StemGains>,
    /// Mirror of the gains for rendering the strip.
    pub enabled: [bool; 8],
    /// The layout of the active set. `None` outside `Active`.
    pub layout: Option<StemLayout>,
    /// Library path of the track the current status refers to.
    pub for_path: Option<String>,
    /// Path awaiting separation once provisioning completes.
    pub pending_path: Option<String>,
    /// Engine-install consent overlay; `Some` = modal open.
    pub consent: Option<StemConsent>,
    /// Monotonic job identity. Bumped on every dispatch and every cancel;
    /// events of any other job are ignored. Never cleared by `reset`.
    pub job_gen: u64,
}

/// Every stem switched on.
pub open spec fn all_on(enabled: [bool; 8]) -> bool {
    enabled@ == Seq::new(8, |i: int| true)
}

impl StemState {
    /// A separation in flight can be told apart from whatever comes after it.
    pub open spec fn can_let_go(&self) -> bool {
        self.status is Separating ==> self.job_gen < u64::MAX
    }

    /// No split, with the given modal and job identity.
    pub open spec fn is_off(&self) -> bool {
        &&& self.status == StemStatus::Off
        &&& self.gains is None
        &&& all_on(self.enabled)
        &&& self.layout is None
        &&& self.for_path is None
    }

    pub fn new() -> (r: Self)
        ensures
            r.is_off(),
            r.pending_path is None,
            r.consent is None,
            r.job_gen == 0,
    {
        let r = StemState {
            status: StemStatus::Off,
            gains: None,
            enabled: [true; 8],
            layout: None,
            for_path: None,
            pending_path: None,
            consent: None,
            job_gen: 0,
        };
        proof {
            assert(r.enabled@ =~= Seq::new(8, |i: int| true));
        }
        r
    }

    /// Back to Off, dropping playback/gain state but leaving any open consent
    /// overlay alone (the caller decides that separately).
    pub fn reset(&mut self)
        ensures
            final(self).is_off(),
            *final(self) == (StemState {
                pending_path: old(self).pending_path,
                consent: old(self).consent,
                job_gen: old(self).job_gen,
                ..*final(self)
            }),
    {
        self.status = StemStatus::Off;
        self.gains = None;
        self.enabled = [true; 8];
        self.layout = None;
        self.for_path = None;
        proof {
            assert(self.enabled@ =~= Seq::new(8, |i: int| true));
        }
    }
}

} // verus!
