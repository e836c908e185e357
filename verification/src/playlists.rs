//! Playlists, the form that generates them, and what it asks of the
//! recommender.
use vstd::prelude::*;
use crate::format::{concat2, opt_text};
use crate::library::{first_index, first_index_is, first_index_none};
use crate::text::{is_blank, trim};

verus! {

/// What a generated playlist grows from.
#[derive(Debug, PartialEq, Eq)]
pub enum SeedStrategy {
    TopPlayed { window_days: u32, count: u32 },
    RecentlyPlayed { window_days: u32, count: u32 },
    Track(u64),
    Artist(String),
    Genre(String),
}

impl Clone for SeedStrategy {
    fn clone(&self) -> (r: Self)
        ensures
            r == *self,
    {
        match self {
            SeedStrategy::TopPlayed { window_days, count } => SeedStrategy::TopPlayed {
                window_days: *window_days,
                count: *count,
            },
            SeedStrategy::RecentlyPlayed { window_days, count } => SeedStrategy::RecentlyPlayed {
                window_days: *window_days,
                count: *count,
            },
            SeedStrategy::Track(id) => SeedStrategy::Track(*id),
            SeedStrategy::Artist(a) => SeedStrategy::Artist(a.clone()),
            SeedStrategy::Genre(g) => SeedStrategy::Genre(g.clone()),
        }
    }
}

/// The parameters of a generated playlist. Shares are in percent.
#[derive(Debug, PartialEq, Eq)]
pub struct GenerationParams {
    pub seed_strategy: SeedStrategy,
    pub target_length: u32,
    pub max_per_artist: u32,
    pub max_per_album: u32,
    pub diversity_pct: u32,
    pub novelty_pct: u32,
    pub exclude_on_device: bool,
    pub exclude_track_ids: Vec<u64>,
}

impl Clone for GenerationParams {
    fn clone(&self) -> (r: Self)
        ensures
            r == (GenerationParams { exclude_track_ids: r.exclude_track_ids, ..*self }),
            r.exclude_track_ids@ == self.exclude_track_ids@,
    {
        let r = GenerationParams {
            seed_strategy: self.seed_strategy.clone(),
            target_length: self.target_length,
            max_per_artist: self.max_per_artist,
            max_per_album: self.max_per_album,
            diversity_pct: self.diversity_pct,
            novelty_pct: self.novelty_pct,
            exclude_on_device: self.exclude_on_device,
            exclude_track_ids: self.exclude_track_ids.clone(),
        };
        proof {
            assert(r.exclude_track_ids@ =~= self.exclude_track_ids@);
        }
        r
    }
}

#[derive(Debug, PartialEq, Eq)]
pub enum PlaylistKind {
    Manual,
    Generated { params: GenerationParams, last_generated_ms: u64 },
}

#[derive(Debug, PartialEq, Eq)]
pub struct Playlist {
    pub id: u64,
    pub name: String,
    pub kind: PlaylistKind,
    pub track_ids: Vec<u64>,
    /// Earlier picks, which the next generation drifts away from.
    pub previously_recommended: Vec<u64>,
    pub updated_at_ms: u64,
}

impl Playlist {
    pub open spec fn generated(&self) -> bool {
        self.kind is Generated
    }

    pub fn is_generated(&self) -> (r: bool)
        ensures
            r == self.generated(),
    {
        match &self.kind {
            PlaylistKind::Manual => false,
            PlaylistKind::Generated { .. } => true,
        }
    }

    /// An empty playlist that the user fills. The store gives it its id.
    pub fn new_manual(name: String, now_ms: u64) -> (r: Self)
        ensures
            r.id == 0 && r.name == name,
            r.kind is Manual,
            r.track_ids@.len() == 0,
            r.previously_recommended@.len() == 0,
            r.updated_at_ms == now_ms,
    {
        Playlist {
            id: 0,
            name,
            kind: PlaylistKind::Manual,
            track_ids: Vec::new(),
            previously_recommended: Vec::new(),
            updated_at_ms: now_ms,
        }
    }

    /// A playlist that the recommender filled. The store gives it its id.
    pub fn new_generated(name: String, params: GenerationParams, track_ids: Vec<u64>, now_ms: u64) -> (r:
        Self)
        ensures
            r.id == 0 && r.name == name,
            r.kind == (PlaylistKind::Generated { params, last_generated_ms: now_ms }),
            r.track_ids == track_ids,
            r.previously_recommended@.len() == 0,
            r.updated_at_ms == now_ms,
    {
        Playlist {
            id: 0,
            name,
            kind: PlaylistKind::Generated { params, last_generated_ms: now_ms },
            track_ids,
            previously_recommended: Vec::new(),
            updated_at_ms: now_ms,
        }
    }
}

/// All playlists, in the order in which they were made.
pub struct PlaylistStore {
    pub playlists: Vec<Playlist>,
    pub next_id: u64,
}

/// The position of a playlist.
pub open spec fn playlist_index(s: Seq<Playlist>, id: u64) -> Option<nat> {
    first_index(s, |p: Playlist| p.id == id)
}

impl PlaylistStore {
    /// Ids are given out once: every one in use is below the next.
    pub open spec fn valid(&self) -> bool {
        &&& forall|i: int| 0 <= i < self.playlists@.len() ==> (#[trigger] self.playlists@[i]).id < self.next_id
        &&& forall|i: int, j: int|
            0 <= i < j < self.playlists@.len() ==> (#[trigger] self.playlists@[i]).id != (
            #[trigger] self.playlists@[j]).id
    }

    pub fn new() -> (r: Self)
        ensures
            r.playlists@ == Seq::<Playlist>::empty(),
            r.next_id == 1,
            r.valid(),
    {
        PlaylistStore { playlists: Vec::new(), next_id: 1 }
    }

    pub fn len(&self) -> (n: usize)
        ensures
            n == self.playlists@.len(),
    {
        self.playlists.len()
    }

    pub fn is_empty(&self) -> (r: bool)
        ensures
            r == (self.playlists@.len() == 0),
    {
        self.playlists.len() == 0
    }

    /// The position of a playlist.
    pub fn position(&self, id: u64) -> (r: Option<usize>)
        ensures
            match r {
                Some(i) => i < self.playlists@.len() && self.playlists@[i as int].id == id
                    && playlist_index(self.playlists@, id) == Some(i as nat),
                None => playlist_index(self.playlists@, id) is None && forall|k: int|
                    0 <= k < self.playlists@.len() ==> (#[trigger] self.playlists@[k]).id != id,
            },
    {
        let ghost p = |p: Playlist| p.id == id;
        let mut i: usize = 0;
        while i < self.playlists.len()
            invariant
                i <= self.playlists.len(),
                p == |p: Playlist| p.id == id,
                forall|k: int| 0 <= k < i ==> (#[trigger] self.playlists@[k]).id != id,
            decreases self.playlists.len() - i,
        {
            if self.playlists[i].id == id {
                proof {
                    first_index_is(self.playlists@, p, i as int);
                }
                return Some(i);
            }
            i = i + 1;
        }
        proof {
            first_index_none(self.playlists@, p);
        }
        None
    }

    /// The playlist with an id.
    pub fn get(&self, id: u64) -> (r: Option<&Playlist>)
        ensures
            match playlist_index(self.playlists@, id) {
                Some(i) => r == Some(&self.playlists@[i as int]),
                None => r is None,
            },
    {
        match self.position(id) {
            Some(i) => Some(&self.playlists[i]),
            None => None,
        }
    }

    /// Adds a playlist under a new id.
    pub fn add(&mut self, p: Playlist) -> (id: u64)
        requires
            old(self).next_id < u64::MAX,
        ensures
            id == old(self).next_id,
            final(self).next_id == id + 1,
            final(self).playlists@ == old(self).playlists@.push(Playlist { id, ..p }),
            old(self).valid() ==> final(self).valid(),
    {
        let id: u64 = self.next_id;
        let mut q = p;
        q.id = id;
        self.playlists.push(q);
        self.next_id = id + 1;
        id
    }

    /// Gives a playlist another name. `false` where there is none with the id.
    pub fn rename(&mut self, id: u64, name: &str, now_ms: u64) -> (found: bool)
        ensures
            final(self).next_id == old(self).next_id,
            match playlist_index(old(self).playlists@, id) {
                Some(i) => {
                    &&& found
                    &&& final(self).playlists@ == old(self).playlists@.update(
                        i as int,
                        Playlist {
                            name: final(self).playlists@[i as int].name,
                            updated_at_ms: now_ms,
                            ..old(self).playlists@[i as int]
                        },
                    )
                    &&& final(self).playlists@[i as int].name@ == name@
                },
                None => !found && *final(self) == *old(self),
            },
            old(self).valid() ==> final(self).valid(),
    {
        match self.position(id) {
            Some(i) => {
                let p = &mut self.playlists[i];
                p.name = name.to_owned();
                p.updated_at_ms = now_ms;
                true
            },
            None => false,
        }
    }

    /// Takes out a playlist. `false` where there is none with the id.
    pub fn remove(&mut self, id: u64) -> (found: bool)
        ensures
            final(self).next_id == old(self).next_id,
            match playlist_index(old(self).playlists@, id) {
                Some(i) => found && final(self).playlists@ == old(self).playlists@.remove(i as int),
                None => !found && *final(self) == *old(self),
            },
            old(self).valid() ==> final(self).valid(),
    {
        match self.position(id) {
            Some(i) => {
                let _ = self.playlists.remove(i);
                true
            },
            None => false,
        }
    }

    /// Gives a playlist another pick. What it had recommended so far goes into
    /// the bag that the next pick drifts away from.
    pub fn regenerate(
        &mut self,
        id: u64,
        name: String,
        params: GenerationParams,
        track_ids: Vec<u64>,
        now_ms: u64,
    )
        ensures
            final(self).next_id == old(self).next_id,
            match playlist_index(old(self).playlists@, id) {
                Some(i) => {
                    let before = old(self).playlists@[i as int];
                    let after = final(self).playlists@[i as int];
                    &&& final(self).playlists@ == old(self).playlists@.update(
                        i as int,
                        Playlist {
                            name,
                            kind: PlaylistKind::Generated { params, last_generated_ms: now_ms },
                            track_ids,
                            previously_recommended: after.previously_recommended,
                            updated_at_ms: now_ms,
                            ..before
                        },
                    )
                    &&& after.previously_recommended@ == penalty_bag(before)
                },
                None => *final(self) == *old(self),
            },
            old(self).valid() ==> final(self).valid(),
    {
        match self.position(id) {
            Some(i) => {
                let bag = penalty_ids(&self.playlists[i]);
                let p = &mut self.playlists[i];
                p.previously_recommended = bag;
                p.track_ids = track_ids;
                p.name = name;
                p.kind = PlaylistKind::Generated { params, last_generated_ms: now_ms };
                p.updated_at_ms = now_ms;
            },
            None => {},
        }
    }

    /// Appends a track to a playlist. `false` where the playlist has it, or
    /// where there is no such playlist.
    pub fn add_track(&mut self, id: u64, track_id: u64, now_ms: u64) -> (added: bool)
        ensures
            final(self).next_id == old(self).next_id,
            match playlist_index(old(self).playlists@, id) {
                Some(i) => {
                    let before = old(self).playlists@[i as int];
                    if before.track_ids@.contains(track_id) {
                        !added && *final(self) == *old(self)
                    } else {
                        let after = final(self).playlists@[i as int];
                        &&& added
                        &&& final(self).playlists@ == old(self).playlists@.update(
                            i as int,
                            Playlist { track_ids: after.track_ids, updated_at_ms: now_ms, ..before },
                        )
                        &&& after.track_ids@ == before.track_ids@.push(track_id)
                    }
                },
                None => !added && *final(self) == *old(self),
            },
            old(self).valid() ==> final(self).valid(),
    {
        match self.position(id) {
            Some(i) => {
                if index_of_id(&self.playlists[i].track_ids, track_id).is_some() {
                    return false;
                }
                let p = &mut self.playlists[i];
                p.track_ids.push(track_id);
                p.updated_at_ms = now_ms;
                true
            },
            None => false,
        }
    }

    /// Drops a track from a playlist. `false` where the playlist lacks it, or
    /// where there is no such playlist.
    pub fn remove_track(&mut self, id: u64, track_id: u64, now_ms: u64) -> (removed: bool)
        ensures
            final(self).next_id == old(self).next_id,
            match playlist_index(old(self).playlists@, id) {
                Some(i) => {
                    let before = old(self).playlists@[i as int];
                    if before.track_ids@.contains(track_id) {
                        let after = final(self).playlists@[i as int];
                        &&& removed
                        &&& final(self).playlists@ == old(self).playlists@.update(
                            i as int,
                            Playlist { track_ids: after.track_ids, updated_at_ms: now_ms, ..before },
                        )
                        &&& after.track_ids@ == without_id(before.track_ids@, track_id)
                    } else {
                        !removed && *final(self) == *old(self)
                    }
                },
                None => !removed && *final(self) == *old(self),
            },
            old(self).valid() ==> final(self).valid(),
    {
        match self.position(id) {
            Some(i) => {
                if index_of_id(&self.playlists[i].track_ids, track_id).is_none() {
                    return false;
                }
                let kept = ids_without(&self.playlists[i].track_ids, track_id);
                let p = &mut self.playlists[i];
                p.track_ids = kept;
                p.updated_at_ms = now_ms;
                true
            },
            None => false,
        }
    }
}

/// The ids other than one, in order.
pub open spec fn without_id(s: Seq<u64>, id: u64) -> Seq<u64>
    decreases s.len(),
{
    if s.len() == 0 {
        s
    } else if s.last() == id {
        without_id(s.drop_last(), id)
    } else {
        without_id(s.drop_last(), id).push(s.last())
    }
}

fn index_of_id(ids: &Vec<u64>, id: u64) -> (r: Option<usize>)
    ensures
        r is Some <==> ids@.contains(id),
{
    let mut i: usize = 0;
    while i < ids.len()
        invariant
            i <= ids.len(),
            forall|k: int| 0 <= k < i ==> ids@[k] != id,
        decreases ids.len() - i,
    {
        if ids[i] == id {
            return Some(i);
        }
        i = i + 1;
    }
    None
}

fn ids_without(ids: &Vec<u64>, id: u64) -> (r: Vec<u64>)
    ensures
        r@ == without_id(ids@, id),
{
    let mut r: Vec<u64> = Vec::new();
    let mut i: usize = 0;
    while i < ids.len()
        invariant
            i <= ids.len(),
            r@ == without_id(ids@.take(i as int), id),
        decreases ids.len() - i,
    {
        proof {
            assert(ids@.take(i + 1).drop_last() =~= ids@.take(i as int));
        }
        if ids[i] != id {
            r.push(ids[i]);
        }
        i = i + 1;
    }
    proof {
        assert(ids@.take(ids@.len() as int) =~= ids@);
    }
    r
}

// ---------------------------------------------------------------------------
// The penalty bag of a regeneration
// ---------------------------------------------------------------------------
/// An id put into an ascending list, once.
pub open spec fn insert_id(s: Seq<u64>, id: u64) -> Seq<u64>
    decreases s.len(),
{
    if s.len() == 0 {
        seq![id]
    } else if s.last() < id {
        s.push(id)
    } else if s.last() == id {
        s
    } else {
        insert_id(s.drop_last(), id).push(s.last())
    }
}

/// The ids in ascending order, each once.
pub open spec fn sorted_ids(s: Seq<u64>) -> Seq<u64>
    decreases s.len(),
{
    if s.len() == 0 {
        s
    } else {
        insert_id(sorted_ids(s.drop_last()), s.last())
    }
}

/// Ids in strictly ascending order.
pub open spec fn ids_ascend(s: Seq<u64>) -> bool {
    forall|i: int, j: int| 0 <= i < j < s.len() ==> s[i] < s[j]
}

proof fn insert_id_facts(s: Seq<u64>, id: u64)
    requires
        ids_ascend(s),
    ensures
        ids_ascend(insert_id(s, id)),
        forall|x: u64| #[trigger] insert_id(s, id).contains(x) <==> x == id || s.contains(x),
    decreases s.len(),
{
    let r = insert_id(s, id);
    if s.len() == 0 {
        assert(r[0] == id);
        assert forall|x: u64| #[trigger] r.contains(x) <==> x == id || s.contains(x) by {
            if x == id {
                assert(r[0] == x);
            }
        }
    } else if s.last() < id {
        assert forall|x: u64| #[trigger] r.contains(x) <==> x == id || s.contains(x) by {
            if x == id {
                assert(r[r.len() - 1] == x);
            }
            if s.contains(x) {
                let k = s.index_of(x);
                assert(r[k] == x);
            }
        }
    } else if s.last() == id {
        assert(s[s.len() - 1] == id);
    } else {
        let d = s.drop_last();
        insert_id_facts(d, id);
        let t = insert_id(d, id);
        assert forall|i: int| 0 <= i < t.len() implies t[i] < s.last() by {
            assert(t.contains(t[i]));
            if t[i] != id {
                let k = d.index_of(t[i]);
                assert(s[k] < s[s.len() - 1]);
            }
        }
        assert forall|x: u64| #[trigger] r.contains(x) <==> x == id || s.contains(x) by {
            if r.contains(x) {
                let k = r.index_of(x);
                if k < t.len() {
                    assert(t[k] == x);
                    assert(t.contains(x));
                    if x != id {
                        let q = d.index_of(x);
                        assert(s[q] == x);
                    }
                } else {
                    assert(s[s.len() - 1] == x);
                }
            }
            if x == id || s.contains(x) {
                if x == id {
                    assert(t.contains(x));
                    let q = t.index_of(x);
                    assert(r[q] == x);
                } else {
                    let k = s.index_of(x);
                    if k < d.len() {
                        assert(d[k] == x);
                        assert(d.contains(x));
                        assert(t.contains(x));
                        let q = t.index_of(x);
                        assert(r[q] == x);
                    } else {
                        assert(r[r.len() - 1] == x);
                    }
                }
            }
        }
    }
}

/// Sorting ids keeps each of them, once, in ascending order.
pub proof fn sorted_ids_facts(s: Seq<u64>)
    ensures
        ids_ascend(sorted_ids(s)),
        forall|x: u64| #[trigger] sorted_ids(s).contains(x) <==> s.contains(x),
    decreases s.len(),
{
    if s.len() > 0 {
        sorted_ids_facts(s.drop_last());
        insert_id_facts(sorted_ids(s.drop_last()), s.last());
        assert forall|x: u64| #[trigger] sorted_ids(s).contains(x) <==> s.contains(x) by {
            let d = s.drop_last();
            assert(sorted_ids(d).contains(x) <==> d.contains(x));
            if d.contains(x) {
                let k = d.index_of(x);
                assert(s[k] == x);
            }
            if s.contains(x) {
                let k = s.index_of(x);
                if k < d.len() {
                    assert(d[k] == x);
                }
            }
            assert(s[s.len() - 1] == s.last());
        }
    }
}

/// What the next generation of a playlist drifts away from: all that was
/// recommended before, and the present pick.
pub open spec fn penalty_bag(p: Playlist) -> Seq<u64> {
    sorted_ids(p.previously_recommended@ + p.track_ids@)
}

fn add_id(list: &mut Vec<u64>, id: u64)
    ensures
        final(list)@ == insert_id(old(list)@, id),
{
    let ghost t = list@;
    let mut i: usize = list.len();
    proof {
        assert(t.take(t.len() as int) =~= t);
        assert(insert_id(t.take(t.len() as int), id) + t.skip(t.len() as int) =~= insert_id(t, id));
    }
    while i > 0 && list[i - 1] > id
        invariant
            i <= list.len(),
            list@ == old(list)@,
            t == list@,
            insert_id(t, id) == insert_id(t.take(i as int), id) + t.skip(i as int),
        decreases i,
    {
        proof {
            let h = t.take(i as int);
            assert(h.last() == t[i - 1]);
            assert(h.drop_last() =~= t.take(i - 1));
            assert(insert_id(t.take(i - 1), id).push(t[i - 1]) + t.skip(i as int) =~= insert_id(
                t.take(i - 1),
                id,
            ) + t.skip(i - 1));
        }
        i = i - 1;
    }
    if i > 0 && list[i - 1] == id {
        proof {
            assert(t.take(i as int).last() == id);
            assert(t.take(i as int) + t.skip(i as int) =~= t);
        }
        return;
    }
    list.insert(i, id);
    proof {
        let h = t.take(i as int);
        if i > 0 {
            assert(h.last() == t[i - 1]);
            assert(insert_id(h, id) == h.push(id));
        } else {
            assert(insert_id(h, id) =~= h.push(id));
        }
        assert(list@ =~= h.push(id) + t.skip(i as int));
    }
}

/// The ids that the next generation of a playlist drifts away from.
pub fn penalty_ids(p: &Playlist) -> (r: Vec<u64>)
    ensures
        r@ == penalty_bag(*p),
{
    let mut r: Vec<u64> = Vec::new();
    let ghost all = p.previously_recommended@ + p.track_ids@;
    let mut i: usize = 0;
    proof {
        assert(r@ =~= sorted_ids(all.take(0)));
    }
    while i < p.previously_recommended.len()
        invariant
            i <= p.previously_recommended.len(),
            all == p.previously_recommended@ + p.track_ids@,
            r@ == sorted_ids(all.take(i as int)),
        decreases p.previously_recommended.len() - i,
    {
        proof {
            assert(all.take(i + 1).drop_last() =~= all.take(i as int));
        }
        add_id(&mut r, p.previously_recommended[i]);
        i = i + 1;
    }
    let ghost n = p.previously_recommended@.len() as int;
    let mut j: usize = 0;
    while j < p.track_ids.len()
        invariant
            j <= p.track_ids.len(),
            n == p.previously_recommended@.len(),
            all == p.previously_recommended@ + p.track_ids@,
            r@ == sorted_ids(all.take(n + j)),
        decreases p.track_ids.len() - j,
    {
        proof {
            assert(all.take(n + j + 1).drop_last() =~= all.take(n + j));
            assert(all.take(n + j + 1).last() == p.track_ids@[j as int]);
        }
        add_id(&mut r, p.track_ids[j]);
        j = j + 1;
    }
    proof {
        assert(all.take(all.len() as int) =~= all);
    }
    r
}

// ---------------------------------------------------------------------------
// The generation form
// ---------------------------------------------------------------------------
/// What the form knows of the row that it was opened on.
#[derive(Debug)]
pub struct SeedContext {
    pub track_id: Option<u64>,
    pub artist: Option<String>,
    pub genre: Option<String>,
}

/// The playlist-generation form. Shares are in percent.
#[derive(Debug)]
pub struct GenerationFormState {
    pub name: String,
    /// 0 top played, 1 recently played, 2 track, 3 artist, 4 genre.
    pub seed_strategy_idx: usize,
    pub window_days: u32,
    pub seed_count: u32,
    pub target_length: u32,
    pub max_per_artist: u32,
    pub max_per_album: u32,
    pub diversity_pct: u32,
    pub novelty_pct: u32,
    pub exclude_on_device: bool,
    pub selected_field: usize,
    pub seed_context: SeedContext,
    /// The playlist that is generated anew; `None` for a new one.
    pub regenerating: Option<u64>,
}

pub const FIELD_NAME: usize = 0;

pub const FIELD_SEED_STRATEGY: usize = 1;

pub const FIELD_WINDOW_DAYS: usize = 2;

pub const FIELD_SEED_COUNT: usize = 3;

pub const FIELD_TARGET_LEN: usize = 4;

pub const FIELD_MAX_PER_ARTIST: usize = 5;

pub const FIELD_MAX_PER_ALBUM: usize = 6;

pub const FIELD_DIVERSITY: usize = 7;

pub const FIELD_NOVELTY: usize = 8;

pub const FIELD_EXCLUDE_DEVICE: usize = 9;

pub const FIELD_COUNT: usize = 10;

/// How many seed strategies there are.
pub const STRATEGY_COUNT: usize = 5;

/// An optional text is there and is not blank.
pub open spec fn is_given(o: Option<String>) -> bool {
    o matches Some(s) && !is_blank(s@)
}

fn is_given_exec(o: &Option<String>) -> (r: bool)
    ensures
        r == is_given(*o),
{
    match o {
        Some(s) => {
            let t = trim(s.as_str());
            !t.as_str().is_empty()
        },
        None => false,
    }
}

/// An optional text, or the empty one.
pub open spec fn or_empty(o: Option<String>) -> Seq<char> {
    match o {
        Some(s) => s@,
        None => Seq::empty(),
    }
}

fn or_empty_exec(o: &Option<String>) -> (r: String)
    ensures
        r@ == or_empty(*o),
{
    match o {
        Some(s) => s.clone(),
        None => String::new(),
    }
}

/// The strategy is the one that the form's index stands for, filled from its
/// context.
pub open spec fn is_strategy_of(f: GenerationFormState, s: SeedStrategy) -> bool {
    if f.seed_strategy_idx == 1 {
        s == (SeedStrategy::RecentlyPlayed { window_days: f.window_days, count: f.seed_count })
    } else if f.seed_strategy_idx == 2 {
        s == SeedStrategy::Track(
            match f.seed_context.track_id {
                Some(id) => id,
                None => 0,
            },
        )
    } else if f.seed_strategy_idx == 3 {
        s matches SeedStrategy::Artist(a) && a@ == or_empty(f.seed_context.artist)
    } else if f.seed_strategy_idx == 4 {
        s matches SeedStrategy::Genre(g) && g@ == or_empty(f.seed_context.genre)
    } else {
        s == (SeedStrategy::TopPlayed { window_days: f.window_days, count: f.seed_count })
    }
}

/// The parameters are those that the form spells.
pub open spec fn are_params_of(f: GenerationFormState, p: GenerationParams) -> bool {
    &&& is_strategy_of(f, p.seed_strategy)
    &&& p.target_length == f.target_length
    &&& p.max_per_artist == f.max_per_artist
    &&& p.max_per_album == f.max_per_album
    &&& p.diversity_pct == f.diversity_pct
    &&& p.novelty_pct == f.novelty_pct
    &&& p.exclude_on_device == f.exclude_on_device
    &&& p.exclude_track_ids@ == Seq::<u64>::empty()
}

/// The chosen strategy has the context that it needs.
pub open spec fn strategy_is_backed(f: GenerationFormState) -> bool {
    if f.seed_strategy_idx == 2 {
        f.seed_context.track_id is Some
    } else if f.seed_strategy_idx == 3 {
        is_given(f.seed_context.artist)
    } else if f.seed_strategy_idx == 4 {
        is_given(f.seed_context.genre)
    } else {
        true
    }
}

/// What is missing, where the chosen strategy lacks its context.
pub open spec fn missing_context(f: GenerationFormState) -> Seq<char> {
    if f.seed_strategy_idx == 2 {
        "Track seed needs a focused track"@
    } else if f.seed_strategy_idx == 3 {
        "Artist seed needs a focused artist"@
    } else {
        "Genre seed needs a track with a genre"@
    }
}

impl GenerationFormState {
    /// The weekly defaults, with no context.
    pub open spec fn is_weekly(&self) -> bool {
        &&& self.name@ == "Discover Weekly"@
        &&& self.seed_strategy_idx == 0
        &&& self.window_days == 30
        &&& self.seed_count == 10
        &&& self.target_length == 25
        &&& self.max_per_artist == 3
        &&& self.max_per_album == 2
        &&& self.diversity_pct == 50
        &&& self.novelty_pct == 50
        &&& self.exclude_on_device
        &&& self.selected_field == FIELD_NAME
        &&& self.seed_context.track_id is None
        &&& self.seed_context.artist is None
        &&& self.seed_context.genre is None
        &&& self.regenerating is None
    }

    /// The form spells the parameters of a generated playlist.
    pub open spec fn regenerates(&self, p: Playlist, params: GenerationParams) -> bool {
        &&& self.name == p.name
        &&& self.target_length == params.target_length
        &&& self.max_per_artist == params.max_per_artist
        &&& self.max_per_album == params.max_per_album
        &&& self.diversity_pct == params.diversity_pct
        &&& self.novelty_pct == params.novelty_pct
        &&& self.exclude_on_device == params.exclude_on_device
        &&& self.selected_field == FIELD_NAME
        &&& self.regenerating == Some(p.id)
        &&& same_strategy(*self, params.seed_strategy)
        &&& match params.seed_strategy {
            SeedStrategy::TopPlayed { .. } | SeedStrategy::RecentlyPlayed { .. } => true,
            _ => self.window_days == 30 && self.seed_count == 10,
        }
        &&& params.seed_strategy is Track || self.seed_context.track_id is None
        &&& params.seed_strategy is Artist || self.seed_context.artist is None
        &&& params.seed_strategy is Genre || self.seed_context.genre is None
    }

    /// The selected field is one of the form, and the strategy one that can be
    /// chosen.
    pub open spec fn valid(&self) -> bool {
        self.selected_field < FIELD_COUNT && self.seed_strategy_idx < STRATEGY_COUNT
    }

    /// A form with the weekly defaults and no context.
    pub fn discover_weekly_default(_now_ms: u64) -> (r: Self)
        ensures
            r.is_weekly(),
    {
        GenerationFormState {
            name: "Discover Weekly".to_owned(),
            seed_strategy_idx: 0,
            window_days: 30,
            seed_count: 10,
            target_length: 25,
            max_per_artist: 3,
            max_per_album: 2,
            diversity_pct: 50,
            novelty_pct: 50,
            exclude_on_device: true,
            selected_field: FIELD_NAME,
            seed_context: SeedContext { track_id: None, artist: None, genre: None },
            regenerating: None,
        }
    }

    /// The form opened on a library row with the given context.
    pub open spec fn opened_on(
        &self,
        track_id: Option<u64>,
        artist: Option<Seq<char>>,
        genre: Option<Seq<char>>,
        default_idx: int,
        label: Seq<char>,
    ) -> bool {
        &&& self.name@ == "More like "@ + label
        &&& self.seed_strategy_idx == default_idx
        &&& self.window_days == 30
        &&& self.seed_count == 10
        &&& self.target_length == 25
        &&& self.max_per_artist == 3
        &&& self.max_per_album == 2
        &&& self.diversity_pct == 50
        &&& self.novelty_pct == 50
        &&& self.exclude_on_device
        &&& self.selected_field == FIELD_NAME
        &&& self.seed_context.track_id == track_id
        &&& opt_text(self.seed_context.artist) == artist
        &&& opt_text(self.seed_context.genre) == genre
        &&& self.regenerating is None
    }

    /// A form that carries everything known of a library row; `default_idx` is
    /// the strategy that is chosen at first.
    pub fn for_library_context(
        now_ms: u64,
        track_id: Option<u64>,
        artist: Option<String>,
        genre: Option<String>,
        default_idx: usize,
        label: &str,
    ) -> (r: Self)
        ensures
            r.opened_on(track_id, opt_text(artist), opt_text(genre), default_idx as int, label@),
    {
        let mut f = GenerationFormState::discover_weekly_default(now_ms);
        f.name = concat2("More like ", label);
        f.seed_strategy_idx = default_idx;
        f.seed_context = SeedContext { track_id, artist, genre };
        f
    }

    /// A form that grows a playlist from one track.
    pub fn for_track_seed(now_ms: u64, track_id: u64, label: &str) -> (r: Self)
        ensures
            r.opened_on(Some(track_id), None, None, 2, label@),
    {
        GenerationFormState::for_library_context(now_ms, Some(track_id), None, None, 2, label)
    }

    /// A form filled from the parameters of a generated playlist; nothing for
    /// a manual one.
    pub fn for_regenerate(p: &Playlist) -> (r: Option<Self>)
        ensures
            match p.kind {
                PlaylistKind::Manual => r is None,
                PlaylistKind::Generated { params, .. } => r matches Some(f) && f.regenerates(
                    *p,
                    params,
                ),
            },
    {
        match &p.kind {
            PlaylistKind::Manual => None,
            PlaylistKind::Generated { params, .. } => {
                let mut f = GenerationFormState::discover_weekly_default(0);
                f.name = p.name.clone();
                f.target_length = params.target_length;
                f.max_per_artist = params.max_per_artist;
                f.max_per_album = params.max_per_album;
                f.diversity_pct = params.diversity_pct;
                f.novelty_pct = params.novelty_pct;
                f.exclude_on_device = params.exclude_on_device;
                f.regenerating = Some(p.id);
                match &params.seed_strategy {
                    SeedStrategy::TopPlayed { window_days, count } => {
                        f.seed_strategy_idx = 0;
                        f.window_days = *window_days;
                        f.seed_count = *count;
                    },
                    SeedStrategy::RecentlyPlayed { window_days, count } => {
                        f.seed_strategy_idx = 1;
                        f.window_days = *window_days;
                        f.seed_count = *count;
                    },
                    SeedStrategy::Track(id) => {
                        f.seed_strategy_idx = 2;
                        f.seed_context.track_id = Some(*id);
                    },
                    SeedStrategy::Artist(a) => {
                        f.seed_strategy_idx = 3;
                        f.seed_context.artist = Some(a.clone());
                    },
                    SeedStrategy::Genre(g) => {
                        f.seed_strategy_idx = 4;
                        f.seed_context.genre = Some(g.clone());
                    },
                }
                Some(f)
            },
        }
    }

    /// Whether the chosen strategy has its backing context, and what is
    /// missing where it has not.
    pub fn validate_strategy_context(&self) -> (r: Result<(), &'static str>)
        ensures
            r is Ok <==> strategy_is_backed(*self),
            r matches Err(msg) ==> msg@ == missing_context(*self),
    {
        if self.seed_strategy_idx == 2 {
            if self.seed_context.track_id.is_none() {
                return Err("Track seed needs a focused track");
            }
        } else if self.seed_strategy_idx == 3 {
            if !is_given_exec(&self.seed_context.artist) {
                return Err("Artist seed needs a focused artist");
            }
        } else if self.seed_strategy_idx == 4 {
            if !is_given_exec(&self.seed_context.genre) {
                return Err("Genre seed needs a track with a genre");
            }
        }
        Ok(())
    }

    /// The context that the chosen strategy uses, as text.
    pub fn current_context_label(&self) -> (r: Option<String>)
        ensures
            opt_text(r) == if self.seed_strategy_idx == 3 {
                opt_text(self.seed_context.artist)
            } else if self.seed_strategy_idx == 4 {
                opt_text(self.seed_context.genre)
            } else {
                None
            },
    {
        if self.seed_strategy_idx == 3 {
            self.seed_context.artist.clone()
        } else if self.seed_strategy_idx == 4 {
            self.seed_context.genre.clone()
        } else {
            None
        }
    }

    /// The parameters that the form spells.
    pub fn to_params(&self) -> (r: GenerationParams)
        ensures
            are_params_of(*self, r),
    {
        let seed_strategy = if self.seed_strategy_idx == 1 {
            SeedStrategy::RecentlyPlayed { window_days: self.window_days, count: self.seed_count }
        } else if self.seed_strategy_idx == 2 {
            SeedStrategy::Track(
                match self.seed_context.track_id {
                    Some(id) => id,
                    None => 0,
                },
            )
        } else if self.seed_strategy_idx == 3 {
            SeedStrategy::Artist(or_empty_exec(&self.seed_context.artist))
        } else if self.seed_strategy_idx == 4 {
            SeedStrategy::Genre(or_empty_exec(&self.seed_context.genre))
        } else {
            SeedStrategy::TopPlayed { window_days: self.window_days, count: self.seed_count }
        };
        GenerationParams {
            seed_strategy,
            target_length: self.target_length,
            max_per_artist: self.max_per_artist,
            max_per_album: self.max_per_album,
            diversity_pct: self.diversity_pct,
            novelty_pct: self.novelty_pct,
            exclude_on_device: self.exclude_on_device,
            exclude_track_ids: Vec::new(),
        }
    }
}

/// The form's strategy and context are those of the seed.
pub open spec fn same_strategy(f: GenerationFormState, s: SeedStrategy) -> bool {
    match s {
        SeedStrategy::TopPlayed { window_days, count } => f.seed_strategy_idx == 0 && f.window_days
            == window_days && f.seed_count == count,
        SeedStrategy::RecentlyPlayed { window_days, count } => f.seed_strategy_idx == 1
            && f.window_days == window_days && f.seed_count == count,
        SeedStrategy::Track(id) => f.seed_strategy_idx == 2 && f.seed_context.track_id == Some(id),
        SeedStrategy::Artist(a) => f.seed_strategy_idx == 3 && f.seed_context.artist == Some(a),
        SeedStrategy::Genre(g) => f.seed_strategy_idx == 4 && f.seed_context.genre == Some(g),
    }
}

/// The seed strategy of a playlist survives the trip into the form and out
/// again.
pub proof fn form_keeps_strategy(f: GenerationFormState, s: SeedStrategy, back: SeedStrategy)
    requires
        same_strategy(f, s),
        is_strategy_of(f, back),
    ensures
        match s {
            SeedStrategy::Artist(a) => back matches SeedStrategy::Artist(b) && a@ == b@,
            SeedStrategy::Genre(a) => back matches SeedStrategy::Genre(b) && a@ == b@,
            _ => back == s,
        },
{
}

/// What the recommender is asked for.
pub struct GenerationRequest {
    pub name: String,
    pub params: GenerationParams,
    /// Ids that the pick should drift away from.
    pub previously: Vec<u64>,
    /// The playlist that is generated anew; `None` for a new one.
    pub regenerating: Option<u64>,
}

/// What the recommender picked.
#[derive(Debug)]
pub struct GenerationOutcome {
    pub track_ids: Vec<u64>,
    pub seed_count: u64,
    pub eligible_count: u64,
    pub candidate_count: u64,
}

/// In-progress "add to playlist" picker.
#[derive(Debug)]
pub struct AddToPlaylistPicker {
    pub track_id: u64,
    pub track_label: String,
    /// Id and name of each playlist when the picker opened.
    pub options: Vec<(u64, String)>,
    pub selected: usize,
}

/// A playlist awaiting device-side creation: (artist, album, title) of its
/// tracks in order.
#[derive(Debug)]
pub struct PendingPlaylistImport {
    pub name: String,
    pub track_keys: Vec<(String, String, String)>,
}

} // verus!
