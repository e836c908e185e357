//! Plays and skips: recording the current session, folding in the device's own
//! counters, and showing both.
use vstd::prelude::*;
use crate::app::player::library_row;
use crate::app::{App, ListState, NowPlaying, PlayerState};
use crate::commands::HostRequest;
use crate::device::{parse_device_track_parts, track_parts};
use crate::library::{first_where, is_row, Library};
use crate::model::{DeviceEntry, Track};
use crate::ordmap::OrdMap;
use crate::plays::{
    after_observation, after_play, after_skip, observing_twice_adds_nothing, play_threshold,
    play_threshold_ms, stats_of, ListenEvent, PlayStats,
};
use crate::text::{
    match_key, normalize_for_match, normalize_without_number, str_eq, strip_track_number,
    stripped_key, trim, trimmed, without_track_number,
};
use crate::tracks::{shown32, shown64, synced_at, synced_at_exec, TrackInfo};

verus! {

/// The library track that a playable row stands for: by its name, or by its
/// name without a leading track number.
pub open spec fn playable_row(library: Option<Library>, t: TrackInfo) -> Option<Track> {
    match library_row(library, t) {
        Some(x) => Some(x),
        None => match library {
            Some(l) => {
                let stripped = without_track_number(trimmed(t.name@));
                if stripped != t.name@ {
                    first_where(l.tracks@, |x: Track| is_row(x, stripped, t.artist@, t.album@))
                } else {
                    None
                }
            },
            None => None,
        },
    }
}

/// A row with the counters of its track. The time of the last sync stays where
/// the current device has none.
pub open spec fn with_stats(r: TrackInfo, s: PlayStats, device_key: Option<Seq<char>>) -> TrackInfo {
    TrackInfo {
        play_count: Some(s.play_count),
        skip_count: shown32(s.skip_count),
        last_played_at_ms: shown64(s.last_played_at_ms),
        last_synced_from_device_at_ms: match synced_at(Some(s), device_key) {
            Some(t) => Some(t),
            None => r.last_synced_from_device_at_ms,
        },
        ..r
    }
}

/// A row that shows the counters of one library track, if it is that track's.
pub open spec fn restated(
    r: TrackInfo,
    id: u64,
    plays: Map<u64, PlayStats>,
    device_key: Option<Seq<char>>,
) -> TrackInfo {
    if r.library_id == Some(id) && plays.contains_key(id) {
        with_stats(r, plays[id], device_key)
    } else {
        r
    }
}

/// The rows that show the counters of several library tracks.
pub open spec fn all_restated(
    rows: Seq<TrackInfo>,
    ids: Seq<u64>,
    plays: Map<u64, PlayStats>,
    device_key: Option<Seq<char>>,
) -> Seq<TrackInfo>
    decreases ids.len(),
{
    if ids.len() == 0 {
        rows
    } else {
        all_restated(rows, ids.drop_last(), plays, device_key).map_values(
            |r: TrackInfo| restated(r, ids.last(), plays, device_key),
        )
    }
}

/// The device's counters under the keys of its files: artist and name, and
/// artist and name without a leading track number.
pub open spec fn device_counts(entries: Seq<DeviceEntry>) -> Map<(Seq<char>, Seq<char>), (u32, u32)>
    decreases entries.len(),
{
    if entries.len() == 0 {
        Map::empty()
    } else {
        let m = device_counts(entries.drop_last());
        let e = entries.last();
        if e.dir() {
            m
        } else {
            let parts = track_parts(e.name@);
            let pair = (or_zero(e.play_count), or_zero(e.skip_count));
            let raw = match_key(parts.2);
            let bare = stripped_key(parts.2);
            let one = m.insert((match_key(parts.0), raw), pair);
            if bare != raw {
                one.insert((match_key(parts.0), bare), pair)
            } else {
                one
            }
        }
    }
}

pub open spec fn or_zero(o: Option<u32>) -> u32 {
    match o {
        Some(n) => n,
        None => 0,
    }
}

/// What the device reports of the library's tracks: id, plays, skips.
pub open spec fn observations(
    tracks: Seq<Track>,
    counts: Map<(Seq<char>, Seq<char>), (u32, u32)>,
) -> Seq<(u64, u32, u32)>
    decreases tracks.len(),
{
    if tracks.len() == 0 {
        Seq::empty()
    } else {
        let rest = observations(tracks.drop_last(), counts);
        let t = tracks.last();
        let k = (match_key(t.artist@), match_key(t.name@));
        if counts.contains_key(k) {
            rest.push((t.id, counts[k].0, counts[k].1))
        } else {
            rest
        }
    }
}

/// The counters after the device's reports.
pub open spec fn merged(
    plays: Map<u64, PlayStats>,
    obs: Seq<(u64, u32, u32)>,
    device: Seq<char>,
    now_ms: u64,
) -> Map<u64, PlayStats>
    decreases obs.len(),
{
    if obs.len() == 0 {
        plays
    } else {
        let m = merged(plays, obs.drop_last(), device, now_ms);
        let o = obs.last();
        m.insert(o.0, after_observation(stats_of(m, o.0), device, o.1, o.2, now_ms))
    }
}

/// The library tracks that were reported.
pub open spec fn observed_ids(obs: Seq<(u64, u32, u32)>) -> Seq<u64> {
    obs.map_values(|o: (u64, u32, u32)| o.0)
}

/// No track is reported twice with different counters.
pub open spec fn reports_agree(obs: Seq<(u64, u32, u32)>) -> bool {
    forall|i: int, j: int|
        0 <= i < obs.len() && 0 <= j < obs.len() && (#[trigger] obs[i]).0 == (#[trigger] obs[j]).0
            ==> obs[i] == obs[j]
}

/// Merging touches only the tracks that were reported, and what it does to one
/// is what its own report does.
pub(crate) proof fn merged_one(
    plays: Map<u64, PlayStats>,
    obs: Seq<(u64, u32, u32)>,
    device: Seq<char>,
    now_ms: u64,
    id: u64,
)
    requires
        reports_agree(obs),
    ensures
        (forall|i: int| 0 <= i < obs.len() ==> (#[trigger] obs[i]).0 != id) ==> {
            let m = merged(plays, obs, device, now_ms);
            m.contains_key(id) == plays.contains_key(id) && stats_of(m, id) == stats_of(plays, id)
        },
        forall|i: int|
            0 <= i < obs.len() && (#[trigger] obs[i]).0 == id ==> stats_of(
                merged(plays, obs, device, now_ms),
                id,
            ) == after_observation(stats_of(plays, id), device, obs[i].1, obs[i].2, now_ms),
    decreases obs.len(),
{
    if obs.len() > 0 {
        let rest = obs.drop_last();
        let o = obs.last();
        assert forall|i: int, j: int|
            0 <= i < rest.len() && 0 <= j < rest.len() && (#[trigger] rest[i]).0 == (
            #[trigger] rest[j]).0 implies rest[i] == rest[j] by {
            assert(obs[i].0 == obs[j].0);
        }
        merged_one(plays, rest, device, now_ms, id);
        if o.0 == id {
            assert(forall|i: int|
                0 <= i < obs.len() && (#[trigger] obs[i]).0 == id ==> obs[i] == obs[obs.len() - 1]);
            if exists|k: int| 0 <= k < rest.len() && (#[trigger] rest[k]).0 == id {
                let k = choose|k: int| 0 <= k < rest.len() && (#[trigger] rest[k]).0 == id;
                assert(obs[k] == o);
                observing_twice_adds_nothing(
                    stats_of(plays, id),
                    device,
                    o.1,
                    o.2,
                    now_ms,
                    now_ms,
                );
            }
        } else {
            assert forall|i: int| 0 <= i < obs.len() && (#[trigger] obs[i]).0 == id implies stats_of(
                merged(plays, obs, device, now_ms),
                id,
            ) == after_observation(stats_of(plays, id), device, obs[i].1, obs[i].2, now_ms) by {
                assert(rest[i] == obs[i]);
            }
            if forall|i: int| 0 <= i < obs.len() ==> (#[trigger] obs[i]).0 != id {
                assert forall|j: int| 0 <= j < rest.len() implies (#[trigger] rest[j]).0 != id by {
                    assert(rest[j] == obs[j]);
                }
            }
        }
    }
}

/// A device that reports the same counters again adds nothing to any track's
/// plays or skips.
pub proof fn merging_twice_adds_nothing(
    plays: Map<u64, PlayStats>,
    obs: Seq<(u64, u32, u32)>,
    device: Seq<char>,
    first_ms: u64,
    second_ms: u64,
    id: u64,
)
    requires
        reports_agree(obs),
    ensures
        ({
            let once = stats_of(merged(plays, obs, device, first_ms), id);
            let twice = stats_of(
                merged(merged(plays, obs, device, first_ms), obs, device, second_ms),
                id,
            );
            twice.play_count == once.play_count && twice.skip_count == once.skip_count
        }),
{
    let one = merged(plays, obs, device, first_ms);
    merged_one(plays, obs, device, first_ms, id);
    merged_one(one, obs, device, second_ms, id);
    if exists|i: int| 0 <= i < obs.len() && (#[trigger] obs[i]).0 == id {
        let i = choose|i: int| 0 <= i < obs.len() && (#[trigger] obs[i]).0 == id;
        observing_twice_adds_nothing(
            stats_of(plays, id),
            device,
            obs[i].1,
            obs[i].2,
            first_ms,
            second_ms,
        );
    }
}

fn count_of(o: Option<u32>) -> (r: u32)
    ensures
        r == or_zero(o),
{
    match o {
        Some(n) => n,
        None => 0,
    }
}

fn counts_by_key(entries: &Vec<DeviceEntry>) -> (m: OrdMap<(String, String), (u32, u32)>)
    ensures
        m@ == device_counts(entries@),
{
    let mut m: OrdMap<(String, String), (u32, u32)> = OrdMap::new();
    let mut i: usize = 0;
    while i < entries.len()
        invariant
            i <= entries.len(),
            m@ == device_counts(entries@.take(i as int)),
        decreases entries.len() - i,
    {
        let e = &entries[i];
        proof {
            assert(entries@.take(i + 1).drop_last() =~= entries@.take(i as int));
        }
        if !e.is_dir() {
            let (artist, _, name) = parse_device_track_parts(e.name.as_str());
            let artist_key = normalize_for_match(artist.as_str());
            let raw = normalize_for_match(name.as_str());
            let bare = normalize_without_number(name.as_str());
            let pair: (u32, u32) = (count_of(e.play_count), count_of(e.skip_count));
            let differs = !str_eq(bare.as_str(), raw.as_str());
            m.insert((artist_key.clone(), raw), pair);
            if differs {
                m.insert((artist_key, bare), pair);
            }
        }
        i = i + 1;
    }
    proof {
        assert(entries@.take(entries@.len() as int) =~= entries@);
    }
    m
}

fn observe(tracks: &Vec<Track>, counts: &OrdMap<(String, String), (u32, u32)>) -> (r: Vec<
    (u64, u32, u32),
>)
    ensures
        r@ == observations(tracks@, counts@),
{
    let mut r: Vec<(u64, u32, u32)> = Vec::new();
    let mut i: usize = 0;
    while i < tracks.len()
        invariant
            i <= tracks.len(),
            r@ == observations(tracks@.take(i as int), counts@),
        decreases tracks.len() - i,
    {
        let t = &tracks[i];
        proof {
            assert(tracks@.take(i + 1).drop_last() =~= tracks@.take(i as int));
        }
        let key = (normalize_for_match(t.artist.as_str()), normalize_for_match(t.name.as_str()));
        if let Some(c) = counts.get(&key) {
            r.push((t.id, c.0, c.1));
        }
        i = i + 1;
    }
    proof {
        assert(tracks@.take(tracks@.len() as int) =~= tracks@);
    }
    r
}

impl App {
    /// Look up the library track matching the given playable row.
    pub fn lookup_library_track(&self, track: &TrackInfo) -> (r: Option<Track>)
        ensures
            r == playable_row(self.library, *track),
    {
        let lib = match &self.library {
            Some(l) => l,
            None => {
                return None;
            },
        };
        let found = lib.find_row(track.name.as_str(), track.artist.as_str(), track.album.as_str());
        if found.is_some() {
            return found;
        }
        let t = trim(track.name.as_str());
        let stripped = strip_track_number(t.as_str());
        if !str_eq(stripped.as_str(), track.name.as_str()) {
            return lib.find_row(stripped.as_str(), track.artist.as_str(), track.album.as_str());
        }
        None
    }

    /// Asks the host to write the counters to disk.
    pub fn persist_local_plays(&mut self)
        ensures
            *final(self) == (App { out: final(self).out, ..*old(self) }),
            final(self).out.asks(&old(self).out, HostRequest::SaveLocalPlays),
            old(self).valid() ==> final(self).valid(),
    {
        self.ask_host(HostRequest::SaveLocalPlays);
    }

    /// Push the current counters of a library track back into any row that
    /// shows it.
    pub fn refresh_play_stats_for_id(&mut self, library_id: u64)
        ensures
            *final(self) == (App { lists: final(self).lists, ..*old(self) }),
            final(self).lists == (ListState {
                track_list: final(self).lists.track_list,
                ..old(self).lists
            }),
            final(self).lists.track_list@ == old(self).lists.track_list@.map_values(
                |r: TrackInfo|
                    restated(r, library_id, old(self).player.local_plays@, old(self).device_key()),
            ),
            old(self).valid() ==> final(self).valid(),
    {
        let ghost rows = self.lists.track_list@;
        let ghost before = *self;
        let ghost plays = self.player.local_plays@;
        let ghost dk = self.device_key();
        let ghost all = rows.map_values(|r: TrackInfo| restated(r, library_id, plays, dk));
        let device_key = self.current_device_baseline_key();
        let (play_count, skips, played_at, synced): (u32, u32, u64, Option<u64>) =
            match self.player.local_plays.get(library_id) {
            Some(p) => (
                p.play_count,
                p.skip_count,
                p.last_played_at_ms,
                synced_at_exec(Some(p), &device_key),
            ),
            None => {
                proof {
                    assert(all =~= rows);
                }
                return;
            },
        };
        let skip_count: Option<u32> = if skips > 0 {
            Some(skips)
        } else {
            None
        };
        let last_played: Option<u64> = if played_at > 0 {
            Some(played_at)
        } else {
            None
        };
        let n = self.lists.track_list.len();
        let mut i: usize = 0;
        while i < n
            invariant
                i <= n,
                n == rows.len(),
                *self == (App { lists: self.lists, ..before }),
                self.lists == (ListState { track_list: self.lists.track_list, ..before.lists }),
                all == rows.map_values(|r: TrackInfo| restated(r, library_id, plays, dk)),
                plays.contains_key(library_id),
                play_count == plays[library_id].play_count,
                skip_count == shown32(plays[library_id].skip_count),
                last_played == shown64(plays[library_id].last_played_at_ms),
                synced == synced_at(Some(plays[library_id]), dk),
                self.lists.track_list@ =~= all.take(i as int) + rows.skip(i as int),
            decreases n - i,
        {
            let mine = match self.lists.track_list[i].library_id {
                Some(id) => id == library_id,
                None => false,
            };
            if mine {
                let row = &mut self.lists.track_list[i];
                row.play_count = Some(play_count);
                row.skip_count = skip_count;
                row.last_played_at_ms = last_played;
                if synced.is_some() {
                    row.last_synced_from_device_at_ms = synced;
                }
            }
            i = i + 1;
        }
        proof {
            assert(all.take(n as int) + rows.skip(n as int) =~= all);
        }
    }

    /// The current session was recorded: as a play where it was completed, as a
    /// skip otherwise. Recording happens once per session; a session without a
    /// library track leaves the counters alone.
    pub open spec fn session_recorded(&self, before: &App, completed: bool) -> bool {
        match before.player.now_playing {
            None => *self == *before,
            Some(np) => if np.counted {
                *self == *before
            } else {
                &&& *self == (App {
                    player: self.player,
                    lists: self.lists,
                    out: self.out,
                    ..*before
                })
                &&& self.player == (PlayerState {
                    now_playing: Some(NowPlaying { counted: true, ..np }),
                    local_plays: self.player.local_plays,
                    listen_log: self.player.listen_log,
                    ..before.player
                })
                &&& match np.track_id {
                    None => {
                        &&& self.player.local_plays == before.player.local_plays
                        &&& self.player.listen_log == before.player.listen_log
                        &&& self.lists == before.lists
                        &&& self.out == before.out
                    },
                    Some(id) => {
                        let plays = before.player.local_plays@;
                        let now = before.host.unix_ms;
                        &&& self.player.local_plays@ == plays.insert(
                            id,
                            if completed {
                                after_play(stats_of(plays, id), now)
                            } else {
                                after_skip(stats_of(plays, id))
                            },
                        )
                        &&& self.player.listen_log@ == before.player.listen_log@.push(
                            ListenEvent { ts: now, id, completed },
                        )
                        &&& self.lists == (ListState {
                            track_list: self.lists.track_list,
                            ..before.lists
                        })
                        &&& self.lists.track_list@ == before.lists.track_list@.map_values(
                            |r: TrackInfo|
                                restated(r, id, self.player.local_plays@, before.device_key()),
                        )
                        &&& self.out.asks(&before.out, HostRequest::SaveLocalPlays)
                    },
                }
            },
        }
    }

    fn record_session(&mut self, completed: bool)
        ensures
            final(self).session_recorded(old(self), completed),
    {
        let recorded: Option<u64> = match &self.player.now_playing {
            None => {
                return;
            },
            Some(np) => {
                if np.counted {
                    return;
                }
                np.track_id
            },
        };
        let now: u64 = self.host.unix_ms;
        if let Some(np) = &mut self.player.now_playing {
            np.counted = true;
        }
        if let Some(id) = recorded {
            if completed {
                self.player.local_plays.record_play(id, now);
            } else {
                self.player.local_plays.record_skip(id);
            }
            self.player.listen_log.push(ListenEvent { ts: now, id, completed });
            self.persist_local_plays();
            self.refresh_play_stats_for_id(id);
        }
    }

    /// Record the current session as a play if not already counted.
    pub fn record_now_playing_play(&mut self)
        ensures
            final(self).session_recorded(old(self), true),
            old(self).valid() ==> final(self).valid(),
    {
        self.record_session(true);
    }

    /// Record the current session as a skip if not already counted.
    pub fn record_now_playing_skip(&mut self)
        ensures
            final(self).session_recorded(old(self), false),
            old(self).valid() ==> final(self).valid(),
    {
        self.record_session(false);
    }

    /// The session has run long enough to count as a play, and has not been
    /// counted.
    pub open spec fn play_is_due(&self) -> bool {
        self.player.now_playing matches Some(np) && !np.counted && np.duration_ms > 0 && np.elapsed_ms
            >= play_threshold(np.duration_ms as nat)
    }

    /// If the current session has crossed the play threshold (50% of duration
    /// or 4 minutes, whichever first) and hasn't yet been counted, record it as
    /// a play.
    pub fn maybe_record_play_for_threshold(&mut self)
        ensures
            if old(self).play_is_due() {
                final(self).session_recorded(old(self), true)
            } else {
                *final(self) == *old(self)
            },
            old(self).valid() ==> final(self).valid(),
    {
        let trip = match &self.player.now_playing {
            Some(np) => !np.counted && np.duration_ms > 0 && np.elapsed_ms >= play_threshold_ms(
                np.duration_ms,
            ),
            None => false,
        };
        if trip {
            self.record_now_playing_play();
        }
    }

    /// What the connected device reports of the library's tracks.
    pub open spec fn reports(&self) -> Seq<(u64, u32, u32)> {
        match self.library {
            Some(l) => observations(l.tracks@, device_counts(self.device.tracks@)),
            None => Seq::empty(),
        }
    }

    /// The device's counters were folded into the aggregate.
    pub open spec fn device_merged(&self, before: &App) -> bool {
        if before.device_key() is None || before.device.tracks@.len() == 0 || before.reports().len()
            == 0 {
            *self == *before
        } else {
            &&& *self == (App { player: self.player, lists: self.lists, out: self.out, ..*before })
            &&& self.player == (PlayerState {
                local_plays: self.player.local_plays,
                ..before.player
            })
            &&& self.player.local_plays@ == merged(
                before.player.local_plays@,
                before.reports(),
                before.device_key()->0,
                before.host.unix_ms,
            )
            &&& self.out.asks(&before.out, HostRequest::SaveLocalPlays)
            &&& self.lists == (ListState { track_list: self.lists.track_list, ..before.lists })
            &&& self.lists.track_list@ == all_restated(
                before.lists.track_list@,
                observed_ids(before.reports()),
                self.player.local_plays@,
                before.device_key(),
            )
        }
    }

    /// Fold the device's per-track counters into the aggregate via per-(track,
    /// device) baselines. First sight of a device adopts its full count;
    /// subsequent reconnects only contribute the delta.
    pub fn merge_device_plays_into_local(&mut self)
        ensures
            final(self).device_merged(old(self)),
            old(self).valid() ==> final(self).valid(),
    {
        let device_key: String = match self.current_device_baseline_key() {
            Some(k) => k,
            None => {
                return;
            },
        };
        if self.device.tracks.len() == 0 {
            return;
        }
        let obs: Vec<(u64, u32, u32)> = match &self.library {
            Some(lib) => {
                let counts = counts_by_key(&self.device.tracks);
                observe(&lib.tracks, &counts)
            },
            None => {
                return;
            },
        };
        if obs.len() == 0 {
            return;
        }
        let ghost before = *self;
        let ghost plays = self.player.local_plays@;
        let now_ms: u64 = self.host.unix_ms;
        let mut i: usize = 0;
        proof {
            assert(obs@.take(0) =~= Seq::<(u64, u32, u32)>::empty());
        }
        while i < obs.len()
            invariant
                i <= obs.len(),
                *self == (App { player: self.player, ..before }),
                self.player == (PlayerState {
                    local_plays: self.player.local_plays,
                    ..before.player
                }),
                self.player.local_plays@ == merged(plays, obs@.take(i as int), device_key@, now_ms),
            decreases obs.len() - i,
        {
            let o = obs[i];
            proof {
                assert(obs@.take(i + 1).drop_last() =~= obs@.take(i as int));
            }
            self.player.local_plays.merge_device_observation(
                o.0,
                device_key.as_str(),
                o.1,
                o.2,
                now_ms,
            );
            i = i + 1;
        }
        proof {
            assert(obs@.take(obs@.len() as int) =~= obs@);
        }
        self.persist_local_plays();
        let ghost mid = *self;
        let ghost all = self.player.local_plays@;
        let ghost rows = self.lists.track_list@;
        let ghost ids = observed_ids(obs@);
        let ghost dk = self.device_key();
        let mut j: usize = 0;
        proof {
            assert(ids.take(0) =~= Seq::<u64>::empty());
        }
        while j < obs.len()
            invariant
                j <= obs.len(),
                ids == observed_ids(obs@),
                *self == (App { lists: self.lists, ..mid }),
                self.lists == (ListState { track_list: self.lists.track_list, ..mid.lists }),
                all == mid.player.local_plays@,
                dk == mid.device_key(),
                self.lists.track_list@ == all_restated(rows, ids.take(j as int), all, dk),
            decreases obs.len() - j,
        {
            let id: u64 = obs[j].0;
            self.refresh_play_stats_for_id(id);
            proof {
                assert(ids.take(j + 1).drop_last() =~= ids.take(j as int));
                assert(ids.take(j + 1).last() == id);
            }
            j = j + 1;
        }
        proof {
            assert(ids.take(obs@.len() as int) =~= ids);
        }
    }
}

/// Folding in the device's counters is idempotent: done again with the same
/// device and library, at whatever time, it adds to no track's plays or skips.
pub proof fn merging_again_adds_nothing(before: App, once: App, later: App, twice: App, id: u64)
    requires
        once.device_merged(&before),
        later == (App { host: later.host, ..once }),
        twice.device_merged(&later),
        reports_agree(before.reports()),
    ensures
        ({
            let first = stats_of(once.player.local_plays@, id);
            let second = stats_of(twice.player.local_plays@, id);
            second.play_count == first.play_count && second.skip_count == first.skip_count
        }),
{
    if before.device_key() is Some {
        merging_twice_adds_nothing(
            before.player.local_plays@,
            before.reports(),
            before.device_key()->0,
            before.host.unix_ms,
            later.host.unix_ms,
            id,
        );
    }
}

/// A session that was recorded is not recorded again: whatever follows leaves
/// the counters and the log alone until another session starts.
pub proof fn sessions_count_once(before: App, first: App, second: App, completed: bool, again: bool)
    requires
        before.player.now_playing is Some,
        first.session_recorded(&before, completed),
        second.session_recorded(&first, again),
    ensures
        second == first,
{
}

} // verus!
