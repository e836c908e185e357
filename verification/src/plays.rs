//! Play and skip counters, and the log of what was listened to.
use vstd::prelude::*;
use crate::format::concat3;
use crate::model::DeviceFamily;
use crate::ordmap::OrdMap;

verus! {

/// What a device had counted when it was last seen.
#[derive(Debug, Clone, Copy, PartialEq, Eq, Structural)]
pub struct DeviceBaseline {
    pub play_count: u32,
    pub skip_count: u32,
    pub last_synced_at_ms: u64,
}

/// Aggregate counters of one track across this player and every device.
pub struct TrackPlays {
    pub play_count: u32,
    pub skip_count: u32,
    /// Unix epoch ms of the last play here; 0 when there was none.
    pub last_played_at_ms: u64,
    pub device_baselines: OrdMap<String, DeviceBaseline>,
}

/// What the counters of one track say.
#[verifier::ext_equal]
pub struct PlayStats {
    pub play_count: u32,
    pub skip_count: u32,
    pub last_played_at_ms: u64,
    pub device_baselines: Map<Seq<char>, DeviceBaseline>,
}

impl View for TrackPlays {
    type V = PlayStats;

    open spec fn view(&self) -> PlayStats {
        PlayStats {
            play_count: self.play_count,
            skip_count: self.skip_count,
            last_played_at_ms: self.last_played_at_ms,
            device_baselines: self.device_baselines@,
        }
    }
}

/// Counters of a track that was never played.
pub open spec fn no_plays() -> PlayStats {
    PlayStats {
        play_count: 0,
        skip_count: 0,
        last_played_at_ms: 0,
        device_baselines: Map::empty(),
    }
}

/// The sum of two counts, held at the limit of a count.
pub open spec fn sat_add(a: u32, b: u32) -> u32 {
    if a + b > u32::MAX {
        u32::MAX
    } else {
        (a + b) as u32
    }
}

/// How far a device counter moved since it was last seen. A counter that fell
/// back has not moved.
pub open spec fn moved(seen: u32, now: u32) -> u32 {
    if now > seen {
        (now - seen) as u32
    } else {
        0
    }
}

/// The counters after one more play.
pub open spec fn after_play(s: PlayStats, now_ms: u64) -> PlayStats {
    PlayStats { play_count: sat_add(s.play_count, 1), last_played_at_ms: now_ms, ..s }
}

/// The counters after one more skip.
pub open spec fn after_skip(s: PlayStats) -> PlayStats {
    PlayStats { skip_count: sat_add(s.skip_count, 1), ..s }
}

/// The counters after a device reported its own: the first sight of a device
/// adopts its full counts, a later one adds what came since.
pub open spec fn after_observation(
    s: PlayStats,
    device: Seq<char>,
    plays: u32,
    skips: u32,
    now_ms: u64,
) -> PlayStats {
    let seen = if s.device_baselines.contains_key(device) {
        s.device_baselines[device]
    } else {
        DeviceBaseline { play_count: 0, skip_count: 0, last_synced_at_ms: 0 }
    };
    PlayStats {
        play_count: sat_add(s.play_count, moved(seen.play_count, plays)),
        skip_count: sat_add(s.skip_count, moved(seen.skip_count, skips)),
        device_baselines: s.device_baselines.insert(
            device,
            DeviceBaseline { play_count: plays, skip_count: skips, last_synced_at_ms: now_ms },
        ),
        ..s
    }
}

/// A device that reports the same counts again adds nothing to the aggregate.
pub proof fn observing_twice_adds_nothing(
    s: PlayStats,
    device: Seq<char>,
    plays: u32,
    skips: u32,
    first_ms: u64,
    second_ms: u64,
)
    ensures
        ({
            let once = after_observation(s, device, plays, skips, first_ms);
            let twice = after_observation(once, device, plays, skips, second_ms);
            &&& twice.play_count == once.play_count
            &&& twice.skip_count == once.skip_count
            &&& first_ms == second_ms ==> twice == once
        }),
{
    let once = after_observation(s, device, plays, skips, first_ms);
    let twice = after_observation(once, device, plays, skips, second_ms);
    if first_ms == second_ms {
        assert(twice.device_baselines =~= once.device_baselines);
    }
}

/// What one device reports leaves the baselines of every other as they were.
pub proof fn devices_are_counted_apart(
    s: PlayStats,
    device: Seq<char>,
    other: Seq<char>,
    plays: u32,
    skips: u32,
    now_ms: u64,
)
    requires
        device != other,
    ensures
        ({
            let n = after_observation(s, device, plays, skips, now_ms);
            &&& n.device_baselines.contains_key(other) == s.device_baselines.contains_key(other)
            &&& s.device_baselines.contains_key(other) ==> n.device_baselines[other]
                == s.device_baselines[other]
        }),
{
}

/// The counters of every track that was played, by library id.
pub struct LocalPlays {
    pub entries: OrdMap<u64, TrackPlays>,
}

impl View for LocalPlays {
    type V = Map<u64, PlayStats>;

    open spec fn view(&self) -> Map<u64, PlayStats> {
        self.entries@.map_values(|t: TrackPlays| t@)
    }
}

/// The counters of a track, none where it was never played.
pub open spec fn stats_of(m: Map<u64, PlayStats>, id: u64) -> PlayStats {
    if m.contains_key(id) {
        m[id]
    } else {
        no_plays()
    }
}

impl LocalPlays {
    pub fn new() -> (r: Self)
        ensures
            r@ == Map::<u64, PlayStats>::empty(),
    {
        let r = LocalPlays { entries: OrdMap::new() };
        proof {
            assert(r@ =~= Map::<u64, PlayStats>::empty());
        }
        r
    }

    pub fn is_empty(&self) -> (r: bool)
        ensures
            r == (self@ == Map::<u64, PlayStats>::empty()),
    {
        let r = self.entries.is_empty();
        proof {
            if r {
                assert(self@ =~= Map::<u64, PlayStats>::empty());
            } else if self@ == Map::<u64, PlayStats>::empty() {
                assert(self.entries@ =~= Map::<u64, TrackPlays>::empty()) by {
                    assert forall|k: u64| !self.entries@.contains_key(k) by {
                        assert(!self@.contains_key(k));
                    }
                }
            }
        }
        r
    }

    /// The counters of a track.
    pub fn get(&self, id: u64) -> (r: Option<&TrackPlays>)
        ensures
            match r {
                Some(t) => self@.contains_key(id) && t@ == self@[id],
                None => !self@.contains_key(id),
            },
    {
        self.entries.get(&id)
    }

    fn take_or_new(&mut self, id: u64) -> (r: TrackPlays)
        ensures
            r@ == stats_of(old(self)@, id),
            final(self)@ == old(self)@.remove(id),
    {
        let taken = self.entries.remove(&id);
        proof {
            assert(self@ =~= old(self)@.remove(id));
        }
        match taken {
            Some(t) => t,
            None => TrackPlays {
                play_count: 0,
                skip_count: 0,
                last_played_at_ms: 0,
                device_baselines: OrdMap::new(),
            },
        }
    }

    fn put(&mut self, id: u64, t: TrackPlays)
        ensures
            final(self)@ == old(self)@.insert(id, t@),
    {
        self.entries.insert(id, t);
        proof {
            assert(self@ =~= old(self)@.insert(id, t@));
        }
    }

    /// Counts a play.
    pub fn record_play(&mut self, id: u64, now_ms: u64)
        ensures
            final(self)@ == old(self)@.insert(id, after_play(stats_of(old(self)@, id), now_ms)),
    {
        let mut t = self.take_or_new(id);
        t.play_count = t.play_count.saturating_add(1);
        t.last_played_at_ms = now_ms;
        self.put(id, t);
        proof {
            assert(self@ =~= old(self)@.insert(id, after_play(stats_of(old(self)@, id), now_ms)));
        }
    }

    /// Counts a skip.
    pub fn record_skip(&mut self, id: u64)
        ensures
            final(self)@ == old(self)@.insert(id, after_skip(stats_of(old(self)@, id))),
    {
        let mut t = self.take_or_new(id);
        t.skip_count = t.skip_count.saturating_add(1);
        self.put(id, t);
        proof {
            assert(self@ =~= old(self)@.insert(id, after_skip(stats_of(old(self)@, id))));
        }
    }

    /// Folds a device's own counters into the aggregate.
    pub fn merge_device_observation(
        &mut self,
        id: u64,
        device_key: &str,
        plays: u32,
        skips: u32,
        now_ms: u64,
    )
        ensures
            final(self)@ == old(self)@.insert(
                id,
                after_observation(stats_of(old(self)@, id), device_key@, plays, skips, now_ms),
            ),
    {
        let ghost before = stats_of(self@, id);
        let mut t = self.take_or_new(id);
        let key = device_key.to_owned();
        let seen: DeviceBaseline = match t.device_baselines.get(&key) {
            Some(b) => *b,
            None => DeviceBaseline { play_count: 0, skip_count: 0, last_synced_at_ms: 0 },
        };
        t.play_count = t.play_count.saturating_add(plays.saturating_sub(seen.play_count));
        t.skip_count = t.skip_count.saturating_add(skips.saturating_sub(seen.skip_count));
        t.device_baselines.insert(
            key,
            DeviceBaseline { play_count: plays, skip_count: skips, last_synced_at_ms: now_ms },
        );
        proof {
            assert(t@ =~= after_observation(before, device_key@, plays, skips, now_ms));
        }
        self.put(id, t);
        proof {
            assert(self@ =~= old(self)@.insert(
                id,
                after_observation(before, device_key@, plays, skips, now_ms),
            ));
        }
    }
}

/// The part of a track that has to run before it counts as played: half of it,
/// four minutes at most.
pub open spec fn play_threshold(duration_ms: nat) -> nat {
    if duration_ms / 2 < 240000 {
        duration_ms / 2
    } else {
        240000
    }
}

pub fn play_threshold_ms(duration_ms: u64) -> (r: u64)
    ensures
        r == play_threshold(duration_ms as nat),
{
    if duration_ms / 2 < 240000 {
        duration_ms / 2
    } else {
        240000
    }
}

/// The key under which a device's baselines are kept: the family, and the
/// serial number or else the firmware.
pub open spec fn baseline_key(
    family: DeviceFamily,
    serial: Option<Seq<char>>,
    firmware: Option<Seq<char>>,
) -> Seq<char> {
    family.text() + "-"@ + match serial {
        Some(s) => s,
        None => match firmware {
            Some(f) => f,
            None => "unknown"@,
        },
    }
}

pub fn device_baseline_key(
    family: DeviceFamily,
    serial: &Option<String>,
    firmware: &Option<String>,
) -> (r: String)
    ensures
        r@ == baseline_key(
            family,
            crate::format::opt_text(*serial),
            crate::format::opt_text(*firmware),
        ),
{
    let id: &str = match serial {
        Some(s) => s.as_str(),
        None => match firmware {
            Some(f) => f.as_str(),
            None => "unknown",
        },
    };
    concat3(family.label(), "-", id)
}

/// One play or skip, in the order in which they came.
#[derive(Debug, Clone, Copy, PartialEq, Eq, Structural)]
pub struct ListenEvent {
    pub ts: u64,
    pub id: u64,
    /// The track ran past its threshold.
    pub completed: bool,
}

} // verus!
