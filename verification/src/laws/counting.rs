//! Plays and skips: what a device reports, what is added, and what is recorded
//! of a session.
use vstd::prelude::*;
use crate::app::history::{
    all_restated, device_counts, merged, merged_one, observations, or_zero, playable_row,
    reports_agree, restated,
};
use crate::app::App;
use crate::commands::HostRequest;
use crate::device::track_parts;
use crate::library::{first_where, Library};
use crate::model::{DeviceEntry, DeviceFamily, Track};
use crate::plays::{after_observation, baseline_key, stats_of, PlayStats};
use crate::text::{match_key, same_ignoring_case, stripped_key, trimmed, without_track_number};
use crate::tracks::TrackInfo;

verus! {

/// The first element that a condition holds of is found: it is in the sequence,
/// the condition holds of it, and of none before it; where none is found the
/// condition holds nowhere.
pub proof fn the_first_is_found<T>(s: Seq<T>, p: spec_fn(T) -> bool)
    ensures
        match first_where(s, p) {
            Some(x) => exists|i: int|
                0 <= i < s.len() && #[trigger] s[i] == x && p(x) && forall|k: int|
                    0 <= k < i ==> !p(#[trigger] s[k]),
            None => forall|k: int| 0 <= k < s.len() ==> !p(#[trigger] s[k]),
        },
    decreases s.len(),
{
    if s.len() > 0 && !p(s[0]) {
        let t = s.skip(1);
        the_first_is_found(t, p);
        match first_where(t, p) {
            Some(x) => {
                let i = choose|i: int|
                    0 <= i < t.len() && #[trigger] t[i] == x && p(x) && forall|k: int|
                        0 <= k < i ==> !p(#[trigger] t[k]);
                assert(s[i + 1] == x);
                assert forall|k: int| 0 <= k < i + 1 implies !p(#[trigger] s[k]) by {
                    if k > 0 {
                        assert(!p(t[k - 1]));
                    }
                }
            },
            None => {
                assert forall|k: int| 0 <= k < s.len() implies !p(#[trigger] s[k]) by {
                    if k > 0 {
                        assert(!p(t[k - 1]));
                    }
                }
            },
        }
    } else if s.len() > 0 {
        assert(s[0] == first_where(s, p)->0);
    }
}

/// The device file has the key: it is no folder, and artist and title of its
/// path, the title with or without a track number, are those of the key.
pub open spec fn file_has_key(e: DeviceEntry, k: (Seq<char>, Seq<char>)) -> bool {
    &&& e.format@ != "Association"@
    &&& match_key(track_parts(e.name@).0) == k.0
    &&& match_key(track_parts(e.name@).2) == k.1 || stripped_key(track_parts(e.name@).2) == k.1
}

/// Every file of the device is counted under its artist and title, and under its
/// title without a track number, with the plays and skips of the last file that
/// has the key. Nothing else is counted.
pub proof fn device_files_are_counted_under_their_keys(
    entries: Seq<DeviceEntry>,
    k: (Seq<char>, Seq<char>),
)
    ensures
        device_counts(entries).contains_key(k) <==> exists|i: int|
            0 <= i < entries.len() && file_has_key(#[trigger] entries[i], k),
        forall|i: int|
            0 <= i < entries.len() && file_has_key(#[trigger] entries[i], k) && (forall|j: int|
                i < j < entries.len() ==> !file_has_key(#[trigger] entries[j], k))
                ==> device_counts(entries)[k] == (
                match entries[i].play_count {
                    Some(n) => n,
                    None => 0,
                },
                match entries[i].skip_count {
                    Some(n) => n,
                    None => 0,
                },
            ),
    decreases entries.len(),
{
    if entries.len() > 0 {
        let d = entries.drop_last();
        let e = entries.last();
        device_files_are_counted_under_their_keys(d, k);
        assert(entries[entries.len() - 1] == e);
        if exists|i: int| 0 <= i < d.len() && file_has_key(#[trigger] d[i], k) {
            let i = choose|i: int| 0 <= i < d.len() && file_has_key(#[trigger] d[i], k);
            assert(entries[i] == d[i]);
        }
        if exists|i: int| 0 <= i < entries.len() && file_has_key(#[trigger] entries[i], k) {
            let i = choose|i: int| 0 <= i < entries.len() && file_has_key(#[trigger] entries[i], k);
            if i < d.len() {
                assert(d[i] == entries[i]);
            }
        }
        assert forall|i: int|
            0 <= i < entries.len() && file_has_key(#[trigger] entries[i], k) && (forall|j: int|
                i < j < entries.len() ==> !file_has_key(#[trigger] entries[j], k)) implies device_counts(
            entries,
        )[k] == (or_zero(entries[i].play_count), or_zero(entries[i].skip_count)) by {
            if i < d.len() {
                assert(!file_has_key(entries[entries.len() - 1], k));
                assert(d[i] == entries[i]);
                assert forall|j: int| i < j < d.len() implies !file_has_key(#[trigger] d[j], k) by {
                    assert(entries[j] == d[j]);
                }
            }
        }
    }
}

/// Each library track whose artist and name the device has counted is reported
/// with that count, in the order of the library; no other is.
pub proof fn counted_tracks_are_reported(
    tracks: Seq<Track>,
    counts: Map<(Seq<char>, Seq<char>), (u32, u32)>,
)
    ensures
        forall|i: int|
            #![trigger tracks[i]]
            0 <= i < tracks.len() && counts.contains_key(
                (match_key(tracks[i].artist@), match_key(tracks[i].name@)),
            ) ==> observations(tracks, counts).contains(
                (
                    tracks[i].id,
                    counts[(match_key(tracks[i].artist@), match_key(tracks[i].name@))].0,
                    counts[(match_key(tracks[i].artist@), match_key(tracks[i].name@))].1,
                ),
            ),
        forall|o: int|
            0 <= o < observations(tracks, counts).len() ==> is_report_of(
                tracks,
                counts,
                #[trigger] observations(tracks, counts)[o],
            ),
    decreases tracks.len(),
{
    let all = observations(tracks, counts);
    if tracks.len() > 0 {
        let d = tracks.drop_last();
        let rest = observations(d, counts);
        counted_tracks_are_reported(d, counts);
        assert forall|i: int|
            #![trigger tracks[i]]
            0 <= i < tracks.len() && counts.contains_key(
                (match_key(tracks[i].artist@), match_key(tracks[i].name@)),
            ) implies all.contains(
            (
                tracks[i].id,
                counts[(match_key(tracks[i].artist@), match_key(tracks[i].name@))].0,
                counts[(match_key(tracks[i].artist@), match_key(tracks[i].name@))].1,
            ),
        ) by {
            if i < d.len() {
                assert(d[i] == tracks[i]);
                let r = (
                    tracks[i].id,
                    counts[(match_key(tracks[i].artist@), match_key(tracks[i].name@))].0,
                    counts[(match_key(tracks[i].artist@), match_key(tracks[i].name@))].1,
                );
                let q = rest.index_of(r);
                assert(all[q] == r);
            } else {
                assert(all[all.len() - 1].0 == tracks[i].id);
            }
        }
        assert forall|o: int| 0 <= o < all.len() implies is_report_of(tracks, counts, #[trigger] all[o]) by {
            if o < rest.len() {
                assert(all[o] == rest[o]);
                assert(is_report_of(d, counts, rest[o]));
                let i = choose|i: int|
                    0 <= i < d.len() && reports_track(#[trigger] d[i], counts, rest[o]);
                assert(tracks[i] == d[i]);
            } else {
                assert(reports_track(tracks[tracks.len() - 1], counts, all[o]));
            }
        }
    }
}

/// The report is that of a track: its id, and what is counted under its artist
/// and name.
pub open spec fn reports_track(
    t: Track,
    counts: Map<(Seq<char>, Seq<char>), (u32, u32)>,
    o: (u64, u32, u32),
) -> bool {
    let k = (match_key(t.artist@), match_key(t.name@));
    counts.contains_key(k) && o == (t.id, counts[k].0, counts[k].1)
}

/// The report is that of one of the tracks.
pub open spec fn is_report_of(
    tracks: Seq<Track>,
    counts: Map<(Seq<char>, Seq<char>), (u32, u32)>,
    o: (u64, u32, u32),
) -> bool {
    exists|i: int| 0 <= i < tracks.len() && reports_track(#[trigger] tracks[i], counts, o)
}

/// A library track that the device has one file of is reported with the plays
/// and skips of that file.
pub proof fn a_track_on_the_device_is_reported(app: App, i: int, j: int)
    requires
        app.library is Some,
        0 <= i < app.library->0.tracks@.len(),
        0 <= j < app.device.tracks@.len(),
        file_has_key(
            app.device.tracks@[j],
            (
                match_key(app.library->0.tracks@[i].artist@),
                match_key(app.library->0.tracks@[i].name@),
            ),
        ),
        forall|q: int|
            0 <= q < app.device.tracks@.len() && q != j ==> !file_has_key(
                #[trigger] app.device.tracks@[q],
                (
                    match_key(app.library->0.tracks@[i].artist@),
                    match_key(app.library->0.tracks@[i].name@),
                ),
            ),
    ensures
        app.reports().contains(
            (
                app.library->0.tracks@[i].id,
                match app.device.tracks@[j].play_count {
                    Some(n) => n,
                    None => 0,
                },
                match app.device.tracks@[j].skip_count {
                    Some(n) => n,
                    None => 0,
                },
            ),
        ),
{
    let t = app.library->0.tracks@[i];
    let k = (match_key(t.artist@), match_key(t.name@));
    device_files_are_counted_under_their_keys(app.device.tracks@, k);
    counted_tracks_are_reported(app.library->0.tracks@, device_counts(app.device.tracks@));
}

/// The sum of two counts, as far as a count goes.
pub open spec fn added(a: u32, b: int) -> int {
    if a + b <= 0xffff_ffff {
        a + b
    } else {
        0xffff_ffff
    }
}

/// A device seen for the first time adds all that it counted; one seen before
/// adds what it counted since, and nothing where its counter went back. What it
/// said is remembered, with the time, for the next time. The time of the last
/// play here stays.
pub proof fn devices_add_what_is_new(
    s: PlayStats,
    device: Seq<char>,
    plays: u32,
    skips: u32,
    now_ms: u64,
)
    ensures
        ({
            let n = after_observation(s, device, plays, skips, now_ms);
            &&& !s.device_baselines.contains_key(device) ==> n.play_count == added(
                s.play_count,
                plays as int,
            ) && n.skip_count == added(s.skip_count, skips as int)
            &&& s.device_baselines.contains_key(device) ==> {
                let b = s.device_baselines[device];
                &&& plays >= b.play_count ==> n.play_count == added(
                    s.play_count,
                    plays - b.play_count,
                )
                &&& plays < b.play_count ==> n.play_count == s.play_count
                &&& skips >= b.skip_count ==> n.skip_count == added(
                    s.skip_count,
                    skips - b.skip_count,
                )
                &&& skips < b.skip_count ==> n.skip_count == s.skip_count
            }
            &&& n.device_baselines.contains_key(device)
            &&& n.device_baselines[device].play_count == plays
            &&& n.device_baselines[device].skip_count == skips
            &&& n.device_baselines[device].last_synced_at_ms == now_ms
            &&& n.last_played_at_ms == s.last_played_at_ms
        }),
{
}

/// Folding in the connected device gives a track that it reports what the report
/// adds, and leaves every other track alone.
pub proof fn merging_counts_each_reported_track(before: App, after: App, id: u64, o: int)
    requires
        after.device_merged(&before),
        before.device_key() is Some,
        before.device.tracks@.len() > 0,
        reports_agree(before.reports()),
    ensures
        0 <= o < before.reports().len() && before.reports()[o].0 == id ==> {
            let was = stats_of(before.player.local_plays@, id);
            let now = stats_of(after.player.local_plays@, id);
            &&& now == after_observation(
                was,
                before.device_key()->0,
                before.reports()[o].1,
                before.reports()[o].2,
                before.host.unix_ms,
            )
            &&& !was.device_baselines.contains_key(before.device_key()->0) ==> now.play_count
                == added(was.play_count, before.reports()[o].1 as int) && now.skip_count == added(
                was.skip_count,
                before.reports()[o].2 as int,
            )
        },
        (forall|i: int|
            0 <= i < before.reports().len() ==> (#[trigger] before.reports()[i]).0 != id) ==> stats_of(
            after.player.local_plays@,
            id,
        ) == stats_of(before.player.local_plays@, id),
{
    merged_one(
        before.player.local_plays@,
        before.reports(),
        before.device_key()->0,
        before.host.unix_ms,
        id,
    );
    if 0 <= o < before.reports().len() && before.reports()[o].0 == id {
        devices_add_what_is_new(
            stats_of(before.player.local_plays@, id),
            before.device_key()->0,
            before.reports()[o].1,
            before.reports()[o].2,
            before.host.unix_ms,
        );
    }
}

/// A first sight of a device: a library track that it has one file of gets all
/// the plays and skips that the file counted.
pub proof fn the_first_sight_adopts_the_counts(before: App, after: App, i: int, j: int)
    requires
        after.device_merged(&before),
        before.device_key() is Some,
        before.library is Some,
        reports_agree(before.reports()),
        0 <= i < before.library->0.tracks@.len(),
        0 <= j < before.device.tracks@.len(),
        file_has_key(
            before.device.tracks@[j],
            (
                match_key(before.library->0.tracks@[i].artist@),
                match_key(before.library->0.tracks@[i].name@),
            ),
        ),
        forall|q: int|
            0 <= q < before.device.tracks@.len() && q != j ==> !file_has_key(
                #[trigger] before.device.tracks@[q],
                (
                    match_key(before.library->0.tracks@[i].artist@),
                    match_key(before.library->0.tracks@[i].name@),
                ),
            ),
        !before.player.local_plays@.contains_key(before.library->0.tracks@[i].id),
        before.device.tracks@[j].play_count is Some,
        before.device.tracks@[j].skip_count is Some,
    ensures
        after.player.local_plays@.contains_key(before.library->0.tracks@[i].id),
        after.player.local_plays@[before.library->0.tracks@[i].id].play_count
            == before.device.tracks@[j].play_count->0,
        after.player.local_plays@[before.library->0.tracks@[i].id].skip_count
            == before.device.tracks@[j].skip_count->0,
{
    a_track_on_the_device_is_reported(before, i, j);
    let id = before.library->0.tracks@[i].id;
    let r = (id, before.device.tracks@[j].play_count->0, before.device.tracks@[j].skip_count->0);
    let o = before.reports().index_of(r);
    merging_counts_each_reported_track(before, after, id, o);
    reported_tracks_are_kept(
        before.player.local_plays@,
        before.reports(),
        before.device_key()->0,
        before.host.unix_ms,
        o,
    );
}

proof fn reported_tracks_are_kept(
    plays: Map<u64, PlayStats>,
    obs: Seq<(u64, u32, u32)>,
    device: Seq<char>,
    now_ms: u64,
    o: int,
)
    requires
        0 <= o < obs.len(),
    ensures
        merged(plays, obs, device, now_ms).contains_key(obs[o].0),
    decreases obs.len(),
{
    if o < obs.len() - 1 {
        assert(obs.drop_last()[o] == obs[o]);
        reported_tracks_are_kept(plays, obs.drop_last(), device, now_ms, o);
    }
}

/// A session that is recorded counts once for its track: one play more and the
/// time of it where it was completed, one skip more where it was not. The log
/// grows by the event, the counters are to be saved, and no other track is
/// touched. A session that was counted before, and one without a library track,
/// count nothing.
pub proof fn sessions_are_counted_for_their_track(before: App, after: App, completed: bool, other: u64)
    requires
        after.session_recorded(&before, completed),
        before.player.now_playing is Some,
        !before.player.now_playing->0.counted,
    ensures
        after.player.now_playing is Some && after.player.now_playing->0.counted,
        match before.player.now_playing->0.track_id {
            Some(id) => {
                let was = stats_of(before.player.local_plays@, id);
                let now = stats_of(after.player.local_plays@, id);
                &&& completed ==> now.play_count == added(was.play_count, 1) && now.skip_count
                    == was.skip_count && now.last_played_at_ms == before.host.unix_ms
                &&& !completed ==> now.skip_count == added(was.skip_count, 1) && now.play_count
                    == was.play_count && now.last_played_at_ms == was.last_played_at_ms
                &&& now.device_baselines == was.device_baselines
                &&& other != id ==> stats_of(after.player.local_plays@, other) == stats_of(
                    before.player.local_plays@,
                    other,
                )
                &&& after.player.listen_log@.len() == before.player.listen_log@.len() + 1
                &&& after.player.listen_log@.last().id == id
                &&& after.player.listen_log@.last().completed == completed
                &&& after.player.listen_log@.last().ts == before.host.unix_ms
                &&& after.out.host_requests@.last() == HostRequest::SaveLocalPlays
            },
            None => after.player.local_plays == before.player.local_plays
                && after.player.listen_log == before.player.listen_log,
        },
{
}

/// A session counts as played once half of the track, or four minutes of a long
/// one, have run; a track of unknown length never does.
pub proof fn half_or_four_minutes_count_as_a_play(app: App)
    requires
        app.player.now_playing is Some,
    ensures
        app.play_is_due() <==> !app.player.now_playing->0.counted
            && app.player.now_playing->0.duration_ms > 0 && (2
            * app.player.now_playing->0.elapsed_ms + 1 >= app.player.now_playing->0.duration_ms
            || app.player.now_playing->0.elapsed_ms >= 4 * 60 * 1000),
{
}

/// The keys of two devices with serial numbers agree only where family and
/// serial number do; a device without one goes by its firmware.
pub proof fn devices_are_told_apart_by_serial(
    family: DeviceFamily,
    other: DeviceFamily,
    serial: Seq<char>,
    other_serial: Seq<char>,
    firmware: Option<Seq<char>>,
    other_firmware: Option<Seq<char>>,
)
    ensures
        baseline_key(family, Some(serial), firmware) == baseline_key(
            other,
            Some(other_serial),
            other_firmware,
        ) ==> family == other && serial == other_serial,
        baseline_key(family, None, Some(serial)) == baseline_key(family, Some(serial), firmware),
{
    reveal_strlit("Zune");
    reveal_strlit("iPod");
    reveal_strlit("GoGear");
    reveal_strlit("-");
    let a = baseline_key(family, Some(serial), firmware);
    let b = baseline_key(other, Some(other_serial), other_firmware);
    if a == b {
        assert(a[0] == family.text()[0]);
        assert(b[0] == other.text()[0]);
        let n = family.text().len() + 1;
        assert(a.skip(n as int) =~= serial);
        assert(b.skip(n as int) =~= other_serial);
    }
}

/// A row that belongs to a track that is restated shows the track's plays, its
/// skips and its last play where there are any; a row of another track is left
/// as it is.
pub proof fn restated_rows_show_their_own_counts(
    r: TrackInfo,
    id: u64,
    plays: Map<u64, PlayStats>,
    key: Option<Seq<char>>,
)
    ensures
        r.library_id != Some(id) || !plays.contains_key(id) ==> restated(r, id, plays, key) == r,
        r.library_id == Some(id) && plays.contains_key(id) ==> {
            let n = restated(r, id, plays, key);
            &&& n.play_count == Some(plays[id].play_count)
            &&& plays[id].skip_count > 0 ==> n.skip_count == Some(plays[id].skip_count)
            &&& plays[id].skip_count == 0 ==> n.skip_count is None
            &&& plays[id].last_played_at_ms > 0 ==> n.last_played_at_ms == Some(
                plays[id].last_played_at_ms,
            )
            &&& plays[id].last_played_at_ms == 0 ==> n.last_played_at_ms is None
            &&& key is Some && plays[id].device_baselines.contains_key(key->0)
                ==> n.last_synced_from_device_at_ms == Some(
                plays[id].device_baselines[key->0].last_synced_at_ms,
            )
            &&& n.name == r.name && n.artist == r.artist && n.album == r.album && n.library_id
                == r.library_id && n.location == r.location && n.on_device == r.on_device && n.rating
                == r.rating
        },
{
}

/// After a merge every listed row of a reported track shows the track's plays.
pub proof fn merged_rows_show_their_counts(
    rows: Seq<TrackInfo>,
    ids: Seq<u64>,
    plays: Map<u64, PlayStats>,
    key: Option<Seq<char>>,
    i: int,
)
    requires
        0 <= i < rows.len(),
    ensures
        all_restated(rows, ids, plays, key).len() == rows.len(),
        all_restated(rows, ids, plays, key)[i].library_id == rows[i].library_id,
        all_restated(rows, ids, plays, key)[i].name == rows[i].name,
        rows[i].library_id is Some && ids.contains(rows[i].library_id->0) && plays.contains_key(
            rows[i].library_id->0,
        ) ==> all_restated(rows, ids, plays, key)[i].play_count == Some(
            plays[rows[i].library_id->0].play_count,
        ),
        rows[i].library_id is None || !ids.contains(rows[i].library_id->0) ==> all_restated(
            rows,
            ids,
            plays,
            key,
        )[i] == rows[i],
    decreases ids.len(),
{
    if ids.len() > 0 {
        let d = ids.drop_last();
        merged_rows_show_their_counts(rows, d, plays, key, i);
        restated_rows_show_their_own_counts(
            all_restated(rows, d, plays, key)[i],
            ids.last(),
            plays,
            key,
        );
        assert(ids[ids.len() - 1] == ids.last());
        if rows[i].library_id is Some {
            let id = rows[i].library_id->0;
            if ids.contains(id) && id != ids.last() {
                let k = ids.index_of(id);
                assert(d[k] == id);
            }
            if d.contains(id) {
                let k = d.index_of(id);
                assert(ids[k] == id);
            }
        }
    }
}

/// The library track behind a row that is played has the row's artist and album,
/// and its name or its name without a track number, in whatever case; a row whose
/// very name the library has is never taken for another.
pub proof fn played_rows_stand_for_their_track(library: Library, t: TrackInfo)
    ensures
        playable_row(Some(library), t) matches Some(x) ==> library.tracks@.contains(x)
            && same_ignoring_case(x.artist@, t.artist@) && same_ignoring_case(x.album@, t.album@) && (
        same_ignoring_case(x.name@, t.name@) || same_ignoring_case(
            x.name@,
            without_track_number(trimmed(t.name@)),
        )),
        forall|i: int|
            0 <= i < library.tracks@.len() && same_ignoring_case(
                (#[trigger] library.tracks@[i]).artist@,
                t.artist@,
            ) && same_ignoring_case(library.tracks@[i].album@, t.album@) && same_ignoring_case(
                library.tracks@[i].name@,
                t.name@,
            ) ==> playable_row(Some(library), t) is Some && same_ignoring_case(
                playable_row(Some(library), t)->0.name@,
                t.name@,
            ),
{
    let stripped = without_track_number(trimmed(t.name@));
    let p = |x: Track| crate::library::is_row(x, t.name@, t.artist@, t.album@);
    let q = |x: Track| crate::library::is_row(x, stripped, t.artist@, t.album@);
    the_first_is_found(library.tracks@, p);
    the_first_is_found(library.tracks@, q);
    assert forall|i: int|
        0 <= i < library.tracks@.len() && same_ignoring_case(
            (#[trigger] library.tracks@[i]).artist@,
            t.artist@,
        ) && same_ignoring_case(library.tracks@[i].album@, t.album@) && same_ignoring_case(
            library.tracks@[i].name@,
            t.name@,
        ) implies playable_row(Some(library), t) is Some && same_ignoring_case(
        playable_row(Some(library), t)->0.name@,
        t.name@,
    ) by {
        assert(p(library.tracks@[i]));
    }
}

/// A row whose name starts with a track number stands for the library track of the
/// name without it, where the library has that and not the very name.
pub proof fn numbered_rows_stand_for_the_bare_name(library: Library, t: TrackInfo, i: int)
    requires
        0 <= i < library.tracks@.len(),
        same_ignoring_case(library.tracks@[i].artist@, t.artist@),
        same_ignoring_case(library.tracks@[i].album@, t.album@),
        same_ignoring_case(library.tracks@[i].name@, without_track_number(trimmed(t.name@))),
    ensures
        playable_row(Some(library), t) is Some,
{
    let stripped = without_track_number(trimmed(t.name@));
    let p = |x: Track| crate::library::is_row(x, t.name@, t.artist@, t.album@);
    let q = |x: Track| crate::library::is_row(x, stripped, t.artist@, t.album@);
    the_first_is_found(library.tracks@, p);
    the_first_is_found(library.tracks@, q);
    assert(q(library.tracks@[i]));
    if stripped == t.name@ {
        assert(p(library.tracks@[i]));
    }
}

} // verus!
