//! The tag manager: what is asked of the services, what their answers become,
//! and what the keys switch.
use vstd::prelude::*;
use crate::app::tags::{
    carried_ids, fingerprint_of, has_fingerprint, is_most_common, most_common, times,
};
use crate::app::App;
use crate::commands::BgCommand;
use crate::laws::counting::the_first_is_found;
use crate::library::{first_index_facts, first_where, Library};
use crate::model::Track;
use crate::tag_model::{
    best_hit, best_hit_is_best, first_proposed, followup, header_row, is_proposed, recording_hits,
    rows_of_match, rows_of_matches, table_rows, without_usize, AcoustIdHit, AcoustIdRecording,
    DiffScope, FieldDiff, FocusRow, HitText, RecordingLookupResponse, TagManagerOverlay,
};
use crate::text::{same_ignoring_case, trimmed};
use crate::types::{BrowseMode, Panel};

verus! {

/// The track has a fingerprint that is not empty, and lasts some time.
pub open spec fn can_be_recognised(t: Track) -> bool {
    t.acoustic_id is Some && t.acoustic_id->0@.len() > 0 && t.total_time_ms is Some
        && t.total_time_ms->0 > 0
}

/// The track is called that, whatever the case.
pub open spec fn is_called(t: Track, name: Seq<char>) -> bool {
    same_ignoring_case(t.name@, name)
}

/// Where a track is named, fingerprint and duration are those of the first track
/// of that name, ignoring case, that has both; there is none exactly where no
/// track of that name has both.
pub proof fn fingerprints_are_of_the_named_track(tracks: Seq<Track>, name: Seq<char>)
    ensures
        match fingerprint_of(tracks, Some(name)) {
            Some((fp, secs)) => exists|i: int|
                {
                    &&& 0 <= i < tracks.len()
                    &&& is_called(#[trigger] tracks[i], name)
                    &&& can_be_recognised(tracks[i])
                    &&& tracks[i].acoustic_id->0 == fp
                    &&& secs == (tracks[i].total_time_ms->0 / 1000) as u32
                    &&& forall|k: int|
                        0 <= k < i ==> !(is_called(#[trigger] tracks[k], name) && can_be_recognised(tracks[k]))
                },
            None => forall|k: int|
                0 <= k < tracks.len() ==> !(is_called(#[trigger] tracks[k], name) && can_be_recognised(
                    tracks[k],
                )),
        },
{
    let p = |t: Track| has_fingerprint(t, Some(name));
    the_first_is_found(tracks, p);
    match first_where(tracks, p) {
        Some(x) => {
            let i = choose|i: int|
                0 <= i < tracks.len() && #[trigger] tracks[i] == x && p(x) && forall|k: int|
                    0 <= k < i ==> !p(#[trigger] tracks[k]);
            assert(is_called(tracks[i], name));
            assert forall|k: int| 0 <= k < i implies !(is_called(#[trigger] tracks[k], name)
                && can_be_recognised(tracks[k])) by {
                assert(!p(tracks[k]));
            }
        },
        None => {
            assert forall|k: int| 0 <= k < tracks.len() implies !(is_called(#[trigger] tracks[k], name)
                && can_be_recognised(tracks[k])) by {
                assert(!p(tracks[k]));
            }
        },
    }
}

/// Where no track is named, fingerprint and duration are those of the first
/// track that has both.
pub proof fn albums_are_recognised_by_a_track(tracks: Seq<Track>)
    ensures
        match fingerprint_of(tracks, None) {
            Some((fp, secs)) => exists|i: int|
                {
                    &&& 0 <= i < tracks.len()
                    &&& can_be_recognised(#[trigger] tracks[i])
                    &&& tracks[i].acoustic_id->0 == fp
                    &&& secs == (tracks[i].total_time_ms->0 / 1000) as u32
                    &&& forall|k: int| 0 <= k < i ==> !can_be_recognised(#[trigger] tracks[k])
                },
            None => forall|k: int| 0 <= k < tracks.len() ==> !can_be_recognised(#[trigger] tracks[k]),
        },
{
    let p = |t: Track| has_fingerprint(t, None);
    the_first_is_found(tracks, p);
    match first_where(tracks, p) {
        Some(x) => {
            let i = choose|i: int|
                0 <= i < tracks.len() && #[trigger] tracks[i] == x && p(x) && forall|k: int|
                    0 <= k < i ==> !p(#[trigger] tracks[k]);
            assert(can_be_recognised(tracks[i]));
            assert forall|k: int| 0 <= k < i implies !can_be_recognised(#[trigger] tracks[k]) by {
                assert(!p(tracks[k]));
            }
        },
        None => {
            assert forall|k: int| 0 <= k < tracks.len() implies !can_be_recognised(#[trigger] tracks[k]) by {
                assert(!p(tracks[k]));
            }
        },
    }
}

/// The track is one of the selection and carries the release.
pub open spec fn carries(t: Track, name: Option<Seq<char>>, id: Seq<char>) -> bool {
    &&& name is Some ==> is_called(t, name->0)
    &&& t.mb_release_id is Some && t.mb_release_id->0@ == id
    &&& id.len() > 0
}

/// How many tracks of the selection carry the release.
pub open spec fn carriers(tracks: Seq<Track>, name: Option<Seq<char>>, id: Seq<char>) -> nat
    decreases tracks.len(),
{
    if tracks.len() == 0 {
        0
    } else {
        carriers(tracks.drop_last(), name, id) + if carries(tracks.last(), name, id) {
            1nat
        } else {
            0
        }
    }
}

/// A release is counted once for each track of the selection that carries it.
pub proof fn releases_are_counted_by_track(tracks: Seq<Track>, name: Option<Seq<char>>, id: Seq<char>)
    ensures
        times(carried_ids(tracks, name), id) == carriers(tracks, name, id),
        carried_ids(tracks, name).contains(id) <==> carriers(tracks, name, id) > 0,
    decreases tracks.len(),
{
    let all = carried_ids(tracks, name);
    if tracks.len() > 0 {
        let d = tracks.drop_last();
        let rest = carried_ids(d, name);
        releases_are_counted_by_track(d, name, id);
        if all != rest {
            assert(all.drop_last() =~= rest);
            assert(all[all.len() - 1] == all.last());
            if rest.contains(id) {
                assert(all[rest.index_of(id)] == id);
            }
            if all.contains(id) && !rest.contains(id) {
                let k = all.index_of(id);
                if k < rest.len() {
                    assert(rest[k] == id);
                }
            }
            let t = tracks.last();
            assert(all == rest.push(t.mb_release_id->0@));
        } else {
            let t = tracks.last();
            if carries(t, name, id) {
                assert(all == rest.push(id));
                assert(all.len() == rest.len() + 1);
            }
        }
    }
}

/// The release that the library knows for a selection is carried by one of its
/// tracks, and no other release is carried by more of them; none is known
/// exactly where no track of the selection carries one.
pub proof fn the_known_release_is_the_most_carried(
    tracks: Seq<Track>,
    name: Option<Seq<char>>,
    other: Seq<char>,
)
    ensures
        match most_common(carried_ids(tracks, name)) {
            Some(id) => carriers(tracks, name, id) > 0 && carriers(tracks, name, other) <= carriers(
                tracks,
                name,
                id,
            ),
            None => carriers(tracks, name, other) == 0,
        },
{
    let s = carried_ids(tracks, name);
    let p = |x: Seq<char>| is_most_common(s, x);
    the_first_is_found(s, p);
    releases_are_counted_by_track(tracks, name, other);
    match first_where(s, p) {
        Some(id) => {
            releases_are_counted_by_track(tracks, name, id);
            if s.contains(other) {
                let k = s.index_of(other);
                assert(times(s, s[k]) <= times(s, id));
            }
        },
        None => {
            if s.len() > 0 {
                let b = most_times(s, s.len() as int);
                most_times_is_greatest(s, s.len() as int);
                assert forall|j: int| 0 <= j < s.len() implies times(s, #[trigger] s[j]) <= times(s, s[b]) by {
                }
                assert(p(s[b]));
            }
        },
    }
}

spec fn most_times(s: Seq<Seq<char>>, n: int) -> int
    decreases n,
{
    if n <= 1 {
        0
    } else {
        let b = most_times(s, n - 1);
        if times(s, s[n - 1]) > times(s, s[b]) {
            n - 1
        } else {
            b
        }
    }
}

proof fn most_times_is_greatest(s: Seq<Seq<char>>, n: int)
    requires
        1 <= n <= s.len(),
    ensures
        0 <= most_times(s, n) < n,
        forall|j: int| 0 <= j < n ==> times(s, #[trigger] s[j]) <= times(s, s[most_times(s, n)]),
    decreases n,
{
    if n > 1 {
        most_times_is_greatest(s, n - 1);
    }
}

/// On a track row the overlay speaks of that row's track: the trimmed artist,
/// album and title of the row, and the scope of one track.
pub proof fn the_overlay_opens_on_the_selected_track(
    before: App,
    after: App,
    sent: Seq<BgCommand>,
    sent_after: Seq<BgCommand>,
)
    requires
        after.manager_opened(&before, sent, sent_after),
        before.nav.browse_mode == BrowseMode::Library,
        before.library is Some,
        before.nav.active_panel == Panel::TrackList,
        before.lists.track_selected < before.lists.track_list@.len(),
        before.tags.token < u64::MAX,
    ensures
        after.tags.manager is Some,
        ({
            let row = before.lists.track_list@[before.lists.track_selected as int];
            let o = after.tags.manager->0;
            &&& o.scope == DiffScope::Track
            &&& o.source_artist@ == trimmed(row.artist@)
            &&& o.source_album@ == trimmed(row.album@)
            &&& trimmed(row.name@).len() > 0 ==> o.source_track_name is Some && o.source_track_name->0@
                == trimmed(row.name@)
            &&& trimmed(row.name@).len() == 0 ==> o.source_track_name is None
            &&& o.query_artist@ == trimmed(row.artist@) && o.query_album@ == trimmed(row.album@)
            &&& o.anchor.artist@ == trimmed(row.artist@)
            &&& o.anchor.album is Some && o.anchor.album->0@ == trimmed(row.album@)
            &&& trimmed(row.name@).len() > 0 ==> o.anchor.track_name is Some && o.anchor.track_name->0@
                == trimmed(row.name@)
            &&& o.pending_request_token == before.tags.token + 1
        }),
        sent_after.len() == sent.len() + 1,
        sent_after.last() matches BgCommand::AcoustIdLookup { token, fingerprint, app_key, .. } ==> {
            let row = before.lists.track_list@[before.lists.track_selected as int];
            let tracks = before.album_of(trimmed(row.artist@), trimmed(row.album@));
            &&& token == before.tags.token + 1
            &&& Some(app_key) == before.tags.acoustid_app_key
            &&& exists|i: int|
                0 <= i < tracks.len() && can_be_recognised(#[trigger] tracks[i]) && tracks[i].acoustic_id->0
                    == fingerprint && (trimmed(row.name@).len() > 0 ==> is_called(
                    tracks[i],
                    trimmed(row.name@),
                ))
        },
        sent_after.last() matches BgCommand::MbReleaseDetails { token, mbid, .. } ==> {
            let row = before.lists.track_list@[before.lists.track_selected as int];
            let tracks = before.album_of(trimmed(row.artist@), trimmed(row.album@));
            &&& token == before.tags.token + 1
            &&& trimmed(row.name@).len() > 0 ==> carriers(tracks, Some(trimmed(row.name@)), mbid@) > 0
        },
        sent_after.last() matches BgCommand::MbSearchReleases { token, artist, album, .. } ==> {
            let row = before.lists.track_list@[before.lists.track_selected as int];
            token == before.tags.token + 1 && artist@ == trimmed(row.artist@) && album@ == trimmed(row.album@)
        },
{
    let row = before.lists.track_list@[before.lists.track_selected as int];
    let tracks = before.album_of(trimmed(row.artist@), trimmed(row.album@));
    let name = trimmed(row.name@);
    let scope = (before.tag_selection()->0).3;
    if name.len() > 0 {
        fingerprints_are_of_the_named_track(tracks, name);
        match fingerprint_of(tracks, Some(name)) {
            Some((fp, secs)) => {
                let i = choose|i: int|
                    {
                        &&& 0 <= i < tracks.len()
                        &&& is_called(#[trigger] tracks[i], name)
                        &&& can_be_recognised(tracks[i])
                        &&& tracks[i].acoustic_id->0 == fp
                    };
                assert(can_be_recognised(tracks[i]));
            },
            None => {},
        }
    } else {
        albums_are_recognised_by_a_track(tracks);
    }
    the_known_release_is_the_most_carried(tracks, scope, Seq::empty());
}

/// On an album row the overlay speaks of the whole album.
pub proof fn the_overlay_opens_on_the_selected_album(
    before: App,
    after: App,
    sent: Seq<BgCommand>,
    sent_after: Seq<BgCommand>,
)
    requires
        after.manager_opened(&before, sent, sent_after),
        before.nav.browse_mode == BrowseMode::Library,
        before.library is Some,
        before.nav.active_panel == Panel::Albums,
        before.lists.album_selected < before.lists.album_list@.len(),
        before.tags.token < u64::MAX,
    ensures
        after.tags.manager is Some,
        ({
            let row = before.lists.album_list@[before.lists.album_selected as int];
            let o = after.tags.manager->0;
            &&& o.scope == DiffScope::Album
            &&& o.source_artist@ == trimmed(row.artist@)
            &&& o.source_album@ == trimmed(row.name@)
            &&& o.source_track_name is None
            &&& o.query_artist@ == trimmed(row.artist@) && o.query_album@ == trimmed(row.name@)
            &&& o.anchor.artist@ == trimmed(row.artist@)
            &&& o.anchor.album is Some && o.anchor.album->0@ == trimmed(row.name@)
            &&& o.anchor.track_name is None
            &&& o.pending_request_token == before.tags.token + 1
        }),
        sent_after.len() == sent.len() + 1,
        sent_after.last() matches BgCommand::MbSearchReleases { artist, album, .. } ==> {
            let row = before.lists.album_list@[before.lists.album_selected as int];
            artist@ == trimmed(row.artist@) && album@ == trimmed(row.name@)
        },
        sent_after.last() matches BgCommand::MbReleaseDetails { mbid, .. } ==> {
            let row = before.lists.album_list@[before.lists.album_selected as int];
            carriers(before.album_of(trimmed(row.artist@), trimmed(row.name@)), None, mbid@) > 0
        },
{
    let row = before.lists.album_list@[before.lists.album_selected as int];
    let tracks = before.album_of(trimmed(row.artist@), trimmed(row.name@));
    the_known_release_is_the_most_carried(tracks, None, Seq::empty());
}

/// A fingerprint that matched is followed up by the first recording of the best
/// match: none has a higher rank, and of equals the last counts.
pub proof fn the_best_match_is_followed_up(hits: Seq<AcoustIdHit>, i: int)
    requires
        0 <= i < hits.len(),
    ensures
        0 <= best_hit(hits) < hits.len(),
        hits[i].rank <= hits[best_hit(hits)].rank,
        i > best_hit(hits) ==> hits[i].rank < hits[best_hit(hits)].rank,
        hits[best_hit(hits)].recordings@.len() > 0 ==> followup(hits) == Some(
            hits[best_hit(hits)].recordings@[0].id,
        ),
        hits[best_hit(hits)].recordings@.len() == 0 ==> followup(hits) is None,
    decreases hits.len(),
{
    best_hit_is_best(hits, i);
    if hits.len() > 1 {
        let d = hits.drop_last();
        if i < d.len() {
            the_best_match_is_followed_up(d, i);
        } else {
            best_hit_is_best(d, 0);
        }
    }
}

/// Each release of a recording becomes one hit, in the same place, that names
/// that release.
pub proof fn releases_of_a_recording_become_hits(
    rec: RecordingLookupResponse,
    fallback: Seq<char>,
    i: int,
)
    requires
        0 <= i < rec.releases@.len(),
    ensures
        recording_hits(rec, fallback).len() == rec.releases@.len(),
        recording_hits(rec, fallback)[i].id == rec.releases@[i].id@,
        recording_hits(rec, fallback)[i].title == rec.releases@[i].title@,
        rec.releases@[i].date is Some ==> recording_hits(rec, fallback)[i].date == Some(
            rec.releases@[i].date->0@,
        ),
        rec.releases@[i].country is Some ==> recording_hits(rec, fallback)[i].country == Some(
            rec.releases@[i].country->0@,
        ),
        rec.releases@[i].release_group is Some ==> recording_hits(rec, fallback)[i].release_group
            == Some(rec.releases@[i].release_group->0@),
        recording_hits(rec, fallback)[i].score == 90,
        rec.artist_credit@.len() > 0 ==> recording_hits(rec, fallback)[i].credits.len()
            == rec.artist_credit@.len() && recording_hits(rec, fallback)[i].credits[0].0
            == rec.artist_credit@[0].name@,
        rec.artist_credit@.len() == 0 && fallback.len() > 0 ==> recording_hits(
            rec,
            fallback,
        )[i].credits.len() == 1 && recording_hits(rec, fallback)[i].credits[0].0 == fallback,
{
}

/// A release of one of the recordings.
pub open spec fn is_release_of(recs: Seq<AcoustIdRecording>, j: int, k: int) -> bool {
    0 <= j < recs.len() && 0 <= k < recs[j].releases@.len()
}

/// The hit names the release, at the score of its match, with the title of the
/// release or else of the recording, and by the artists of the recording or
/// else the artist that was searched for.
pub open spec fn is_hit_for(
    h: HitText,
    rec: AcoustIdRecording,
    k: int,
    score: u32,
    fallback: Seq<char>,
) -> bool {
    let rel = rec.releases@[k];
    &&& h.id == rel.id@
    &&& h.score == score
    &&& rel.title is Some ==> h.title == rel.title->0@
    &&& rel.title is None && rec.title is Some ==> h.title == rec.title->0@
    &&& rec.artists@.len() > 0 ==> h.credits.len() == rec.artists@.len() && forall|a: int|
        0 <= a < rec.artists@.len() ==> (#[trigger] h.credits[a]).0 == rec.artists@[a]@
    &&& rec.artists@.len() == 0 && fallback.len() > 0 ==> h.credits.len() == 1 && h.credits[0].0
        == fallback
}

proof fn releases_of_a_match_become_hits(
    recs: Seq<AcoustIdRecording>,
    score: u32,
    fallback: Seq<char>,
    j: int,
    k: int,
)
    requires
        is_release_of(recs, j, k),
    ensures
        exists|q: int|
            0 <= q < rows_of_match(recs, score, fallback).len() && is_hit_for(
                #[trigger] rows_of_match(recs, score, fallback)[q],
                recs[j],
                k,
                score,
                fallback,
            ),
    decreases recs.len(),
{
    let d = recs.drop_last();
    let rest = rows_of_match(d, score, fallback);
    let all = rows_of_match(recs, score, fallback);
    if j < d.len() {
        assert(d[j] == recs[j]);
        releases_of_a_match_become_hits(d, score, fallback, j, k);
        let q = choose|q: int|
            0 <= q < rest.len() && is_hit_for(#[trigger] rest[q], d[j], k, score, fallback);
        assert(all[q] == rest[q]);
    } else {
        let h = all[rest.len() + k];
        assert(is_hit_for(h, recs[j], k, score, fallback));
    }
}

/// Every release of every recording of every match is listed, at the score of
/// its match.
pub proof fn every_matched_release_is_listed(
    hits: Seq<AcoustIdHit>,
    fallback: Seq<char>,
    i: int,
    j: int,
    k: int,
)
    requires
        0 <= i < hits.len(),
        is_release_of(hits[i].recordings@, j, k),
    ensures
        exists|q: int|
            0 <= q < rows_of_matches(hits, fallback).len() && is_hit_for(
                #[trigger] rows_of_matches(hits, fallback)[q],
                hits[i].recordings@[j],
                k,
                hits[i].score,
                fallback,
            ),
    decreases hits.len(),
{
    let d = hits.drop_last();
    let rest = rows_of_matches(d, fallback);
    let all = rows_of_matches(hits, fallback);
    let rec = hits[i].recordings@[j];
    if i < d.len() {
        assert(d[i] == hits[i]);
        every_matched_release_is_listed(d, fallback, i, j, k);
        let q = choose|q: int|
            0 <= q < rest.len() && is_hit_for(#[trigger] rest[q], rec, k, hits[i].score, fallback);
        assert(all[q] == rest[q]);
    } else {
        let m = rows_of_match(hits.last().recordings@, hits.last().score, fallback);
        releases_of_a_match_become_hits(hits[i].recordings@, hits[i].score, fallback, j, k);
        let q = choose|q: int|
            0 <= q < m.len() && is_hit_for(#[trigger] m[q], rec, k, hits[i].score, fallback);
        assert(all[rest.len() + q] == m[q]);
    }
}

/// Toggling switches the field that has the focus, and no other.
pub proof fn toggling_switches_the_focused_field(
    before: TagManagerOverlay,
    after: TagManagerOverlay,
    i: int,
    j: int,
)
    requires
        after.field_toggled(&before),
        before.diff is Some,
        0 <= i < before.diff->0@.len() <= usize::MAX,
        0 <= j < before.diff->0@[i].1.len() <= usize::MAX,
    ensures
        after.diff is Some,
        after.diff->0@.len() == before.diff->0@.len(),
        after.diff->0@[i].0 == before.diff->0@[i].0,
        after.diff->0@[i].1.len() == before.diff->0@[i].1.len(),
        ({
            let was = before.diff->0@[i].1[j];
            let now = after.diff->0@[i].1[j];
            let focused = before.focused_row < before.rows@.len()
                && before.rows@[before.focused_row as int] == FocusRow::Field(i as usize, j as usize);
            &&& now.name == was.name && now.current == was.current && now.proposed == was.proposed
            &&& now.enabled != was.enabled <==> focused
        }),
{
}

/// Switching all switches every field the same way, and changes nothing else of
/// any.
pub proof fn switching_all_switches_each(
    before: TagManagerOverlay,
    after: TagManagerOverlay,
    on: bool,
    i: int,
    j: int,
)
    requires
        after.all_set(&before, on),
        before.diff is Some,
        0 <= i < before.diff->0@.len(),
        0 <= j < before.diff->0@[i].1.len(),
    ensures
        after.diff is Some,
        after.diff->0@.len() == before.diff->0@.len(),
        after.diff->0@[i].0 == before.diff->0@[i].0,
        after.diff->0@[i].1.len() == before.diff->0@[i].1.len(),
        after.diff->0@[i].1[j].enabled == on,
        after.diff->0@[i].1[j].name == before.diff->0@[i].1[j].name,
        after.diff->0@[i].1[j].current == before.diff->0@[i].1[j].current,
        after.diff->0@[i].1[j].proposed == before.diff->0@[i].1[j].proposed,
{
}

proof fn only_the_named_number_goes(s: Seq<usize>, x: usize, y: usize)
    ensures
        without_usize(s, x).contains(y) <==> y != x && s.contains(y),
    decreases s.len(),
{
    if s.len() > 0 {
        let d = s.drop_last();
        let rest = without_usize(d, x);
        let all = without_usize(s, x);
        only_the_named_number_goes(d, x, y);
        assert(s[s.len() - 1] == s.last());
        if rest.contains(y) {
            assert(all[rest.index_of(y)] == y);
            assert(s[d.index_of(y)] == y);
        }
        if s.contains(y) && !d.contains(y) {
            let k = s.index_of(y);
            if k < d.len() {
                assert(d[k] == y);
            }
            if y != x {
                assert(all[all.len() - 1] == y);
            }
        }
        if all.contains(y) && !rest.contains(y) {
            let k = all.index_of(y);
            if k < rest.len() {
                assert(rest[k] == y);
            }
        }
    }
}

/// A row of the table: the header of each track, and below it the fields of a
/// track that is not folded.
pub proof fn the_table_shows_unfolded_fields(
    d: Seq<(String, Seq<FieldDiff>)>,
    collapsed: Seq<usize>,
    n: int,
    i: usize,
    j: usize,
)
    requires
        0 <= n <= d.len() <= usize::MAX,
        forall|k: int| 0 <= k < d.len() ==> (#[trigger] d[k]).1.len() <= usize::MAX,
    ensures
        table_rows(d, collapsed, n).contains(FocusRow::Header(i)) <==> i < n,
        table_rows(d, collapsed, n).contains(FocusRow::Field(i, j)) <==> i < n && j
            < d[i as int].1.len() && !collapsed.contains(i),
    decreases n,
{
    if n > 0 {
        let rest = table_rows(d, collapsed, n - 1);
        let all = table_rows(d, collapsed, n);
        let last = crate::tag_model::rows_of_track(
            n - 1,
            d[n - 1].1.len() as int,
            collapsed.contains((n - 1) as usize),
        );
        assert(all == rest + last);
        the_table_shows_unfolded_fields(d, collapsed, n - 1, i, j);
        assert forall|x: FocusRow| #[trigger] all.contains(x) <==> rest.contains(x) || last.contains(x) by {
            if rest.contains(x) {
                assert(all[rest.index_of(x)] == x);
            }
            if last.contains(x) {
                assert(all[rest.len() + last.index_of(x)] == x);
            }
            if all.contains(x) {
                let k = all.index_of(x);
                if k < rest.len() {
                    assert(rest[k] == x);
                } else {
                    assert(last[k - rest.len()] == x);
                }
            }
        }
        assert(last[0] == FocusRow::Header((n - 1) as usize));
        if i == n - 1 {
            assert(last.contains(FocusRow::Header(i)));
            if j < d[n - 1].1.len() && !collapsed.contains(i) {
                assert(last[j + 1] == FocusRow::Field(i, j));
                assert(last.contains(FocusRow::Field(i, j)));
            }
        }
        assert(d[n - 1].1.len() <= usize::MAX);
        if last.contains(FocusRow::Field(i, j)) {
            let k = last.index_of(FocusRow::Field(i, j));
            assert(k > 0);
        }
        if last.contains(FocusRow::Header(i)) {
            let k = last.index_of(FocusRow::Header(i));
            assert(k == 0);
        }
    }
}

/// Folding hides or shows the track that has the focus, and no other.
pub proof fn folding_is_of_the_focused_track(
    before: TagManagerOverlay,
    after: TagManagerOverlay,
    i: usize,
    x: usize,
)
    requires
        after.fold_toggled(&before),
        before.focused_row < before.rows@.len(),
        match before.rows@[before.focused_row as int] {
            FocusRow::Header(t) => t == i,
            FocusRow::Field(t, _) => t == i,
        },
    ensures
        x != i ==> (after.collapsed@.contains(x) <==> before.collapsed@.contains(x)),
        after.collapsed@.contains(i) <==> !before.collapsed@.contains(i),
{
    only_the_named_number_goes(before.collapsed@, i, x);
    only_the_named_number_goes(before.collapsed@, i, i);
    let pushed = before.collapsed@.push(i);
    assert(pushed[pushed.len() - 1] == i);
    if before.collapsed@.contains(x) {
        assert(pushed[before.collapsed@.index_of(x)] == x);
    }
    if pushed.contains(x) && x != i {
        let k = pushed.index_of(x);
        assert(before.collapsed@[k] == x);
    }
}

/// After folding, the focus is on the header of the track, where it is shown.
pub proof fn the_header_has_the_focus(rows: Seq<FocusRow>, i: usize)
    requires
        rows.contains(FocusRow::Header(i)),
    ensures
        header_row(rows, i) < rows.len(),
        rows[header_row(rows, i) as int] == FocusRow::Header(i),
{
    let p = |r: FocusRow| r == FocusRow::Header(i);
    first_index_facts(rows, p);
    let k = rows.index_of(FocusRow::Header(i));
    assert(p(rows[k]));
}

/// Folding all hides every track; unfolding all hides none.
pub proof fn folding_all_hides_each(
    before: TagManagerOverlay,
    folded: TagManagerOverlay,
    unfolded: TagManagerOverlay,
    i: usize,
)
    requires
        folded.all_folded(&before),
        unfolded.all_unfolded(&before),
        before.diff is Some,
        i < before.diff->0@.len() <= usize::MAX,
    ensures
        folded.collapsed@.contains(i),
        !unfolded.collapsed@.contains(i),
{
    assert(folded.collapsed@[i as int] == i);
}

/// Something of that name is proposed and switched on.
pub open spec fn proposes(row: (String, Seq<FieldDiff>), j: int, name: Seq<char>) -> bool {
    0 <= j < row.1.len() && row.1[j].name@ == name && row.1[j].enabled && row.1[j].proposed is Some
}

/// What is taken over from a diff is a value that is proposed under the name and
/// switched on; there is none exactly where nothing is.
pub proof fn proposals_are_switched_on(rows: Seq<(String, Seq<FieldDiff>)>, name: Seq<char>)
    ensures
        match first_proposed(rows, name) {
            Some(v) => exists|i: int, j: int|
                0 <= i < rows.len() && #[trigger] proposes(rows[i], j, name) && rows[i].1[j].proposed == Some(v),
            None => forall|i: int, j: int| 0 <= i < rows.len() ==> !#[trigger] proposes(rows[i], j, name),
        },
    decreases rows.len(),
{
    if rows.len() > 0 {
        let p = |f: FieldDiff| is_proposed(f, name);
        let fields = rows[0].1;
        let t = rows.skip(1);
        the_first_is_found(fields, p);
        match first_where(fields, p) {
            Some(f) => {
                let j = choose|j: int| 0 <= j < fields.len() && #[trigger] fields[j] == f && p(f);
                assert(proposes(rows[0], j, name));
            },
            None => {
                proposals_are_switched_on(t, name);
                assert(first_proposed(rows, name) == first_proposed(t, name));
                match first_proposed(t, name) {
                    Some(v) => {
                        let (i, j) = choose|i: int, j: int|
                            0 <= i < t.len() && #[trigger] proposes(t[i], j, name) && t[i].1[j].proposed == Some(v);
                        assert(rows[i + 1] == t[i]);
                        assert(proposes(rows[i + 1], j, name));
                    },
                    None => {
                        assert forall|i: int, j: int| 0 <= i < rows.len() implies !#[trigger] proposes(
                            rows[i],
                            j,
                            name,
                        ) by {
                            if i > 0 {
                                assert(t[i - 1] == rows[i]);
                                assert(!proposes(t[i - 1], j, name));
                            } else if 0 <= j < fields.len() {
                                assert(!p(fields[j]));
                            }
                        }
                    },
                }
            },
        }
    }
}

/// Where the library knows a release that one is loaded; where it knows none and
/// a track can be recognised, it is looked up by its fingerprint if there is a key
/// for that; else artist and album are searched for.
pub proof fn what_is_known_best_is_asked_first(
    before: App,
    after: App,
    sent: Seq<BgCommand>,
    sent_after: Seq<BgCommand>,
    k: int,
)
    requires
        after.manager_opened(&before, sent, sent_after),
        before.nav.browse_mode == BrowseMode::Library,
        before.library is Some,
        before.nav.active_panel == Panel::Albums,
        before.lists.album_selected < before.lists.album_list@.len(),
    ensures
        ({
            let row = before.lists.album_list@[before.lists.album_selected as int];
            let tracks = before.album_of(trimmed(row.artist@), trimmed(row.name@));
            let keyed = before.tags.acoustid_app_key is Some && before.tags.acoustid_app_key->0@.len() > 0;
            let none = forall|i: int, id: Seq<char>|
                0 <= i < tracks.len() ==> !#[trigger] carries(tracks[i], None, id);
            let one = exists|i: int| 0 <= i < tracks.len() && can_be_recognised(#[trigger] tracks[i]);
            &&& 0 <= k < tracks.len() && tracks[k].mb_release_id is Some
                && tracks[k].mb_release_id->0@.len() > 0 ==> sent_after.last() is MbReleaseDetails
            &&& none && keyed && one ==> sent_after.last() is AcoustIdLookup
            &&& none && !(keyed && one) ==> sent_after.last() is MbSearchReleases
        }),
{
    let row = before.lists.album_list@[before.lists.album_selected as int];
    let tracks = before.album_of(trimmed(row.artist@), trimmed(row.name@));
    let known = most_common(carried_ids(tracks, None));
    albums_are_recognised_by_a_track(tracks);
    if 0 <= k < tracks.len() && tracks[k].mb_release_id is Some && tracks[k].mb_release_id->0@.len() > 0 {
        let id = tracks[k].mb_release_id->0@;
        the_known_release_is_the_most_carried(tracks, None, id);
        carrying_counts(tracks, None, id, k);
    }
    if forall|i: int, id: Seq<char>| 0 <= i < tracks.len() ==> !#[trigger] carries(tracks[i], None, id) {
        if known is Some {
            the_known_release_is_the_most_carried(tracks, None, Seq::empty());
            nobody_carries(tracks, None, known->0);
        }
    }
}

proof fn carrying_counts(tracks: Seq<Track>, name: Option<Seq<char>>, id: Seq<char>, k: int)
    requires
        0 <= k < tracks.len(),
        carries(tracks[k], name, id),
    ensures
        carriers(tracks, name, id) > 0,
    decreases tracks.len(),
{
    if k < tracks.len() - 1 {
        assert(tracks.drop_last()[k] == tracks[k]);
        carrying_counts(tracks.drop_last(), name, id, k);
    }
}

proof fn nobody_carries(tracks: Seq<Track>, name: Option<Seq<char>>, id: Seq<char>)
    requires
        forall|i: int| 0 <= i < tracks.len() ==> !#[trigger] carries(tracks[i], name, id),
    ensures
        carriers(tracks, name, id) == 0,
    decreases tracks.len(),
{
    if tracks.len() > 0 {
        let d = tracks.drop_last();
        assert forall|i: int| 0 <= i < d.len() implies !#[trigger] carries(d[i], name, id) by {
            assert(!carries(tracks[i], name, id));
        }
        nobody_carries(d, name, id);
        assert(!carries(tracks[tracks.len() - 1], name, id));
    }
}

} // verus!
