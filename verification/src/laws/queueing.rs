//! The queues for the device: what is uploaded, what is removed, and what counts
//! as being there.
use vstd::prelude::*;
use crate::app::devices::{
    album_marks, artist_marks, artist_targets, is_presence, mark_on, mark_total, named_target,
};
use crate::app::queue::{
    plan_text, queue_all, queue_one, queue_uploads, replaced, row_uploads, targeted, track_uploads,
    without_import,
};
use crate::app::select::resolved;
use crate::app::App;
use crate::commands::{uploads, BgCommand, QueuedItem, Upload};
use crate::copies::targets;
use crate::format::decimal;
use crate::device::{list_at, DeviceState};
use crate::laws::counting::the_first_is_found;
use crate::library::first_where;
use crate::model::Track;
use crate::playlists::PendingPlaylistImport;
use crate::text::match_key;
use crate::tracks::TrackInfo;
use crate::types::{BrowseMode, DevicePresence, DeviceStatus, DeviceTrackRow, Panel, SidebarEntry};

verus! {

/// The upload is that of the row: its file under its own artist, album, title,
/// number and genre.
pub open spec fn uploads_row(u: Upload, r: TrackInfo) -> bool {
    &&& r.location == Some(u.location)
    &&& u.artist == r.artist && u.album == r.album && u.name == r.name
    &&& u.track_number == r.track_number && u.genre == r.genre
}

/// The upload is that of the track.
pub open spec fn uploads_track(u: Upload, t: Track) -> bool {
    &&& t.location == Some(u.location)
    &&& u.artist == t.artist && u.album == t.album && u.name == t.name
    &&& u.track_number == t.track_number && u.genre == t.genre
}

/// Every row that has a file is uploaded.
pub proof fn every_row_with_a_file_is_uploaded(rows: Seq<TrackInfo>, i: int)
    requires
        0 <= i < rows.len(),
        rows[i].location is Some,
    ensures
        exists|q: int|
            0 <= q < row_uploads(rows).len() && uploads_row(#[trigger] row_uploads(rows)[q], rows[i]),
    decreases rows.len(),
{
    let d = rows.drop_last();
    let rest = row_uploads(d);
    let all = row_uploads(rows);
    if i < d.len() {
        assert(d[i] == rows[i]);
        every_row_with_a_file_is_uploaded(d, i);
        let q = choose|q: int| 0 <= q < rest.len() && uploads_row(#[trigger] rest[q], d[i]);
        assert(all[q] == rest[q]);
    } else {
        assert(uploads_row(all[rest.len() as int], rows[i]));
    }
}

/// Nothing but rows that have a file is uploaded, each at most once.
pub proof fn uploads_are_rows_with_a_file(rows: Seq<TrackInfo>, q: int)
    requires
        0 <= q < row_uploads(rows).len(),
    ensures
        row_uploads(rows).len() <= rows.len(),
        exists|i: int| 0 <= i < rows.len() && uploads_row(row_uploads(rows)[q], #[trigger] rows[i]),
    decreases rows.len(),
{
    let d = rows.drop_last();
    let rest = row_uploads(d);
    let all = row_uploads(rows);
    if rest.len() > 0 {
        uploads_are_rows_with_a_file(d, 0);
    }
    if q < rest.len() {
        uploads_are_rows_with_a_file(d, q);
        let i = choose|i: int| 0 <= i < d.len() && uploads_row(rest[q], #[trigger] d[i]);
        assert(rows[i] == d[i]);
        assert(all[q] == rest[q]);
    } else {
        assert(uploads_row(all[q], rows[rows.len() - 1]));
    }
}

/// Every track that has a file is uploaded.
pub proof fn every_track_with_a_file_is_uploaded(tracks: Seq<Track>, i: int)
    requires
        0 <= i < tracks.len(),
        tracks[i].location is Some,
    ensures
        exists|q: int|
            0 <= q < track_uploads(tracks).len() && uploads_track(
                #[trigger] track_uploads(tracks)[q],
                tracks[i],
            ),
    decreases tracks.len(),
{
    let d = tracks.drop_last();
    let rest = track_uploads(d);
    let all = track_uploads(tracks);
    if i < d.len() {
        assert(d[i] == tracks[i]);
        every_track_with_a_file_is_uploaded(d, i);
        let q = choose|q: int| 0 <= q < rest.len() && uploads_track(#[trigger] rest[q], d[i]);
        assert(all[q] == rest[q]);
    } else {
        assert(uploads_track(all[rest.len() as int], tracks[i]));
    }
}

/// Nothing but tracks that have a file is uploaded, each at most once.
pub proof fn uploads_are_tracks_with_a_file(tracks: Seq<Track>, q: int)
    requires
        0 <= q < track_uploads(tracks).len(),
    ensures
        track_uploads(tracks).len() <= tracks.len(),
        exists|i: int|
            0 <= i < tracks.len() && uploads_track(track_uploads(tracks)[q], #[trigger] tracks[i]),
    decreases tracks.len(),
{
    let d = tracks.drop_last();
    let rest = track_uploads(d);
    let all = track_uploads(tracks);
    if rest.len() > 0 {
        uploads_are_tracks_with_a_file(d, 0);
    }
    if q < rest.len() {
        uploads_are_tracks_with_a_file(d, q);
        let i = choose|i: int| 0 <= i < d.len() && uploads_track(rest[q], #[trigger] d[i]);
        assert(tracks[i] == d[i]);
        assert(all[q] == rest[q]);
    } else {
        assert(uploads_track(all[q], tracks[tracks.len() - 1]));
    }
}

/// Queueing the selected track puts that very track at the end of the queue.
pub proof fn the_selected_track_is_queued(before: App, after: App)
    requires
        after.track_added(&before),
        before.lists.track_selected < before.lists.track_list@.len(),
    ensures
        ({
            let row = before.lists.track_list@[before.lists.track_selected as int];
            let was = before.sync.queue@;
            let now = after.sync.queue@;
            &&& row.location is None ==> now == was
            &&& row.location is Some ==> {
                &&& now.len() == was.len() + 1
                &&& now.drop_last() == was
                &&& uploads(now.last().tracks@).len() == 1
                &&& uploads_row(uploads(now.last().tracks@)[0], row)
                &&& now.last().label@ == row.artist@ + " - "@ + row.album@ + " - "@ + row.name@
            }
        }),
{
}

/// Queueing what is listed puts every listed track with a file in one entry at
/// the end of the queue, and nothing else.
pub proof fn what_is_listed_is_queued(before: App, after: App, i: int, q: int)
    requires
        after.visible_added(&before),
        0 <= i < before.lists.track_list@.len(),
        before.lists.track_list@[i].location is Some,
    ensures
        ({
            let rows = before.lists.track_list@;
            let now = after.sync.queue@;
            let items = uploads(now.last().tracks@);
            &&& now.len() == before.sync.queue@.len() + 1
            &&& now.drop_last() == before.sync.queue@
            &&& exists|k: int| 0 <= k < items.len() && uploads_row(#[trigger] items[k], rows[i])
            &&& 0 <= q < items.len() ==> exists|k: int|
                0 <= k < rows.len() && uploads_row(items[q], #[trigger] rows[k])
        }),
{
    let rows = before.lists.track_list@;
    let items = row_uploads(rows);
    every_row_with_a_file_is_uploaded(rows, i);
    let k = choose|k: int| 0 <= k < items.len() && uploads_row(#[trigger] items[k], rows[i]);
    assert(uploads(after.sync.queue@.last().tracks@) == items);
    assert(uploads_row(uploads(after.sync.queue@.last().tracks@)[k], rows[i]));
    if 0 <= q < items.len() {
        uploads_are_rows_with_a_file(rows, q);
    }
}

/// Queueing an artist puts every track by that artist that has a file in one
/// entry at the end of the queue, and no track by another.
pub proof fn an_artists_tracks_are_queued(before: App, after: App, artist: String, i: int, q: int)
    requires
        after.artist_added(&before, artist@),
        before.library is Some,
        0 <= i < before.library->0.tracks@.len(),
        before.library->0.tracks@[i].artist@ == artist@,
        before.library->0.tracks@[i].location is Some,
    ensures
        ({
            let all = before.library->0.tracks@;
            let now = after.sync.queue@;
            let items = uploads(now.last().tracks@);
            &&& now.len() == before.sync.queue@.len() + 1
            &&& now.drop_last() == before.sync.queue@
            &&& now.last().label@ == artist@
            &&& exists|k: int| 0 <= k < items.len() && uploads_track(#[trigger] items[k], all[i])
            &&& 0 <= q < items.len() ==> items[q].artist@ == artist@
        }),
{
    let all = before.library->0.tracks@;
    let tracks = before.library->0.by_artist(artist@);
    crate::laws::listing::library_queries_find_what_they_name(
        before.library->0,
        artist,
        artist,
        all[i],
    );
    assert(all.contains(all[i]));
    let p = tracks.index_of(all[i]);
    every_track_with_a_file_is_uploaded(tracks, p);
    let items = track_uploads(tracks);
    let k = choose|k: int| 0 <= k < items.len() && uploads_track(#[trigger] items[k], tracks[p]);
    assert(uploads(after.sync.queue@.last().tracks@) == items);
    assert(uploads_track(uploads(after.sync.queue@.last().tracks@)[k], all[i]));
    if 0 <= q < items.len() {
        uploads_are_tracks_with_a_file(tracks, q);
        let n = choose|n: int| 0 <= n < tracks.len() && uploads_track(items[q], #[trigger] tracks[n]);
        crate::laws::listing::library_queries_find_what_they_name(
            before.library->0,
            artist,
            artist,
            tracks[n],
        );
        assert(tracks.contains(tracks[n]));
    }
}

/// Two uploads carry the same file under the same names.
pub open spec fn same_file(a: Upload, b: Upload) -> bool {
    &&& a.location == b.location
    &&& a.artist == b.artist && a.album == b.album && a.name == b.name
    &&& a.track_number == b.track_number && a.genre == b.genre
}

/// Every upload of every entry of the queue is among its uploads.
pub proof fn every_queued_upload_is_sent(queue: Seq<QueuedItem>, i: int, j: int)
    requires
        0 <= i < queue.len(),
        0 <= j < queue[i].tracks@.len(),
    ensures
        queue_uploads(queue).contains(queue[i].tracks@[j]@),
    decreases queue.len(),
{
    let d = queue.drop_last();
    let rest = queue_uploads(d);
    let last = uploads(queue.last().tracks@);
    let all = queue_uploads(queue);
    let x = queue[i].tracks@[j]@;
    if i < d.len() {
        assert(d[i] == queue[i]);
        every_queued_upload_is_sent(d, i, j);
        assert(all[rest.index_of(x)] == x);
    } else {
        assert(last[j] == x);
        assert(all[rest.len() + j] == x);
    }
}

/// As many uploads are sent as tracks are queued.
pub proof fn nothing_but_the_queue_is_sent(queue: Seq<QueuedItem>)
    ensures
        queue_uploads(queue).len() == App::queued_tracks(queue),
    decreases queue.len(),
{
    if queue.len() > 0 {
        nothing_but_the_queue_is_sent(queue.drop_last());
    }
}

/// The tracks of two queues are counted together.
pub proof fn queued_tracks_add_up(queue: Seq<QueuedItem>, item: QueuedItem)
    ensures
        App::queued_tracks(queue.push(item)) == App::queued_tracks(queue) + item.tracks@.len(),
        App::queued_tracks(Seq::<QueuedItem>::empty()) == 0,
{
    assert(queue.push(item).drop_last() =~= queue);
}

/// The copies that uploads replace are counted upload by upload.
pub proof fn replaced_copies_add_up(items: Seq<Upload>, u: Upload)
    ensures
        replaced(items.push(u)) == replaced(items) + u.targets.len(),
        replaced(Seq::<Upload>::empty()) == 0,
{
    assert(items.push(u).drop_last() =~= items);
}

/// A sync sends every queued track with its file, and as many as are queued.
pub proof fn a_sync_sends_the_whole_queue(
    before: App,
    after: App,
    sent: Seq<BgCommand>,
    sent_after: Seq<BgCommand>,
    i: int,
    j: int,
)
    requires
        after.synced(&before, sent, sent_after),
        before.device.status == DeviceStatus::Connected,
        0 <= i < before.sync.queue@.len(),
        0 <= j < before.sync.queue@[i].tracks@.len(),
    ensures
        sent_after.len() == sent.len() + 1,
        sent_after.last() is ExecuteSyncQueue,
        ({
            let items = uploads(sent_after.last()->ExecuteSyncQueue_0@);
            &&& items.len() == App::queued_tracks(before.sync.queue@)
            &&& exists|q: int|
                0 <= q < items.len() && same_file(
                    #[trigger] items[q],
                    before.sync.queue@[i].tracks@[j]@,
                )
        }),
{
    let queue = before.sync.queue@;
    let all = queue_uploads(queue);
    let x = queue[i].tracks@[j]@;
    every_queued_upload_is_sent(queue, i, j);
    nothing_but_the_queue_is_sent(queue);
    let k = all.index_of(x);
    let items = uploads(sent_after.last()->ExecuteSyncQueue_0@);
    assert(items == targeted(all, before.device));
    assert(same_file(items[k], x));
}

/// Without a device nothing is sent.
pub proof fn nothing_is_sent_without_a_device(
    before: App,
    after: App,
    sent: Seq<BgCommand>,
    sent_after: Seq<BgCommand>,
)
    requires
        after.synced(&before, sent, sent_after) || after.deduped(&before, sent, sent_after),
        before.device.status != DeviceStatus::Connected,
    ensures
        sent_after == sent,
        after.sync.queue == before.sync.queue,
{
}

/// Taking an entry out of the queue takes out the selected one, and the others
/// keep their order; the selection stays within the queue.
pub proof fn the_selected_entry_goes(before: App, after: App, k: int)
    requires
        after.entry_dropped(&before),
        before.sync.queue_selected < before.sync.queue@.len(),
        0 <= k < before.sync.queue@.len(),
    ensures
        after.sync.queue@.len() == before.sync.queue@.len() - 1,
        k < before.sync.queue_selected ==> after.sync.queue@[k] == before.sync.queue@[k],
        k > before.sync.queue_selected ==> after.sync.queue@[k - 1] == before.sync.queue@[k],
        after.sync.queue@.len() > 0 ==> after.sync.queue_selected < after.sync.queue@.len(),
{
}

/// The object is in the removal queue.
pub open spec fn queues_object(q: Seq<(Seq<char>, u64)>, id: u64) -> bool {
    exists|i: int| 0 <= i < q.len() && (#[trigger] q[i]).1 == id
}

/// What was queued for removal stays queued, what is added is queued, and
/// nothing else comes in: an object once, a file without an object number each
/// time it is named.
pub proof fn removals_are_queued(q: Seq<(Seq<char>, u64)>, ts: Seq<(Seq<char>, u64)>, x: (Seq<char>, u64))
    ensures
        q.contains(x) ==> queue_all(q, ts).contains(x),
        queue_all(q, ts).contains(x) ==> q.contains(x) || ts.contains(x),
        ts.contains(x) && x.1 == 0 ==> queue_all(q, ts).contains(x),
        ts.contains(x) ==> queues_object(queue_all(q, ts), x.1),
    decreases ts.len(),
{
    if ts.len() > 0 {
        let d = ts.drop_last();
        let t = ts.last();
        let rest = queue_all(q, d);
        let all = queue_all(q, ts);
        removals_are_queued(q, d, x);
        assert(all == queue_one(rest, t));
        assert(ts[ts.len() - 1] == t);
        if rest.contains(x) && all != rest {
            assert(all[rest.index_of(x)] == x);
        }
        if d.contains(x) {
            assert(ts[d.index_of(x)] == x);
        }
        if all != rest {
            assert(all[all.len() - 1] == t);
        }
        if all.contains(x) && !rest.contains(x) {
            let k = all.index_of(x);
            if k < rest.len() {
                assert(rest[k] == x);
            }
        }
        if ts.contains(x) && !d.contains(x) {
            let k = ts.index_of(x);
            if k < d.len() {
                assert(d[k] == x);
            }
            assert(x == t);
            if !(t.1 > 0 && queues_object(rest, t.1)) {
                assert(all == rest.push(t));
                assert(all[all.len() - 1].1 == x.1);
            }
        }
        if queues_object(rest, x.1) {
            let k = choose|k: int| 0 <= k < rest.len() && (#[trigger] rest[k]).1 == x.1;
            assert(all[k].1 == x.1);
        }
    }
}

/// The creations that wait keep their place but for those of the name.
pub proof fn only_the_named_creation_goes(
    s: Seq<PendingPlaylistImport>,
    name: Seq<char>,
    x: PendingPlaylistImport,
)
    ensures
        without_import(s, name).contains(x) <==> s.contains(x) && x.name@ != name,
    decreases s.len(),
{
    if s.len() > 0 {
        let d = s.drop_last();
        let rest = without_import(d, name);
        let all = without_import(s, name);
        only_the_named_creation_goes(d, name, x);
        assert(s[s.len() - 1] == s.last());
        if rest.contains(x) {
            assert(all[rest.index_of(x)] == x);
            assert(s[d.index_of(x)] == x);
        }
        if s.contains(x) && !d.contains(x) {
            let k = s.index_of(x);
            if k < d.len() {
                assert(d[k] == x);
            }
            if x.name@ != name {
                assert(all[all.len() - 1] == x);
            }
        }
        if all.contains(x) && !rest.contains(x) {
            let k = all.index_of(x);
            if k < rest.len() {
                assert(rest[k] == x);
            }
        }
    }
}

proof fn marks_are_counted<V>(marks: Seq<(V, bool)>, k: V)
    ensures
        mark_on(marks, k) <= mark_total(marks, k),
        mark_total(marks, k) > 0 <==> exists|i: int| 0 <= i < marks.len() && (#[trigger] marks[i]).0 == k,
        mark_on(marks, k) > 0 <==> exists|i: int|
            0 <= i < marks.len() && (#[trigger] marks[i]).0 == k && marks[i].1,
        mark_on(marks, k) == mark_total(marks, k) <==> forall|i: int|
            0 <= i < marks.len() && (#[trigger] marks[i]).0 == k ==> marks[i].1,
    decreases marks.len(),
{
    if marks.len() > 0 {
        let d = marks.drop_last();
        let last = marks.len() - 1;
        marks_are_counted(d, k);
        assert(marks[last] == marks.last());
        if mark_total(d, k) > 0 {
            let i = choose|i: int| 0 <= i < d.len() && (#[trigger] d[i]).0 == k;
            assert(marks[i].0 == k);
        }
        if mark_on(d, k) > 0 {
            let i = choose|i: int| 0 <= i < d.len() && (#[trigger] d[i]).0 == k && d[i].1;
            assert(marks[i].0 == k && marks[i].1);
        }
        if mark_on(d, k) < mark_total(d, k) {
            let i = choose|i: int| 0 <= i < d.len() && (#[trigger] d[i]).0 == k && !d[i].1;
            assert(marks[i].0 == k && !marks[i].1);
        }
        assert forall|i: int| 0 <= i < marks.len() && i != last implies #[trigger] marks[i] == d[i] by {
        }
    }
}

/// The track is on the connected device, under its own artist and title.
pub open spec fn is_there(t: Track, device: DeviceState) -> bool {
    device.holds(match_key(t.artist@), match_key(t.name@))
}

/// An artist is marked as complete where the device holds all tracks by that
/// artist, as partly there where it holds some and lacks some, and not at all
/// where it holds none.
pub proof fn artists_are_marked_by_their_tracks(before: App, after: App, artist: Seq<char>)
    requires
        after.presence_rebuilt(&before),
        before.library is Some,
    ensures
        ({
            let tracks = before.library->0.tracks@;
            let marks = after.lists.artist_device_status@;
            let some = exists|i: int|
                0 <= i < tracks.len() && (#[trigger] tracks[i]).artist@ == artist && is_there(
                    tracks[i],
                    before.device,
                );
            let all = forall|i: int|
                0 <= i < tracks.len() && (#[trigger] tracks[i]).artist@ == artist ==> is_there(
                    tracks[i],
                    before.device,
                );
            &&& marks.contains_key(artist) <==> some
            &&& some && all ==> marks[artist] == DevicePresence::Full
            &&& some && !all ==> marks[artist] == DevicePresence::Partial
        }),
{
    let tracks = before.library->0.tracks@;
    let m = artist_marks(tracks, before.device);
    marks_are_counted(m, artist);
    assert forall|i: int| 0 <= i < tracks.len() implies (#[trigger] m[i]).0 == tracks[i].artist@ && m[i].1
        == is_there(tracks[i], before.device) by {
    }
    if mark_on(m, artist) > 0 {
        let i = choose|i: int| 0 <= i < m.len() && (#[trigger] m[i]).0 == artist && m[i].1;
        assert(tracks[i].artist@ == artist && is_there(tracks[i], before.device));
    }
    if mark_on(m, artist) < mark_total(m, artist) {
        let i = choose|i: int| 0 <= i < m.len() && (#[trigger] m[i]).0 == artist && !m[i].1;
        assert(tracks[i].artist@ == artist && !is_there(tracks[i], before.device));
    }
    assert forall|i: int| 0 <= i < tracks.len() && (#[trigger] tracks[i]).artist@ == artist && is_there(
        tracks[i],
        before.device,
    ) implies mark_on(m, artist) > 0 by {
        assert(m[i].0 == artist && m[i].1);
    }
    if mark_on(m, artist) == mark_total(m, artist) {
        assert forall|i: int|
            0 <= i < tracks.len() && (#[trigger] tracks[i]).artist@ == artist implies is_there(
            tracks[i],
            before.device,
        ) by {
            assert(m[i].0 == artist);
        }
    }
    assert(is_presence(after.lists.artist_device_status@, m));
    assert(after.lists.artist_device_status@.contains_key(artist) <==> mark_on(m, artist) > 0);
}

/// An album is marked by the tracks of its own artist and name, in the same way.
pub proof fn albums_are_marked_by_their_tracks(
    before: App,
    after: App,
    artist: Seq<char>,
    album: Seq<char>,
)
    requires
        after.presence_rebuilt(&before),
        before.library is Some,
    ensures
        ({
            let tracks = before.library->0.tracks@;
            let marks = after.lists.album_device_status@;
            let some = exists|i: int|
                0 <= i < tracks.len() && (#[trigger] tracks[i]).artist@ == artist && tracks[i].album@ == album
                    && is_there(tracks[i], before.device);
            let all = forall|i: int|
                0 <= i < tracks.len() && (#[trigger] tracks[i]).artist@ == artist && tracks[i].album@ == album
                    ==> is_there(tracks[i], before.device);
            &&& marks.contains_key((artist, album)) <==> some
            &&& some && all ==> marks[(artist, album)] == DevicePresence::Full
            &&& some && !all ==> marks[(artist, album)] == DevicePresence::Partial
        }),
{
    let tracks = before.library->0.tracks@;
    let m = album_marks(tracks, before.device);
    let key = (artist, album);
    marks_are_counted(m, key);
    assert forall|i: int| 0 <= i < tracks.len() implies (#[trigger] m[i]).0 == (
        tracks[i].artist@,
        tracks[i].album@,
    ) && m[i].1 == is_there(tracks[i], before.device) by {
    }
    if mark_on(m, key) > 0 {
        let i = choose|i: int| 0 <= i < m.len() && (#[trigger] m[i]).0 == key && m[i].1;
        assert(tracks[i].artist@ == artist && is_there(tracks[i], before.device));
    }
    if mark_on(m, key) < mark_total(m, key) {
        let i = choose|i: int| 0 <= i < m.len() && (#[trigger] m[i]).0 == key && !m[i].1;
        assert(tracks[i].artist@ == artist && !is_there(tracks[i], before.device));
    }
    assert forall|i: int|
        0 <= i < tracks.len() && (#[trigger] tracks[i]).artist@ == artist && tracks[i].album@ == album
            && is_there(tracks[i], before.device) implies mark_on(m, key) > 0 by {
        assert(m[i].0 == key && m[i].1);
    }
    if mark_on(m, key) == mark_total(m, key) {
        assert forall|i: int|
            0 <= i < tracks.len() && (#[trigger] tracks[i]).artist@ == artist && tracks[i].album@ == album implies is_there(
            tracks[i],
            before.device,
        ) by {
            assert(m[i].0 == key);
        }
    }
    assert(is_presence(after.lists.album_device_status@, m));
    assert(after.lists.album_device_status@.contains_key(key) <==> mark_on(m, key) > 0);
}

/// Marking the listed tracks anew goes by the keys of each row, and changes
/// nothing else of it.
pub proof fn listed_rows_are_marked_by_their_keys(before: App, after: App, i: int)
    requires
        after.rows_retagged(&before),
        0 <= i < before.lists.track_list@.len(),
    ensures
        after.lists.track_list@.len() == before.lists.track_list@.len(),
        ({
            let was = before.lists.track_list@[i];
            let now = after.lists.track_list@[i];
            &&& now.on_device == before.device.holds(was.artist_key@, was.name_key@)
            &&& now.name == was.name && now.artist == was.artist && now.album == was.album
            &&& now.location == was.location && now.library_id == was.library_id
        }),
{
}

/// What is removed for an artist is every file of every album of that artist.
pub proof fn removing_an_artist_removes_its_albums(
    m: Map<(Seq<char>, Seq<char>), Seq<DeviceTrackRow>>,
    artist: Seq<char>,
    albums: Seq<Seq<char>>,
    k: int,
    j: int,
)
    requires
        0 <= k < albums.len(),
        m.contains_key((artist, albums[k])),
        0 <= j < m[(artist, albums[k])].len(),
    ensures
        artist_targets(m, artist, albums).contains(
            (m[(artist, albums[k])][j].device_path, m[(artist, albums[k])][j].object_id),
        ),
    decreases albums.len(),
{
    let d = albums.drop_last();
    let rest = artist_targets(m, artist, d);
    let last = crate::copies::targets_of(list_at(m, (artist, albums.last())));
    let all = artist_targets(m, artist, albums);
    let row = m[(artist, albums[k])][j];
    let x = (row.device_path, row.object_id);
    if k < d.len() {
        assert(d[k] == albums[k]);
        removing_an_artist_removes_its_albums(m, artist, d, k, j);
        assert(all[rest.index_of(x)] == x);
    } else {
        assert(last[j] == x);
        assert(all[rest.len() + j] == x);
    }
}

/// One of the rows is the file at the path, of the object.
pub open spec fn has_file(rows: Seq<DeviceTrackRow>, x: (Seq<char>, u64)) -> bool {
    exists|j: int|
        0 <= j < rows.len() && (#[trigger] rows[j]).device_path == x.0 && rows[j].object_id == x.1
}

/// What is removed for an artist is filed under that artist.
pub proof fn removing_an_artist_spares_others(
    m: Map<(Seq<char>, Seq<char>), Seq<DeviceTrackRow>>,
    artist: Seq<char>,
    albums: Seq<Seq<char>>,
    x: (Seq<char>, u64),
)
    requires
        artist_targets(m, artist, albums).contains(x),
    ensures
        exists|k: int|
            0 <= k < albums.len() && has_file(list_at(m, (artist, #[trigger] albums[k])), x),
    decreases albums.len(),
{
    if albums.len() > 0 {
        let d = albums.drop_last();
        let rest = artist_targets(m, artist, d);
        let rows = list_at(m, (artist, albums.last()));
        let last = crate::copies::targets_of(rows);
        let all = artist_targets(m, artist, albums);
        let q = all.index_of(x);
        if q < rest.len() {
            assert(rest[q] == x);
            removing_an_artist_spares_others(m, artist, d, x);
            let k = choose|k: int| 0 <= k < d.len() && has_file(list_at(m, (artist, #[trigger] d[k])), x);
            assert(albums[k] == d[k]);
        } else {
            let j = q - rest.len();
            assert(last[j] == x);
            assert(rows[j].device_path == x.0);
            assert(albums[albums.len() - 1] == albums.last());
        }
    }
}

/// What is removed for a track row is the file of that title, where there is one.
pub proof fn removing_a_track_removes_the_file_of_its_name(rows: Seq<DeviceTrackRow>, name: Seq<char>)
    ensures
        named_target(rows, name).len() <= 1,
        named_target(rows, name).len() == 1 ==> exists|i: int|
            0 <= i < rows.len() && (#[trigger] rows[i]).name == name && named_target(rows, name)[0] == (
                rows[i].device_path,
                rows[i].object_id,
            ),
        named_target(rows, name).len() == 0 ==> forall|i: int|
            0 <= i < rows.len() ==> (#[trigger] rows[i]).name != name,
{
    let p = |r: DeviceTrackRow| r.name == name;
    the_first_is_found(rows, p);
    match first_where(rows, p) {
        Some(x) => {
            let i = choose|i: int| 0 <= i < rows.len() && #[trigger] rows[i] == x && p(x);
            assert(rows[i].name == name);
        },
        None => {
            assert forall|i: int| 0 <= i < rows.len() implies (#[trigger] rows[i]).name != name by {
                assert(!p(rows[i]));
            }
        },
    }
}

/// In the album list of a device, the files of the selected album are queued for
/// removal, all of them.
pub proof fn the_selected_album_is_queued_for_removal(before: App, after: App, j: int)
    requires
        after.removal_queued(&before),
        before.nav.browse_mode == BrowseMode::Device,
        before.nav.active_panel == Panel::Albums,
        before.lists.album_selected < before.lists.album_list@.len(),
        ({
            let a = before.lists.album_list@[before.lists.album_selected as int];
            0 <= j < list_at(before.device.index().album_tracks, (a.artist@, a.name@)).len()
        }),
    ensures
        ({
            let a = before.lists.album_list@[before.lists.album_selected as int];
            let row = list_at(before.device.index().album_tracks, (a.artist@, a.name@))[j];
            queues_object(targets(after.removal.removal_queue@), row.object_id)
        }),
{
    let a = before.lists.album_list@[before.lists.album_selected as int];
    let rows = list_at(before.device.index().album_tracks, (a.artist@, a.name@));
    let ts = crate::copies::targets_of(rows);
    let x = (rows[j].device_path, rows[j].object_id);
    assert(ts[j] == x);
    assert(before.selected_targets() == ts);
    removals_are_queued(targets(before.removal.removal_queue@), ts, x);
}

/// In the library, nothing is queued for removal from a device.
pub proof fn the_library_queues_no_removal(before: App, after: App)
    requires
        after.removal_queued(&before),
        before.nav.browse_mode != BrowseMode::Device,
    ensures
        after.removal.removal_queue == before.removal.removal_queue,
{
}

/// An entry of the sidebar stands for its own artist and album; an artist alone
/// for the album that is selected.
pub proof fn entries_name_their_album(app: App, entry: SidebarEntry)
    ensures
        match entry {
            SidebarEntry::Album { artist, album } => app.device_pair(entry) == (artist@, album@),
            SidebarEntry::Artist(artist) => {
                &&& app.device_pair(entry).0 == artist@
                &&& app.lists.album_selected < app.lists.album_list@.len() ==> app.device_pair(entry).1
                    == app.lists.album_list@[app.lists.album_selected as int].name@
            },
            SidebarEntry::Playlist { .. } => app.entry_targets(entry).len() == 0,
        },
{
}

/// Tracks that are queued while a sync runs are sent after it, with their files;
/// while none runs nothing is sent.
pub proof fn late_entries_are_sent_after(before: App, after: App, j: int)
    requires
        after.last_entry_sent(&before),
        before.sync.queue@.len() > 0,
        0 <= j < before.sync.queue@.last().tracks@.len(),
    ensures
        !(before.sync.status is Running) ==> after == before,
        before.sync.status is Running ==> {
            let sent = after.out.pending_bg_commands@;
            &&& sent.len() == before.out.pending_bg_commands@.len() + 1
            &&& sent.last() is AppendSyncQueue
            &&& uploads(sent.last()->AppendSyncQueue_0@).len() == before.sync.queue@.last().tracks@.len()
            &&& same_file(
                uploads(sent.last()->AppendSyncQueue_0@)[j],
                before.sync.queue@.last().tracks@[j]@,
            )
        },
        after.sync.queue == before.sync.queue,
{
}

/// A queued playlist sends those of its tracks that the library has with a file,
/// and is made on the device afterwards from the same tracks under its name.
pub proof fn a_queued_playlist_is_made_afterwards(before: App, after: App, id: u64, name: String, i: int, k: int)
    requires
        after.playlist_queued(&before, id, name),
        before.library is Some,
        before.playlists.store.valid(),
        0 <= i < before.playlists.store.playlists@.len(),
        before.playlists.store.playlists@[i].id == id,
        ({
            let tracks = resolved(
                before.playlists.store.playlists@[i].track_ids@,
                before.library->0.tracks@,
            );
            0 <= k < tracks.len() && tracks[k].location is Some
        }),
    ensures
        ({
            let t = resolved(
                before.playlists.store.playlists@[i].track_ids@,
                before.library->0.tracks@,
            )[k];
            let items = uploads(after.sync.queue@.last().tracks@);
            let made = after.playlists.pending_imports@.last();
            &&& after.sync.queue@.len() == before.sync.queue@.len() + 1
            &&& after.sync.queue@.drop_last() == before.sync.queue@
            &&& made.name == name
            &&& made.track_keys@.len() == items.len()
            &&& exists|q: int|
                0 <= q < items.len() && uploads_track(#[trigger] items[q], t) && made.track_keys@[q].0@
                    == t.artist@ && made.track_keys@[q].1@ == t.album@ && made.track_keys@[q].2@ == t.name@
        }),
{
    let all = before.playlists.store.playlists@;
    crate::laws::picking::playlists_are_found_by_id(all, id);
    let at = crate::playlists::playlist_index(all, id);
    if at is None {
        assert(all[i].id != id);
    } else if at->0 != i {
        assert(all[at->0 as int].id != all[i].id);
    }
    let tracks = resolved(all[i].track_ids@, before.library->0.tracks@);
    every_track_with_a_file_is_uploaded(tracks, k);
    let items = track_uploads(tracks);
    let q = choose|q: int| 0 <= q < items.len() && uploads_track(#[trigger] items[q], tracks[k]);
    let mid = choose|mid: App| #[trigger]
        mid.import_registered(&before, name, items) && after.entry_added(
            &mid,
            name@,
            items,
            App::playlist_text(items.len(), all[i].track_ids@.len()),
        );
    let now = uploads(after.sync.queue@.last().tracks@);
    assert(now == items);
    assert(uploads_track(now[q], tracks[k]));
    let keys = mid.playlists.pending_imports@.last().track_keys@;
    assert(after.playlists.pending_imports == mid.playlists.pending_imports);
    assert(crate::app::queue::track_texts(keys) == crate::app::queue::upload_keys(items));
    assert(crate::app::queue::track_texts(keys).len() == keys.len());
    assert(crate::app::queue::upload_keys(items)[q] == (
        items[q].artist@,
        items[q].album@,
        items[q].name@,
    ));
    assert(crate::app::queue::track_texts(keys)[q] == (keys[q].0@, keys[q].1@, keys[q].2@));
}

/// An index that was changed is brought to the screen once: the marks are those of
/// the device as it is now.
pub proof fn changes_of_the_index_are_shown_once(before: App, after: App, i: int)
    requires
        after.index_flushed(&before),
        before.nav.browse_mode != BrowseMode::Device,
        0 <= i < before.lists.track_list@.len(),
    ensures
        !before.device_index_dirty ==> after == before,
        before.device_index_dirty ==> !after.device_index_dirty && after.lists.track_list@[i].on_device
            == before.device.holds(
            before.lists.track_list@[i].artist_key@,
            before.lists.track_list@[i].name_key@,
        ),
{
}

/// Adding an artist of the sidebar queues that artist's tracks.
pub proof fn the_selected_artist_is_queued(before: App, after: App, artist: String, i: int, q: int)
    requires
        after.selection_added(&before),
        before.nav.sidebar_selected < before.nav.sidebar_items@.len(),
        before.nav.sidebar_items@[before.nav.sidebar_selected as int] == SidebarEntry::Artist(artist),
        before.library is Some,
        0 <= i < before.library->0.tracks@.len(),
        before.library->0.tracks@[i].artist@ == artist@,
        before.library->0.tracks@[i].location is Some,
    ensures
        ({
            let all = before.library->0.tracks@;
            let items = uploads(after.sync.queue@.last().tracks@);
            &&& after.sync.queue@.len() == before.sync.queue@.len() + 1
            &&& exists|k: int| 0 <= k < items.len() && uploads_track(#[trigger] items[k], all[i])
            &&& 0 <= q < items.len() ==> items[q].artist@ == artist@
        }),
{
    an_artists_tracks_are_queued(before, after, artist, i, q);
}

/// The add key queues what has the focus: in the list of tracks the selected one.
pub proof fn the_add_key_queues_the_focus(before: App, after: App)
    requires
        after.add_pressed(&before),
        before.nav.browse_mode != BrowseMode::Device,
        before.lists.track_selected < before.lists.track_list@.len(),
    ensures
        before.nav.active_panel == Panel::TrackList
            && before.lists.track_list@[before.lists.track_selected as int].location is Some ==> {
            &&& after.sync.queue@.len() == before.sync.queue@.len() + 1
            &&& uploads(after.sync.queue@.last().tracks@).len() == 1
            &&& uploads_row(
                uploads(after.sync.queue@.last().tracks@)[0],
                before.lists.track_list@[before.lists.track_selected as int],
            )
        },
        before.nav.active_panel == Panel::Device || before.nav.active_panel == Panel::SyncQueue ==> after
            == before,
        after.removal == before.removal,
{
}

/// A plan starts with what is announced and the number of tracks, and speaks of
/// copies exactly where some are replaced.
pub proof fn plans_say_what_is_replaced(head: Seq<char>, tracks: nat, copies: nat)
    ensures
        plan_text(head, 1, 0) == head + decimal(1) + " track"@,
        tracks != 1 ==> plan_text(head, tracks, 0) == head + decimal(tracks) + " tracks"@,
        copies > 0 ==> plan_text(head, tracks, copies).len() > plan_text(head, tracks, 0).len()
            && plan_text(head, tracks, copies).take(plan_text(head, tracks, 0).len() as int) == plan_text(
            head,
            tracks,
            0,
        ),
        copies == 1 ==> plan_text(head, tracks, copies) == plan_text(head, tracks, 0) + "; overwriting "@
            + decimal(1) + " existing copy"@,
        copies > 1 ==> plan_text(head, tracks, copies) == plan_text(head, tracks, 0) + "; overwriting "@
            + decimal(copies) + " existing copies"@,
{
    reveal_strlit("; overwriting ");
    if copies > 0 {
        let first = plan_text(head, tracks, 0);
        assert(plan_text(head, tracks, copies).take(first.len() as int) =~= first);
    }
}

/// A queued playlist is announced with what was added, and with what the library
/// lacks where it lacks something.
pub proof fn lacking_tracks_are_announced(added: nat, wanted: nat)
    ensures
        wanted <= added ==> App::playlist_text(added, wanted) == "Added "@ + decimal(added)
            + " tracks to queue"@,
        wanted > added ==> App::playlist_text(added, wanted) == "Added "@ + decimal(added)
            + " tracks to queue ("@ + decimal((wanted - added) as nat) + " unresolved)"@,
{
}

} // verus!
