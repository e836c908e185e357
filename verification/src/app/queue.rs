//! The sync queue and the removal queue.
use vstd::prelude::*;
use crate::app::select::resolved;
use crate::app::splitting::logs;
use crate::app::{App, PlaylistUi, RemovalState, SyncState};
use crate::commands::{one_more, uploads, BgCommand, QueuedItem, SyncItem, Upload};
use crate::copies::{copy_targets, duplicate_targets, find_device_copies, older_duplicates, targets};
use crate::device::DeviceState;
use crate::format::{concat3, decimal, decimal_of, decimal_of_wide, joined, join, megabytes_text, texts};
use crate::model::Track;
use crate::playlists::{playlist_index, PendingPlaylistImport};
use crate::text::str_eq;
use crate::tracks::TrackInfo;
use crate::types::{DeviceStatus, SidebarEntry, SyncStatus};

verus! {

/// The upload of a listed row.
pub open spec fn row_upload(t: TrackInfo) -> Upload {
    Upload {
        artist: t.artist,
        album: t.album,
        name: t.name,
        location: t.location->0,
        track_number: t.track_number,
        genre: t.genre,
        targets: Seq::empty(),
    }
}

/// The uploads of the rows that have a file.
pub open spec fn row_uploads(rows: Seq<TrackInfo>) -> Seq<Upload>
    decreases rows.len(),
{
    if rows.len() == 0 {
        Seq::empty()
    } else {
        let rest = row_uploads(rows.drop_last());
        if rows.last().location is Some {
            rest.push(row_upload(rows.last()))
        } else {
            rest
        }
    }
}

/// The upload of a library track.
pub open spec fn track_upload(t: Track) -> Upload {
    Upload {
        artist: t.artist,
        album: t.album,
        name: t.name,
        location: t.location->0,
        track_number: t.track_number,
        genre: t.genre,
        targets: Seq::empty(),
    }
}

/// The uploads of the library tracks that have a file.
pub open spec fn track_uploads(tracks: Seq<Track>) -> Seq<Upload>
    decreases tracks.len(),
{
    if tracks.len() == 0 {
        Seq::empty()
    } else {
        let rest = track_uploads(tracks.drop_last());
        if tracks.last().location is Some {
            rest.push(track_upload(tracks.last()))
        } else {
            rest
        }
    }
}

/// The uploads, each with the copies on the device that it replaces.
pub open spec fn targeted(items: Seq<Upload>, device: DeviceState) -> Seq<Upload> {
    items.map_values(
        |u: Upload| Upload { targets: copy_targets(device, u.artist@, u.name@), ..u },
    )
}

/// How many copies the uploads replace.
pub open spec fn replaced(items: Seq<Upload>) -> nat
    decreases items.len(),
{
    if items.len() == 0 {
        0
    } else {
        replaced(items.drop_last()) + items.last().targets.len()
    }
}

/// All uploads of the queue, entry by entry.
pub open spec fn queue_uploads(queue: Seq<QueuedItem>) -> Seq<Upload>
    decreases queue.len(),
{
    if queue.len() == 0 {
        Seq::empty()
    } else {
        queue_uploads(queue.drop_last()) + uploads(queue.last().tracks@)
    }
}

/// What a sync is announced with.
pub open spec fn plan_text(head: Seq<char>, tracks: nat, copies: nat) -> Seq<char> {
    let first = head + decimal(tracks) + if tracks == 1 {
        " track"@
    } else {
        " tracks"@
    };
    if copies > 0 {
        first + "; overwriting "@ + decimal(copies) + if copies == 1 {
            " existing copy"@
        } else {
            " existing copies"@
        }
    } else {
        first
    }
}

fn plan_line(head: &str, tracks: usize, copies: u128) -> (r: String)
    ensures
        r@ == plan_text(head@, tracks as nat, copies as nat),
{
    let mut s = head.to_owned();
    let n = decimal_of(tracks as u64);
    s.append(n.as_str());
    s.append(
        if tracks == 1 {
            " track"
        } else {
            " tracks"
        },
    );
    if copies > 0 {
        s.append("; overwriting ");
        let k = decimal_of_wide(copies);
        s.append(k.as_str());
        s.append(
            if copies == 1 {
                " existing copy"
            } else {
                " existing copies"
            },
        );
    }
    s
}

fn upload_rows(rows: &Vec<TrackInfo>) -> (r: Vec<SyncItem>)
    ensures
        uploads(r@) == row_uploads(rows@),
{
    let mut r: Vec<SyncItem> = Vec::new();
    let mut i: usize = 0;
    proof {
        assert(uploads(r@) =~= row_uploads(rows@.take(0)));
    }
    while i < rows.len()
        invariant
            i <= rows.len(),
            uploads(r@) == row_uploads(rows@.take(i as int)),
        decreases rows.len() - i,
    {
        proof {
            assert(rows@.take(i + 1).drop_last() =~= rows@.take(i as int));
        }
        let t = &rows[i];
        if let Some(loc) = &t.location {
            let ghost before = uploads(r@);
            let item = SyncItem {
                artist: t.artist.clone(),
                album: t.album.clone(),
                name: t.name.clone(),
                location: loc.clone(),
                track_number: t.track_number,
                genre: t.genre.clone(),
                overwrite_targets: Vec::new(),
            };
            proof {
                assert(item@ =~= row_upload(*t));
            }
            r.push(item);
            proof {
                assert(uploads(r@) =~= before.push(item@));
            }
        }
        i = i + 1;
    }
    proof {
        assert(rows@.take(rows@.len() as int) =~= rows@);
    }
    r
}

fn upload_tracks(tracks: &Vec<Track>) -> (r: Vec<SyncItem>)
    ensures
        uploads(r@) == track_uploads(tracks@),
        r@.len() <= tracks@.len(),
{
    let mut r: Vec<SyncItem> = Vec::new();
    let mut i: usize = 0;
    proof {
        assert(uploads(r@) =~= track_uploads(tracks@.take(0)));
    }
    while i < tracks.len()
        invariant
            i <= tracks.len(),
            r.len() <= i,
            uploads(r@) == track_uploads(tracks@.take(i as int)),
        decreases tracks.len() - i,
    {
        proof {
            assert(tracks@.take(i + 1).drop_last() =~= tracks@.take(i as int));
        }
        let t = &tracks[i];
        if let Some(loc) = &t.location {
            let ghost before = uploads(r@);
            let item = SyncItem {
                artist: t.artist.clone(),
                album: t.album.clone(),
                name: t.name.clone(),
                location: loc.clone(),
                track_number: t.track_number,
                genre: t.genre.clone(),
                overwrite_targets: Vec::new(),
            };
            proof {
                assert(item@ =~= track_upload(*t));
            }
            r.push(item);
            proof {
                assert(uploads(r@) =~= before.push(item@));
            }
        }
        i = i + 1;
    }
    proof {
        assert(tracks@.take(tracks@.len() as int) =~= tracks@);
    }
    r
}

/// Stamps the copies on the device into the uploads; returns how many there
/// are.
fn stamp_targets(items: &mut Vec<SyncItem>, device: &DeviceState) -> (total: u128)
    ensures
        uploads(final(items)@) == targeted(uploads(old(items)@), *device),
        total == replaced(uploads(final(items)@)),
{
    let ghost all = targeted(uploads(items@), *device);
    let ghost was = uploads(items@);
    let n = items.len();
    let mut total: u128 = 0;
    let mut i: usize = 0;
    proof {
        assert(all.take(0) =~= Seq::<Upload>::empty());
    }
    while i < n
        invariant
            i <= n,
            n == items@.len(),
            was.len() == n,
            all == targeted(was, *device),
            uploads(items@) =~= all.take(i as int) + was.skip(i as int),
            total == replaced(all.take(i as int)),
            total <= i * (usize::MAX as int),
        decreases n - i,
    {
        proof {
            assert(uploads(items@)[i as int] == was[i as int]);
        }
        let found = find_device_copies(device, items[i].artist.as_str(), items[i].name.as_str());
        proof {
            assert(all[i as int].targets == targets(found@));
            assert(targets(found@).len() == found@.len());
            assert(all.take(i + 1).drop_last() =~= all.take(i as int));
            assert(all.take(i + 1).last() == all[i as int]);
            assert((i + 1) * (usize::MAX as int) <= (usize::MAX as int) * (usize::MAX as int)) by (nonlinear_arith)
                requires
                    i + 1 <= usize::MAX,
            ;
            assert((usize::MAX as int) * (usize::MAX as int) <= u128::MAX) by (nonlinear_arith)
                requires
                    usize::MAX <= 0xffff_ffff_ffff_ffff,
            ;
            assert((i + 1) * (usize::MAX as int) == i * (usize::MAX as int) + usize::MAX as int) by (nonlinear_arith);
        }
        total = total + found.len() as u128;
        let ghost prev = uploads(items@);
        let it = &mut items[i];
        it.overwrite_targets = found;
        proof {
            assert(items@[i as int]@ =~= all[i as int]);
            assert(uploads(items@) =~= prev.update(i as int, all[i as int]));
        }
        i = i + 1;
    }
    proof {
        assert(all.take(n as int) =~= all);
        assert(uploads(items@) =~= all);
    }
    total
}

fn copy_items(items: &Vec<SyncItem>) -> (r: Vec<SyncItem>)
    ensures
        uploads(r@) == uploads(items@),
{
    let mut r: Vec<SyncItem> = Vec::new();
    let mut i: usize = 0;
    proof {
        assert(uploads(r@) =~= uploads(items@).take(0));
    }
    while i < items.len()
        invariant
            i <= items.len(),
            uploads(r@) == uploads(items@).take(i as int),
        decreases items.len() - i,
    {
        let ghost before = uploads(r@);
        let x = items[i].clone();
        proof {
            assert(x@ =~= items@[i as int]@);
        }
        r.push(x);
        proof {
            assert(uploads(r@) =~= before.push(x@));
            assert(uploads(r@) =~= uploads(items@).take(i + 1));
        }
        i = i + 1;
    }
    proof {
        assert(uploads(items@).take(items@.len() as int) =~= uploads(items@));
    }
    r
}

fn all_items(queue: &Vec<QueuedItem>) -> (r: Vec<SyncItem>)
    ensures
        uploads(r@) == queue_uploads(queue@),
{
    let mut r: Vec<SyncItem> = Vec::new();
    let mut i: usize = 0;
    proof {
        assert(uploads(r@) =~= queue_uploads(queue@.take(0)));
    }
    while i < queue.len()
        invariant
            i <= queue.len(),
            uploads(r@) == queue_uploads(queue@.take(i as int)),
        decreases queue.len() - i,
    {
        proof {
            assert(queue@.take(i + 1).drop_last() =~= queue@.take(i as int));
        }
        let mut more = copy_items(&queue[i].tracks);
        let ghost a = uploads(r@);
        let ghost b = uploads(more@);
        r.append(&mut more);
        proof {
            assert(uploads(r@) =~= a + b);
        }
        i = i + 1;
    }
    proof {
        assert(queue@.take(queue@.len() as int) =~= queue@);
    }
    r
}

/// A target joins the removal queue unless its object is there already.
pub open spec fn queue_one(q: Seq<(Seq<char>, u64)>, t: (Seq<char>, u64)) -> Seq<(Seq<char>, u64)> {
    if t.1 > 0 && exists|i: int| 0 <= i < q.len() && (#[trigger] q[i]).1 == t.1 {
        q
    } else {
        q.push(t)
    }
}

/// The targets join the removal queue in order.
pub open spec fn queue_all(q: Seq<(Seq<char>, u64)>, ts: Seq<(Seq<char>, u64)>) -> Seq<(Seq<char>, u64)>
    decreases ts.len(),
{
    if ts.len() == 0 {
        q
    } else {
        queue_one(queue_all(q, ts.drop_last()), ts.last())
    }
}

/// No object is queued twice.
pub open spec fn objects_once(q: Seq<(Seq<char>, u64)>) -> bool {
    forall|i: int, j: int|
        0 <= i < j < q.len() && (#[trigger] q[i]).1 > 0 ==> q[i].1 != (#[trigger] q[j]).1
}

/// Queueing for removal keeps every object in the queue at most once.
pub proof fn queueing_keeps_objects_once(q: Seq<(Seq<char>, u64)>, ts: Seq<(Seq<char>, u64)>)
    requires
        objects_once(q),
    ensures
        objects_once(queue_all(q, ts)),
    decreases ts.len(),
{
    if ts.len() > 0 {
        queueing_keeps_objects_once(q, ts.drop_last());
        let r = queue_all(q, ts.drop_last());
        let t = ts.last();
        let n = queue_one(r, t);
        if n != r {
            assert forall|i: int, j: int|
                0 <= i < j < n.len() && (#[trigger] n[i]).1 > 0 implies n[i].1 != (#[trigger] n[j]).1 by {
                if j == r.len() {
                    assert(r[i].1 == n[i].1);
                } else {
                    assert(r[i] == n[i] && r[j] == n[j]);
                }
            }
        }
    }
}

fn queue_target(q: &mut Vec<(String, u64)>, t: (String, u64))
    ensures
        targets(final(q)@) == queue_one(targets(old(q)@), (t.0@, t.1)),
{
    let ghost was = targets(q@);
    let mut i: usize = 0;
    while i < q.len()
        invariant
            i <= q.len(),
            q@ == old(q)@,
            was == targets(q@),
            forall|k: int| 0 <= k < i ==> !((#[trigger] was[k]).1 == t.1 && t.1 > 0),
        decreases q.len() - i,
    {
        if q[i].1 == t.1 && t.1 > 0 {
            proof {
                assert(was[i as int].1 == t.1);
            }
            return;
        }
        i = i + 1;
    }
    q.push(t);
    proof {
        assert(targets(q@) =~= was.push((t.0@, t.1)));
    }
}

/// The pending imports other than those of a name.
pub open spec fn without_import(
    s: Seq<PendingPlaylistImport>,
    name: Seq<char>,
) -> Seq<PendingPlaylistImport>
    decreases s.len(),
{
    if s.len() == 0 {
        s
    } else if s.last().name@ == name {
        without_import(s.drop_last(), name)
    } else {
        without_import(s.drop_last(), name).push(s.last())
    }
}

/// What an import says of its tracks.
pub open spec fn track_texts(keys: Seq<(String, String, String)>) -> Seq<
    (Seq<char>, Seq<char>, Seq<char>),
> {
    keys.map_values(|k: (String, String, String)| (k.0@, k.1@, k.2@))
}

/// Artist, album and title of the uploads.
pub open spec fn upload_keys(items: Seq<Upload>) -> Seq<(Seq<char>, Seq<char>, Seq<char>)> {
    items.map_values(|u: Upload| (u.artist@, u.album@, u.name@))
}

fn drop_import(list: &mut Vec<PendingPlaylistImport>, name: &str)
    ensures
        final(list)@ == without_import(old(list)@, name@),
{
    let ghost was = list@;
    let mut i: usize = 0;
    proof {
        assert(was.take(0) =~= Seq::<PendingPlaylistImport>::empty());
    }
    let mut done: Ghost<int> = Ghost(0);
    while i < list.len()
        invariant
            i <= list.len(),
            0 <= done@ <= was.len(),
            list@.skip(i as int) == was.skip(done@),
            list@.take(i as int) == without_import(was.take(done@), name@),
        decreases list.len() - i,
    {
        proof {
            assert(list@.skip(i as int).len() == list@.len() - i);
            assert(was.skip(done@).len() == was.len() - done@);
            assert(list@[i as int] == list@.skip(i as int)[0]);
            assert(was.skip(done@)[0] == was[done@]);
            assert(was.take(done@ + 1).drop_last() =~= was.take(done@));
            assert(was.skip(done@ + 1) =~= was.skip(done@).skip(1));
        }
        let ghost now = list@;
        if str_eq(list[i].name.as_str(), name) {
            let _ = list.remove(i);
            proof {
                assert(list@.skip(i as int) =~= now.skip(i as int).skip(1));
                assert(list@.take(i as int) =~= now.take(i as int));
            }
        } else {
            proof {
                assert(list@.skip(i + 1) =~= list@.skip(i as int).skip(1));
                assert(list@.take(i + 1) =~= list@.take(i as int).push(list@[i as int]));
            }
            i = i + 1;
        }
        proof {
            done@ = done@ + 1;
        }
    }
    proof {
        assert(list@.skip(i as int).len() == 0);
        assert(was.skip(done@).len() == was.len() - done@);
        assert(was.take(was.len() as int) =~= was);
        assert(list@.take(i as int) =~= list@);
    }
}

fn keys_of(items: &Vec<SyncItem>) -> (r: Vec<(String, String, String)>)
    ensures
        track_texts(r@) == upload_keys(uploads(items@)),
{
    let mut r: Vec<(String, String, String)> = Vec::new();
    let ghost all = upload_keys(uploads(items@));
    let mut i: usize = 0;
    proof {
        assert(track_texts(r@) =~= all.take(0));
    }
    while i < items.len()
        invariant
            i <= items.len(),
            all == upload_keys(uploads(items@)),
            track_texts(r@) == all.take(i as int),
        decreases items.len() - i,
    {
        let ghost before = track_texts(r@);
        r.push((items[i].artist.clone(), items[i].album.clone(), items[i].name.clone()));
        proof {
            assert(track_texts(r@) =~= before.push(all[i as int]));
            assert(track_texts(r@) =~= all.take(i + 1));
        }
        i = i + 1;
    }
    proof {
        assert(all.take(items@.len() as int) =~= all);
    }
    r
}

impl App {
    /// An entry was put at the end of the queue.
    pub open spec fn entry_queued(&self, before: &App, label: Seq<char>, items: Seq<Upload>) -> bool {
        &&& *self == (App { sync: self.sync, ..*before })
        &&& self.sync == (SyncState { queue: self.sync.queue, ..before.sync })
        &&& one_more(before.sync.queue@, self.sync.queue@)
        &&& self.sync.queue@.last().label@ == label
        &&& uploads(self.sync.queue@.last().tracks@) == items
    }

    fn push_entry(&mut self, label: String, tracks: Vec<SyncItem>)
        ensures
            final(self).entry_queued(old(self), label@, uploads(tracks@)),
    {
        self.sync.queue.push(QueuedItem { label, tracks });
        proof {
            assert(self.sync.queue@.drop_last() =~= old(self).sync.queue@);
        }
    }

    /// The last entry of the queue goes to a sync that is running.
    pub open spec fn last_entry_sent(&self, before: &App) -> bool {
        if before.sync.status is Running && before.sync.queue@.len() > 0
            && before.sync.queue@.last().tracks@.len() > 0 {
            let items = targeted(uploads(before.sync.queue@.last().tracks@), before.device);
            &&& *self == (App { sync: self.sync, out: self.out, ..*before })
            &&& self.sync == (SyncState { log: self.sync.log, ..before.sync })
            &&& logs(
                before.sync.log@,
                self.sync.log@,
                plan_text("Appended mid-sync: "@, items.len(), replaced(items)),
            )
            &&& self.out.sends(&before.out)
            &&& self.out.pending_bg_commands@.last() matches BgCommand::AppendSyncQueue(sent)
                && uploads(sent@) == items
        } else {
            *self == *before
        }
    }

    /// If a sync is in flight, forward the tracks of the most recently pushed
    /// queue entry to the worker, with the copies on the device that they
    /// replace.
    pub fn forward_last_queue_item_if_syncing(&mut self)
        ensures
            final(self).last_entry_sent(old(self)),
            old(self).valid() ==> final(self).valid(),
    {
        let running = match self.sync.status {
            SyncStatus::Running { .. } => true,
            _ => false,
        };
        let n = self.sync.queue.len();
        if !running || n == 0 {
            return;
        }
        let mut forward = copy_items(&self.sync.queue[n - 1].tracks);
        proof {
            assert(uploads(forward@).len() == forward@.len());
            assert(uploads(self.sync.queue@.last().tracks@).len()
                == self.sync.queue@.last().tracks@.len());
        }
        if forward.len() == 0 {
            return;
        }
        let total = stamp_targets(&mut forward, &self.device);
        proof {
            assert(uploads(forward@).len() == forward@.len());
        }
        let line = plan_line("Appended mid-sync: ", forward.len(), total);
        self.sync.log.push(line);
        self.out.pending_bg_commands.push(BgCommand::AppendSyncQueue(forward));
        proof {
            assert(self.sync.log@.drop_last() =~= old(self).sync.log@);
            assert(self.out.pending_bg_commands@.drop_last() =~= old(self).out.pending_bg_commands@);
        }
    }

    /// An entry was queued, announced, and sent to a running sync.
    pub open spec fn entry_added(
        &self,
        before: &App,
        label: Seq<char>,
        items: Seq<Upload>,
        msg: Seq<char>,
    ) -> bool {
        exists|mid: App|
            (App { toast_message: before.toast_message, ..mid }).entry_queued(before, label, items)
                && mid.says(msg, false) && #[trigger] self.last_entry_sent(&mid)
    }

    fn add_entry(&mut self, label: String, tracks: Vec<SyncItem>, msg: String)
        ensures
            final(self).entry_added(old(self), label@, uploads(tracks@), msg@),
    {
        self.push_entry(label, tracks);
        self.set_toast(msg, false);
        let ghost mid = *self;
        self.forward_last_queue_item_if_syncing();
        proof {
            assert(self.last_entry_sent(&mid));
        }
    }

    /// Only a message was put up.
    pub open spec fn only_says(&self, before: &App, msg: Seq<char>, is_error: bool) -> bool {
        *self == (App { toast_message: self.toast_message, ..*before }) && self.says(msg, is_error)
    }

    /// The selected track was queued.
    pub open spec fn track_added(&self, before: &App) -> bool {
        if before.lists.track_selected >= before.lists.track_list@.len() {
            *self == *before
        } else {
            let t = before.lists.track_list@[before.lists.track_selected as int];
            if t.location is None {
                self.only_says(before, "Track has no file location"@, true)
            } else {
                self.entry_added(
                    before,
                    t.artist@ + " - "@ + t.album@ + " - "@ + t.name@,
                    seq![row_upload(t)],
                    "Added \""@ + t.name@ + "\" to queue"@,
                )
            }
        }
    }

    /// Queue the selected track.
    pub fn add_selected_track_to_queue(&mut self)
        ensures
            final(self).track_added(old(self)),
            old(self).valid() ==> final(self).valid(),
    {
        if self.lists.track_selected >= self.lists.track_list.len() {
            return;
        }
        let t = &self.lists.track_list[self.lists.track_selected];
        let loc: String = match &t.location {
            Some(l) => l.clone(),
            None => {
                self.set_toast("Track has no file location".to_owned(), true);
                return;
            },
        };
        let item = SyncItem {
            artist: t.artist.clone(),
            album: t.album.clone(),
            name: t.name.clone(),
            location: loc,
            track_number: t.track_number,
            genre: t.genre.clone(),
            overwrite_targets: Vec::new(),
        };
        let label = crate::format::concat5(
            t.artist.as_str(),
            " - ",
            t.album.as_str(),
            " - ",
            t.name.as_str(),
        );
        let msg = concat3("Added \"", t.name.as_str(), "\" to queue");
        let mut tracks: Vec<SyncItem> = Vec::new();
        tracks.push(item);
        proof {
            assert(item@ =~= row_upload(*t));
            assert(uploads(tracks@) =~= seq![row_upload(*t)]);
        }
        self.add_entry(label, tracks, msg);
    }

    /// The name of the selected sidebar entry.
    pub open spec fn selection_label(&self) -> Seq<char> {
        if self.nav.sidebar_selected < self.nav.sidebar_items@.len() {
            self.nav.sidebar_items@[self.nav.sidebar_selected as int]@.label()
        } else {
            "Tracks"@
        }
    }

    /// All listed tracks with a file were queued.
    pub open spec fn visible_added(&self, before: &App) -> bool {
        let items = row_uploads(before.lists.track_list@);
        if items.len() == 0 {
            self.only_says(before, "No tracks with file locations"@, true)
        } else {
            self.entry_added(
                before,
                before.selection_label(),
                items,
                "Added "@ + decimal(items.len()) + " tracks to queue"@,
            )
        }
    }

    /// Queue every listed track that has a file.
    pub fn add_all_visible_to_queue(&mut self)
        ensures
            final(self).visible_added(old(self)),
            old(self).valid() ==> final(self).valid(),
    {
        let items = upload_rows(&self.lists.track_list);
        proof {
            assert(uploads(items@).len() == items@.len());
        }
        if items.len() == 0 {
            self.set_toast("No tracks with file locations".to_owned(), true);
            return;
        }
        let n = decimal_of(items.len() as u64);
        let label: String = if self.nav.sidebar_selected < self.nav.sidebar_items.len() {
            self.nav.sidebar_items[self.nav.sidebar_selected].display()
        } else {
            "Tracks".to_owned()
        };
        let msg = concat3("Added ", n.as_str(), " tracks to queue");
        self.add_entry(label, items, msg);
    }

    /// All tracks of a library artist were queued.
    pub open spec fn artist_added(&self, before: &App, artist: Seq<char>) -> bool {
        let items = track_uploads(before.library->0.by_artist(artist));
        if items.len() == 0 {
            self.only_says(before, "No tracks with file locations"@, true)
        } else {
            self.entry_added(
                before,
                artist,
                items,
                "Added "@ + decimal(items.len()) + " tracks to queue"@,
            )
        }
    }

    /// What a queued playlist is announced with.
    pub open spec fn playlist_text(added: nat, wanted: nat) -> Seq<char> {
        if wanted > added {
            "Added "@ + decimal(added) + " tracks to queue ("@ + decimal((wanted - added) as nat)
                + " unresolved)"@
        } else {
            "Added "@ + decimal(added) + " tracks to queue"@
        }
    }

    /// A follow-up import was registered, in place of one of the same name.
    pub open spec fn import_registered(&self, before: &App, name: String, items: Seq<Upload>) -> bool {
        let was = without_import(before.playlists.pending_imports@, name@);
        &&& *self == (App {
            playlists: PlaylistUi {
                pending_imports: self.playlists.pending_imports,
                ..before.playlists
            },
            ..*before
        })
        &&& one_more(was, self.playlists.pending_imports@)
        &&& self.playlists.pending_imports@.last().name == name
        &&& track_texts(self.playlists.pending_imports@.last().track_keys@) == upload_keys(items)
    }

    /// The tracks of a playlist were queued, and its creation on the device
    /// registered.
    pub open spec fn playlist_queued(&self, before: &App, id: u64, name: String) -> bool {
        match (before.library, playlist_index(before.playlists.store.playlists@, id)) {
            (Some(lib), Some(i)) => {
                let ids = before.playlists.store.playlists@[i as int].track_ids@;
                let items = track_uploads(resolved(ids, lib.tracks@));
                if items.len() == 0 {
                    self.only_says(
                        before,
                        "Playlist \""@ + name@ + "\" has no playable tracks"@,
                        true,
                    )
                } else {
                    exists|mid: App| #[trigger]
                        mid.import_registered(before, name, items) && self.entry_added(
                            &mid,
                            name@,
                            items,
                            App::playlist_text(items.len(), ids.len()),
                        )
                }
            },
            _ => *self == *before,
        }
    }

    /// What the sidebar selection stands for was queued.
    pub open spec fn selection_added(&self, before: &App) -> bool {
        if before.nav.sidebar_selected >= before.nav.sidebar_items@.len() {
            *self == *before
        } else {
            match before.nav.sidebar_items@[before.nav.sidebar_selected as int] {
                SidebarEntry::Artist(artist) => if before.library is None {
                    *self == *before
                } else {
                    self.artist_added(before, artist@)
                },
                SidebarEntry::Album { .. } => exists|mid: App| #[trigger]
                    mid.item_listed(before) && self.visible_added(&mid),
                SidebarEntry::Playlist { id, name } => self.playlist_queued(before, id, name),
            }
        }
    }

    fn add_artist(&mut self, artist: &String)
        requires
            old(self).library is Some,
        ensures
            final(self).artist_added(old(self), artist@),
    {
        let items: Vec<SyncItem> = match &self.library {
            Some(lib) => {
                let tracks = lib.artist_tracks(artist.as_str());
                upload_tracks(&tracks)
            },
            None => Vec::new(),
        };
        proof {
            assert(uploads(items@).len() == items@.len());
        }
        if items.len() == 0 {
            self.set_toast("No tracks with file locations".to_owned(), true);
            return;
        }
        let n = decimal_of(items.len() as u64);
        let msg = concat3("Added ", n.as_str(), " tracks to queue");
        self.add_entry(artist.clone(), items, msg);
    }

    fn add_playlist_tracks(&mut self, id: u64, name: &String)
        ensures
            final(self).playlist_queued(old(self), id, *name),
    {
        let (wanted, items): (usize, Vec<SyncItem>) = match &self.library {
            Some(lib) => match self.playlists.store.get(id) {
                Some(p) => {
                    let tracks = crate::app::select::resolve_ids(&p.track_ids, lib);
                    (p.track_ids.len(), upload_tracks(&tracks))
                },
                None => {
                    return;
                },
            },
            None => {
                return;
            },
        };
        proof {
            assert(uploads(items@).len() == items@.len());
        }
        if items.len() == 0 {
            let msg = concat3("Playlist \"", name.as_str(), "\" has no playable tracks");
            self.set_toast(msg, true);
            return;
        }
        let count = items.len();
        let n = decimal_of(count as u64);
        let msg: String = if wanted > count {
            let m = decimal_of((wanted - count) as u64);
            crate::format::concat5(
                "Added ",
                n.as_str(),
                " tracks to queue (",
                m.as_str(),
                " unresolved)",
            )
        } else {
            concat3("Added ", n.as_str(), " tracks to queue")
        };
        let track_keys = keys_of(&items);
        drop_import(&mut self.playlists.pending_imports, name.as_str());
        let ghost was = self.playlists.pending_imports@;
        self.playlists.pending_imports.push(
            PendingPlaylistImport { name: name.clone(), track_keys },
        );
        let ghost mid = *self;
        proof {
            assert(self.playlists.pending_imports@.drop_last() =~= was);
            assert(mid.import_registered(old(self), *name, uploads(items@)));
        }
        self.add_entry(name.clone(), items, msg);
    }

    /// Queue what the sidebar selection stands for: all tracks of an artist, of
    /// an album, or of a playlist.
    pub fn add_sidebar_item_to_queue(&mut self)
        ensures
            final(self).selection_added(old(self)),
            old(self).valid() ==> final(self).valid(),
    {
        if self.nav.sidebar_selected >= self.nav.sidebar_items.len() {
            return;
        }
        let entry = self.nav.sidebar_items[self.nav.sidebar_selected].clone();
        match &entry {
            SidebarEntry::Artist(artist) => {
                if self.library.is_some() {
                    self.add_artist(artist);
                }
            },
            SidebarEntry::Album { .. } => {
                self.select_sidebar_item();
                let ghost mid = *self;
                proof {
                    assert(mid.item_listed(old(self)));
                }
                self.add_all_visible_to_queue();
            },
            SidebarEntry::Playlist { id, name } => {
                self.add_playlist_tracks(*id, name);
            },
        }
    }

    /// The selected entry left the queue.
    pub open spec fn entry_dropped(&self, before: &App) -> bool {
        if before.sync.queue@.len() == 0 {
            *self == *before
        } else {
            let at = before.sync.queue_selected as int;
            &&& *self == (App { sync: self.sync, ..*before })
            &&& self.sync == (SyncState {
                queue: self.sync.queue,
                queue_selected: if at >= before.sync.queue@.len() - 1 && at > 0 {
                    (at - 1) as usize
                } else {
                    at as usize
                },
                ..before.sync
            })
            &&& self.sync.queue@ == before.sync.queue@.remove(at)
        }
    }

    /// Take the selected entry out of the queue.
    pub fn remove_queue_item(&mut self)
        requires
            old(self).sync.on_entry(),
        ensures
            final(self).entry_dropped(old(self)),
            old(self).sync.valid() ==> final(self).sync.valid(),
    {
        if self.sync.queue.len() > 0 {
            let at: usize = self.sync.queue_selected;
            let _ = self.sync.queue.remove(at);
            if at >= self.sync.queue.len() && at > 0 {
                self.sync.queue_selected = at - 1;
            }
        }
    }

    /// The queue is empty, and no playlist waits for it.
    pub open spec fn queue_cleared(&self, before: &App) -> bool {
        &&& *self == (App {
            sync: SyncState { queue: self.sync.queue, queue_selected: 0, ..before.sync },
            playlists: PlaylistUi {
                pending_imports: self.playlists.pending_imports,
                ..before.playlists
            },
            ..*before
        })
        &&& self.sync.queue@.len() == 0
        &&& self.playlists.pending_imports@.len() == 0
    }

    /// Empty the queue. Pending playlist creations go with it.
    pub fn clear_queue(&mut self)
        ensures
            final(self).queue_cleared(old(self)),
            old(self).valid() ==> final(self).valid(),
    {
        self.sync.queue = Vec::new();
        self.sync.queue_selected = 0;
        self.playlists.pending_imports = Vec::new();
    }

    /// The selection was queued for removal from the device.
    pub open spec fn removal_queued(&self, before: &App) -> bool {
        let items = before.selected_targets();
        if items.len() == 0 {
            self.only_says(before, "Nothing to queue for removal"@, true)
        } else {
            &&& *self == (App {
                removal: RemovalState {
                    removal_queue: self.removal.removal_queue,
                    ..before.removal
                },
                toast_message: self.toast_message,
                ..*before
            })
            &&& targets(self.removal.removal_queue@) == queue_all(
                targets(before.removal.removal_queue@),
                items,
            )
            &&& self.says(
                "Queued "@ + decimal(items.len()) + " track(s) for removal"@,
                false,
            )
        }
    }

    /// Queue the selection for removal from the device, each object once.
    pub fn queue_device_removal(&mut self)
        ensures
            final(self).removal_queued(old(self)),
            old(self).valid() ==> final(self).valid(),
    {
        let items = self.collect_device_removal_paths();
        let ghost all = targets(items@);
        proof {
            assert(all.len() == items@.len());
        }
        if items.len() == 0 {
            self.set_toast("Nothing to queue for removal".to_owned(), true);
            return;
        }
        let count = items.len();
        let ghost before = *self;
        let ghost q = targets(self.removal.removal_queue@);
        let mut i: usize = 0;
        proof {
            assert(all.take(0) =~= Seq::<(Seq<char>, u64)>::empty());
        }
        while i < items.len()
            invariant
                i <= items.len(),
                all == targets(items@),
                *self == (App {
                    removal: RemovalState {
                        removal_queue: self.removal.removal_queue,
                        ..before.removal
                    },
                    ..before
                }),
                targets(self.removal.removal_queue@) == queue_all(q, all.take(i as int)),
            decreases items.len() - i,
        {
            proof {
                assert(all.take(i + 1).drop_last() =~= all.take(i as int));
                assert(all.take(i + 1).last() == all[i as int]);
            }
            let t: (String, u64) = (items[i].0.clone(), items[i].1);
            queue_target(&mut self.removal.removal_queue, t);
            i = i + 1;
        }
        proof {
            assert(all.take(items@.len() as int) =~= all);
        }
        let n = decimal_of(count as u64);
        let msg = concat3("Queued ", n.as_str(), " track(s) for removal");
        self.set_toast(msg, false);
    }

    /// Empty the removal queue.
    pub fn clear_removal_queue(&mut self)
        ensures
            *final(self) == (App {
                removal: RemovalState {
                    removal_queue: final(self).removal.removal_queue,
                    ..old(self).removal
                },
                ..*old(self)
            }),
            final(self).removal.removal_queue@.len() == 0,
            old(self).valid() ==> final(self).valid(),
    {
        self.removal.removal_queue = Vec::new();
    }

    /// Every older copy of a duplicate on the device: all but the newest of
    /// each group.
    pub fn collect_device_duplicates(&self) -> (r: Vec<(String, u64)>)
        ensures
            targets(r@) == duplicate_targets(self.device.rows(), self.device.rows().len()),
    {
        older_duplicates(&self.device)
    }

    /// The older copies of duplicates were sent for removal.
    pub open spec fn deduped(&self, before: &App, sent: Seq<BgCommand>, sent_after: Seq<BgCommand>) -> bool {
        let items = duplicate_targets(before.device.rows(), before.device.rows().len());
        if before.device.status != DeviceStatus::Connected {
            self.only_says(before, "Connect a device first"@, true) && sent_after == sent
        } else if items.len() == 0 {
            self.only_says(before, "No duplicates found"@, false) && sent_after == sent
        } else {
            &&& self.only_says(
                before,
                "Removing "@ + decimal(items.len()) + " duplicate copy(ies) from device..."@,
                false,
            )
            &&& one_more(sent, sent_after)
            &&& sent_after.last() matches BgCommand::RemoveFromDevice(list) && targets(list@) == items
        }
    }

    /// Remove the older copies of every duplicate from the device.
    pub fn dedupe_device(&mut self, cmd_tx: &mut Vec<BgCommand>)
        ensures
            final(self).deduped(old(self), old(cmd_tx)@, final(cmd_tx)@),
            old(self).valid() ==> final(self).valid(),
    {
        if self.device.status != DeviceStatus::Connected {
            self.set_toast("Connect a device first".to_owned(), true);
            return;
        }
        let list = self.collect_device_duplicates();
        proof {
            assert(targets(list@).len() == list@.len());
        }
        if list.len() == 0 {
            self.set_toast("No duplicates found".to_owned(), false);
            return;
        }
        let n = decimal_of(list.len() as u64);
        let msg = concat3("Removing ", n.as_str(), " duplicate copy(ies) from device...");
        self.set_toast(msg, false);
        cmd_tx.push(BgCommand::RemoveFromDevice(list));
        proof {
            assert(cmd_tx@.drop_last() =~= old(cmd_tx)@);
        }
    }

    /// The queue was sent to the device: every track, with the copies that it
    /// replaces.
    pub open spec fn synced(&self, before: &App, sent: Seq<BgCommand>, sent_after: Seq<BgCommand>) -> bool {
        if before.sync.queue@.len() == 0 {
            *self == *before && sent_after == sent
        } else if before.device.status != DeviceStatus::Connected {
            self.only_says(before, "Connect a device before syncing"@, true) && sent_after == sent
        } else {
            let items = targeted(queue_uploads(before.sync.queue@), before.device);
            &&& *self == (App { sync: self.sync, ..*before })
            &&& self.sync == (SyncState { log: self.sync.log, ..before.sync })
            &&& texts(self.sync.log@) == seq![plan_text("Syncing "@, items.len(), replaced(items))]
            &&& one_more(sent, sent_after)
            &&& sent_after.last() matches BgCommand::ExecuteSyncQueue(list) && uploads(list@) == items
        }
    }

    /// Send the queue to the device.
    pub fn execute_sync(&mut self, cmd_tx: &mut Vec<BgCommand>)
        ensures
            final(self).synced(old(self), old(cmd_tx)@, final(cmd_tx)@),
            old(self).valid() ==> final(self).valid(),
    {
        if self.sync.queue.len() == 0 {
            return;
        }
        if self.device.status != DeviceStatus::Connected {
            self.set_toast("Connect a device before syncing".to_owned(), true);
            return;
        }
        let mut items = all_items(&self.sync.queue);
        let total = stamp_targets(&mut items, &self.device);
        proof {
            assert(uploads(items@).len() == items@.len());
        }
        let line = plan_line("Syncing ", items.len(), total);
        let mut log: Vec<String> = Vec::new();
        log.push(line);
        proof {
            assert(texts(log@) =~= seq![line@]);
        }
        self.sync.log = log;
        cmd_tx.push(BgCommand::ExecuteSyncQueue(items));
        proof {
            assert(cmd_tx@.drop_last() =~= old(cmd_tx)@);
        }
    }

    /// How many tracks are queued.
    pub open spec fn queued_tracks(queue: Seq<QueuedItem>) -> nat
        decreases queue.len(),
    {
        if queue.len() == 0 {
            0
        } else {
            App::queued_tracks(queue.drop_last()) + queue.last().tracks@.len()
        }
    }

    /// How many tracks are queued.
    pub fn total_queue_tracks(&self) -> (n: usize)
        requires
            App::queued_tracks(self.sync.queue@) <= usize::MAX,
        ensures
            n == App::queued_tracks(self.sync.queue@),
    {
        let mut n: usize = 0;
        let mut i: usize = 0;
        proof {
            assert(self.sync.queue@.take(0) =~= Seq::<QueuedItem>::empty());
        }
        while i < self.sync.queue.len()
            invariant
                i <= self.sync.queue.len(),
                App::queued_tracks(self.sync.queue@) <= usize::MAX,
                n == App::queued_tracks(self.sync.queue@.take(i as int)),
            decreases self.sync.queue.len() - i,
        {
            proof {
                assert(self.sync.queue@.take(i + 1).drop_last() =~= self.sync.queue@.take(i as int));
                counting_grows(self.sync.queue@, i + 1);
            }
            n = n + self.sync.queue[i].tracks.len();
            i = i + 1;
        }
        proof {
            assert(self.sync.queue@.take(self.sync.queue@.len() as int) =~= self.sync.queue@);
        }
        n
    }

    // -- Requests to the host --
    /// The log as one text, a line each.
    pub fn log_text(&self) -> (r: String)
        ensures
            r@ == joined(texts(self.sync.log@), "\n"@),
    {
        join(&self.sync.log, "\n")
    }

    /// Takes how the dump of the log went: written and copied to the clipboard,
    /// written only, or not written.
    pub fn log_dumped(&mut self, path: &str, written: Result<Result<(), String>, String>)
        ensures
            match written {
                Ok(Ok(_)) => final(self).only_says(
                    old(self),
                    "Log dumped to "@ + path@ + " (copied to clipboard)"@,
                    false,
                ),
                Ok(Err(e)) => final(self).only_says(
                    old(self),
                    "Log dumped to "@ + path@ + " (clipboard: "@ + e@ + ")"@,
                    false,
                ),
                Err(e) => final(self).only_says(old(self), "Log dump failed: "@ + e@, true),
            },
            old(self).valid() ==> final(self).valid(),
    {
        match written {
            Ok(copied) => {
                match copied {
                    Ok(_) => {
                        let msg = concat3("Log dumped to ", path, " (copied to clipboard)");
                        self.set_toast(msg, false);
                    },
                    Err(e) => {
                        let msg = crate::format::concat5(
                            "Log dumped to ",
                            path,
                            " (clipboard: ",
                            e.as_str(),
                            ")",
                        );
                        self.set_toast(msg, false);
                    },
                }
            },
            Err(e) => {
                let msg = crate::format::concat2("Log dump failed: ", e.as_str());
                self.set_toast(msg, true);
            },
        }
    }

    /// Takes how many bytes of cached audio were deleted.
    pub fn playback_cache_cleared(&mut self, total: u64)
        ensures
            if total > 0 {
                final(self).only_says(
                    old(self),
                    "Cleared "@ + megabytes_text(total as nat) + " MB of cached audio"@,
                    false,
                )
            } else {
                final(self).only_says(old(self), "Cache is already empty"@, false)
            },
            old(self).valid() ==> final(self).valid(),
    {
        if total > 0 {
            let mb = crate::format::format_megabytes(total);
            let msg = concat3("Cleared ", mb.as_str(), " MB of cached audio");
            self.set_toast(msg, false);
        } else {
            self.set_toast("Cache is already empty".to_owned(), false);
        }
    }
}

proof fn counting_grows(queue: Seq<QueuedItem>, k: int)
    requires
        0 <= k <= queue.len(),
    ensures
        App::queued_tracks(queue.take(k)) <= App::queued_tracks(queue),
    decreases queue.len() - k,
{
    if k < queue.len() {
        counting_grows(queue, k + 1);
        assert(queue.take(k + 1).drop_last() =~= queue.take(k));
    } else {
        assert(queue.take(k) =~= queue);
    }
}

} // verus!
