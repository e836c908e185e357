//! Copies of a track on the device: finding them, and telling duplicates.
use vstd::prelude::*;
use crate::device::{list_at, track_rows, DeviceState};
use crate::text::{
    contains_str, has_substring, match_key, normalize_for_match, normalize_without_number, str_eq,
    stripped_key,
};
use crate::types::{DeviceStatus, DeviceTrackInfo, DeviceTrackRow};

verus! {

/// What a removal target says: where the copy lies, and its object id.
pub open spec fn targets(s: Seq<(String, u64)>) -> Seq<(Seq<char>, u64)> {
    s.map_values(|t: (String, u64)| (t.0@, t.1))
}

/// The target of a row.
pub open spec fn target_of(r: DeviceTrackRow) -> (Seq<char>, u64) {
    (r.device_path, r.object_id)
}

/// The targets of rows.
pub open spec fn targets_of(rows: Seq<DeviceTrackRow>) -> Seq<(Seq<char>, u64)> {
    rows.map_values(|r: DeviceTrackRow| target_of(r))
}

/// Every row on the device, album by album.
pub open spec fn all_rows(
    m: Map<(Seq<char>, Seq<char>), Seq<DeviceTrackRow>>,
    order: Seq<(Seq<char>, Seq<char>)>,
) -> Seq<DeviceTrackRow>
    decreases order.len(),
{
    if order.len() == 0 {
        Seq::empty()
    } else {
        all_rows(m, order.drop_last()) + list_at(m, order.last())
    }
}

impl DeviceState {
    /// Every row on the device, in the order of the album keys.
    pub open spec fn rows(&self) -> Seq<DeviceTrackRow> {
        all_rows(self.index().album_tracks, self.album_tracks.keys())
    }

    /// Every track on the device, album by album.
    pub fn all_tracks(&self) -> (r: Vec<DeviceTrackInfo>)
        ensures
            track_rows(r@) == self.rows(),
    {
        let mut r: Vec<DeviceTrackInfo> = Vec::new();
        let n = self.album_tracks.len();
        let ghost keys = self.album_tracks.keys();
        let ghost m = self.index().album_tracks;
        let mut i: usize = 0;
        proof {
            assert(track_rows(r@) =~= all_rows(m, keys.take(0)));
        }
        while i < n
            invariant
                i <= n,
                n == keys.len(),
                keys == self.album_tracks.keys(),
                m == self.index().album_tracks,
                track_rows(r@) == all_rows(m, keys.take(i as int)),
            decreases n - i,
        {
            let list = self.album_tracks.value_at(i);
            proof {
                assert(keys.take(i + 1).drop_last() =~= keys.take(i as int));
                assert(keys.take(i + 1).last() == keys[i as int]);
                assert(list_at(m, keys[i as int]) == track_rows(list@));
            }
            let mut j: usize = 0;
            let ghost before = track_rows(r@);
            while j < list.len()
                invariant
                    j <= list.len(),
                    track_rows(r@) == before + track_rows(list@).take(j as int),
                decreases list.len() - j,
            {
                let ghost prev = r@;
                r.push(list[j].clone());
                proof {
                    assert(track_rows(r@) =~= track_rows(prev).push(list@[j as int]@));
                    assert(track_rows(list@).take(j + 1) =~= track_rows(list@).take(j as int).push(
                        list@[j as int]@,
                    ));
                }
                j = j + 1;
            }
            proof {
                assert(track_rows(list@).take(list@.len() as int) =~= track_rows(list@));
            }
            i = i + 1;
        }
        proof {
            assert(keys.take(n as int) =~= keys);
        }
        r
    }
}

// ---------------------------------------------------------------------------
// Copies of one track
// ---------------------------------------------------------------------------
/// The row is a copy of the track of that artist and name: the artists match,
/// and the names match with or without a track number, or contain one another.
pub open spec fn is_copy(row: DeviceTrackRow, artist: Seq<char>, name: Seq<char>) -> bool {
    let key = match_key(name);
    let row_key = match_key(row.name);
    match_key(row.artist) == match_key(artist) && (row_key == key || row_key == stripped_key(name)
        || stripped_key(row.name) == key || has_substring(row_key, key) || has_substring(key, row_key))
}

/// The copies among the rows, in order.
pub open spec fn copies_among(
    rows: Seq<DeviceTrackRow>,
    artist: Seq<char>,
    name: Seq<char>,
) -> Seq<DeviceTrackRow>
    decreases rows.len(),
{
    if rows.len() == 0 {
        rows
    } else if is_copy(rows.last(), artist, name) {
        copies_among(rows.drop_last(), artist, name).push(rows.last())
    } else {
        copies_among(rows.drop_last(), artist, name)
    }
}

/// The removal targets for a new upload of a track.
pub open spec fn copy_targets(device: DeviceState, artist: Seq<char>, name: Seq<char>) -> Seq<
    (Seq<char>, u64),
> {
    if device.status == DeviceStatus::Connected {
        targets_of(copies_among(device.rows(), artist, name))
    } else {
        Seq::empty()
    }
}

/// Every row that is a copy is among the copies found, and nothing else is.
pub proof fn copies_are_complete(rows: Seq<DeviceTrackRow>, artist: Seq<char>, name: Seq<char>)
    ensures
        forall|r: DeviceTrackRow|
            copies_among(rows, artist, name).contains(r) <==> rows.contains(r) && is_copy(
                r,
                artist,
                name,
            ),
    decreases rows.len(),
{
    if rows.len() > 0 {
        copies_are_complete(rows.drop_last(), artist, name);
        let rest = copies_among(rows.drop_last(), artist, name);
        let all = copies_among(rows, artist, name);
        assert forall|r: DeviceTrackRow| all.contains(r) <==> rows.contains(r) && is_copy(
            r,
            artist,
            name,
        ) by {
            assert(rest.contains(r) <==> rows.drop_last().contains(r) && is_copy(r, artist, name));
            if rows.contains(r) {
                let i = rows.index_of(r);
                if i < rows.len() - 1 {
                    assert(rows.drop_last()[i] == r);
                }
            }
            if rows.drop_last().contains(r) {
                let i = rows.drop_last().index_of(r);
                assert(rows[i] == r);
            }
            if rest.contains(r) {
                let i = rest.index_of(r);
                if is_copy(rows.last(), artist, name) {
                    assert(all[i] == r);
                }
            }
            if is_copy(rows.last(), artist, name) {
                assert(all[all.len() - 1] == rows.last());
                if all.contains(r) {
                    let i = all.index_of(r);
                    if i < rest.len() {
                        assert(rest[i] == r);
                    }
                }
            }
            assert(rows[rows.len() - 1] == rows.last());
        }
    }
}

fn is_copy_exec(row: &DeviceTrackInfo, artist_key: &str, name_key: &str, bare_key: &str) -> (r: bool)
    ensures
        forall|artist: Seq<char>, name: Seq<char>|
            match_key(artist) == artist_key@ && match_key(name) == name_key@ && stripped_key(name)
                == bare_key@ ==> r == #[trigger] is_copy(row@, artist, name),
{
    let a = normalize_for_match(row.artist.as_str());
    if !str_eq(a.as_str(), artist_key) {
        return false;
    }
    let k = normalize_for_match(row.name.as_str());
    let b = normalize_without_number(row.name.as_str());
    str_eq(k.as_str(), name_key) || str_eq(k.as_str(), bare_key) || str_eq(b.as_str(), name_key)
        || contains_str(k.as_str(), name_key) || contains_str(name_key, k.as_str())
}

/// Find every on-device track whose normalized (artist, name) matches the
/// supplied pair. Returns `(device_path, object_id)` tuples, so that
/// re-queuing a track wipes its existing on-device copies (including
/// pre-existing duplicates) before the new upload lands. Returns an empty vec
/// if the device isn't connected or the track isn't on it.
pub fn find_device_copies(device: &DeviceState, artist: &str, name: &str) -> (r: Vec<(String, u64)>)
    ensures
        targets(r@) == copy_targets(*device, artist@, name@),
{
    let mut r: Vec<(String, u64)> = Vec::new();
    if device.status != DeviceStatus::Connected {
        proof {
            assert(targets(r@) =~= Seq::<(Seq<char>, u64)>::empty());
        }
        return r;
    }
    let artist_key = normalize_for_match(artist);
    let name_key = normalize_for_match(name);
    let bare_key = normalize_without_number(name);
    let tracks = device.all_tracks();
    let ghost rows = device.rows();
    let mut i: usize = 0;
    proof {
        assert(targets(r@) =~= targets_of(copies_among(rows.take(0), artist@, name@)));
    }
    while i < tracks.len()
        invariant
            i <= tracks.len(),
            rows == track_rows(tracks@),
            artist_key@ == match_key(artist@),
            name_key@ == match_key(name@),
            bare_key@ == stripped_key(name@),
            targets(r@) == targets_of(copies_among(rows.take(i as int), artist@, name@)),
        decreases tracks.len() - i,
    {
        let hit = is_copy_exec(&tracks[i], artist_key.as_str(), name_key.as_str(), bare_key.as_str());
        proof {
            assert(rows.take(i + 1).drop_last() =~= rows.take(i as int));
            assert(rows.take(i + 1).last() == tracks@[i as int]@);
            assert(hit == is_copy(tracks@[i as int]@, artist@, name@));
        }
        if hit {
            let ghost before = r@;
            r.push((tracks[i].device_path.clone(), tracks[i].object_id));
            proof {
                assert(targets(r@) =~= targets(before).push(target_of(tracks@[i as int]@)));
                assert(targets_of(copies_among(rows.take(i + 1), artist@, name@)) =~= targets_of(
                    copies_among(rows.take(i as int), artist@, name@),
                ).push(target_of(tracks@[i as int]@)));
            }
        }
        i = i + 1;
    }
    proof {
        assert(rows.take(tracks@.len() as int) =~= rows);
    }
    r
}

// ---------------------------------------------------------------------------
// Duplicates
// ---------------------------------------------------------------------------
/// The key that copies of one track share.
pub open spec fn group_key(r: DeviceTrackRow) -> (Seq<char>, Seq<char>, Seq<char>) {
    (match_key(r.artist), match_key(r.album), match_key(r.name))
}

/// The rows of a group, in order.
pub open spec fn group_members(
    rows: Seq<DeviceTrackRow>,
    key: (Seq<char>, Seq<char>, Seq<char>),
) -> Seq<DeviceTrackRow>
    decreases rows.len(),
{
    if rows.len() == 0 {
        rows
    } else if group_key(rows.last()) == key {
        group_members(rows.drop_last(), key).push(rows.last())
    } else {
        group_members(rows.drop_last(), key)
    }
}

/// A target put behind all that have no greater object id.
pub open spec fn insert_by_id(s: Seq<(Seq<char>, u64)>, x: (Seq<char>, u64)) -> Seq<(Seq<char>, u64)>
    decreases s.len(),
{
    if s.len() == 0 {
        seq![x]
    } else if s.last().1 <= x.1 {
        s.push(x)
    } else {
        insert_by_id(s.drop_last(), x).push(s.last())
    }
}

/// The targets by ascending object id; those of equal id keep their order.
pub open spec fn sorted_by_id(s: Seq<(Seq<char>, u64)>) -> Seq<(Seq<char>, u64)>
    decreases s.len(),
{
    if s.len() == 0 {
        s
    } else {
        insert_by_id(sorted_by_id(s.drop_last()), s.last())
    }
}

/// What a group gives up: all but the newest copy.
pub open spec fn surplus(members: Seq<DeviceTrackRow>) -> Seq<(Seq<char>, u64)> {
    if members.len() < 2 {
        Seq::empty()
    } else {
        sorted_by_id(targets_of(members)).drop_last()
    }
}

/// What the groups that start among the first `n` rows give up.
pub open spec fn duplicate_targets(rows: Seq<DeviceTrackRow>, n: nat) -> Seq<(Seq<char>, u64)>
    decreases n,
{
    if n == 0 || n > rows.len() {
        Seq::empty()
    } else {
        let rest = duplicate_targets(rows, (n - 1) as nat);
        let key = group_key(rows[n - 1]);
        if group_members(rows.take(n - 1), key).len() > 0 {
            rest
        } else {
            rest + surplus(group_members(rows, key))
        }
    }
}

proof fn insert_by_id_facts(s: Seq<(Seq<char>, u64)>, x: (Seq<char>, u64))
    requires
        forall|i: int, j: int| 0 <= i <= j < s.len() ==> (#[trigger] s[i]).1 <= (#[trigger] s[j]).1,
    ensures
        insert_by_id(s, x).len() == s.len() + 1,
        insert_by_id(s, x).to_multiset() == s.to_multiset().insert(x),
        forall|i: int, j: int|
            0 <= i <= j < s.len() + 1 ==> (#[trigger] insert_by_id(s, x)[i]).1 <= (
            #[trigger] insert_by_id(s, x)[j]).1,
    decreases s.len(),
{
    broadcast use vstd::seq_lib::group_to_multiset_ensures;

    let r = insert_by_id(s, x);
    if s.len() == 0 {
        assert(r =~= Seq::<(Seq<char>, u64)>::empty().push(x));
        assert(s =~= Seq::<(Seq<char>, u64)>::empty());
    } else if s.last().1 <= x.1 {
    } else {
        let d = s.drop_last();
        insert_by_id_facts(d, x);
        let rd = insert_by_id(d, x);
        assert(s =~= d.push(s.last()));
        assert(r.to_multiset() =~= s.to_multiset().insert(x));
        assert forall|i: int| 0 <= i < rd.len() implies (#[trigger] rd[i]).1 <= s.last().1 by {
            assert(rd.to_multiset().count(rd[i]) > 0) by {
                assert(rd.contains(rd[i]));
            }
            if rd[i] != x {
                assert(d.to_multiset().count(rd[i]) > 0);
                assert(d.contains(rd[i]));
                let k = d.index_of(rd[i]);
                assert(s[k].1 <= s[s.len() - 1].1);
            }
        }
        assert forall|i: int, j: int| 0 <= i <= j < r.len() implies (#[trigger] r[i]).1 <= (
        #[trigger] r[j]).1 by {
            if j < rd.len() {
                assert(rd[i].1 <= rd[j].1);
            } else if i < rd.len() {
                assert(rd[i].1 <= s.last().1);
            }
        }
    }
}

/// Sorting by object id keeps every target and puts the ids in order, so the
/// last one has the greatest id.
pub proof fn sorting_by_id_sorts(s: Seq<(Seq<char>, u64)>)
    ensures
        sorted_by_id(s).len() == s.len(),
        sorted_by_id(s).to_multiset() == s.to_multiset(),
        forall|i: int, j: int|
            0 <= i <= j < s.len() ==> (#[trigger] sorted_by_id(s)[i]).1 <= (#[trigger] sorted_by_id(
                s,
            )[j]).1,
    decreases s.len(),
{
    broadcast use vstd::seq_lib::group_to_multiset_ensures;

    if s.len() > 0 {
        sorting_by_id_sorts(s.drop_last());
        insert_by_id_facts(sorted_by_id(s.drop_last()), s.last());
        assert(s =~= s.drop_last().push(s.last()));
    }
}

/// Of every group of copies exactly one stays: the rest is given up, and no
/// copy that goes is newer than the one that stays.
pub proof fn newest_copy_stays(members: Seq<DeviceTrackRow>)
    requires
        members.len() >= 2,
    ensures
        ({
            let kept = sorted_by_id(targets_of(members)).last();
            &&& surplus(members).len() == members.len() - 1
            &&& surplus(members).to_multiset().insert(kept) == targets_of(members).to_multiset()
            &&& forall|i: int| 0 <= i < members.len() ==> (#[trigger] members[i]).object_id <= kept.1
        }),
{
    broadcast use vstd::seq_lib::group_to_multiset_ensures;

    let t = targets_of(members);
    let s = sorted_by_id(t);
    sorting_by_id_sorts(t);
    assert(s =~= s.drop_last().push(s.last()));
    assert(s.drop_last().to_multiset().insert(s.last()) =~= t.to_multiset());
    assert forall|i: int| 0 <= i < members.len() implies (#[trigger] members[i]).object_id <= s.last().1 by {
        assert(t[i] == target_of(members[i]));
        assert(t.contains(t[i]));
        assert(t.to_multiset().count(t[i]) > 0);
        assert(s.contains(t[i]));
        let k = s.index_of(t[i]);
        assert(s[k].1 <= s[s.len() - 1].1);
    }
}

/// Nothing is given up where no two rows share a group.
pub proof fn no_duplicates_no_targets(rows: Seq<DeviceTrackRow>, n: nat)
    requires
        n <= rows.len(),
        forall|k: (Seq<char>, Seq<char>, Seq<char>)| #[trigger] group_members(rows, k).len() < 2,
    ensures
        duplicate_targets(rows, n).len() == 0,
    decreases n,
{
    if n > 0 {
        no_duplicates_no_targets(rows, (n - 1) as nat);
        assert(group_members(rows, group_key(rows[n - 1])).len() < 2);
    }
}

fn group_key_of(t: &DeviceTrackInfo) -> (r: (String, String, String))
    ensures
        (r.0@, r.1@, r.2@) == group_key(t@),
{
    (
        normalize_for_match(t.artist.as_str()),
        normalize_for_match(t.album.as_str()),
        normalize_for_match(t.name.as_str()),
    )
}

fn members_of(tracks: &Vec<DeviceTrackInfo>, n: usize, key: &(String, String, String)) -> (r: Vec<
    (String, u64),
>)
    requires
        n <= tracks.len(),
    ensures
        targets(r@) == targets_of(
            group_members(track_rows(tracks@).take(n as int), (key.0@, key.1@, key.2@)),
        ),
{
    let mut r: Vec<(String, u64)> = Vec::new();
    let ghost rows = track_rows(tracks@);
    let ghost kv = (key.0@, key.1@, key.2@);
    let mut i: usize = 0;
    proof {
        assert(targets(r@) =~= targets_of(group_members(rows.take(0), kv)));
    }
    while i < n
        invariant
            i <= n <= tracks.len(),
            rows == track_rows(tracks@),
            kv == (key.0@, key.1@, key.2@),
            targets(r@) == targets_of(group_members(rows.take(i as int), kv)),
        decreases n - i,
    {
        let k = group_key_of(&tracks[i]);
        proof {
            assert(rows.take(i + 1).drop_last() =~= rows.take(i as int));
            assert(rows.take(i + 1).last() == tracks@[i as int]@);
        }
        if k.0 == key.0 && k.1 == key.1 && k.2 == key.2 {
            let ghost before = r@;
            r.push((tracks[i].device_path.clone(), tracks[i].object_id));
            proof {
                assert(targets(r@) =~= targets(before).push(target_of(tracks@[i as int]@)));
                assert(targets_of(group_members(rows.take(i + 1), kv)) =~= targets_of(
                    group_members(rows.take(i as int), kv),
                ).push(target_of(tracks@[i as int]@)));
            }
        }
        i = i + 1;
    }
    r
}

fn insert_target(list: &mut Vec<(String, u64)>, x: (String, u64))
    ensures
        targets(final(list)@) == insert_by_id(targets(old(list)@), (x.0@, x.1)),
{
    let ghost t = targets(list@);
    let ghost xv = (x.0@, x.1);
    let mut i: usize = list.len();
    proof {
        assert(t.take(t.len() as int) =~= t);
        assert(insert_by_id(t.take(t.len() as int), xv) + t.skip(t.len() as int) =~= insert_by_id(
            t,
            xv,
        ));
    }
    while i > 0 && list[i - 1].1 > x.1
        invariant
            i <= list.len(),
            list@ == old(list)@,
            t == targets(list@),
            xv == (x.0@, x.1),
            insert_by_id(t, xv) == insert_by_id(t.take(i as int), xv) + t.skip(i as int),
        decreases i,
    {
        proof {
            let h = t.take(i as int);
            assert(h.last() == t[i - 1]);
            assert(h.drop_last() =~= t.take(i - 1));
            assert(insert_by_id(t.take(i - 1), xv).push(t[i - 1]) + t.skip(i as int)
                =~= insert_by_id(t.take(i - 1), xv) + t.skip(i - 1));
        }
        i = i - 1;
    }
    list.insert(i, x);
    proof {
        let h = t.take(i as int);
        if i > 0 {
            assert(h.last() == t[i - 1]);
        }
        assert(insert_by_id(h, xv) =~= h.push(xv));
        assert(targets(list@) =~= h.push(xv) + t.skip(i as int));
    }
}

fn sort_targets(list: &Vec<(String, u64)>) -> (r: Vec<(String, u64)>)
    ensures
        targets(r@) == sorted_by_id(targets(list@)),
{
    let mut r: Vec<(String, u64)> = Vec::new();
    let ghost t = targets(list@);
    let mut i: usize = 0;
    proof {
        assert(targets(r@) =~= sorted_by_id(t.take(0)));
    }
    while i < list.len()
        invariant
            i <= list.len(),
            t == targets(list@),
            targets(r@) == sorted_by_id(t.take(i as int)),
        decreases list.len() - i,
    {
        proof {
            assert(t.take(i + 1).drop_last() =~= t.take(i as int));
            assert(t.take(i + 1).last() == t[i as int]);
        }
        insert_target(&mut r, (list[i].0.clone(), list[i].1));
        i = i + 1;
    }
    proof {
        assert(t.take(list@.len() as int) =~= t);
    }
    r
}

/// The older copies of every duplicate on the device: keep the newest, remove
/// the rest. Groups are keyed on normalized (artist, album, name) so case and
/// whitespace variants collapse together.
pub fn older_duplicates(device: &DeviceState) -> (r: Vec<(String, u64)>)
    ensures
        targets(r@) == duplicate_targets(device.rows(), device.rows().len()),
{
    let tracks = device.all_tracks();
    let ghost rows = device.rows();
    let mut out: Vec<(String, u64)> = Vec::new();
    let mut i: usize = 0;
    proof {
        assert(targets(out@) =~= duplicate_targets(rows, 0));
    }
    while i < tracks.len()
        invariant
            i <= tracks.len(),
            rows == track_rows(tracks@),
            targets(out@) == duplicate_targets(rows, i as nat),
        decreases tracks.len() - i,
    {
        let key = group_key_of(&tracks[i]);
        let ghost kv = group_key(rows[i as int]);
        let earlier = members_of(&tracks, i, &key);
        proof {
            assert(rows[i as int] == tracks@[i as int]@);
            assert(targets(earlier@).len() == group_members(rows.take(i as int), kv).len());
        }
        if earlier.len() == 0 {
            let members = members_of(&tracks, tracks.len(), &key);
            proof {
                assert(rows.take(tracks@.len() as int) =~= rows);
                assert(targets(members@).len() == group_members(rows, kv).len());
            }
            if members.len() >= 2 {
                let sorted = sort_targets(&members);
                proof {
                    sorting_by_id_sorts(targets(members@));
                    assert(targets(sorted@).len() == sorted@.len());
                }
                let ghost before = targets(out@);
                let ghost st = targets(sorted@);
                let mut j: usize = 0;
                let last: usize = sorted.len() - 1;
                while j < last
                    invariant
                        j <= last,
                        last + 1 == sorted.len(),
                        st == targets(sorted@),
                        targets(out@) == before + st.take(j as int),
                    decreases last - j,
                {
                    let ghost prev = out@;
                    out.push((sorted[j].0.clone(), sorted[j].1));
                    proof {
                        assert(targets(out@) =~= targets(prev).push(st[j as int]));
                        assert(st.take(j + 1) =~= st.take(j as int).push(st[j as int]));
                    }
                    j = j + 1;
                }
                proof {
                    assert(st.take(last as int) =~= st.drop_last());
                }
            } else {
                proof {
                    assert(targets(out@) + Seq::<(Seq<char>, u64)>::empty() =~= targets(out@));
                }
            }
        }
        i = i + 1;
    }
    out
}

} // verus!
