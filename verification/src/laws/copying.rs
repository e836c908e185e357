//! Copies on the device: which tracks an upload replaces, and which duplicates
//! go.
use vstd::prelude::*;
use crate::copies::{
    all_rows, copies_among, copy_targets, duplicate_targets, group_key, group_members,
    newest_copy_stays, sorted_by_id, sorting_by_id_sorts, surplus, target_of, targets_of,
};
use crate::device::{list_at, DeviceState};
use crate::text::{has_substring, match_key, stripped_key};
use crate::types::{DeviceStatus, DeviceTrackRow};

verus! {

/// The names are those of one track: alike, alike but for a track number, or
/// one within the other.
pub open spec fn names_of_one_track(on_device: Seq<char>, wanted: Seq<char>) -> bool {
    ||| match_key(on_device) == match_key(wanted)
    ||| match_key(on_device) == stripped_key(wanted)
    ||| stripped_key(on_device) == match_key(wanted)
    ||| has_substring(match_key(on_device), match_key(wanted))
    ||| has_substring(match_key(wanted), match_key(on_device))
}

/// The copies of a track are the rows by the same artist, in whatever spelling,
/// whose names are those of one track. No other row is a copy, and none is
/// missed.
pub proof fn copies_are_by_the_artist_and_of_the_name(
    rows: Seq<DeviceTrackRow>,
    artist: Seq<char>,
    name: Seq<char>,
)
    ensures
        forall|i: int|
            0 <= i < copies_among(rows, artist, name).len() ==> match_key(
                (#[trigger] copies_among(rows, artist, name)[i]).artist,
            ) == match_key(artist) && names_of_one_track(
                copies_among(rows, artist, name)[i].name,
                name,
            ) && rows.contains(copies_among(rows, artist, name)[i]),
        forall|i: int|
            0 <= i < rows.len() && match_key((#[trigger] rows[i]).artist) == match_key(artist)
                && names_of_one_track(rows[i].name, name) ==> copies_among(
                rows,
                artist,
                name,
            ).contains(rows[i]),
    decreases rows.len(),
{
    let all = copies_among(rows, artist, name);
    if rows.len() > 0 {
        let d = rows.drop_last();
        let rest = copies_among(d, artist, name);
        copies_are_by_the_artist_and_of_the_name(d, artist, name);
        assert forall|i: int| 0 <= i < all.len() implies match_key((#[trigger] all[i]).artist)
            == match_key(artist) && names_of_one_track(all[i].name, name) && rows.contains(all[i]) by {
            if i < rest.len() {
                assert(all[i] == rest[i]);
                let k = d.index_of(rest[i]);
                assert(rows[k] == rest[i]);
            } else {
                assert(rows[rows.len() - 1] == rows.last());
            }
        }
        assert forall|i: int|
            0 <= i < rows.len() && match_key((#[trigger] rows[i]).artist) == match_key(artist)
                && names_of_one_track(rows[i].name, name) implies all.contains(rows[i]) by {
            if i < d.len() {
                assert(d[i] == rows[i]);
                let k = rest.index_of(rows[i]);
                assert(all[k] == rows[i]);
            } else {
                assert(all[all.len() - 1] == rows[i]);
            }
        }
    }
}

/// What an upload of a track takes off the device is by that artist and of that
/// name: every target is a row of the connected device that says so.
pub proof fn uploads_replace_only_their_own_track(
    device: DeviceState,
    artist: Seq<char>,
    name: Seq<char>,
    i: int,
)
    requires
        0 <= i < copy_targets(device, artist, name).len(),
    ensures
        device.status == DeviceStatus::Connected,
        exists|j: int|
            0 <= j < device.rows().len() && match_key((#[trigger] device.rows()[j]).artist)
                == match_key(artist) && names_of_one_track(device.rows()[j].name, name)
                && copy_targets(device, artist, name)[i] == (
                device.rows()[j].device_path,
                device.rows()[j].object_id,
            ),
{
    let rows = device.rows();
    let found = copies_among(rows, artist, name);
    copies_are_by_the_artist_and_of_the_name(rows, artist, name);
    let j = rows.index_of(found[i]);
    assert(copy_targets(device, artist, name)[i] == target_of(found[i]));
    assert(rows[j] == found[i]);
}

/// Every row of the connected device that is by the artist and of the name is
/// taken off by an upload of the track.
pub proof fn uploads_replace_every_copy(
    device: DeviceState,
    artist: Seq<char>,
    name: Seq<char>,
    j: int,
)
    requires
        device.status == DeviceStatus::Connected,
        0 <= j < device.rows().len(),
        match_key(device.rows()[j].artist) == match_key(artist),
        names_of_one_track(device.rows()[j].name, name),
    ensures
        copy_targets(device, artist, name).contains(
            (device.rows()[j].device_path, device.rows()[j].object_id),
        ),
{
    let rows = device.rows();
    let found = copies_among(rows, artist, name);
    copies_are_by_the_artist_and_of_the_name(rows, artist, name);
    let k = found.index_of(rows[j]);
    assert(copy_targets(device, artist, name)[k] == target_of(found[k]));
}

/// The rows of the device are those filed under its albums: all of them, and
/// nothing else.
pub proof fn every_filed_track_is_a_row(
    m: Map<(Seq<char>, Seq<char>), Seq<DeviceTrackRow>>,
    order: Seq<(Seq<char>, Seq<char>)>,
    r: DeviceTrackRow,
)
    ensures
        all_rows(m, order).contains(r) <==> exists|k: int|
            0 <= k < order.len() && m.contains_key(#[trigger] order[k]) && m[order[k]].contains(r),
    decreases order.len(),
{
    let all = all_rows(m, order);
    if order.len() > 0 {
        let d = order.drop_last();
        let rest = all_rows(m, d);
        let last = list_at(m, order.last());
        every_filed_track_is_a_row(m, d, r);
        if all.contains(r) {
            let i = all.index_of(r);
            if i < rest.len() {
                assert(rest[i] == r);
                let k = choose|k: int|
                    0 <= k < d.len() && m.contains_key(#[trigger] d[k]) && m[d[k]].contains(r);
                assert(order[k] == d[k]);
            } else {
                assert(last[i - rest.len()] == r);
                assert(last.contains(r));
                assert(order[order.len() - 1] == order.last());
            }
        }
        if exists|k: int|
            0 <= k < order.len() && m.contains_key(#[trigger] order[k]) && m[order[k]].contains(r) {
            let k = choose|k: int|
                0 <= k < order.len() && m.contains_key(#[trigger] order[k]) && m[order[k]].contains(r);
            if k < d.len() {
                assert(d[k] == order[k]);
                assert(rest.contains(r));
                let i = rest.index_of(r);
                assert(all[i] == r);
            } else {
                let i = last.index_of(r);
                assert(all[rest.len() + i] == r);
            }
        }
    }
}

/// The rows are copies of one another: artist, album and name agree in whatever
/// spelling.
pub open spec fn duplicates(a: DeviceTrackRow, b: DeviceTrackRow) -> bool {
    match_key(a.artist) == match_key(b.artist) && match_key(a.album) == match_key(b.album)
        && match_key(a.name) == match_key(b.name)
}

proof fn group_is_the_duplicates(
    rows: Seq<DeviceTrackRow>,
    key: (Seq<char>, Seq<char>, Seq<char>),
)
    ensures
        group_members(rows, key) == rows.filter(|r: DeviceTrackRow| group_key(r) == key),
    decreases rows.len(),
{
    reveal(Seq::filter);
    if rows.len() > 0 {
        group_is_the_duplicates(rows.drop_last(), key);
    }
}

pub(crate) proof fn filtered_has<T>(s: Seq<T>, p: spec_fn(T) -> bool)
    ensures
        forall|x: T| #[trigger] s.filter(p).contains(x) <==> s.contains(x) && p(x),
    decreases s.len(),
{
    reveal(Seq::filter);
    let all = s.filter(p);
    if s.len() > 0 {
        let d = s.drop_last();
        filtered_has(d, p);
        let rest = d.filter(p);
        assert forall|x: T| #[trigger] all.contains(x) <==> s.contains(x) && p(x) by {
            assert(rest.contains(x) <==> d.contains(x) && p(x));
            if d.contains(x) {
                let k = d.index_of(x);
                assert(s[k] == x);
            }
            if s.contains(x) && p(x) {
                let k = s.index_of(x);
                if k < d.len() {
                    assert(d[k] == x);
                    let q = rest.index_of(x);
                    assert(all[q] == x);
                } else {
                    assert(all[all.len() - 1] == x);
                }
            }
            if all.contains(x) {
                let k = all.index_of(x);
                if k < rest.len() {
                    assert(rest[k] == x);
                } else {
                    assert(s[s.len() - 1] == x);
                }
            }
        }
    }
}

proof fn two_members(rows: Seq<DeviceTrackRow>, i: int, j: int)
    requires
        0 <= i < j < rows.len(),
        group_key(rows[i]) == group_key(rows[j]),
    ensures
        group_members(rows, group_key(rows[i])).len() >= 2,
    decreases rows.len(),
{
    let key = group_key(rows[i]);
    let d = rows.drop_last();
    if j < d.len() {
        assert(d[i] == rows[i] && d[j] == rows[j]);
        two_members(d, i, j);
    } else {
        one_member(d, i, key);
    }
}

proof fn one_member(rows: Seq<DeviceTrackRow>, i: int, key: (Seq<char>, Seq<char>, Seq<char>))
    requires
        0 <= i < rows.len(),
        group_key(rows[i]) == key,
    ensures
        group_members(rows, key).len() >= 1,
    decreases rows.len(),
{
    if i < rows.len() - 1 {
        assert(rows.drop_last()[i] == rows[i]);
        one_member(rows.drop_last(), i, key);
    }
}

/// What a group gives up is given up by the group's first row.
proof fn group_is_given_up(rows: Seq<DeviceTrackRow>, n: nat, i: int)
    requires
        0 <= i < n <= rows.len(),
    ensures
        forall|t: (Seq<char>, u64)|
            surplus(group_members(rows, group_key(rows[i]))).contains(t) ==> #[trigger] duplicate_targets(
                rows,
                n,
            ).contains(t),
    decreases n,
{
    let m = (n - 1) as nat;
    let rest = duplicate_targets(rows, m);
    let all = duplicate_targets(rows, n);
    let key = group_key(rows[i]);
    let gives = surplus(group_members(rows, key));
    assert forall|t: (Seq<char>, u64)| gives.contains(t) implies #[trigger] all.contains(t) by {
        if i < m {
            group_is_given_up(rows, m, i);
            assert(rest.contains(t));
            let k = rest.index_of(t);
            assert(all[k] == t);
        } else {
            let early = group_members(rows.take(n - 1), key);
            if early.len() > 0 {
                group_is_the_duplicates(rows.take(n - 1), key);
                filtered_has(rows.take(n - 1), |r: DeviceTrackRow| group_key(r) == key);
                assert(early.contains(early[0]));
                let k = rows.take(n - 1).index_of(early[0]);
                assert(rows[k] == early[0]);
                group_is_given_up(rows, m, k);
                assert(rest.contains(t));
            } else {
                let k = gives.index_of(t);
                assert(all[rest.len() + k] == t);
            }
        }
    }
}

/// What is given up is what some group gives up.
proof fn given_up_by_a_group(rows: Seq<DeviceTrackRow>, n: nat, t: (Seq<char>, u64))
    requires
        n <= rows.len(),
        duplicate_targets(rows, n).contains(t),
    ensures
        exists|i: int|
            0 <= i < n && surplus(group_members(rows, group_key(#[trigger] rows[i]))).contains(t),
    decreases n,
{
    let all = duplicate_targets(rows, n);
    let k = all.index_of(t);
    if n > 0 {
        let m = (n - 1) as nat;
        let rest = duplicate_targets(rows, m);
        if rest.contains(t) {
            given_up_by_a_group(rows, m, t);
        } else {
            let gives = surplus(group_members(rows, group_key(rows[n - 1])));
            if k < rest.len() {
                assert(rest[k] == t);
            } else {
                assert(gives[k - rest.len()] == t);
            }
            assert(gives.contains(t));
        }
    }
}

/// Of two duplicates the older one goes.
pub proof fn older_duplicates_go(rows: Seq<DeviceTrackRow>, i: int, j: int)
    requires
        0 <= i < rows.len(),
        0 <= j < rows.len(),
        duplicates(rows[i], rows[j]),
        rows[i].object_id < rows[j].object_id,
    ensures
        duplicate_targets(rows, rows.len()).contains((rows[i].device_path, rows[i].object_id)),
{
    broadcast use vstd::seq_lib::group_to_multiset_ensures;

    let key = group_key(rows[i]);
    let members = group_members(rows, key);
    if i < j {
        two_members(rows, i, j);
    } else {
        two_members(rows, j, i);
    }
    group_is_the_duplicates(rows, key);
    filtered_has(rows, |r: DeviceTrackRow| group_key(r) == key);
    assert(rows.contains(rows[i]) && rows.contains(rows[j]));
    assert(members.contains(rows[i]) && members.contains(rows[j]));
    let a = members.index_of(rows[i]);
    let b = members.index_of(rows[j]);
    newest_copy_stays(members);
    let t = targets_of(members);
    let kept = sorted_by_id(t).last();
    assert(members[b].object_id <= kept.1);
    assert(t[a] == target_of(rows[i]));
    assert(t.contains(t[a]));
    assert(t.to_multiset().count(t[a]) > 0);
    assert(surplus(members).to_multiset().count(t[a]) > 0);
    assert(surplus(members).contains(t[a]));
    group_is_given_up(rows, rows.len(), i);
}

/// No two rows are the same file.
pub open spec fn files_differ(rows: Seq<DeviceTrackRow>) -> bool {
    forall|i: int, j: int|
        0 <= i < j < rows.len() ==> (#[trigger] rows[i]).device_path != (#[trigger] rows[j]).device_path
}

proof fn members_differ(rows: Seq<DeviceTrackRow>, key: (Seq<char>, Seq<char>, Seq<char>))
    requires
        files_differ(rows),
    ensures
        targets_of(group_members(rows, key)).no_duplicates(),
        forall|i: int|
            0 <= i < group_members(rows, key).len() ==> rows.contains(
                #[trigger] group_members(rows, key)[i],
            ),
    decreases rows.len(),
{
    let all = group_members(rows, key);
    if rows.len() > 0 {
        let d = rows.drop_last();
        let rest = group_members(d, key);
        assert forall|i: int, j: int| 0 <= i < j < d.len() implies (#[trigger] d[i]).device_path != (
        #[trigger] d[j]).device_path by {
            assert(rows[i].device_path != rows[j].device_path);
        }
        members_differ(d, key);
        assert forall|i: int| 0 <= i < all.len() implies rows.contains(#[trigger] all[i]) by {
            if i < rest.len() {
                assert(all[i] == rest[i]);
                let k = d.index_of(rest[i]);
                assert(rows[k] == rest[i]);
            } else {
                assert(rows[rows.len() - 1] == all[i]);
            }
        }
        let a = targets_of(all);
        let b = targets_of(rest);
        assert forall|i: int, j: int| 0 <= i < a.len() && 0 <= j < a.len() && i != j implies a[i] != a[j] by {
            if i < rest.len() && j < rest.len() {
                assert(a[i] == b[i] && a[j] == b[j]);
            } else {
                let e = if i < rest.len() {
                    i
                } else {
                    j
                };
                let k = d.index_of(rest[e]);
                assert(a[e] == target_of(rest[e]));
                assert(rows[k] == rest[e]);
                assert(rows[k].device_path != rows[rows.len() - 1].device_path);
            }
        }
    }
}

/// What goes has another file as its duplicate that is no older: nothing goes
/// that is the only copy, or newer than all its duplicates.
pub proof fn only_duplicates_go(rows: Seq<DeviceTrackRow>, t: (Seq<char>, u64))
    requires
        files_differ(rows),
        duplicate_targets(rows, rows.len()).contains(t),
    ensures
        exists|i: int, j: int|
            0 <= i < rows.len() && 0 <= j < rows.len() && i != j && duplicates(
                #[trigger] rows[i],
                #[trigger] rows[j],
            ) && t == (rows[i].device_path, rows[i].object_id) && rows[i].object_id
                <= rows[j].object_id,
{
    broadcast use vstd::seq_lib::group_to_multiset_ensures;

    given_up_by_a_group(rows, rows.len(), t);
    let g = choose|g: int|
        0 <= g < rows.len() && surplus(group_members(rows, group_key(#[trigger] rows[g]))).contains(
            t,
        );
    let key = group_key(rows[g]);
    let members = group_members(rows, key);
    newest_copy_stays(members);
    sorting_by_id_sorts(targets_of(members));
    members_differ(rows, key);
    let all = targets_of(members);
    let s = sorted_by_id(all);
    let kept = s.last();
    assert(surplus(members).to_multiset().count(t) > 0);
    assert(all.to_multiset().count(t) > 0);
    assert(all.contains(t));
    let a = all.index_of(t);
    assert(t == target_of(members[a]));
    assert(s.contains(kept));
    assert(s.to_multiset().count(kept) > 0);
    assert(all.contains(kept));
    let b = all.index_of(kept);
    assert(kept == target_of(members[b]));
    all.lemma_multiset_has_no_duplicates();
    assert(all.to_multiset().count(kept) == 1);
    assert(t != kept);
    group_is_the_duplicates(rows, key);
    filtered_has(rows, |r: DeviceTrackRow| group_key(r) == key);
    assert(members.contains(members[a]) && members.contains(members[b]));
    let i = rows.index_of(members[a]);
    let j = rows.index_of(members[b]);
    assert(group_key(rows[i]) == key && group_key(rows[j]) == key);
    assert(duplicates(rows[i], rows[j]));
}

} // verus!
