//! What every operation on the device index keeps, and how adding and removing
//! undo one another.
use vstd::prelude::*;
use crate::device::{
    add_bare_keys, add_raw_keys, ascending, device_path_of, empty_index, has_path, index_add, index_add_all,
    index_unfile, insert_sorted, is_indexed, is_on, list_at, relookup, row_of, rows_of_artist,
    track_parts, without_name, without_path, DeviceIndex,
};
use crate::model::DeviceEntry;
use crate::text::{match_key, stripped_key, text_lt, text_order_is_total, text_order_is_transitive};
use crate::types::DeviceTrackRow;

verus! {

/// No two rows have the same path.
pub open spec fn paths_differ(rows: Seq<DeviceTrackRow>) -> bool {
    forall|i: int, j: int|
        0 <= i < j < rows.len() ==> (#[trigger] rows[i]).device_path != (#[trigger] rows[j]).device_path
}

/// The artist list, the album lists and the filed tracks agree: artists and
/// albums stand in ascending order, each once; an artist is listed exactly
/// where it has an album, an album exactly where it has a track; tracks are
/// filed under their own artist and album; no path is filed twice.
pub open spec fn index_valid(ix: DeviceIndex) -> bool {
    &&& ascending(ix.artists)
    &&& forall|a: Seq<char>| #[trigger] ix.artists.contains(a) <==> ix.albums.contains_key(a)
    &&& forall|a: Seq<char>| #[trigger]
        ix.albums.contains_key(a) ==> ascending(ix.albums[a]) && ix.albums[a].len() > 0
    &&& forall|k: (Seq<char>, Seq<char>)| #[trigger]
        ix.album_tracks.contains_key(k) <==> ix.albums.contains_key(k.0) && ix.albums[k.0].contains(
            k.1,
        )
    &&& forall|k: (Seq<char>, Seq<char>)| #[trigger]
        ix.album_tracks.contains_key(k) ==> ix.album_tracks[k].len() > 0 && paths_differ(
            ix.album_tracks[k],
        )
    &&& forall|k: (Seq<char>, Seq<char>), i: int|
        ix.album_tracks.contains_key(k) && 0 <= i < ix.album_tracks[k].len() ==> filed_under(
            #[trigger] ix.album_tracks[k][i],
            k,
        )
}

/// The row's artist and album are those of the key, and its names are those
/// that its path spells.
pub open spec fn filed_under(r: DeviceTrackRow, k: (Seq<char>, Seq<char>)) -> bool {
    r.artist == k.0 && r.album == k.1 && r.device_path.len() >= 7 && track_parts(
        r.device_path.skip(7),
    ) == (r.artist, r.album, r.name)
}

proof fn path_spells_row(e: DeviceEntry)
    ensures
        filed_under(row_of(e), (row_of(e).artist, row_of(e).album)),
{
    reveal_strlit("/Music/");
    assert(row_of(e).device_path.skip(7) =~= e.name@);
}

/// Every filed track can be looked up by its plain and by its number-stripped
/// key.
pub open spec fn lookup_covers(ix: DeviceIndex) -> bool {
    forall|k: (Seq<char>, Seq<char>), i: int|
        ix.album_tracks.contains_key(k) && 0 <= i < ix.album_tracks[k].len()
            ==> ix.track_set.contains((match_key(k.0), match_key((#[trigger] ix.album_tracks[k][i]).name)))
            && ix.track_set.contains((match_key(k.0), stripped_key(ix.album_tracks[k][i].name)))
}

/// A row filed under the artist is looked up by the key: the key of the artist
/// with the plain or the number-stripped key of the row's name.
pub open spec fn looked_up_by(artist: Seq<char>, r: DeviceTrackRow, x: (Seq<char>, Seq<char>)) -> bool {
    x.0 == match_key(artist) && (x.1 == match_key(r.name) || x.1 == stripped_key(r.name))
}

/// Some filed track is looked up by the key.
pub open spec fn files_key(ix: DeviceIndex, x: (Seq<char>, Seq<char>)) -> bool {
    exists|k: (Seq<char>, Seq<char>), i: int|
        ix.album_tracks.contains_key(k) && 0 <= i < ix.album_tracks[k].len() && looked_up_by(
            k.0,
            #[trigger] ix.album_tracks[k][i],
            x,
        )
}

/// The lookup set holds the keys of the filed tracks and no others.
pub open spec fn lookup_exact(ix: DeviceIndex) -> bool {
    forall|x: (Seq<char>, Seq<char>)| #[trigger] ix.track_set.contains(x) <==> files_key(ix, x)
}

proof fn insert_sorted_facts(s: Seq<Seq<char>>, x: Seq<char>)
    requires
        ascending(s),
    ensures
        ascending(insert_sorted(s, x)),
        insert_sorted(s, x).len() > 0,
        forall|y: Seq<char>| #[trigger]
            insert_sorted(s, x).contains(y) <==> y == x || s.contains(y),
    decreases s.len(),
{
    let r = insert_sorted(s, x);
    if s.len() == 0 {
        assert(r[0] == x);
        assert forall|y: Seq<char>| #[trigger] r.contains(y) <==> y == x || s.contains(y) by {
            if y == x {
                assert(r[0] == y);
            }
        }
    } else if text_lt(s[0], x) {
        let rest = s.skip(1);
        assert(ascending(rest)) by {
            assert forall|i: int, j: int| 0 <= i < j < rest.len() implies text_lt(
                #[trigger] rest[i],
                #[trigger] rest[j],
            ) by {
                assert(text_lt(s[i + 1], s[j + 1]));
            }
        }
        insert_sorted_facts(rest, x);
        let t = insert_sorted(rest, x);
        assert forall|i: int| 0 <= i < t.len() implies text_lt(s[0], #[trigger] t[i]) by {
            assert(t.contains(t[i]));
            if t[i] != x {
                let k = rest.index_of(t[i]);
                assert(text_lt(s[0], s[k + 1]));
            }
        }
        assert forall|i: int, j: int| 0 <= i < j < r.len() implies text_lt(
            #[trigger] r[i],
            #[trigger] r[j],
        ) by {
            if i == 0 {
                assert(r[j] == t[j - 1]);
            } else {
                assert(text_lt(t[i - 1], t[j - 1]));
            }
        }
        assert forall|y: Seq<char>| #[trigger] r.contains(y) <==> y == x || s.contains(y) by {
            if r.contains(y) {
                let k = r.index_of(y);
                if k > 0 {
                    assert(t[k - 1] == y);
                    assert(t.contains(y));
                    if y != x {
                        let q = rest.index_of(y);
                        assert(s[q + 1] == y);
                    }
                } else {
                    assert(s[0] == y);
                }
            }
            if s.contains(y) {
                let k = s.index_of(y);
                if k > 0 {
                    assert(rest[k - 1] == y);
                    assert(rest.contains(y));
                    assert(t.contains(y));
                    let q = t.index_of(y);
                    assert(r[q + 1] == y);
                } else {
                    assert(r[0] == y);
                }
            }
            if y == x {
                assert(t.contains(y));
                let q = t.index_of(y);
                assert(r[q + 1] == y);
            }
        }
    } else if s[0] == x {
        assert(s.contains(x));
    } else {
        text_order_is_total(s[0], x);
        assert forall|i: int, j: int| 0 <= i < j < r.len() implies text_lt(
            #[trigger] r[i],
            #[trigger] r[j],
        ) by {
            if i == 0 {
                if j > 1 {
                    assert(text_lt(s[0], s[j - 1]));
                    text_order_is_transitive(x, s[0], s[j - 1]);
                }
            } else {
                assert(text_lt(s[i - 1], s[j - 1]));
            }
        }
        assert forall|y: Seq<char>| #[trigger] r.contains(y) <==> y == x || s.contains(y) by {
            if r.contains(y) {
                let k = r.index_of(y);
                if k > 0 {
                    assert(s[k - 1] == y);
                }
            }
            if s.contains(y) {
                let k = s.index_of(y);
                assert(r[k + 1] == y);
            }
            if y == x {
                assert(r[0] == y);
            }
        }
    }
}

proof fn without_name_facts(s: Seq<Seq<char>>, x: Seq<char>)
    requires
        ascending(s),
    ensures
        ascending(without_name(s, x)),
        forall|y: Seq<char>| #[trigger]
            without_name(s, x).contains(y) <==> y != x && s.contains(y),
    decreases s.len(),
{
    if s.len() > 0 {
        let d = s.drop_last();
        assert(ascending(d)) by {
            assert forall|i: int, j: int| 0 <= i < j < d.len() implies text_lt(
                #[trigger] d[i],
                #[trigger] d[j],
            ) by {
                assert(text_lt(s[i], s[j]));
            }
        }
        without_name_facts(d, x);
        let t = without_name(d, x);
        let r = without_name(s, x);
        assert forall|i: int| 0 <= i < t.len() implies text_lt(#[trigger] t[i], s.last()) by {
            assert(t.contains(t[i]));
            let k = d.index_of(t[i]);
            assert(text_lt(s[k], s[s.len() - 1]));
        }
        assert forall|i: int, j: int| 0 <= i < j < r.len() implies text_lt(
            #[trigger] r[i],
            #[trigger] r[j],
        ) by {
            if j < t.len() {
                assert(text_lt(t[i], t[j]));
            } else {
                assert(text_lt(t[i], s.last()));
            }
        }
        assert forall|y: Seq<char>| #[trigger] r.contains(y) <==> y != x && s.contains(y) by {
            if r.contains(y) {
                let k = r.index_of(y);
                if k < t.len() {
                    assert(t[k] == y);
                    assert(t.contains(y));
                    let q = d.index_of(y);
                    assert(s[q] == y);
                } else {
                    assert(s[s.len() - 1] == y);
                }
            }
            if y != x && s.contains(y) {
                let k = s.index_of(y);
                if k < d.len() {
                    assert(d[k] == y);
                    assert(d.contains(y));
                    assert(t.contains(y));
                    let q = t.index_of(y);
                    assert(r[q] == y);
                } else {
                    assert(r[r.len() - 1] == y);
                }
            }
        }
    }
}

/// Adding an entry keeps the index valid.
pub proof fn adding_keeps_index_valid(ix: DeviceIndex, e: DeviceEntry)
    requires
        index_valid(ix),
    ensures
        index_valid(index_add(ix, e)),
{
    let n = index_add(ix, e);
    let row = row_of(e);
    let key = (row.artist, row.album);
    let rows = list_at(ix.album_tracks, key);
    if e.dir() || has_path(rows, row.device_path) {
        return ;
    }
    insert_sorted_facts(ix.artists, row.artist);
    let old_albums = list_at(ix.albums, row.artist);
    assert(ascending(old_albums));
    insert_sorted_facts(old_albums, row.album);
    assert forall|a: Seq<char>| #[trigger] n.artists.contains(a) <==> n.albums.contains_key(a) by {
        assert(ix.artists.contains(a) <==> ix.albums.contains_key(a));
    }
    assert forall|k: (Seq<char>, Seq<char>)| #[trigger]
        n.album_tracks.contains_key(k) <==> n.albums.contains_key(k.0) && n.albums[k.0].contains(k.1) by {
        assert(ix.album_tracks.contains_key(k) <==> ix.albums.contains_key(k.0)
            && ix.albums[k.0].contains(k.1));
        if k.0 == row.artist {
            assert(n.albums[k.0].contains(k.1) <==> k.1 == row.album || old_albums.contains(k.1));
        }
    }
    assert forall|k: (Seq<char>, Seq<char>)| #[trigger]
        n.album_tracks.contains_key(k) implies n.album_tracks[k].len() > 0 && paths_differ(
        n.album_tracks[k],
    ) by {
        if k == key {
            let r = n.album_tracks[k];
            assert forall|i: int, j: int| 0 <= i < j < r.len() implies (#[trigger] r[i]).device_path
                != (#[trigger] r[j]).device_path by {
                if j < rows.len() {
                    assert(rows[i].device_path != rows[j].device_path);
                } else {
                    assert(rows[i].device_path != row.device_path);
                }
            }
        } else {
            assert(ix.album_tracks.contains_key(k));
        }
    }
    assert forall|k: (Seq<char>, Seq<char>), i: int|
        n.album_tracks.contains_key(k) && 0 <= i < n.album_tracks[k].len() implies filed_under(
        #[trigger] n.album_tracks[k][i],
        k,
    ) by {
        if k == key && i == rows.len() {
            path_spells_row(e);
        } else {
            assert(ix.album_tracks.contains_key(k));
            assert(filed_under(ix.album_tracks[k][i], k));
        }
    }
}

/// An index built from a listing, entry by entry, is valid.
pub proof fn built_index_is_valid(es: Seq<DeviceEntry>)
    ensures
        index_valid(index_add_all(empty_index(), es)),
        lookup_covers(index_add_all(empty_index(), es)),
        lookup_exact(index_add_all(empty_index(), es)),
    decreases es.len(),
{
    if es.len() > 0 {
        built_index_is_valid(es.drop_last());
        adding_keeps_lookup_exact(index_add_all(empty_index(), es.drop_last()), es.last());
        adding_keeps_index_valid(index_add_all(empty_index(), es.drop_last()), es.last());
        adding_keeps_lookup(index_add_all(empty_index(), es.drop_last()), es.last());
    }
}

/// Adding an entry keeps every filed track within reach of a lookup.
pub proof fn adding_keeps_lookup(ix: DeviceIndex, e: DeviceEntry)
    requires
        lookup_covers(ix),
    ensures
        lookup_covers(index_add(ix, e)),
{
    let n = index_add(ix, e);
    let row = row_of(e);
    let key = (row.artist, row.album);
    let rows = list_at(ix.album_tracks, key);
    if e.dir() || has_path(rows, row.device_path) {
        return ;
    }
    assert forall|k: (Seq<char>, Seq<char>), i: int|
        n.album_tracks.contains_key(k) && 0 <= i < n.album_tracks[k].len() implies n.track_set.contains(
        (match_key(k.0), match_key((#[trigger] n.album_tracks[k][i]).name)),
    ) && n.track_set.contains((match_key(k.0), stripped_key(n.album_tracks[k][i].name))) by {
        if k == key && i == rows.len() {
            assert(n.album_tracks[k][i] == row);
        } else {
            assert(n.album_tracks[k][i] == ix.album_tracks[k][i]);
        }
    }
}

/// Adding an entry keeps the lookup set to the keys of the filed tracks.
pub proof fn adding_keeps_lookup_exact(ix: DeviceIndex, e: DeviceEntry)
    requires
        lookup_exact(ix),
    ensures
        lookup_exact(index_add(ix, e)),
{
    let n = index_add(ix, e);
    let row = row_of(e);
    let key = (row.artist, row.album);
    let rows = list_at(ix.album_tracks, key);
    if e.dir() || has_path(rows, row.device_path) {
        return ;
    }
    assert(n.album_tracks[key][rows.len() as int] == row);
    assert forall|x: (Seq<char>, Seq<char>)| #[trigger] n.track_set.contains(x) <==> files_key(n, x) by {
        assert(n.track_set.contains(x) <==> ix.track_set.contains(x) || looked_up_by(row.artist, row, x));
        if looked_up_by(row.artist, row, x) {
            assert(looked_up_by(key.0, n.album_tracks[key][rows.len() as int], x));
        }
        if files_key(ix, x) {
            let (k, i) = choose|k: (Seq<char>, Seq<char>), i: int|
                ix.album_tracks.contains_key(k) && 0 <= i < ix.album_tracks[k].len() && looked_up_by(
                    k.0,
                    #[trigger] ix.album_tracks[k][i],
                    x,
                );
            assert(n.album_tracks[k][i] == ix.album_tracks[k][i]);
        }
        if files_key(n, x) {
            let (k, i) = choose|k: (Seq<char>, Seq<char>), i: int|
                n.album_tracks.contains_key(k) && 0 <= i < n.album_tracks[k].len() && looked_up_by(
                    k.0,
                    #[trigger] n.album_tracks[k][i],
                    x,
                );
            if !(k == key && i == rows.len()) {
                assert(n.album_tracks[k][i] == ix.album_tracks[k][i]);
            }
        }
    }
}

/// Adding the same entry again changes nothing.
pub proof fn adding_twice_is_adding_once(ix: DeviceIndex, e: DeviceEntry)
    ensures
        index_add(index_add(ix, e), e) == index_add(ix, e),
{
    let n = index_add(ix, e);
    let row = row_of(e);
    let key = (row.artist, row.album);
    let rows = list_at(ix.album_tracks, key);
    if !e.dir() && !has_path(rows, row.device_path) {
        assert(n.album_tracks[key][rows.len() as int] == row);
        assert(has_path(list_at(n.album_tracks, key), row.device_path));
    }
}

/// A track is found on the device once its entry has been indexed.
pub proof fn added_track_is_found(ix: DeviceIndex, e: DeviceEntry)
    requires
        index_valid(ix),
        lookup_covers(ix),
        !e.dir(),
    ensures
        is_indexed(index_add(ix, e), e.name@),
        is_on(index_add(ix, e), match_key(row_of(e).artist), match_key(row_of(e).name)),
        is_on(index_add(ix, e), match_key(row_of(e).artist), stripped_key(row_of(e).name)),
{
    let row = row_of(e);
    let key = (row.artist, row.album);
    let rows = list_at(ix.album_tracks, key);
    let n = index_add(ix, e);
    if has_path(rows, row.device_path) {
        let i = choose|i: int| 0 <= i < rows.len() && (#[trigger] rows[i]).device_path == row.device_path;
        assert(ix.album_tracks[key][i].device_path == row.device_path);
        assert(filed_under(ix.album_tracks[key][i], key));
        path_spells_row(e);
        assert(ix.album_tracks[key][i].name == row.name);
    } else {
        assert(n.album_tracks[key][rows.len() as int] == row);
        assert(has_path(list_at(n.album_tracks, key), row.device_path));
    }
}

pub(crate) proof fn without_path_facts(rows: Seq<DeviceTrackRow>, path: Seq<char>)
    ensures
        without_path(rows, path).len() <= rows.len(),
        !has_path(without_path(rows, path), path),
        forall|r: DeviceTrackRow| #[trigger]
            without_path(rows, path).contains(r) <==> rows.contains(r) && r.device_path != path,
        paths_differ(rows) ==> paths_differ(without_path(rows, path)),
    decreases rows.len(),
{
    if rows.len() > 0 {
        let d = rows.drop_last();
        without_path_facts(d, path);
        let t = without_path(d, path);
        let r = without_path(rows, path);
        assert forall|x: DeviceTrackRow| #[trigger]
            r.contains(x) <==> rows.contains(x) && x.device_path != path by {
            if r.contains(x) {
                let k = r.index_of(x);
                if k < t.len() {
                    assert(t[k] == x);
                    assert(t.contains(x));
                    let q = d.index_of(x);
                    assert(rows[q] == x);
                } else {
                    assert(rows[rows.len() - 1] == x);
                }
            }
            if rows.contains(x) && x.device_path != path {
                let k = rows.index_of(x);
                if k < d.len() {
                    assert(d[k] == x);
                    assert(d.contains(x));
                    assert(t.contains(x));
                    let q = t.index_of(x);
                    assert(r[q] == x);
                } else {
                    assert(r[r.len() - 1] == x);
                }
            }
        }
        assert forall|i: int| 0 <= i < r.len() implies (#[trigger] r[i]).device_path != path by {
            assert(r.contains(r[i]));
        }
        if paths_differ(rows) {
            assert forall|i: int, j: int| 0 <= i < j < d.len() implies (#[trigger] d[i]).device_path
                != (#[trigger] d[j]).device_path by {
                assert(rows[i].device_path != rows[j].device_path);
            }
            assert forall|i: int, j: int| 0 <= i < j < r.len() implies (#[trigger] r[i]).device_path
                != (#[trigger] r[j]).device_path by {
                if j < t.len() {
                    assert(t[i].device_path != t[j].device_path);
                } else {
                    assert(t.contains(t[i]));
                    let q = d.index_of(t[i]);
                    assert(rows[q].device_path != rows[rows.len() - 1].device_path);
                }
            }
        }
    }
}

/// Removing a track keeps the index valid, whatever the track.
pub proof fn removing_keeps_index_valid(
    ix: DeviceIndex,
    name: Seq<char>,
    order: Seq<(Seq<char>, Seq<char>)>,
)
    requires
        index_valid(ix),
    ensures
        index_valid(index_unfile(ix, name)),
        index_valid(relookup(index_unfile(ix, name), order, track_parts(name).0)),
{
    let p = track_parts(name);
    let key = (p.0, p.1);
    let path = device_path_of(name);
    let all = list_at(ix.album_tracks, key);
    let rows = without_path(all, path);
    let n = index_unfile(ix, name);
    without_path_facts(all, path);
    assert(ix.album_tracks.contains_key(key) ==> ix.albums.contains_key(p.0) && ix.albums[p.0].contains(
        p.1,
    ));
    if rows.len() > 0 {
        assert(ix.album_tracks.contains_key(key));
        assert forall|k: (Seq<char>, Seq<char>), i: int|
            n.album_tracks.contains_key(k) && 0 <= i < n.album_tracks[k].len() implies filed_under(
            #[trigger] n.album_tracks[k][i],
            k,
        ) by {
            if k == key {
                assert(rows.contains(rows[i]));
                let q = all.index_of(rows[i]);
                assert(filed_under(ix.album_tracks[k][q], k));
            } else {
                assert(filed_under(ix.album_tracks[k][i], k));
            }
        }
    } else {
        if ix.albums.contains_key(p.0) {
            without_name_facts(ix.albums[p.0], p.1);
            without_name_facts(ix.artists, p.0);
            let list = without_name(ix.albums[p.0], p.1);
            assert forall|a: Seq<char>| #[trigger] n.artists.contains(a) <==> n.albums.contains_key(a) by {
                assert(ix.artists.contains(a) <==> ix.albums.contains_key(a));
            }
            assert forall|k: (Seq<char>, Seq<char>)| #[trigger]
                n.album_tracks.contains_key(k) <==> n.albums.contains_key(k.0) && n.albums[k.0].contains(
                    k.1,
                ) by {
                assert(ix.album_tracks.contains_key(k) <==> ix.albums.contains_key(k.0)
                    && ix.albums[k.0].contains(k.1));
                if k.0 == p.0 {
                    assert(list.contains(k.1) <==> k.1 != p.1 && ix.albums[p.0].contains(k.1));
                    if list.len() == 0 {
                        assert(!list.contains(k.1));
                    }
                }
            }
            assert forall|k: (Seq<char>, Seq<char>), i: int|
                n.album_tracks.contains_key(k) && 0 <= i < n.album_tracks[k].len() implies filed_under(
                #[trigger] n.album_tracks[k][i],
                k,
            ) by {
                assert(filed_under(ix.album_tracks[k][i], k));
            }
        } else {
            assert(!ix.album_tracks.contains_key(key));
            assert(n.album_tracks =~= ix.album_tracks);
        }
    }
    let m = relookup(n, order, p.0);
    assert(m.artists == n.artists && m.albums == n.albums && m.album_tracks == n.album_tracks);
    assert(index_valid(m));
}

/// A removed track is no longer filed.
pub proof fn removed_track_is_gone(
    ix: DeviceIndex,
    name: Seq<char>,
    order: Seq<(Seq<char>, Seq<char>)>,
)
    ensures
        !is_indexed(relookup(index_unfile(ix, name), order, track_parts(name).0), name),
{
    let p = track_parts(name);
    without_path_facts(list_at(ix.album_tracks, (p.0, p.1)), device_path_of(name));
}

proof fn unnaming_undoes_naming(s: Seq<Seq<char>>, x: Seq<char>)
    requires
        ascending(s),
        !s.contains(x),
    ensures
        without_name(insert_sorted(s, x), x) == s,
{
    insert_sorted_facts(s, x);
    without_name_facts(insert_sorted(s, x), x);
    let r = without_name(insert_sorted(s, x), x);
    assert forall|y: Seq<char>| #[trigger] r.contains(y) <==> s.contains(y) by {
        assert(insert_sorted(s, x).contains(y) <==> y == x || s.contains(y));
    }
    ascending_is_unique(r, s);
}

/// Two ascending lists of the same names are the same list.
proof fn ascending_is_unique(a: Seq<Seq<char>>, b: Seq<Seq<char>>)
    requires
        ascending(a),
        ascending(b),
        forall|y: Seq<char>| #[trigger] a.contains(y) <==> b.contains(y),
    ensures
        a == b,
    decreases a.len() + b.len(),
{
    if a.len() == 0 {
        if b.len() > 0 {
            assert(b.contains(b[0]));
            assert(a.contains(b[0]));
        }
        assert(a =~= b);
    } else {
        assert(a.contains(a[0]));
        assert(b.contains(a[0]));
        let i = b.index_of(a[0]);
        assert(b.contains(b[0]));
        assert(a.contains(b[0]));
        let j = a.index_of(b[0]);
        text_order_is_total(a[0], b[0]);
        if i > 0 {
            assert(text_lt(b[0], b[i]));
        }
        if j > 0 {
            assert(text_lt(a[0], a[j]));
        }
        assert(a[0] == b[0]);
        let x = a.skip(1);
        let y = b.skip(1);
        assert forall|p: int, q: int| 0 <= p < q < x.len() implies text_lt(
            #[trigger] x[p],
            #[trigger] x[q],
        ) by {
            assert(text_lt(a[p + 1], a[q + 1]));
        }
        assert forall|p: int, q: int| 0 <= p < q < y.len() implies text_lt(
            #[trigger] y[p],
            #[trigger] y[q],
        ) by {
            assert(text_lt(b[p + 1], b[q + 1]));
        }
        assert forall|v: Seq<char>| #[trigger] x.contains(v) <==> y.contains(v) by {
            if x.contains(v) {
                let k = x.index_of(v);
                assert(a[k + 1] == v);
                assert(a.contains(v));
                let q = b.index_of(v);
                assert(text_lt(a[0], a[k + 1]));
                text_order_is_total(v, v);
                if q > 0 {
                    assert(y[q - 1] == v);
                }
            }
            if y.contains(v) {
                let k = y.index_of(v);
                assert(b[k + 1] == v);
                assert(b.contains(v));
                assert(a.contains(v));
                let q = a.index_of(v);
                assert(text_lt(b[0], b[k + 1]));
                text_order_is_total(v, v);
                if q > 0 {
                    assert(x[q - 1] == v);
                }
            }
        }
        ascending_is_unique(x, y);
        assert(a =~= seq![a[0]] + x);
        assert(b =~= seq![b[0]] + y);
    }
}

proof fn without_absent_path(rows: Seq<DeviceTrackRow>, path: Seq<char>)
    requires
        !has_path(rows, path),
    ensures
        without_path(rows, path) == rows,
    decreases rows.len(),
{
    if rows.len() > 0 {
        let d = rows.drop_last();
        assert forall|i: int| 0 <= i < d.len() implies (#[trigger] d[i]).device_path != path by {
            assert(rows[i].device_path != path);
        }
        without_absent_path(d, path);
        assert(rows[rows.len() - 1].device_path != path);
        assert(rows =~= d.push(rows.last()));
    }
}

pub(crate) proof fn rows_of_artist_contains(
    m: Map<(Seq<char>, Seq<char>), Seq<DeviceTrackRow>>,
    order: Seq<(Seq<char>, Seq<char>)>,
    k: (Seq<char>, Seq<char>),
    i: int,
)
    requires
        m.contains_key(k),
        order.contains(k),
        0 <= i < m[k].len(),
    ensures
        rows_of_artist(m, order, match_key(k.0)).contains(m[k][i]),
    decreases order.len(),
{
    let ak = match_key(k.0);
    let all = rows_of_artist(m, order, ak);
    let rest = rows_of_artist(m, order.drop_last(), ak);
    if order.last() == k {
        assert(all[rest.len() + i] == m[k][i]);
    } else {
        let q = order.index_of(k);
        assert(order.drop_last()[q] == k);
        rows_of_artist_contains(m, order.drop_last(), k, i);
        let j = rest.index_of(m[k][i]);
        assert(all[j] == m[k][i]);
    }
}

proof fn raw_keys_added(
    s: Set<(Seq<char>, Seq<char>)>,
    ak: Seq<char>,
    rows: Seq<DeviceTrackRow>,
)
    ensures
        forall|k: (Seq<char>, Seq<char>)| s.contains(k) ==> #[trigger] add_raw_keys(s, ak, rows).contains(
            k,
        ),
        forall|i: int|
            0 <= i < rows.len() ==> add_raw_keys(s, ak, rows).contains(
                (ak, match_key((#[trigger] rows[i]).name)),
            ),
    decreases rows.len(),
{
    if rows.len() > 0 {
        raw_keys_added(s, ak, rows.drop_last());
        assert forall|k: (Seq<char>, Seq<char>)| s.contains(k) implies #[trigger] add_raw_keys(
            s,
            ak,
            rows,
        ).contains(k) by {
            assert(add_raw_keys(s, ak, rows.drop_last()).contains(k));
        }
        assert forall|i: int| 0 <= i < rows.len() implies add_raw_keys(s, ak, rows).contains(
            (ak, match_key((#[trigger] rows[i]).name)),
        ) by {
            if i < rows.len() - 1 {
                assert(rows.drop_last()[i] == rows[i]);
            }
        }
    }
}

proof fn bare_keys_added(
    s: Set<(Seq<char>, Seq<char>)>,
    ak: Seq<char>,
    rows: Seq<DeviceTrackRow>,
)
    ensures
        forall|k: (Seq<char>, Seq<char>)| s.contains(k) ==> #[trigger] add_bare_keys(s, ak, rows).contains(
            k,
        ),
        forall|i: int|
            0 <= i < rows.len() ==> add_bare_keys(s, ak, rows).contains(
                (ak, stripped_key((#[trigger] rows[i]).name)),
            ),
    decreases rows.len(),
{
    if rows.len() > 0 {
        bare_keys_added(s, ak, rows.drop_last());
        assert forall|k: (Seq<char>, Seq<char>)| s.contains(k) implies #[trigger] add_bare_keys(
            s,
            ak,
            rows,
        ).contains(k) by {
            assert(add_bare_keys(s, ak, rows.drop_last()).contains(k));
        }
        assert forall|i: int| 0 <= i < rows.len() implies add_bare_keys(s, ak, rows).contains(
            (ak, stripped_key((#[trigger] rows[i]).name)),
        ) by {
            if i < rows.len() - 1 {
                assert(rows.drop_last()[i] == rows[i]);
            }
        }
    }
}

/// Making the lookup tables of one artist anew leaves every filed track within
/// reach of a lookup, where the album keys are walked in full.
pub proof fn relookup_keeps_lookup(
    ix: DeviceIndex,
    order: Seq<(Seq<char>, Seq<char>)>,
    artist: Seq<char>,
)
    requires
        forall|k: (Seq<char>, Seq<char>)| #[trigger]
            ix.album_tracks.contains_key(k) <==> order.contains(k),
        forall|k: (Seq<char>, Seq<char>), i: int|
            ix.album_tracks.contains_key(k) && match_key(k.0) != match_key(artist) && 0 <= i
                < ix.album_tracks[k].len() ==> ix.track_set.contains(
                (match_key(k.0), match_key((#[trigger] ix.album_tracks[k][i]).name)),
            ) && ix.track_set.contains((match_key(k.0), stripped_key(ix.album_tracks[k][i].name))),
    ensures
        lookup_covers(relookup(ix, order, artist)),
{
    let ak = match_key(artist);
    let rows = rows_of_artist(ix.album_tracks, order, ak);
    let kept = ix.track_set.filter(|k: (Seq<char>, Seq<char>)| k.0 != ak);
    let raws = add_raw_keys(kept, ak, rows);
    raw_keys_added(kept, ak, rows);
    bare_keys_added(raws, ak, rows);
    let n = relookup(ix, order, artist);
    assert forall|k: (Seq<char>, Seq<char>), i: int|
        n.album_tracks.contains_key(k) && 0 <= i < n.album_tracks[k].len() implies n.track_set.contains(
        (match_key(k.0), match_key((#[trigger] n.album_tracks[k][i]).name)),
    ) && n.track_set.contains((match_key(k.0), stripped_key(n.album_tracks[k][i].name))) by {
        let r = ix.album_tracks[k][i];
        if match_key(k.0) == ak {
            rows_of_artist_contains(ix.album_tracks, order, k, i);
            let j = rows.index_of(r);
            assert(rows[j] == r);
            assert(raws.contains((ak, match_key(rows[j].name))));
        } else {
            assert(kept.contains((match_key(k.0), match_key(r.name))));
            assert(kept.contains((match_key(k.0), stripped_key(r.name))));
            assert(raws.contains((match_key(k.0), match_key(r.name))));
            assert(raws.contains((match_key(k.0), stripped_key(r.name))));
        }
    }
}

/// Removing a track keeps every other filed track within reach of a lookup.
pub proof fn removing_keeps_lookup(
    ix: DeviceIndex,
    name: Seq<char>,
    order: Seq<(Seq<char>, Seq<char>)>,
)
    requires
        lookup_covers(ix),
        forall|k: (Seq<char>, Seq<char>)| #[trigger]
            index_unfile(ix, name).album_tracks.contains_key(k) <==> order.contains(k),
    ensures
        lookup_covers(relookup(index_unfile(ix, name), order, track_parts(name).0)),
{
    let p = track_parts(name);
    let n = index_unfile(ix, name);
    assert forall|k: (Seq<char>, Seq<char>), i: int|
        n.album_tracks.contains_key(k) && match_key(k.0) != match_key(p.0) && 0 <= i
            < n.album_tracks[k].len() implies n.track_set.contains(
        (match_key(k.0), match_key((#[trigger] n.album_tracks[k][i]).name)),
    ) && n.track_set.contains((match_key(k.0), stripped_key(n.album_tracks[k][i].name))) by {
        assert(n.album_tracks[k][i] == ix.album_tracks[k][i]);
    }
    relookup_keeps_lookup(n, order, p.0);
}

proof fn unfiling_undoes_filing(ix: DeviceIndex, e: DeviceEntry)
    requires
        index_valid(ix),
        !e.dir(),
        !is_indexed(ix, e.name@),
    ensures
        is_indexed(index_add(ix, e), e.name@),
        ({
            let back = index_unfile(index_add(ix, e), e.name@);
            &&& back.artists == ix.artists
            &&& back.albums == ix.albums
            &&& back.album_tracks == ix.album_tracks
            &&& back.track_set == index_add(ix, e).track_set
        }),
{
    let row = row_of(e);
    let key = (row.artist, row.album);
    let rows = list_at(ix.album_tracks, key);
    let n = index_add(ix, e);
    let back = index_unfile(n, e.name@);
    let path = row.device_path;
    let all = rows.push(row);
    assert(list_at(n.album_tracks, key) == all);
    assert(all[rows.len() as int] == row);
    assert(all.drop_last() =~= rows);
    assert(all.last() == row);
    without_absent_path(rows, path);
    assert(without_path(all, path) == rows);
    if rows.len() > 0 {
        assert(ix.album_tracks.contains_key(key));
        assert(ix.albums.contains_key(row.artist) && ix.albums[row.artist].contains(row.album));
        assert(ix.artists.contains(row.artist));
        insert_sorted_facts(ix.artists, row.artist);
        insert_sorted_facts(ix.albums[row.artist], row.album);
        assert forall|y: Seq<char>| #[trigger]
            insert_sorted(ix.artists, row.artist).contains(y) <==> ix.artists.contains(y) by {}
        ascending_is_unique(insert_sorted(ix.artists, row.artist), ix.artists);
        assert forall|y: Seq<char>| #[trigger]
            insert_sorted(ix.albums[row.artist], row.album).contains(y) <==> ix.albums[row.artist].contains(
                y,
            ) by {}
        ascending_is_unique(insert_sorted(ix.albums[row.artist], row.album), ix.albums[row.artist]);
        assert(back.albums =~= ix.albums);
        assert(back.album_tracks =~= ix.album_tracks);
    } else {
        assert(!ix.album_tracks.contains_key(key));
        let old_list = list_at(ix.albums, row.artist);
        if ix.albums.contains_key(row.artist) {
            assert(!ix.albums[row.artist].contains(row.album));
        }
        assert(ascending(old_list));
        assert(!old_list.contains(row.album));
        unnaming_undoes_naming(old_list, row.album);
        if old_list.len() == 0 {
            assert(!ix.albums.contains_key(row.artist));
            assert(!ix.artists.contains(row.artist));
            unnaming_undoes_naming(ix.artists, row.artist);
        } else {
            assert(ix.albums.contains_key(row.artist));
            assert(ix.artists.contains(row.artist));
            insert_sorted_facts(ix.artists, row.artist);
            assert forall|y: Seq<char>| #[trigger]
                insert_sorted(ix.artists, row.artist).contains(y) <==> ix.artists.contains(y) by {}
            ascending_is_unique(insert_sorted(ix.artists, row.artist), ix.artists);
        }
        assert(back.albums =~= ix.albums);
        assert(back.album_tracks =~= ix.album_tracks);
    }
}

pub(crate) proof fn rows_of_artist_are_filed(
    m: Map<(Seq<char>, Seq<char>), Seq<DeviceTrackRow>>,
    order: Seq<(Seq<char>, Seq<char>)>,
    ak: Seq<char>,
    j: int,
) -> (r: ((Seq<char>, Seq<char>), int))
    requires
        0 <= j < rows_of_artist(m, order, ak).len(),
    ensures
        m.contains_key(r.0),
        match_key(r.0.0) == ak,
        0 <= r.1 < m[r.0].len(),
        m[r.0][r.1] == rows_of_artist(m, order, ak)[j],
    decreases order.len(),
{
    let rest = rows_of_artist(m, order.drop_last(), ak);
    if j < rest.len() {
        rows_of_artist_are_filed(m, order.drop_last(), ak, j)
    } else {
        (order.last(), j - rest.len())
    }
}

/// Some row of the artist is looked up by the key.
spec fn keyed_by_some(ak: Seq<char>, rows: Seq<DeviceTrackRow>, x: (Seq<char>, Seq<char>)) -> bool {
    exists|i: int|
        0 <= i < rows.len() && x.0 == ak && (x.1 == match_key((#[trigger] rows[i]).name) || x.1
            == stripped_key(rows[i].name))
}

proof fn lookup_keys_added(
    s: Set<(Seq<char>, Seq<char>)>,
    ak: Seq<char>,
    rows: Seq<DeviceTrackRow>,
    x: (Seq<char>, Seq<char>),
)
    ensures
        add_bare_keys(add_raw_keys(s, ak, rows), ak, rows).contains(x) ==> s.contains(x) || keyed_by_some(
            ak,
            rows,
            x,
        ),
{
    raw_key_origin(s, ak, rows, x);
    bare_key_origin(add_raw_keys(s, ak, rows), ak, rows, x);
}

proof fn raw_key_origin(
    s: Set<(Seq<char>, Seq<char>)>,
    ak: Seq<char>,
    rows: Seq<DeviceTrackRow>,
    x: (Seq<char>, Seq<char>),
)
    ensures
        add_raw_keys(s, ak, rows).contains(x) ==> s.contains(x) || keyed_by_some(ak, rows, x),
    decreases rows.len(),
{
    if rows.len() > 0 {
        let d = rows.drop_last();
        raw_key_origin(s, ak, d, x);
        assert(rows[rows.len() - 1] == rows.last());
        if keyed_by_some(ak, d, x) {
            let i = choose|i: int|
                0 <= i < d.len() && x.0 == ak && (x.1 == match_key((#[trigger] d[i]).name) || x.1
                    == stripped_key(d[i].name));
            assert(rows[i] == d[i]);
        }
    }
}

proof fn bare_key_origin(
    s: Set<(Seq<char>, Seq<char>)>,
    ak: Seq<char>,
    rows: Seq<DeviceTrackRow>,
    x: (Seq<char>, Seq<char>),
)
    ensures
        add_bare_keys(s, ak, rows).contains(x) ==> s.contains(x) || keyed_by_some(ak, rows, x),
    decreases rows.len(),
{
    if rows.len() > 0 {
        let d = rows.drop_last();
        bare_key_origin(s, ak, d, x);
        assert(rows[rows.len() - 1] == rows.last());
        if keyed_by_some(ak, d, x) {
            let i = choose|i: int|
                0 <= i < d.len() && x.0 == ak && (x.1 == match_key((#[trigger] d[i]).name) || x.1
                    == stripped_key(d[i].name));
            assert(rows[i] == d[i]);
        }
    }
}

/// Making the lookup tables of one artist anew leaves the lookup set with the
/// keys of the filed tracks and no others, where the album keys are walked in
/// full and the keys of the other artists were right.
pub proof fn relookup_is_exact(
    ix: DeviceIndex,
    order: Seq<(Seq<char>, Seq<char>)>,
    artist: Seq<char>,
)
    requires
        forall|k: (Seq<char>, Seq<char>)| #[trigger]
            ix.album_tracks.contains_key(k) <==> order.contains(k),
        forall|x: (Seq<char>, Seq<char>)|
            x.0 != match_key(artist) ==> (#[trigger] ix.track_set.contains(x) <==> files_key(ix, x)),
    ensures
        lookup_exact(relookup(ix, order, artist)),
{
    let ak = match_key(artist);
    let rows = rows_of_artist(ix.album_tracks, order, ak);
    let kept = ix.track_set.filter(|k: (Seq<char>, Seq<char>)| k.0 != ak);
    let raws = add_raw_keys(kept, ak, rows);
    raw_keys_added(kept, ak, rows);
    bare_keys_added(raws, ak, rows);
    let n = relookup(ix, order, artist);
    assert forall|x: (Seq<char>, Seq<char>)| #[trigger] n.track_set.contains(x) <==> files_key(n, x) by {
        lookup_keys_added(kept, ak, rows, x);
        if n.track_set.contains(x) {
            if kept.contains(x) {
                assert(ix.track_set.contains(x));
                assert(files_key(ix, x));
                let (k, i) = choose|k: (Seq<char>, Seq<char>), i: int|
                    ix.album_tracks.contains_key(k) && 0 <= i < ix.album_tracks[k].len() && looked_up_by(
                        k.0,
                        #[trigger] ix.album_tracks[k][i],
                        x,
                    );
                assert(looked_up_by(k.0, n.album_tracks[k][i], x));
            } else {
                let j = choose|j: int|
                    0 <= j < rows.len() && x.0 == ak && (x.1 == match_key((#[trigger] rows[j]).name)
                        || x.1 == stripped_key(rows[j].name));
                let (k, i) = rows_of_artist_are_filed(ix.album_tracks, order, ak, j);
                assert(looked_up_by(k.0, n.album_tracks[k][i], x));
            }
        }
        if files_key(n, x) {
            let (k, i) = choose|k: (Seq<char>, Seq<char>), i: int|
                n.album_tracks.contains_key(k) && 0 <= i < n.album_tracks[k].len() && looked_up_by(
                    k.0,
                    #[trigger] n.album_tracks[k][i],
                    x,
                );
            let r = ix.album_tracks[k][i];
            assert(looked_up_by(k.0, r, x));
            if x.0 == ak {
                rows_of_artist_contains(ix.album_tracks, order, k, i);
                let j = rows.index_of(r);
                assert(rows[j] == r);
                assert(raws.contains((ak, match_key(rows[j].name))));
            } else {
                assert(files_key(ix, x));
                assert(ix.track_set.contains(x));
                assert(kept.contains(x));
                assert(raws.contains(x));
            }
        }
    }
}

/// Removing a track keeps the lookup set to the keys of the filed tracks.
pub proof fn removing_keeps_lookup_exact(
    ix: DeviceIndex,
    name: Seq<char>,
    order: Seq<(Seq<char>, Seq<char>)>,
)
    requires
        lookup_exact(ix),
        forall|k: (Seq<char>, Seq<char>)| #[trigger]
            index_unfile(ix, name).album_tracks.contains_key(k) <==> order.contains(k),
    ensures
        lookup_exact(relookup(index_unfile(ix, name), order, track_parts(name).0)),
{
    let p = track_parts(name);
    let n = index_unfile(ix, name);
    assert forall|x: (Seq<char>, Seq<char>)| x.0 != match_key(p.0) implies (#[trigger] n.track_set.contains(x)
        <==> files_key(n, x)) by {
        assert(n.track_set == ix.track_set);
        assert(ix.track_set.contains(x) <==> files_key(ix, x));
        if files_key(ix, x) {
            let (k, i) = choose|k: (Seq<char>, Seq<char>), i: int|
                ix.album_tracks.contains_key(k) && 0 <= i < ix.album_tracks[k].len() && looked_up_by(
                    k.0,
                    #[trigger] ix.album_tracks[k][i],
                    x,
                );
            assert(looked_up_by(k.0, n.album_tracks[k][i], x));
        }
        if files_key(n, x) {
            let (k, i) = choose|k: (Seq<char>, Seq<char>), i: int|
                n.album_tracks.contains_key(k) && 0 <= i < n.album_tracks[k].len() && looked_up_by(
                    k.0,
                    #[trigger] n.album_tracks[k][i],
                    x,
                );
            assert(looked_up_by(k.0, ix.album_tracks[k][i], x));
        }
    }
    relookup_is_exact(n, order, p.0);
}

/// Removing a track that was just added finds it and gives back the artists,
/// the albums, the filed tracks and the lookup set from before.
pub proof fn removing_undoes_adding(
    ix: DeviceIndex,
    e: DeviceEntry,
    order: Seq<(Seq<char>, Seq<char>)>,
)
    requires
        index_valid(ix),
        lookup_exact(ix),
        !e.dir(),
        !is_indexed(ix, e.name@),
        forall|k: (Seq<char>, Seq<char>)| #[trigger]
            index_unfile(index_add(ix, e), e.name@).album_tracks.contains_key(k) <==> order.contains(k),
    ensures
        is_indexed(index_add(ix, e), e.name@),
        ({
            let back = relookup(
                index_unfile(index_add(ix, e), e.name@),
                order,
                track_parts(e.name@).0,
            );
            &&& back.artists == ix.artists
            &&& back.albums == ix.albums
            &&& back.album_tracks == ix.album_tracks
            &&& back.track_set == ix.track_set
        }),
{
    let n = index_add(ix, e);
    let back = relookup(index_unfile(n, e.name@), order, track_parts(e.name@).0);
    unfiling_undoes_filing(ix, e);
    adding_keeps_lookup_exact(ix, e);
    removing_keeps_lookup_exact(n, e.name@, order);
    assert forall|x: (Seq<char>, Seq<char>)| #[trigger]
        back.track_set.contains(x) <==> ix.track_set.contains(x) by {
        assert(back.album_tracks == ix.album_tracks);
        if files_key(ix, x) {
            let (k, i) = choose|k: (Seq<char>, Seq<char>), i: int|
                ix.album_tracks.contains_key(k) && 0 <= i < ix.album_tracks[k].len() && looked_up_by(
                    k.0,
                    #[trigger] ix.album_tracks[k][i],
                    x,
                );
            assert(looked_up_by(k.0, back.album_tracks[k][i], x));
        }
        if files_key(back, x) {
            let (k, i) = choose|k: (Seq<char>, Seq<char>), i: int|
                back.album_tracks.contains_key(k) && 0 <= i < back.album_tracks[k].len() && looked_up_by(
                    k.0,
                    #[trigger] back.album_tracks[k][i],
                    x,
                );
            assert(looked_up_by(k.0, ix.album_tracks[k][i], x));
        }
    }
    assert(back.track_set =~= ix.track_set);
}

} // verus!
