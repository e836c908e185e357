//! The index of a device: what a file is filed under, and what is known of it.
use vstd::prelude::*;
use crate::device::{
    add_bare_meta, add_raw_meta, device_path_of, index_add, index_unfile, is_indexed, list_at,
    relookup, row_of, rows_of_artist, track_parts, without_path, DeviceIndex,
};
use crate::device_laws::{rows_of_artist_are_filed, rows_of_artist_contains, without_path_facts};
use crate::model::{DeviceEntry, DeviceFamily};
use crate::text::{lowercase_of, match_key, stripped_key};
use crate::types::{style_named, AlbumArtStyle, DeviceTrackRow, SidebarRow};

verus! {

/// A row says what its entry says: the names that the path spells, the path in
/// the music folder, and the entry's own number, counts, rating and duration.
pub proof fn rows_say_what_the_entry_says(e: DeviceEntry)
    ensures
        row_of(e).artist == track_parts(e.name@).0,
        row_of(e).album == track_parts(e.name@).1,
        row_of(e).name == track_parts(e.name@).2,
        row_of(e).device_path.len() == e.name@.len() + 7,
        row_of(e).device_path.skip(7) == e.name@,
        row_of(e).device_path.take(7) == "/Music/"@,
        row_of(e).object_id == e.object_id,
        row_of(e).track_number == e.track_number,
        row_of(e).disc_number == e.disc_number,
        row_of(e).play_count == e.play_count,
        row_of(e).skip_count == e.skip_count,
        row_of(e).rating == e.rating,
        e.duration_ms is Some ==> row_of(e).duration_ms is Some && row_of(e).duration_ms->0
            == e.duration_ms->0,
        e.duration_ms is None ==> row_of(e).duration_ms is None,
{
    reveal_strlit("/Music/");
    let p = device_path_of(e.name@);
    assert(p.skip(7) =~= e.name@);
    assert(p.take(7) =~= "/Music/"@);
}

/// A new file is filed last under its artist and album and nowhere else; its
/// counts are found under both of its keys; other files keep their place and
/// their counts.
pub proof fn a_new_file_is_filed_under_its_names(
    ix: DeviceIndex,
    e: DeviceEntry,
    k: (Seq<char>, Seq<char>),
)
    requires
        !e.dir(),
        !is_indexed(ix, e.name@),
    ensures
        ({
            let p = track_parts(e.name@);
            let now = index_add(ix, e);
            let ak = match_key(p.0);
            let mine = k == (ak, match_key(p.2)) || k == (ak, stripped_key(p.2));
            &&& list_at(now.album_tracks, k) == if k == (p.0, p.1) {
                list_at(ix.album_tracks, k).push(row_of(e))
            } else {
                list_at(ix.album_tracks, k)
            }
            &&& mine ==> now.track_metadata.contains_key(k) && now.track_metadata[k] == (
                e.play_count,
                e.rating,
            )
            &&& !mine ==> (now.track_metadata.contains_key(k) <==> ix.track_metadata.contains_key(k)) && (
            ix.track_metadata.contains_key(k) ==> now.track_metadata[k] == ix.track_metadata[k])
            &&& mine ==> now.track_set.contains(k)
            &&& !mine ==> (now.track_set.contains(k) <==> ix.track_set.contains(k))
            &&& list_at(now.artist_track_names, k.0) == if k.0 == ak {
                list_at(ix.artist_track_names, ak).push(match_key(p.2))
            } else {
                list_at(ix.artist_track_names, k.0)
            }
        }),
{
}

/// Folders, and files that are filed already, change nothing.
pub proof fn nothing_is_filed_twice(ix: DeviceIndex, e: DeviceEntry)
    requires
        e.dir() || is_indexed(ix, e.name@),
    ensures
        index_add(ix, e) == ix,
{
}

/// Taking a file out leaves every other file where it was.
pub proof fn removing_spares_other_files(
    ix: DeviceIndex,
    name: Seq<char>,
    order: Seq<(Seq<char>, Seq<char>)>,
    k: (Seq<char>, Seq<char>),
    r: DeviceTrackRow,
)
    requires
        r.device_path != device_path_of(name),
    ensures
        ({
            let now = relookup(index_unfile(ix, name), order, track_parts(name).0);
            list_at(now.album_tracks, k).contains(r) <==> list_at(ix.album_tracks, k).contains(r)
        }),
{
    let p = track_parts(name);
    let key = (p.0, p.1);
    let rows = list_at(ix.album_tracks, key);
    let left = without_path(rows, device_path_of(name));
    without_path_facts(rows, device_path_of(name));
    let now = relookup(index_unfile(ix, name), order, p.0);
    assert(left.contains(r) <==> rows.contains(r));
    if k == key {
        if left.len() > 0 {
            assert(list_at(now.album_tracks, k) == left);
        } else {
            assert(list_at(now.album_tracks, k).len() == 0);
            if rows.contains(r) {
                assert(left.contains(r));
                assert(false);
            }
        }
    } else {
        assert(list_at(now.album_tracks, k) == list_at(ix.album_tracks, k));
    }
}

/// One of the rows, filed under an artist of the key, has the title's key.
pub open spec fn artist_has_title(ix: DeviceIndex, ak: Seq<char>, x: Seq<char>) -> bool {
    exists|k: (Seq<char>, Seq<char>), i: int|
        ix.album_tracks.contains_key(k) && match_key(k.0) == ak && 0 <= i < ix.album_tracks[k].len()
            && match_key((#[trigger] ix.album_tracks[k][i]).name) == x
}

/// The titles of an artist that were made anew are those of the files under that
/// artist, all of them; the titles of other artists stay.
pub proof fn titles_made_anew_are_the_artists(
    ix: DeviceIndex,
    order: Seq<(Seq<char>, Seq<char>)>,
    artist: Seq<char>,
    ak: Seq<char>,
    x: Seq<char>,
)
    requires
        forall|k: (Seq<char>, Seq<char>)| #[trigger]
            ix.album_tracks.contains_key(k) <==> order.contains(k),
    ensures
        ({
            let now = relookup(ix, order, artist);
            &&& ak == match_key(artist) ==> (list_at(now.artist_track_names, ak).contains(x)
                <==> artist_has_title(ix, ak, x))
            &&& ak != match_key(artist) ==> list_at(now.artist_track_names, ak) == list_at(
                ix.artist_track_names,
                ak,
            )
        }),
{
    let mine = match_key(artist);
    let rows = rows_of_artist(ix.album_tracks, order, mine);
    let keys = crate::device::raw_keys(rows);
    let now = relookup(ix, order, artist);
    if ak == mine {
        let list = list_at(now.artist_track_names, ak);
        if rows.len() > 0 {
            assert(list == keys);
        } else {
            assert(list.len() == 0);
            assert(keys.len() == 0);
        }
        if list.contains(x) {
            let j = keys.index_of(x);
            let (k, i) = rows_of_artist_are_filed(ix.album_tracks, order, mine, j);
            assert(match_key(ix.album_tracks[k][i].name) == x);
        }
        if artist_has_title(ix, ak, x) {
            let (k, i) = choose|k: (Seq<char>, Seq<char>), i: int|
                ix.album_tracks.contains_key(k) && match_key(k.0) == ak && 0 <= i
                    < ix.album_tracks[k].len() && match_key((#[trigger] ix.album_tracks[k][i]).name) == x;
            rows_of_artist_contains(ix.album_tracks, order, k, i);
            let j = rows.index_of(ix.album_tracks[k][i]);
            assert(keys[j] == x);
        }
    }
}

proof fn raw_counts_are_of_a_row(
    m: Map<(Seq<char>, Seq<char>), (Option<u32>, Option<u16>)>,
    ak: Seq<char>,
    rows: Seq<DeviceTrackRow>,
    x: (Seq<char>, Seq<char>),
)
    ensures
        add_raw_meta(m, ak, rows).contains_key(x) ==> {
            ||| m.contains_key(x) && add_raw_meta(m, ak, rows)[x] == m[x]
            ||| exists|j: int|
                0 <= j < rows.len() && counted_under(#[trigger] rows[j], ak, x) && add_raw_meta(
                    m,
                    ak,
                    rows,
                )[x] == (rows[j].play_count, rows[j].rating)
        },
    decreases rows.len(),
{
    if rows.len() > 0 {
        let d = rows.drop_last();
        raw_counts_are_of_a_row(m, ak, d, x);
        assert(rows[rows.len() - 1] == rows.last());
        if x != (ak, match_key(rows.last().name)) && add_raw_meta(m, ak, d).contains_key(x) && !(
        m.contains_key(x) && add_raw_meta(m, ak, d)[x] == m[x]) {
            let j = choose|j: int|
                0 <= j < d.len() && counted_under(#[trigger] d[j], ak, x) && add_raw_meta(m, ak, d)[x] == (
                    d[j].play_count,
                    d[j].rating,
                );
            assert(rows[j] == d[j]);
        } else if x == (ak, match_key(rows.last().name)) {
            assert(counted_under(rows[rows.len() - 1], ak, x));
        }
    }
}

proof fn bare_counts_are_of_a_row(
    m: Map<(Seq<char>, Seq<char>), (Option<u32>, Option<u16>)>,
    ak: Seq<char>,
    rows: Seq<DeviceTrackRow>,
    x: (Seq<char>, Seq<char>),
)
    ensures
        add_bare_meta(m, ak, rows).contains_key(x) ==> {
            ||| m.contains_key(x) && add_bare_meta(m, ak, rows)[x] == m[x]
            ||| exists|j: int|
                0 <= j < rows.len() && counted_under(#[trigger] rows[j], ak, x) && add_bare_meta(
                    m,
                    ak,
                    rows,
                )[x] == (rows[j].play_count, rows[j].rating)
        },
    decreases rows.len(),
{
    if rows.len() > 0 {
        let d = rows.drop_last();
        bare_counts_are_of_a_row(m, ak, d, x);
        assert(rows[rows.len() - 1] == rows.last());
        let mine = stripped_key(rows.last().name) != match_key(rows.last().name) && x == (
            ak,
            stripped_key(rows.last().name),
        );
        if !mine && add_bare_meta(m, ak, d).contains_key(x) && !(m.contains_key(x) && add_bare_meta(
            m,
            ak,
            d,
        )[x] == m[x]) {
            let j = choose|j: int|
                0 <= j < d.len() && counted_under(#[trigger] d[j], ak, x) && add_bare_meta(m, ak, d)[x] == (
                    d[j].play_count,
                    d[j].rating,
                );
            assert(rows[j] == d[j]);
        } else if mine {
            assert(counted_under(rows[rows.len() - 1], ak, x));
        }
    }
}

/// The counts of the row stand under the key: the artist's with the plain or the
/// number-stripped one of the title.
pub open spec fn counted_under(r: DeviceTrackRow, ak: Seq<char>, x: (Seq<char>, Seq<char>)) -> bool {
    x.0 == ak && (x.1 == match_key(r.name) || x.1 == stripped_key(r.name))
}

/// Counts that were made anew are those of a file under the artist whose title
/// has the key; the counts of other artists stay.
pub proof fn counts_made_anew_are_of_a_file(
    ix: DeviceIndex,
    order: Seq<(Seq<char>, Seq<char>)>,
    artist: Seq<char>,
    x: (Seq<char>, Seq<char>),
)
    ensures
        ({
            let now = relookup(ix, order, artist);
            &&& x.0 != match_key(artist) ==> (now.track_metadata.contains_key(x)
                <==> ix.track_metadata.contains_key(x)) && (ix.track_metadata.contains_key(x)
                ==> now.track_metadata[x] == ix.track_metadata[x])
            &&& x.0 == match_key(artist) && now.track_metadata.contains_key(x) ==> exists|
                k: (Seq<char>, Seq<char>),
                i: int,
            |
                ix.album_tracks.contains_key(k) && match_key(k.0) == x.0 && 0 <= i
                    < ix.album_tracks[k].len() && counted_under(
                    #[trigger] ix.album_tracks[k][i],
                    x.0,
                    x,
                ) && now.track_metadata[x] == (
                    ix.album_tracks[k][i].play_count,
                    ix.album_tracks[k][i].rating,
                )
        }),
{
    let ak = match_key(artist);
    let rows = rows_of_artist(ix.album_tracks, order, ak);
    let kept = ix.track_metadata.restrict(
        ix.track_metadata.dom().filter(|k: (Seq<char>, Seq<char>)| k.0 != ak),
    );
    let raw = add_raw_meta(kept, ak, rows);
    let all = add_bare_meta(raw, ak, rows);
    raw_counts_are_of_a_row(kept, ak, rows, x);
    bare_counts_are_of_a_row(raw, ak, rows, x);
    others_keep_their_counts(kept, ak, rows, x);
    others_keep_their_counts_beside(raw, ak, rows, x);
    if x.0 == ak && all.contains_key(x) {
        assert(!kept.contains_key(x));
        let j = if raw.contains_key(x) && all[x] == raw[x] {
            choose|j: int|
                0 <= j < rows.len() && counted_under(#[trigger] rows[j], ak, x) && raw[x] == (
                    rows[j].play_count,
                    rows[j].rating,
                )
        } else {
            choose|j: int|
                0 <= j < rows.len() && counted_under(#[trigger] rows[j], ak, x) && all[x] == (
                    rows[j].play_count,
                    rows[j].rating,
                )
        };
        let (k, i) = rows_of_artist_are_filed(ix.album_tracks, order, ak, j);
        assert(counted_under(ix.album_tracks[k][i], x.0, x));
    }
}

proof fn others_keep_their_counts(
    m: Map<(Seq<char>, Seq<char>), (Option<u32>, Option<u16>)>,
    ak: Seq<char>,
    rows: Seq<DeviceTrackRow>,
    x: (Seq<char>, Seq<char>),
)
    ensures
        x.0 != ak ==> (add_raw_meta(m, ak, rows).contains_key(x) <==> m.contains_key(x)) && (m.contains_key(x)
            ==> add_raw_meta(m, ak, rows)[x] == m[x]),
    decreases rows.len(),
{
    if rows.len() > 0 {
        others_keep_their_counts(m, ak, rows.drop_last(), x);
    }
}

proof fn others_keep_their_counts_beside(
    m: Map<(Seq<char>, Seq<char>), (Option<u32>, Option<u16>)>,
    ak: Seq<char>,
    rows: Seq<DeviceTrackRow>,
    x: (Seq<char>, Seq<char>),
)
    ensures
        x.0 != ak ==> (add_bare_meta(m, ak, rows).contains_key(x) <==> m.contains_key(x)) && (m.contains_key(x)
            ==> add_bare_meta(m, ak, rows)[x] == m[x]),
    decreases rows.len(),
{
    if rows.len() > 0 {
        others_keep_their_counts_beside(m, ak, rows.drop_last(), x);
    }
}

/// An entry of the sidebar shows its own name, and is sought and jumped to by it:
/// an album by its artist first.
pub proof fn entries_go_by_their_name(row: SidebarRow)
    ensures
        match row {
            SidebarRow::Artist(a) => row.label() == a && row.jump_text() == a && row.search_text()
                == lowercase_of(a),
            SidebarRow::Album(artist, album) => {
                &&& row.jump_text() == artist
                &&& row.label() == artist + " \u{2014} "@ + album
                &&& row.search_text().take(lowercase_of(artist).len() as int) == lowercase_of(artist)
                &&& row.search_text().skip(lowercase_of(artist).len() as int + 1) == lowercase_of(album)
                &&& row.search_text()[lowercase_of(artist).len() as int] == '\n'
            },
            SidebarRow::Playlist(_, name) => row.label() == name && row.jump_text() == name
                && row.search_text() == lowercase_of(name),
        },
{
    if let SidebarRow::Album(artist, album) = row {
        let a = lowercase_of(artist);
        assert(row.search_text().take(a.len() as int) =~= a);
        assert(row.search_text().skip(a.len() as int + 1) =~= lowercase_of(album));
    }
}

/// A style is read back from its own name, and families have names of their own.
pub proof fn names_stand_for_one_thing(s: AlbumArtStyle, f: DeviceFamily, g: DeviceFamily)
    ensures
        style_named(s.text()) == Some(s),
        f != g ==> f.text() != g.text(),
{
    reveal_strlit("halfblock");
    reveal_strlit("ascii");
    reveal_strlit("Zune");
    reveal_strlit("iPod");
    reveal_strlit("GoGear");
    assert("halfblock"@.len() != "ascii"@.len());
    assert("Zune"@[0] != "iPod"@[0]);
    assert("Zune"@.len() != "GoGear"@.len());
    assert("iPod"@.len() != "GoGear"@.len());
}

} // verus!
