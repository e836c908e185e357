//! The answers of the services, and where the selection is after tags were
//! written.
use vstd::prelude::*;
use crate::app::retag::{failure_lines, is_entry_of, path_at};
use crate::app::App;
use crate::commands::BgCommand;
use crate::format::texts;
use crate::input::KeyCode;
use crate::laws::copying::filtered_has;
use crate::laws::tagging::{proposals_are_switched_on, proposes};
use crate::laws::counting::the_first_is_found;
use crate::library::{first_index_facts, first_where, Library};
use crate::model::Track;
use crate::tag_model::{
    anchor_row, any_enabled, best_hit, clamped_focus, current_title, hit_texts, is_field,
    is_proposed, renamed_anchor, row_has_enabled, rows_of_matches, AcoustIdHit, DiffScope,
    FieldDiff, RecordingLookupResponse, ReleaseDiff, ReleaseSearchHit, SearchInputField,
    TagManagerOverlay, TagManagerPhase,
};
use crate::text::{lowercase_of, same_ignoring_case};
use crate::tracks::{AlbumInfo, TrackInfo};
use crate::types::SidebarEntry;

verus! {

/// An answer to a request that is not the last one changes nothing but the log;
/// so does one that comes after the overlay was closed.
pub proof fn late_answers_change_nothing(
    before: App,
    search: App,
    prints: App,
    recording: App,
    release: App,
    token: u64,
    hits: Result<Vec<ReleaseSearchHit>, String>,
    found: Result<Vec<AcoustIdHit>, String>,
    rec: Result<RecordingLookupResponse, String>,
    diff: Result<ReleaseDiff, String>,
)
    requires
        search.search_answered(&before, token, hits),
        prints.acoustid_answered(&before, token, found),
        recording.recording_answered(&before, token, rec),
        release.release_answered(&before, token, diff),
        before.tags.manager is None || before.tags.manager->0.pending_request_token != token,
    ensures
        search.tags == before.tags && search.out == before.out,
        prints.tags == before.tags && prints.out == before.out,
        recording.tags == before.tags && recording.out == before.out,
        release == before,
        search.sync.log@.len() == before.sync.log@.len() + 1,
        prints.sync.log@.len() == before.sync.log@.len() + 1,
        recording.sync.log@.len() == before.sync.log@.len() + 1,
{
}

/// An answer to the last request is shown: hits as a list to choose from, a
/// comparison as a table, an error as an error.
pub proof fn awaited_answers_are_shown(
    before: App,
    search: App,
    release: App,
    token: u64,
    hits: Result<Vec<ReleaseSearchHit>, String>,
    diff: Result<ReleaseDiff, String>,
)
    requires
        search.search_answered(&before, token, hits),
        release.release_answered(&before, token, diff),
        before.tags.manager is Some,
        before.tags.manager->0.pending_request_token == token,
        before.diff_error() is None,
    ensures
        search.tags.manager is Some,
        release.tags.manager is Some,
        hits matches Ok(h) ==> search.tags.manager->0.search_hits == h
            && search.tags.manager->0.phase == TagManagerPhase::SearchResults
            && search.tags.manager->0.hit_idx == 0,
        hits matches Err(e) ==> search.tags.manager->0.phase == TagManagerPhase::Error
            && search.tags.manager->0.error is Some && search.tags.manager->0.error->0@ == e@,
        diff matches Ok(d) ==> release.tags.manager->0.diff == Some(d)
            && release.tags.manager->0.phase == TagManagerPhase::DiffPreview
            && release.tags.manager->0.focused_row == 0,
        diff matches Err(e) ==> release.tags.manager->0.phase == TagManagerPhase::Error
            && release.tags.manager->0.error is Some && release.tags.manager->0.error->0@ == e@,
{
}

/// Compared with a release are the tracks of the album of the overlay: all of
/// them, or those of the chosen title, ignoring case.
pub proof fn chosen_tracks_are_compared(app: App, o: TagManagerOverlay, artist: String, album: String, x: Track)
    requires
        app.library is Some,
        o.source_artist == artist,
        o.source_album == album,
        o.scope == DiffScope::Track ==> o.source_track_name is Some,
    ensures
        app.retagged_tracks(o).contains(x) <==> {
            &&& app.library->0.tracks@.contains(x)
            &&& x.artist@ == artist@ && x.album@ == album@
            &&& o.scope == DiffScope::Track ==> same_ignoring_case(x.name@, o.source_track_name->0@)
        },
{
    crate::laws::listing::library_queries_find_what_they_name(app.library->0, artist, album, x);
    let all = app.album_of(artist@, album@);
    let p = |t: Track| same_ignoring_case(t.name@, o.source_track_name->0@);
    filtered_has(all, p);
    if o.scope == DiffScope::Track {
        assert(app.retagged_tracks(o) == all.filter(p));
    }
}

/// The chosen hit is loaded.
pub proof fn the_chosen_hit_is_loaded(
    before: App,
    after: App,
    sent: Seq<BgCommand>,
    sent_after: Seq<BgCommand>,
)
    requires
        after.hits_pressed(&before, KeyCode::Enter, sent, sent_after),
        before.tags.manager is Some,
        before.tags.manager->0.hit_idx < before.tags.manager->0.search_hits@.len(),
        before.tags.token < u64::MAX,
    ensures
        ({
            let o = before.tags.manager->0;
            &&& sent_after.len() == sent.len() + 1
            &&& sent_after.last() is MbReleaseDetails
            &&& sent_after.last()->MbReleaseDetails_mbid@ == o.search_hits@[o.hit_idx as int].id@
            &&& sent_after.last()->MbReleaseDetails_token == before.tags.token + 1
            &&& after.tags.manager is Some
            &&& after.tags.manager->0.pending_request_token == before.tags.token + 1
        }),
{
}

/// A comparison is written as it stands, where any of it is switched on; where
/// nothing is, nothing is written and the overlay closes.
pub proof fn what_is_switched_on_is_written(
    before: App,
    after: App,
    sent: Seq<BgCommand>,
    sent_after: Seq<BgCommand>,
    d: ReleaseDiff,
    i: int,
    j: int,
)
    requires
        after.diff_confirmed(&before, sent, sent_after),
        before.tags.manager is Some,
        before.tags.manager->0.diff == Some(d),
        before.import.music_dir is Some,
        before.tags.token < u64::MAX,
    ensures
        0 <= i < d@.len() && 0 <= j < d@[i].1.len() && d@[i].1[j].enabled ==> {
            &&& sent_after.len() == sent.len() + 1
            &&& sent_after.last() is ApplyTagDiff
            &&& sent_after.last()->ApplyTagDiff_diff@ == d@
            &&& Some(sent_after.last()->ApplyTagDiff_music_dir) == before.import.music_dir
            &&& sent_after.last()->ApplyTagDiff_token == before.tags.token + 1
        },
        (forall|a: int, b: int|
            0 <= a < d@.len() && 0 <= b < d@[a].1.len() ==> !(#[trigger] d@[a].1[b]).enabled) ==> {
            &&& sent_after == sent
            &&& after.tags.manager is None
        },
{
    if 0 <= i < d@.len() && 0 <= j < d@[i].1.len() && d@[i].1[j].enabled {
        assert(row_has_enabled(d@[i]));
        assert(any_enabled(d@));
    }
    if any_enabled(d@) {
        let a = choose|a: int| 0 <= a < d@.len() && row_has_enabled(#[trigger] d@[a]);
        let b = choose|b: int| 0 <= b < d@[a].1.len() && (#[trigger] d@[a].1[b]).enabled;
        assert(d@[a].1[b].enabled);
    }
}

/// Each track that could not be written is logged, with its own path and error,
/// and no other is.
pub proof fn each_failure_is_logged(results: Seq<Result<(), String>>, paths: Seq<Seq<char>>, i: int)
    requires
        0 <= i < results.len(),
    ensures
        failure_lines(results, paths).len() <= results.len(),
        results[i] matches Err(e) ==> failure_lines(results, paths).contains(
            "tag-manager: "@ + path_at(paths, i) + ": "@ + e@,
        ),
        (forall|k: int| 0 <= k < results.len() ==> #[trigger] results[k] is Ok) ==> failure_lines(
            results,
            paths,
        ).len() == 0,
    decreases results.len(),
{
    let d = results.drop_last();
    let rest = failure_lines(d, paths);
    let all = failure_lines(results, paths);
    let last = results.len() - 1;
    if d.len() > 0 {
        if i < last {
            each_failure_is_logged(d, paths, i);
        } else {
            each_failure_is_logged(d, paths, 0);
        }
    }
    assert(results[last] == results.last());
    if let Err(e) = results[i] {
        let line = "tag-manager: "@ + path_at(paths, i) + ": "@ + e@;
        if i < last {
            assert(d[i] == results[i]);
            assert(all[rest.index_of(line)] == line);
        } else {
            assert(all[all.len() - 1] == line);
        }
    }
    if forall|k: int| 0 <= k < results.len() ==> #[trigger] results[k] is Ok {
        assert(results[last] is Ok);
        assert forall|k: int| 0 <= k < d.len() implies #[trigger] d[k] is Ok by {
            assert(results[k] is Ok);
        }
    }
}

/// Failures are added to the log, whoever waits for them; what was logged stays.
pub proof fn failures_are_added_to_the_log(
    before: App,
    after: App,
    token: u64,
    results: Seq<Result<(), String>>,
    renames: Vec<(String, String)>,
    i: int,
)
    requires
        after.write_answered(&before, token, results, renames),
        0 <= i < before.sync.log@.len(),
    ensures
        after.sync.log@.len() >= before.sync.log@.len(),
        after.sync.log@[i]@ == before.sync.log@[i]@,
        after.out == before.out,
        after.library == before.library,
{
    let was = texts(before.sync.log@);
    let now = texts(after.sync.log@);
    let more = failure_lines(results, before.written_paths(token));
    assert(now == was + more);
    assert(now.len() == after.sync.log@.len() && was.len() == before.sync.log@.len());
    assert(now[i] == was[i]);
    assert(now[i] == after.sync.log@[i]@ && was[i] == before.sync.log@[i]@);
}

/// The entry is of the artist, whatever the case.
pub open spec fn entry_by(e: SidebarEntry, artist: Seq<char>) -> bool {
    match e {
        SidebarEntry::Artist(a) => lowercase_of(a@) == lowercase_of(artist),
        SidebarEntry::Album { artist: a, .. } => lowercase_of(a@) == lowercase_of(artist),
        SidebarEntry::Playlist { .. } => false,
    }
}

/// The selection goes to the first entry of the artist, whatever the case; where
/// there is none, to the first entry.
pub proof fn the_artist_is_selected_again(before: App, o: TagManagerOverlay, k: int)
    requires
        0 <= k < before.nav.sidebar_items@.len(),
        before.nav.sidebar_items@.len() <= usize::MAX,
        entry_by(before.nav.sidebar_items@[k], o.anchor.artist@),
    ensures
        ({
            let after = App::with_anchor_artist(before, o.anchor);
            &&& after.nav.sidebar_selected <= k
            &&& entry_by(
                after.nav.sidebar_items@[after.nav.sidebar_selected as int],
                o.anchor.artist@,
            )
            &&& after.nav.sidebar_items == before.nav.sidebar_items
        }),
{
    let anchor = o.anchor;
    let p = |e: SidebarEntry| is_entry_of(e, anchor.artist@);
    first_index_facts(before.nav.sidebar_items@, p);
    assert(p(before.nav.sidebar_items@[k]));
    assert(before.nav.sidebar_items.len() == before.nav.sidebar_items@.len());
}

/// After the write the selection is looked for under the names that were written:
/// an artist or album that is switched on in the comparison takes the place of
/// the old one, and where none is switched on the old one stays.
pub proof fn the_selection_follows_what_was_written(o: TagManagerOverlay, d: ReleaseDiff)
    requires
        o.diff == Some(d),
    ensures
        ({
            let now = renamed_anchor(o);
            &&& now.artist == o.anchor.artist || exists|i: int, j: int|
                0 <= i < d@.len() && #[trigger] proposes(d@[i], j, "Album Artist"@)
                    && d@[i].1[j].proposed == Some(now.artist)
            &&& (forall|i: int, j: int|
                0 <= i < d@.len() ==> !#[trigger] proposes(d@[i], j, "Album Artist"@)) ==> now.artist
                == o.anchor.artist
            &&& (forall|i: int, j: int| 0 <= i < d@.len() ==> !#[trigger] proposes(d@[i], j, "Album"@))
                ==> now.album == o.anchor.album
            &&& (exists|i: int, j: int| 0 <= i < d@.len() && #[trigger] proposes(d@[i], j, "Album"@))
                ==> exists|i: int, j: int|
                0 <= i < d@.len() && #[trigger] proposes(d@[i], j, "Album"@) && d@[i].1[j].proposed
                    == now.album
            &&& o.scope == DiffScope::Album ==> now.track_name == o.anchor.track_name
        }),
{
    proposals_are_switched_on(d@, "Album Artist"@);
    proposals_are_switched_on(d@, "Album"@);
}

/// The row whose title is followed is the first that now bears the title, ignoring
/// case, where one does.
pub proof fn the_title_is_followed_by_its_row(rows: Seq<(String, Seq<FieldDiff>)>, given: Seq<char>, k: int)
    requires
        0 <= k < rows.len(),
        same_ignoring_case(current_title(rows[k], given), given),
    ensures
        0 <= anchor_row(rows, given) <= k,
        same_ignoring_case(current_title(rows[anchor_row(rows, given)], given), given),
{
    let p = |r: (String, Seq<FieldDiff>)| same_ignoring_case(current_title(r, given), given);
    first_index_facts(rows, p);
    assert(p(rows[k]));
}

/// The focus moves by as many rows as asked for, and never leaves the table.
pub proof fn the_focus_stays_in_the_table(focus: int, delta: int, len: int)
    requires
        0 <= focus < len,
    ensures
        0 <= clamped_focus(focus, delta, len) < len,
        0 <= focus + delta < len ==> clamped_focus(focus, delta, len) == focus + delta,
        focus + delta < 0 ==> clamped_focus(focus, delta, len) == 0,
        focus + delta >= len ==> clamped_focus(focus, delta, len) == len - 1,
{
}

/// A library that was read again takes the place of the old one, whoever waits;
/// one that could not be read leaves the old one.
pub proof fn a_library_read_again_is_used(
    before: App,
    after: App,
    token: u64,
    result: Result<Library, String>,
)
    requires
        after.reread_answered(&before, token, result),
        before.tags.manager is None || before.tags.manager->0.pending_request_token != token,
    ensures
        result matches Ok(lib) ==> after.library == Some(lib) && after.tags == before.tags,
        result is Err ==> after.library == before.library && after.tags == before.tags,
{
}

/// A search asks for artist and album as they were typed, and its answer is the
/// one that is waited for.
pub proof fn searches_ask_for_what_was_typed(
    before: App,
    after: App,
    sent: Seq<BgCommand>,
    sent_after: Seq<BgCommand>,
)
    requires
        after.search_form_pressed(&before, KeyCode::Enter, sent, sent_after),
        before.tags.manager is Some,
        before.tags.token < u64::MAX,
    ensures
        sent_after.len() == sent.len() + 1,
        sent_after.last() is MbSearchReleases,
        sent_after.last()->MbSearchReleases_artist@ == before.tags.manager->0.query_artist@,
        sent_after.last()->MbSearchReleases_album@ == before.tags.manager->0.query_album@,
        sent_after.last()->MbSearchReleases_token == before.tags.token + 1,
        after.tags.manager is Some,
        after.tags.manager->0.pending_request_token == before.tags.token + 1,
{
}

/// Typing goes to the field of the search that has the focus, and not to the
/// other.
pub proof fn typing_goes_to_the_focused_field(before: TagManagerOverlay, after: TagManagerOverlay, c: char)
    requires
        after.query_typed(&before, KeyCode::Char(c)),
    ensures
        before.search_input_field == SearchInputField::Artist ==> after.query_artist@
            == before.query_artist@.push(c) && after.query_album == before.query_album,
        before.search_input_field == SearchInputField::Album ==> after.query_album@
            == before.query_album@.push(c) && after.query_artist == before.query_artist,
{
}

/// Fingerprints that matched releases put those up to choose from. Where the best
/// match has only a recording, that is followed up; where it has none, artist and
/// album are searched for. An answer without a match is an error.
pub proof fn matches_lead_on(
    before: App,
    after: App,
    token: u64,
    hits: Vec<AcoustIdHit>,
)
    requires
        after.acoustid_answered(&before, token, Ok(hits)),
        before.tags.manager is Some,
        before.tags.manager->0.pending_request_token == token,
        before.tags.token < u64::MAX,
    ensures
        after.tags.manager is Some,
        hits@.len() == 0 ==> after.tags.manager->0.phase == TagManagerPhase::Error && after.out == before.out,
        hits@.len() > 0 ==> {
            let o = before.tags.manager->0;
            let rows = rows_of_matches(hits@, o.source_artist@);
            let best = hits@[best_hit(hits@)];
            let last = after.out.pending_bg_commands@.last();
            &&& after.tags.manager->0.acoustid_uuid == Some(best.id)
            &&& rows.len() > 0 ==> after.tags.manager->0.phase == TagManagerPhase::SearchResults
                && after.tags.manager->0.search_hits@.len() == rows.len() && after.out == before.out
            &&& rows.len() == 0 && best.recordings@.len() > 0 ==> last is MbRecordingReleases
                && last->MbRecordingReleases_recording_mbid == best.recordings@[0].id
                && last->MbRecordingReleases_token == before.tags.token + 1
                && after.tags.manager->0.pending_request_token == before.tags.token + 1
            &&& rows.len() == 0 && best.recordings@.len() == 0 ==> last is MbSearchReleases
                && last->MbSearchReleases_token == before.tags.token + 1
                && after.tags.manager->0.pending_request_token == before.tags.token + 1
        },
{
    if hits@.len() > 0 {
        let rows = rows_of_matches(hits@, before.tags.manager->0.source_artist@);
        if rows.len() > 0 {
            assert(hit_texts(after.tags.manager->0.search_hits@).len()
                == after.tags.manager->0.search_hits@.len());
        }
    }
}

/// The music is where the configuration says, else where the library says.
pub proof fn the_music_root_is_configured_or_the_librarys(app: App)
    ensures
        app.import.music_dir is Some ==> app.music_root() == app.import.music_dir,
        app.import.music_dir is None && app.library is Some ==> app.music_root()
            == app.library->0.music_folder,
        app.import.music_dir is None && app.library is None ==> app.music_root() is None,
{
}

/// Nothing can be compared without a library, without tracks of the selection or
/// without a music directory; else it can.
pub proof fn comparing_needs_tracks_and_a_root(app: App, o: TagManagerOverlay)
    requires
        app.tags.manager == Some(o),
        o.scope == DiffScope::Track ==> o.source_track_name is Some,
    ensures
        app.diff_error() is None <==> app.library is Some && app.retagged_tracks(o).len() > 0
            && app.music_root() is Some,
{
}

/// While tags are written no key is taken.
pub proof fn writing_is_not_interrupted(
    before: App,
    after: App,
    code: KeyCode,
    sent: Seq<BgCommand>,
    sent_after: Seq<BgCommand>,
)
    requires
        after.manager_pressed(&before, code, sent, sent_after),
        before.tags.manager is Some,
        before.tags.manager->0.phase == TagManagerPhase::Applying,
    ensures
        after == before && sent_after == sent,
{
}

/// The title that is looked for after the write is the one that is switched on for
/// the row of the title; where none is, the old one.
pub proof fn the_title_is_the_one_written(o: TagManagerOverlay, d: ReleaseDiff, j: int)
    requires
        o.diff == Some(d),
        o.scope == DiffScope::Track,
        o.source_track_name is Some,
        d@.len() > 0,
    ensures
        ({
            let row = d@[anchor_row(d@, o.source_track_name->0@)];
            let now = renamed_anchor(o).track_name;
            &&& now == o.anchor.track_name || exists|k: int|
                #[trigger] proposes(row, k, "Title"@) && row.1[k].proposed == now
            &&& proposes(row, j, "Title"@) ==> exists|k: int|
                #[trigger] proposes(row, k, "Title"@) && row.1[k].proposed == now
        }),
{
    let row = d@[anchor_row(d@, o.source_track_name->0@)];
    let p = |f: FieldDiff| is_proposed(f, "Title"@);
    the_first_is_found(row.1, p);
    match first_where(row.1, p) {
        Some(f) => {
            let k = choose|k: int| 0 <= k < row.1.len() && #[trigger] row.1[k] == f && p(f);
            assert(proposes(row, k, "Title"@));
        },
        None => {
            if proposes(row, j, "Title"@) {
                assert(!p(row.1[j]));
            }
        },
    }
}

/// The title that a row bears is what its title tag says now.
pub proof fn rows_bear_their_title(row: (String, Seq<FieldDiff>), given: Seq<char>, k: int)
    requires
        0 <= k < row.1.len(),
        row.1[k].name@ == "Title"@,
        forall|j: int| 0 <= j < k ==> (#[trigger] row.1[j]).name@ != "Title"@,
        row.1[k].current is Some,
    ensures
        current_title(row, given) == row.1[k].current->0@,
{
    let p = |f: FieldDiff| is_field(f, "Title"@);
    the_first_is_found(row.1, p);
    assert(p(row.1[k]));
    let f = first_where(row.1, p)->0;
    let i = choose|i: int|
        0 <= i < row.1.len() && #[trigger] row.1[i] == f && p(f) && forall|j: int|
            0 <= j < i ==> !p(#[trigger] row.1[j]);
    if i < k {
        assert(row.1[i].name@ != "Title"@);
    }
}

/// A failure is named by the path of its own track.
pub proof fn failures_name_their_own_track(before: App, token: u64, d: ReleaseDiff, i: int)
    requires
        before.tags.manager is Some,
        before.tags.manager->0.pending_request_token == token,
        before.tags.manager->0.diff == Some(d),
        0 <= i < d.tracks@.len(),
    ensures
        path_at(before.written_paths(token), i) == d.tracks@[i].src_path@,
{
}

/// Searches go to a mirror where another address than the public one is set.
pub proof fn mirrors_are_other_addresses(app: App)
    ensures
        app.tags.mb_base_url is None ==> !app.on_mirror(),
        app.tags.mb_base_url matches Some(u) ==> (app.on_mirror() <==> !crate::text::has_substring(
            u@,
            "musicbrainz.org"@,
        )),
{
}

/// After the selection was put back it stands on the artist, the album and the
/// track that were looked for, where the lists have them.
pub proof fn the_selection_is_put_back(before: App, after: App, o: TagManagerOverlay, k: int, a: int, t: int)
    requires
        after.anchor_restored(&before),
        before.tags.manager == Some(o),
        0 <= k < before.nav.sidebar_items@.len(),
        entry_by(before.nav.sidebar_items@[k], o.anchor.artist@),
    ensures
        after.nav.sidebar_items == before.nav.sidebar_items,
        entry_by(
            after.nav.sidebar_items@[after.nav.sidebar_selected as int],
            o.anchor.artist@,
        ),
        o.anchor.album is Some && 0 <= a < after.lists.album_list@.len() && lowercase_of(
            after.lists.album_list@[a].name@,
        ) == lowercase_of(o.anchor.album->0@) ==> lowercase_of(
            after.lists.album_list@[after.lists.album_selected as int].name@,
        ) == lowercase_of(o.anchor.album->0@),
        o.anchor.track_name is Some && 0 <= t < after.lists.track_list@.len() && lowercase_of(
            after.lists.track_list@[t].name@,
        ) == lowercase_of(o.anchor.track_name->0@) ==> lowercase_of(
            after.lists.track_list@[after.lists.track_selected as int].name@,
        ) == lowercase_of(o.anchor.track_name->0@),
{
    assert(before.nav.sidebar_items.len() == before.nav.sidebar_items@.len());
    the_artist_is_selected_again(before, o, k);
    let start = App::with_anchor_artist(before, o.anchor);
    match o.anchor.album {
        Some(name) => {
            let (mid, sel) = choose|mid: App, sel: App|
                #![trigger mid.item_listed(&start), sel.album_listed(&App::with_anchor_album(mid, name@))]
                mid.item_listed(&start) && sel.album_listed(&App::with_anchor_album(mid, name@)) && after
                    == App::with_anchor_track(sel, o.anchor);
            assert(after.lists.album_list == mid.lists.album_list);
            if 0 <= a < after.lists.album_list@.len() && lowercase_of(after.lists.album_list@[a].name@)
                == lowercase_of(name@) {
                album_is_selected_again(mid, name, a);
            }
            if o.anchor.track_name is Some && 0 <= t < after.lists.track_list@.len() && lowercase_of(
                after.lists.track_list@[t].name@,
            ) == lowercase_of(o.anchor.track_name->0@) {
                track_is_selected_again(sel, o, t);
            }
        },
        None => {
            let mid = choose|mid: App| #[trigger]
                mid.item_listed(&start) && after == App::with_anchor_track(mid, o.anchor);
            if o.anchor.track_name is Some && 0 <= t < after.lists.track_list@.len() && lowercase_of(
                after.lists.track_list@[t].name@,
            ) == lowercase_of(o.anchor.track_name->0@) {
                track_is_selected_again(mid, o, t);
            }
        },
    }
}

proof fn album_is_selected_again(before: App, name: String, k: int)
    requires
        0 <= k < before.lists.album_list@.len(),
        lowercase_of(before.lists.album_list@[k].name@) == lowercase_of(name@),
    ensures
        ({
            let after = App::with_anchor_album(before, name@);
            &&& after.lists.album_selected <= k
            &&& lowercase_of(after.lists.album_list@[after.lists.album_selected as int].name@)
                == lowercase_of(name@)
        }),
{
    let p = |a: AlbumInfo| lowercase_of(a.name@) == lowercase_of(name@);
    first_index_facts(before.lists.album_list@, p);
    assert(p(before.lists.album_list@[k]));
    assert(before.lists.album_list.len() == before.lists.album_list@.len());
}

proof fn track_is_selected_again(before: App, o: TagManagerOverlay, j: int)
    requires
        0 <= j < before.lists.track_list@.len(),
        o.anchor.track_name is Some,
        lowercase_of(before.lists.track_list@[j].name@) == lowercase_of(o.anchor.track_name->0@),
    ensures
        ({
            let after = App::with_anchor_track(before, o.anchor);
            &&& after.lists.track_selected <= j
            &&& lowercase_of(after.lists.track_list@[after.lists.track_selected as int].name@)
                == lowercase_of(o.anchor.track_name->0@)
        }),
{
    let title = o.anchor.track_name->0;
    let q = |t: TrackInfo| lowercase_of(t.name@) == lowercase_of(title@);
    first_index_facts(before.lists.track_list@, q);
    assert(q(before.lists.track_list@[j]));
    assert(before.lists.track_list.len() == before.lists.track_list@.len());
}

/// A library that was waited for is used, and the overlay is done; one that could
/// not be read is shown as an error.
pub proof fn an_awaited_library_ends_the_work(
    before: App,
    after: App,
    token: u64,
    result: Result<Library, String>,
)
    requires
        after.reread_answered(&before, token, result),
        before.tags.manager is Some,
        before.tags.manager->0.pending_request_token == token,
    ensures
        result matches Ok(lib) ==> after.library == Some(lib),
        after.tags.manager is Some,
        result is Ok ==> after.tags.manager->0.phase == TagManagerPhase::Done,
        result is Err ==> after.tags.manager->0.phase == TagManagerPhase::Error && after.library
            == before.library,
{
    if let Ok(lib) = result {
        let mid = choose|mid: App| #[trigger]
            mid.library_swapped(&before, lib) && exists|sel: App| #[trigger]
                sel.anchor_restored(&App::anchor_renamed(mid)) && after == App::manager_done(sel);
        let sel = choose|sel: App| #[trigger]
            sel.anchor_restored(&App::anchor_renamed(mid)) && after == App::manager_done(sel);
        swapping_keeps_the_overlay(before, mid, lib);
        restoring_keeps_library_and_overlay(App::anchor_renamed(mid), sel);
        assert(after.library == sel.library);
    }
}

proof fn swapping_keeps_the_overlay(before: App, after: App, lib: Library)
    requires
        after.library_swapped(&before, lib),
    ensures
        after.library == Some(lib),
        after.tags == before.tags,
{
    let mid = choose|mid: App| #[trigger]
        mid.presence_rebuilt(&App::with_library(before, lib)) && after.resided(&mid);
    assert(mid.library == Some(lib));
    assert(mid.tags == before.tags);
}

proof fn listing_keeps_library_and_overlay(before: App, after: App)
    requires
        after.item_listed(&before) || after.album_listed(&before),
    ensures
        after.library == before.library,
        after.tags == before.tags,
{
}

proof fn restoring_keeps_library_and_overlay(before: App, after: App)
    requires
        after.anchor_restored(&before),
    ensures
        after.library == before.library,
        after.tags == before.tags,
{
    if let Some(o) = before.tags.manager {
        let start = App::with_anchor_artist(before, o.anchor);
        match o.anchor.album {
            Some(name) => {
                let (mid, sel) = choose|mid: App, sel: App|
                    #![trigger mid.item_listed(&start), sel.album_listed(&App::with_anchor_album(mid, name@))]
                    mid.item_listed(&start) && sel.album_listed(&App::with_anchor_album(mid, name@))
                        && after == App::with_anchor_track(sel, o.anchor);
                listing_keeps_library_and_overlay(start, mid);
                listing_keeps_library_and_overlay(App::with_anchor_album(mid, name@), sel);
            },
            None => {
                let mid = choose|mid: App| #[trigger]
                    mid.item_listed(&start) && after == App::with_anchor_track(mid, o.anchor);
                listing_keeps_library_and_overlay(start, mid);
            },
        }
    }
}

/// In the list of hits up and down move the choice by one, within the list, and
/// ask for nothing.
pub proof fn choosing_among_hits_moves_by_one(
    before: App,
    up: App,
    down: App,
    sent: Seq<BgCommand>,
    sent_up: Seq<BgCommand>,
    sent_down: Seq<BgCommand>,
)
    requires
        up.hits_pressed(&before, KeyCode::Up, sent, sent_up),
        down.hits_pressed(&before, KeyCode::Down, sent, sent_down),
        before.tags.manager is Some,
        before.tags.manager->0.hit_idx < before.tags.manager->0.search_hits@.len(),
    ensures
        up.tags.manager is Some && down.tags.manager is Some,
        sent_up == sent && sent_down == sent,
        ({
            let o = before.tags.manager->0;
            &&& o.hit_idx > 0 ==> up.tags.manager->0.hit_idx == o.hit_idx - 1
            &&& o.hit_idx == 0 ==> up.tags.manager->0.hit_idx == 0
            &&& o.hit_idx + 1 < o.search_hits@.len() ==> down.tags.manager->0.hit_idx == o.hit_idx + 1
            &&& o.hit_idx + 1 == o.search_hits@.len() ==> down.tags.manager->0.hit_idx == o.hit_idx
        }),
{
}

/// The keys of the comparison: the arrows move the focus by one row and the page
/// keys by ten, space switches, `a` switches all on and `n` all off.
pub proof fn the_comparison_keys_do_their_work(
    before: TagManagerOverlay,
    down: TagManagerOverlay,
    up: TagManagerOverlay,
    page: TagManagerOverlay,
    on: TagManagerOverlay,
    off: TagManagerOverlay,
    one: TagManagerOverlay,
)
    requires
        down.diff_edited(&before, KeyCode::Char('j')),
        up.diff_edited(&before, KeyCode::Char('k')),
        page.diff_edited(&before, KeyCode::PageDown),
        on.diff_edited(&before, KeyCode::Char('a')),
        off.diff_edited(&before, KeyCode::Char('n')),
        one.diff_edited(&before, KeyCode::Char(' ')),
        before.focused_row < before.rows@.len(),
    ensures
        before.focused_row + 1 < before.rows@.len() ==> down.focused_row == before.focused_row + 1,
        before.focused_row > 0 ==> up.focused_row == before.focused_row - 1,
        before.focused_row + 10 < before.rows@.len() ==> page.focused_row == before.focused_row + 10,
        on.all_set(&before, true),
        off.all_set(&before, false),
        one.field_toggled(&before),
        down.diff == before.diff && up.diff == before.diff,
{
}

/// The tab key changes the field of the search, and escape closes the overlay.
pub proof fn search_fields_take_turns(
    before: App,
    tab: App,
    left: App,
    sent: Seq<BgCommand>,
    sent_tab: Seq<BgCommand>,
    sent_left: Seq<BgCommand>,
)
    requires
        tab.search_form_pressed(&before, KeyCode::Tab, sent, sent_tab),
        left.search_form_pressed(&before, KeyCode::Esc, sent, sent_left),
        before.tags.manager is Some,
    ensures
        tab.tags.manager is Some,
        tab.tags.manager->0.search_input_field != before.tags.manager->0.search_input_field,
        tab.tags.manager->0.query_artist == before.tags.manager->0.query_artist,
        left.tags.manager is None,
        sent_tab == sent && sent_left == sent,
{
}

/// From a comparison escape goes back to the hits, where there are any, and else
/// to the search; nothing is written by it.
pub proof fn leaving_a_comparison_writes_nothing(
    before: App,
    after: App,
    sent: Seq<BgCommand>,
    sent_after: Seq<BgCommand>,
)
    requires
        after.manager_pressed(&before, KeyCode::Esc, sent, sent_after),
        before.tags.manager is Some,
        before.tags.manager->0.phase == TagManagerPhase::DiffPreview,
    ensures
        sent_after == sent,
        after.tags.manager is Some,
        before.tags.manager->0.search_hits@.len() > 0 ==> after.tags.manager->0.phase
            == TagManagerPhase::SearchResults,
        before.tags.manager->0.search_hits@.len() == 0 ==> after.tags.manager->0.phase
            == TagManagerPhase::SearchInput,
{
}

/// Only enter writes a comparison; every other key that edits it sends nothing.
pub proof fn only_enter_writes(
    before: App,
    after: App,
    code: KeyCode,
    sent: Seq<BgCommand>,
    sent_after: Seq<BgCommand>,
)
    requires
        after.preview_pressed(&before, code, sent, sent_after),
        before.tags.manager is Some,
    ensures
        code != KeyCode::Enter ==> sent_after == sent,
        code == KeyCode::Enter ==> after.diff_confirmed(&before, sent, sent_after),
{
}

/// While an answer is waited for, escape closes the overlay and other keys wait.
pub proof fn waiting_can_be_left(
    before: App,
    after: App,
    code: KeyCode,
    sent: Seq<BgCommand>,
    sent_after: Seq<BgCommand>,
)
    requires
        after.manager_pressed(&before, code, sent, sent_after),
        before.tags.manager is Some,
        before.tags.manager->0.phase == TagManagerPhase::SearchPending
            || before.tags.manager->0.phase == TagManagerPhase::LoadingRelease,
    ensures
        sent_after == sent,
        code == KeyCode::Esc || code == KeyCode::Char('q') ==> after.tags.manager is None,
        !(code == KeyCode::Esc || code == KeyCode::Char('q')) ==> after == before,
{
}

/// Home and end put the focus on the first and the last row.
pub proof fn home_and_end_go_to_the_ends(
    before: TagManagerOverlay,
    home: TagManagerOverlay,
    end: TagManagerOverlay,
)
    requires
        home.diff_edited(&before, KeyCode::Home),
        end.diff_edited(&before, KeyCode::End),
        before.rows@.len() > 0,
    ensures
        home.focused_row == 0,
        end.focused_row == before.rows@.len() - 1,
        home.diff == before.diff && end.diff == before.diff,
{
}

} // verus!
