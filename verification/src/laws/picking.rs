//! Playlists: what is left out of a pick, and what becomes of tracks and names.
use vstd::prelude::*;
use crate::app::generation::{form_edited, ids_on_device, track_context};
use crate::app::playlist_ops::is_entry_of;
use crate::app::App;
use crate::commands::HostRequest;
use crate::input::KeyCode;
use crate::library::first_index_facts;
use crate::model::Track;
use crate::playlists::{
    ids_ascend, is_strategy_of, penalty_bag, playlist_index, sorted_ids_facts, without_id,
    GenerationFormState, GenerationOutcome, GenerationParams, GenerationRequest, Playlist,
    PlaylistKind, SeedStrategy, FIELD_DIVERSITY, FIELD_EXCLUDE_DEVICE, FIELD_MAX_PER_ALBUM,
    FIELD_MAX_PER_ARTIST, FIELD_NOVELTY, FIELD_SEED_COUNT, FIELD_SEED_STRATEGY, FIELD_TARGET_LEN,
    FIELD_WINDOW_DAYS,
};
use crate::text::{is_blank, match_key, trimmed};
use crate::tracks::TrackInfo;
use crate::types::{BrowseMode, DeviceStatus, Panel, SidebarEntry};

verus! {

/// The set holds a pair of keys: artist and title, in that order.
pub open spec fn holds_title(set: Set<(Seq<char>, Seq<char>)>, artist: Seq<char>, title: Seq<char>) -> bool {
    set.contains((match_key(artist), match_key(title)))
}

/// An id is left out exactly when some track of that id has the normalized
/// artist and title of a track on the device.
pub proof fn ids_left_out_are_on_the_device(
    tracks: Seq<Track>,
    set: Set<(Seq<char>, Seq<char>)>,
    x: u64,
)
    ensures
        ids_on_device(tracks, set).contains(x) <==> exists|i: int|
            0 <= i < tracks.len() && (#[trigger] tracks[i]).id == x && holds_title(
                set,
                tracks[i].artist@,
                tracks[i].name@,
            ),
    decreases tracks.len(),
{
    if tracks.len() > 0 {
        let d = tracks.drop_last();
        let t = tracks.last();
        let rest = ids_on_device(d, set);
        let all = ids_on_device(tracks, set);
        let last = tracks.len() - 1;
        ids_left_out_are_on_the_device(d, set, x);
        if rest.contains(x) {
            let k = rest.index_of(x);
            assert(all[k] == x);
            let i = choose|i: int|
                0 <= i < d.len() && (#[trigger] d[i]).id == x && holds_title(
                    set,
                    d[i].artist@,
                    d[i].name@,
                );
            assert(tracks[i] == d[i]);
        }
        if holds_title(set, t.artist@, t.name@) {
            assert(tracks[last] == t);
            assert(all.last() == t.id);
            if t.id == x {
                assert(all[all.len() - 1] == x);
            }
        }
        if all.contains(x) && !rest.contains(x) {
            let k = all.index_of(x);
            if k < rest.len() {
                assert(rest[k] == x);
            }
            assert(tracks[last].id == x);
        }
        if exists|i: int|
            0 <= i < tracks.len() && (#[trigger] tracks[i]).id == x && holds_title(
                set,
                tracks[i].artist@,
                tracks[i].name@,
            ) {
            let i = choose|i: int|
                0 <= i < tracks.len() && (#[trigger] tracks[i]).id == x && holds_title(
                    set,
                    tracks[i].artist@,
                    tracks[i].name@,
                );
            if i < d.len() {
                assert(d[i] == tracks[i]);
                let k = rest.index_of(x);
                assert(all[k] == x);
            }
        }
    }
}

/// No two tracks have the same id.
pub open spec fn ids_differ(tracks: Seq<Track>) -> bool {
    forall|i: int, j: int|
        0 <= i < tracks.len() && 0 <= j < tracks.len() && i != j ==> (#[trigger] tracks[i]).id != (
        #[trigger] tracks[j]).id
}

/// Where ids are unique, a track is left out exactly when its own normalized
/// artist and title are in the device's lookup set.
pub proof fn a_track_is_left_out_for_its_own_title(
    tracks: Seq<Track>,
    set: Set<(Seq<char>, Seq<char>)>,
    i: int,
)
    requires
        ids_differ(tracks),
        0 <= i < tracks.len(),
    ensures
        ids_on_device(tracks, set).contains(tracks[i].id) <==> set.contains(
            (match_key(tracks[i].artist@), match_key(tracks[i].name@)),
        ),
{
    ids_left_out_are_on_the_device(tracks, set, tracks[i].id);
    if holds_title(set, tracks[i].artist@, tracks[i].name@) {
        assert(tracks[i].id == tracks[i].id);
    }
}

/// A form that names what it needs becomes one request: of the trimmed name and
/// the numbers as they stand in the form. Tracks are left out only where the
/// form says so and a device is connected, and then exactly those on it.
pub proof fn requests_say_what_the_form_says(
    before: App,
    after: App,
    f: GenerationFormState,
    i: int,
) -> (r: GenerationRequest)
    requires
        after.form_submitted(&before),
        before.playlists.form == Some(f),
        f.seed_strategy_idx < 2,
        !is_blank(f.name@),
        before.library is Some,
        ids_differ(before.library->0.tracks@),
        0 <= i < before.library->0.tracks@.len(),
    ensures
        after.playlists.form is None,
        after.out.host_requests@ == before.out.host_requests@.push(HostRequest::GeneratePlaylist(r)),
        r.name@ == trimmed(f.name@),
        r.params.target_length == f.target_length,
        r.params.max_per_artist == f.max_per_artist,
        r.params.max_per_album == f.max_per_album,
        r.params.diversity_pct == f.diversity_pct,
        r.params.novelty_pct == f.novelty_pct,
        r.regenerating == f.regenerating,
        f.seed_strategy_idx == 0 ==> r.params.seed_strategy == (SeedStrategy::TopPlayed {
            window_days: f.window_days,
            count: f.seed_count,
        }),
        f.seed_strategy_idx == 1 ==> r.params.seed_strategy == (SeedStrategy::RecentlyPlayed {
            window_days: f.window_days,
            count: f.seed_count,
        }),
        ({
            let t = before.library->0.tracks@[i];
            r.params.exclude_track_ids@.contains(t.id) <==> f.exclude_on_device
                && before.device.status == DeviceStatus::Connected && before.device.track_set@.contains(
                (match_key(t.artist@), match_key(t.name@)),
            )
        }),
        f.regenerating is None ==> r.previously@.len() == 0,
{
    let r = choose|r: GenerationRequest|
        after == (App { out: after.out, ..App::form_closed(before) })
            && #[trigger] before.is_request(f, r) && after.out.asks(
            &before.out,
            HostRequest::GeneratePlaylist(r),
        );
    a_track_is_left_out_for_its_own_title(
        before.library->0.tracks@,
        before.device.track_set@,
        i,
    );
    r
}

/// A form that grows a playlist from a track, an artist or a genre hands on that
/// very track, artist or genre.
pub proof fn seeds_are_those_of_the_form(f: GenerationFormState, s: SeedStrategy)
    requires
        is_strategy_of(f, s),
    ensures
        f.seed_strategy_idx == 2 && f.seed_context.track_id is Some ==> s == SeedStrategy::Track(
            f.seed_context.track_id->0,
        ),
        f.seed_strategy_idx == 3 && f.seed_context.artist is Some ==> s is Artist && s->Artist_0@
            == f.seed_context.artist->0@,
        f.seed_strategy_idx == 4 && f.seed_context.genre is Some ==> s is Genre && s->Genre_0@
            == f.seed_context.genre->0@,
{
}

/// A form on a track row takes its seeds from that row: the track where the
/// library has it, else the artist.
pub proof fn forms_open_on_the_focused_row(t: TrackInfo)
    ensures
        track_context(t).track_id == t.library_id,
        t.artist@.len() > 0 ==> track_context(t).artist == Some(t.artist@),
        t.artist@.len() == 0 ==> track_context(t).artist is None,
        t.genre is Some && !is_blank(t.genre->0@) ==> track_context(t).genre == Some(t.genre->0@),
        t.genre is None || is_blank(t.genre->0@) ==> track_context(t).genre is None,
        t.library_id is Some ==> track_context(t).label == t.name@ && track_context(t).strategy == 2,
        t.library_id is None && t.artist@.len() > 0 ==> track_context(t).label == t.artist@
            && track_context(t).strategy == 3,
{
}

/// The form that opens in the library speaks of what has the focus.
pub proof fn forms_open_on_the_focus(before: App, after: App)
    requires
        after.form_opened(&before),
        before.nav.browse_mode == BrowseMode::Library,
    ensures
        after.playlists.form is Some,
        before.nav.active_panel == Panel::TrackList && before.lists.track_selected
            < before.lists.track_list@.len() ==> {
            let t = before.lists.track_list@[before.lists.track_selected as int];
            let f = after.playlists.form->0;
            &&& f.seed_context.track_id == t.library_id
            &&& t.artist@.len() > 0 ==> f.seed_context.artist is Some && f.seed_context.artist->0@
                == t.artist@
            &&& t.library_id is Some ==> f.name@ == "More like "@ + t.name@ && f.seed_strategy_idx == 2
        },
        before.nav.active_panel == Panel::Albums && before.lists.album_selected
            < before.lists.album_list@.len() ==> {
            let a = before.lists.album_list@[before.lists.album_selected as int];
            let f = after.playlists.form->0;
            &&& f.seed_context.track_id is None
            &&& f.seed_context.artist is Some && f.seed_context.artist->0@ == a.artist@
            &&& f.name@ == "More like "@ + a.artist@
            &&& f.seed_strategy_idx == 3
        },
        before.nav.active_panel == Panel::Library && before.nav.sidebar_selected
            < before.nav.sidebar_items@.len() ==> match before.nav.sidebar_items@[before.nav.sidebar_selected as int] {
            SidebarEntry::Artist(a) => after.playlists.form->0.seed_context.artist is Some
                && after.playlists.form->0.seed_context.artist->0@ == a@
                && after.playlists.form->0.seed_strategy_idx == 3,
            SidebarEntry::Album { artist, .. } => after.playlists.form->0.seed_context.artist is Some
                && after.playlists.form->0.seed_context.artist->0@ == artist@
                && after.playlists.form->0.seed_strategy_idx == 3,
            SidebarEntry::Playlist { .. } => true,
        },
{
}

/// What counts as recommended before is what was recommended before and what
/// the playlist holds now: nothing is lost, nothing comes in, nothing is twice.
pub proof fn recommended_before_or_held_now(p: Playlist, x: u64)
    ensures
        penalty_bag(p).contains(x) <==> p.previously_recommended@.contains(x) || p.track_ids@.contains(x),
        ids_ascend(penalty_bag(p)),
{
    let a = p.previously_recommended@;
    let b = p.track_ids@;
    sorted_ids_facts(a + b);
    if a.contains(x) {
        assert((a + b)[a.index_of(x)] == x);
    }
    if b.contains(x) {
        assert((a + b)[a.len() + b.index_of(x)] == x);
    }
    if (a + b).contains(x) {
        let k = (a + b).index_of(x);
        if k < a.len() {
            assert(a[k] == x);
        } else {
            assert(b[k - a.len()] == x);
        }
    }
}

/// A track that is taken out is gone, every other one stays.
pub proof fn only_the_named_id_goes(s: Seq<u64>, id: u64, x: u64)
    ensures
        without_id(s, id).contains(x) <==> x != id && s.contains(x),
        without_id(s, id).len() <= s.len(),
    decreases s.len(),
{
    if s.len() > 0 {
        let d = s.drop_last();
        let rest = without_id(d, id);
        let all = without_id(s, id);
        only_the_named_id_goes(d, id, x);
        assert(s[s.len() - 1] == s.last());
        if rest.contains(x) {
            assert(all[rest.index_of(x)] == x);
            assert(s[d.index_of(x)] == x);
        }
        if s.contains(x) && !d.contains(x) {
            let k = s.index_of(x);
            if k < d.len() {
                assert(d[k] == x);
            }
            assert(s.last() == x);
            if x != id {
                assert(all[all.len() - 1] == x);
            }
        }
        if s.contains(x) && d.contains(x) && x != id {
            assert(rest.contains(x));
        }
        if all.contains(x) && !rest.contains(x) {
            let k = all.index_of(x);
            if k < rest.len() {
                assert(rest[k] == x);
            }
        }
    }
}

/// A playlist is found by its own id.
pub proof fn playlists_are_found_by_id(playlists: Seq<Playlist>, id: u64)
    ensures
        match playlist_index(playlists, id) {
            Some(i) => i < playlists.len() && playlists[i as int].id == id,
            None => forall|k: int| 0 <= k < playlists.len() ==> (#[trigger] playlists[k]).id != id,
        },
{
    let p = |p: Playlist| p.id == id;
    first_index_facts(playlists, p);
    if playlist_index(playlists, id) is None {
        assert forall|k: int| 0 <= k < playlists.len() implies (#[trigger] playlists[k]).id != id by {
            assert(!p(playlists[k]));
        }
    }
}

/// Taking the selected track out of the selected playlist takes that track out
/// of that playlist, and changes the contents of no other.
pub proof fn dropping_takes_the_track_out(before: App, after: App, k: int, x: u64)
    requires
        after.track_dropped(&before),
        before.can_drop_track(),
        0 <= k < before.playlists.store.playlists@.len(),
        before.playlists.store.valid(),
    ensures
        after.playlists.store.playlists@.len() == before.playlists.store.playlists@.len(),
        ({
            let was = before.playlists.store.playlists@[k];
            let now = after.playlists.store.playlists@[k];
            let row = before.lists.track_list@[before.lists.track_selected as int];
            &&& now.id == was.id && now.name == was.name
            &&& before.nav.sidebar_items@[before.nav.sidebar_selected as int] is Playlist
            &&& if was.id == before.nav.sidebar_items@[before.nav.sidebar_selected as int]->Playlist_id {
                now.track_ids@.contains(x) <==> was.track_ids@.contains(x) && Some(x) != row.library_id
            } else {
                now == was
            }
        }),
        after.out.host_requests@.last() == HostRequest::SavePlaylists,
{
    let id = before.selected_playlist()->0;
    let t = before.selected_track_id()->0;
    let all = before.playlists.store.playlists@;
    playlists_are_found_by_id(all, id);
    let i = playlist_index(all, id)->0 as int;
    only_the_named_id_goes(all[i].track_ids@, t, x);
    if k != i {
        assert(all[k].id != all[i].id);
    }
}

/// A track that is added to a chosen playlist stands at its end, and once.
pub proof fn adding_appends_once(before: App, after: App, k: int)
    requires
        after.picker_confirmed(&before),
        before.playlists.picker is Some,
        before.playlists.picker->0.selected < before.playlists.picker->0.options@.len(),
        0 <= k < before.playlists.store.playlists@.len(),
        before.playlists.store.valid(),
    ensures
        after.playlists.picker is None,
        after.playlists.store.playlists@.len() == before.playlists.store.playlists@.len(),
        ({
            let p = before.playlists.picker->0;
            let was = before.playlists.store.playlists@[k];
            let now = after.playlists.store.playlists@[k];
            if was.id == p.options@[p.selected as int].0 && !was.track_ids@.contains(p.track_id) {
                now.id == was.id && now.name == was.name && now.track_ids@ == was.track_ids@.push(
                    p.track_id,
                )
            } else {
                now == was
            }
        }),
{
    let p = before.playlists.picker->0;
    let id = p.options@[p.selected as int].0;
    let all = before.playlists.store.playlists@;
    playlists_are_found_by_id(all, id);
    match playlist_index(all, id) {
        Some(i) => {
            if k != i {
                assert(all[k].id != all[i as int].id);
            }
        },
        None => {},
    }
}

/// A committed name becomes the name of the playlist that was to be renamed, or
/// of a new, empty one at the end. It is trimmed, and every other playlist
/// stays as it was.
pub proof fn names_go_to_the_playlist_meant(before: App, after: App, k: int)
    requires
        after.name_committed(&before),
        before.playlists.name_input is Some,
        trimmed(before.playlists.name_input->0@).len() > 0,
        0 <= k < before.playlists.store.playlists@.len(),
        before.playlists.store.valid(),
    ensures
        after.playlists.name_input is None && after.playlists.rename_target is None,
        ({
            let was = before.playlists.store.playlists@;
            let now = after.playlists.store.playlists@;
            let name = trimmed(before.playlists.name_input->0@);
            match before.playlists.rename_target {
                Some(id) => {
                    &&& now.len() == was.len()
                    &&& if was[k].id == id {
                        now[k].name@ == name && now[k].id == id && now[k].track_ids == was[k].track_ids
                            && now[k].kind == was[k].kind
                    } else {
                        now[k] == was[k]
                    }
                },
                None => {
                    &&& now.len() == was.len() + 1
                    &&& now[k] == was[k]
                    &&& now.last().name@ == name && now.last().track_ids@.len() == 0
                    &&& now.last().kind is Manual
                    &&& now.last().id == before.playlists.store.next_id
                    &&& now.last().id != was[k].id
                },
            }
        }),
{
    let all = before.playlists.store.playlists@;
    if let Some(id) = before.playlists.rename_target {
        playlists_are_found_by_id(all, id);
        if let Some(i) = playlist_index(all, id) {
            if k != i {
                assert(all[k].id != all[i as int].id);
            }
        }
    }
}

/// One of the playlists has the id.
pub open spec fn has_playlist(playlists: Seq<Playlist>, id: u64) -> bool {
    exists|k: int| 0 <= k < playlists.len() && (#[trigger] playlists[k]).id == id
}

/// Deleting a playlist takes that one away, and no other.
pub proof fn only_the_deleted_playlist_goes(before: App, after: App, id: u64, x: u64)
    requires
        after.playlist_deleted(&before, id),
        before.playlists.store.valid(),
    ensures
        has_playlist(after.playlists.store.playlists@, x) <==> has_playlist(
            before.playlists.store.playlists@,
            x,
        ) && x != id,
{
    let was = before.playlists.store.playlists@;
    let now = after.playlists.store.playlists@;
    playlists_are_found_by_id(was, id);
    match playlist_index(was, id) {
        None => {},
        Some(i) => {
            assert(now == was.remove(i as int));
            if has_playlist(now, x) {
                let k = choose|k: int| 0 <= k < now.len() && (#[trigger] now[k]).id == x;
                let q = if k < i {
                    k
                } else {
                    k + 1
                };
                assert(was[q] == now[k]);
                assert(was[q].id != was[i as int].id);
            }
            if has_playlist(was, x) && x != id {
                let k = choose|k: int| 0 <= k < was.len() && (#[trigger] was[k]).id == x;
                let q = if k < i {
                    k
                } else {
                    k - 1
                };
                assert(now[q] == was[k]);
            }
        },
    }
}

/// A fresh pick becomes a generated playlist of the tracks picked, in their
/// order, under the name asked for; an empty one changes no playlist.
pub proof fn picks_become_playlists(
    before: App,
    after: App,
    r: GenerationRequest,
    picked: GenerationOutcome,
)
    requires
        after.pick_applied(&before, r, picked),
        r.regenerating is None,
    ensures
        picked.track_ids@.len() == 0 ==> after.playlists.store == before.playlists.store,
        picked.track_ids@.len() > 0 ==> {
            let was = before.playlists.store.playlists@;
            let now = after.playlists.store.playlists@;
            &&& now.len() == was.len() + 1
            &&& now.drop_last() == was
            &&& now.last().name == r.name
            &&& now.last().track_ids == picked.track_ids
            &&& now.last().id == before.playlists.store.next_id
            &&& now.last().kind == (PlaylistKind::Generated {
                params: r.params,
                last_generated_ms: before.host.unix_ms,
            })
        },
{
    if picked.track_ids@.len() > 0 {
        assert(after.playlists.store.playlists@.drop_last() =~= before.playlists.store.playlists@);
    }
}

/// A pick for a playlist that is generated anew replaces its tracks, and what
/// it held before counts as recommended from then on.
pub proof fn picking_anew_remembers_what_was_held(
    before: App,
    after: App,
    r: GenerationRequest,
    picked: GenerationOutcome,
    k: int,
    x: u64,
)
    requires
        after.pick_applied(&before, r, picked),
        r.regenerating is Some,
        0 <= k < before.playlists.store.playlists@.len(),
        before.playlists.store.valid(),
    ensures
        ({
            let was = before.playlists.store.playlists@[k];
            let now = after.playlists.store.playlists@[k];
            if Some(was.id) == r.regenerating {
                &&& now.id == was.id
                &&& now.name == r.name
                &&& now.track_ids == picked.track_ids
                &&& now.previously_recommended@.contains(x) <==> was.previously_recommended@.contains(x)
                    || was.track_ids@.contains(x)
            } else {
                now == was
            }
        }),
{
    let id = r.regenerating->0;
    let all = before.playlists.store.playlists@;
    playlists_are_found_by_id(all, id);
    if let Some(i) = playlist_index(all, id) {
        recommended_before_or_held_now(all[i as int], x);
        if k != i {
            assert(all[k].id != all[i as int].id);
        }
    }
}

/// Keys that raise a number field.
pub open spec fn raises(code: KeyCode) -> bool {
    code == KeyCode::Right || code == KeyCode::Char('>')
}

/// Keys that lower a number field.
pub open spec fn lowers(code: KeyCode) -> bool {
    code == KeyCode::Left || code == KeyCode::Char('<')
}

/// A key that raises never makes a number smaller, one that lowers never makes
/// it greater; both move it unless it stands at its limit. Any other key leaves
/// it alone.
pub open spec fn steps(was: u32, now: u32, code: KeyCode, least: int, most: int, by: int) -> bool {
    if raises(code) {
        now == if was + by <= most {
            was + by
        } else {
            most
        }
    } else if lowers(code) {
        now == if was - by >= least {
            was - by
        } else {
            least
        }
    } else {
        now == was
    }
}

/// A key changes the field that has the focus and no other, one step at a time
/// and within its limits.
pub proof fn keys_change_the_focused_field(f: GenerationFormState, code: KeyCode, g: GenerationFormState)
    requires
        form_edited(f, code, g),
        crate::app::generation::form_in_limits(f),
    ensures
        g.selected_field == f.selected_field,
        g.regenerating == f.regenerating,
        g.seed_context == f.seed_context,
        if f.selected_field == FIELD_WINDOW_DAYS {
            steps(f.window_days, g.window_days, code, 0, u32::MAX as int, 1)
        } else {
            g.window_days == f.window_days
        },
        if f.selected_field == FIELD_SEED_COUNT {
            steps(f.seed_count, g.seed_count, code, 1, 100, 1)
        } else {
            g.seed_count == f.seed_count
        },
        if f.selected_field == FIELD_TARGET_LEN {
            steps(f.target_length, g.target_length, code, 1, 500, 1)
        } else {
            g.target_length == f.target_length
        },
        if f.selected_field == FIELD_MAX_PER_ARTIST {
            steps(f.max_per_artist, g.max_per_artist, code, 1, 20, 1)
        } else {
            g.max_per_artist == f.max_per_artist
        },
        if f.selected_field == FIELD_MAX_PER_ALBUM {
            steps(f.max_per_album, g.max_per_album, code, 1, 20, 1)
        } else {
            g.max_per_album == f.max_per_album
        },
        if f.selected_field == FIELD_DIVERSITY {
            steps(f.diversity_pct, g.diversity_pct, code, 0, 100, 5)
        } else {
            g.diversity_pct == f.diversity_pct
        },
        if f.selected_field == FIELD_NOVELTY {
            steps(f.novelty_pct, g.novelty_pct, code, 0, 100, 5)
        } else {
            g.novelty_pct == f.novelty_pct
        },
        g.exclude_on_device != f.exclude_on_device <==> f.selected_field == FIELD_EXCLUDE_DEVICE && (
        code == KeyCode::Char(' ') || code == KeyCode::Enter),
        f.selected_field != FIELD_SEED_STRATEGY ==> g.seed_strategy_idx == f.seed_strategy_idx,
        f.selected_field == FIELD_SEED_STRATEGY ==> match code {
            KeyCode::Down => g.seed_strategy_idx == (f.seed_strategy_idx + 1) % 5,
            KeyCode::Up => f.seed_strategy_idx == (g.seed_strategy_idx + 1) % 5,
            _ => true,
        },
{
}

/// The picker offers every playlist for the selected track, in their order.
pub proof fn the_picker_offers_every_playlist(before: App, after: App, k: int)
    requires
        after.picker_opened(&before),
        before.lists.track_selected < before.lists.track_list@.len(),
        before.lists.track_list@[before.lists.track_selected as int].library_id is Some,
        0 <= k < before.playlists.store.playlists@.len(),
    ensures
        after.playlists.picker is Some,
        Some(after.playlists.picker->0.track_id)
            == before.lists.track_list@[before.lists.track_selected as int].library_id,
        after.playlists.picker->0.options@.len() == before.playlists.store.playlists@.len(),
        after.playlists.picker->0.options@[k].0 == before.playlists.store.playlists@[k].id,
        after.playlists.picker->0.options@[k].1 == before.playlists.store.playlists@[k].name,
        after.playlists.picker->0.selected == 0,
        after.playlists.store == before.playlists.store,
{
}

/// The form for another pick holds what the playlist was generated with.
pub proof fn another_pick_starts_from_the_last(before: App, after: App, i: int)
    requires
        after.regenerate_opened(&before),
        before.nav.browse_mode == BrowseMode::Playlists,
        before.playlists.store.valid(),
        0 <= i < before.playlists.store.playlists@.len(),
        before.selected_playlist() == Some(before.playlists.store.playlists@[i].id),
        before.playlists.store.playlists@[i].kind is Generated,
    ensures
        after.playlists.form is Some,
        ({
            let p = before.playlists.store.playlists@[i];
            let params = p.kind->Generated_params;
            let f = after.playlists.form->0;
            &&& f.regenerating == Some(p.id)
            &&& f.name == p.name
            &&& f.target_length == params.target_length
            &&& f.max_per_artist == params.max_per_artist
            &&& f.max_per_album == params.max_per_album
            &&& f.diversity_pct == params.diversity_pct
            &&& f.novelty_pct == params.novelty_pct
            &&& f.exclude_on_device == params.exclude_on_device
        }),
{
    let all = before.playlists.store.playlists@;
    let id = all[i].id;
    playlists_are_found_by_id(all, id);
    let at = playlist_index(all, id);
    if at is None {
        assert(all[i].id != id);
    } else if at->0 != i {
        assert(all[at->0 as int].id != all[i].id);
    }
}

/// A form without what its strategy needs stays open, and nothing is asked for.
pub proof fn lacking_forms_stay_open(before: App, after: App, f: GenerationFormState)
    requires
        after.form_submitted(&before),
        before.playlists.form == Some(f),
        f.seed_strategy_idx == 2 && f.seed_context.track_id is None || f.seed_strategy_idx == 3 && (
        f.seed_context.artist is None || is_blank(f.seed_context.artist->0@)) || f.seed_strategy_idx == 4
            && (f.seed_context.genre is None || is_blank(f.seed_context.genre->0@)) || is_blank(f.name@),
    ensures
        after.playlists.form == before.playlists.form,
        after.out == before.out,
        after.toast_message is Some,
        (after.toast_message->0).2,
{
}

/// A form with what its strategy needs is sent.
pub proof fn complete_forms_are_sent(before: App, after: App, f: GenerationFormState)
    requires
        after.form_submitted(&before),
        before.playlists.form == Some(f),
        before.library is Some,
        !is_blank(f.name@),
        f.seed_strategy_idx == 2 ==> f.seed_context.track_id is Some,
        f.seed_strategy_idx == 3 ==> f.seed_context.artist is Some && !is_blank(f.seed_context.artist->0@),
        f.seed_strategy_idx == 4 ==> f.seed_context.genre is Some && !is_blank(f.seed_context.genre->0@),
    ensures
        after.playlists.form is None,
        after.out.host_requests@.len() == before.out.host_requests@.len() + 1,
        after.out.host_requests@.last() is GeneratePlaylist,
        is_strategy_of(f, after.out.host_requests@.last()->GeneratePlaylist_0.params.seed_strategy),
{
}

/// The tracks that a playlist held and was given before are not to be picked again
/// for it.
pub proof fn another_pick_leaves_out_what_was_picked(
    before: App,
    f: GenerationFormState,
    r: GenerationRequest,
    i: int,
    x: u64,
)
    requires
        before.is_request(f, r),
        before.playlists.store.valid(),
        0 <= i < before.playlists.store.playlists@.len(),
        f.regenerating == Some(before.playlists.store.playlists@[i].id),
    ensures
        r.previously@.contains(x) <==> before.playlists.store.playlists@[i].previously_recommended@.contains(
            x,
        ) || before.playlists.store.playlists@[i].track_ids@.contains(x),
{
    let all = before.playlists.store.playlists@;
    let id = all[i].id;
    playlists_are_found_by_id(all, id);
    let at = playlist_index(all, id);
    if at is None {
        assert(all[i].id != id);
    } else if at->0 != i {
        assert(all[at->0 as int].id != all[i].id);
    }
    recommended_before_or_held_now(all[i], x);
}

/// Every form opens with the same numbers, and leaves out what is on the device.
pub proof fn forms_open_with_the_defaults(before: App, after: App)
    requires
        after.form_opened(&before),
    ensures
        after.playlists.form is Some,
        ({
            let f = after.playlists.form->0;
            &&& f.window_days == 30 && f.seed_count == 10 && f.target_length == 25
            &&& f.max_per_artist == 3 && f.max_per_album == 2
            &&& f.diversity_pct == 50 && f.novelty_pct == 50
            &&& f.exclude_on_device
            &&& f.regenerating is None
        }),
        before.nav.browse_mode != BrowseMode::Library ==> after.playlists.form->0.seed_strategy_idx == 0
            && after.playlists.form->0.name@ == "Discover Weekly"@,
{
}

/// The keys of the form lead to the field below and above, round and round, and
/// change no value.
pub proof fn the_form_keys_go_round_the_fields(before: App, down: App, up: App, f: GenerationFormState)
    requires
        down.form_pressed(&before, KeyCode::Tab),
        up.form_pressed(&before, KeyCode::BackTab),
        before.playlists.form == Some(f),
        f.selected_field < 10,
    ensures
        down.playlists.form is Some && up.playlists.form is Some,
        f.selected_field < 9 ==> down.playlists.form->0.selected_field == f.selected_field + 1,
        f.selected_field == 9 ==> down.playlists.form->0.selected_field == 0,
        f.selected_field > 0 ==> up.playlists.form->0.selected_field == f.selected_field - 1,
        f.selected_field == 0 ==> up.playlists.form->0.selected_field == 9,
        down.playlists.form->0.target_length == f.target_length,
        down.playlists.form->0.name == f.name,
{
}

/// A playlist that was added is selected in the sidebar where it is listed.
pub proof fn new_playlists_are_selected(app: App, id: u64, k: int)
    requires
        0 <= k < app.nav.sidebar_items@.len(),
        app.nav.sidebar_items@[k] is Playlist,
        app.nav.sidebar_items@[k]->Playlist_id == id,
    ensures
        ({
            let after = App::on_playlist(app, id);
            &&& after.nav.sidebar_selected <= k
            &&& after.nav.sidebar_items@[after.nav.sidebar_selected as int] is Playlist
            &&& after.nav.sidebar_items@[after.nav.sidebar_selected as int]->Playlist_id == id
        }),
{
    let p = |e: SidebarEntry| is_entry_of(e, id);
    first_index_facts(app.nav.sidebar_items@, p);
    assert(p(app.nav.sidebar_items@[k]));
    assert(app.nav.sidebar_items.len() == app.nav.sidebar_items@.len());
}

/// The parameters that a form stands for are the numbers in it, each its own.
pub proof fn parameters_are_those_of_the_form(f: GenerationFormState, p: GenerationParams)
    requires
        crate::playlists::are_params_of(f, p),
    ensures
        p.target_length == f.target_length,
        p.max_per_artist == f.max_per_artist,
        p.max_per_album == f.max_per_album,
        p.diversity_pct == f.diversity_pct,
        p.novelty_pct == f.novelty_pct,
        p.exclude_on_device == f.exclude_on_device,
        p.exclude_track_ids@.len() == 0,
        f.seed_strategy_idx == 1 ==> p.seed_strategy == (SeedStrategy::RecentlyPlayed {
            window_days: f.window_days,
            count: f.seed_count,
        }),
{
}

/// After a deletion the selection stays where it was, or on the last entry.
pub proof fn the_selection_stays_after_a_deletion(before: App, after: App, id: u64, i: int)
    requires
        after.playlist_deleted(&before, id),
        0 <= i < before.playlists.store.playlists@.len(),
        before.playlists.store.playlists@[i].id == id,
        after.nav.sidebar_items@.len() > 0,
    ensures
        before.nav.sidebar_selected < after.nav.sidebar_items@.len() ==> after.nav.sidebar_selected
            == before.nav.sidebar_selected,
        before.nav.sidebar_selected >= after.nav.sidebar_items@.len() ==> after.nav.sidebar_selected
            == after.nav.sidebar_items@.len() - 1,
{
    playlists_are_found_by_id(before.playlists.store.playlists@, id);
    if playlist_index(before.playlists.store.playlists@, id) is None {
        assert(before.playlists.store.playlists@[i].id != id);
    }
    assert(after.nav.sidebar_items.len() == after.nav.sidebar_items@.len());
}

/// What was done is announced by name: the track that left a playlist, the track
/// and the playlist that it joined, and the name that was given.
pub proof fn changes_are_announced_by_name(before: App, dropped: App, joined: App)
    requires
        dropped.track_dropped(&before),
        before.can_drop_track(),
        joined.picker_confirmed(&before),
        before.playlists.picker is Some,
        before.playlists.picker->0.selected < before.playlists.picker->0.options@.len(),
        before.takes_track(
            before.playlists.picker->0.options@[before.playlists.picker->0.selected as int].0,
            before.playlists.picker->0.track_id,
        ),
    ensures
        dropped.says(
            "Removed \""@ + before.lists.track_list@[before.lists.track_selected as int].name@
                + "\" from playlist"@,
            false,
        ),
        joined.says(
            "Added \""@ + before.playlists.picker->0.track_label@ + "\" to \""@
                + before.playlists.picker->0.options@[before.playlists.picker->0.selected as int].1@
                + "\""@,
            false,
        ),
{
}

} // verus!
