//! Playback and moving about: what plays next, and where the keys lead.
use vstd::prelude::*;
use crate::app::nav::{album_groups, entry_letters, next_group, next_other, prev_group, run_start};
use crate::app::playback::rewind_of;
use crate::app::player::{library_row, next_show_player, scrolled, show_player_label, wrapped};
use crate::app::App;
use crate::commands::{AudioCommand, AudioEvent};
use crate::format::first_upper;
use crate::laws::counting::the_first_is_found;
use crate::library::{first_where, is_row, Library};
use crate::model::Track;
use crate::text::same_ignoring_case;
use crate::tracks::TrackInfo;
use crate::types::{Panel, PlaybackState, StemStatus};

verus! {

/// The row plays from its start: its own file was handed to the audio thread,
/// and its own names are shown.
pub open spec fn plays_row(
    app: App,
    rows: Seq<TrackInfo>,
    i: int,
    audio: Seq<AudioCommand>,
    audio_after: Seq<AudioCommand>,
) -> bool {
    &&& app.player.now_playing is Some
    &&& ({
        let np = app.player.now_playing->0;
        &&& np.track_name == rows[i].name && np.artist == rows[i].artist && np.album == rows[i].album
        &&& np.track_index == i
        &&& np.playlist@ == rows
        &&& np.elapsed_ms == 0
        &&& np.state == PlaybackState::Playing
        &&& !np.counted
        &&& rows[i].duration_ms is Some ==> np.duration_ms == rows[i].duration_ms->0
    })
    &&& rows[i].location is Some
    &&& audio_after == audio.push(AudioCommand::Play { path: rows[i].location->0 })
}

/// Starting the selected row plays that row of the list on screen, unless it is
/// the one that is loaded.
pub proof fn the_selected_row_is_played(
    before: App,
    after: App,
    audio: Seq<AudioCommand>,
    audio_after: Seq<AudioCommand>,
)
    requires
        after.selected_played(&before, audio, audio_after),
        before.lists.track_selected < before.lists.track_list@.len(),
        before.lists.track_list@[before.lists.track_selected as int].location is Some,
        before.player.now_playing is None,
    ensures
        plays_row(
            after,
            before.lists.track_list@,
            before.lists.track_selected as int,
            audio,
            audio_after,
        ),
{
}

/// Another row than the one that is loaded ends the session and plays that row.
pub proof fn another_row_is_played(
    before: App,
    after: App,
    audio: Seq<AudioCommand>,
    audio_after: Seq<AudioCommand>,
)
    requires
        after.selected_played(&before, audio, audio_after),
        before.lists.track_selected < before.lists.track_list@.len(),
        before.lists.track_list@[before.lists.track_selected as int].location is Some,
        before.player.now_playing matches Some(np) && np.track_index < np.playlist@.len()
            && np.playlist@[np.track_index as int].location is Some
            && np.playlist@[np.track_index as int].location->0@
            != before.lists.track_list@[before.lists.track_selected as int].location->0@,
    ensures
        after.player.now_playing is Some,
        after.player.now_playing->0.track_name
            == before.lists.track_list@[before.lists.track_selected as int].name,
        after.player.now_playing->0.artist
            == before.lists.track_list@[before.lists.track_selected as int].artist,
        after.player.now_playing->0.track_index == before.lists.track_selected,
        after.player.now_playing->0.elapsed_ms == 0,
        audio_after == audio.push(
            AudioCommand::Play {
                path: before.lists.track_list@[before.lists.track_selected as int].location->0,
            },
        ),
{
    let mid = choose|mid: App| #[trigger]
        mid.session_ended(&before) && after.session_started(
            &mid,
            before.row_to_play(),
            mid.lists.track_list@,
            audio,
            audio_after,
        );
    let rec = choose|rec: App| #[trigger] rec.session_recorded(&before, false) && mid.stems_let_go(&rec);
    let i = before.lists.track_selected as int;
    recording_keeps_the_list(before, rec, false, i);
}

/// Recording a session changes counts in the list, not which tracks it lists.
pub proof fn recording_keeps_the_list(before: App, after: App, completed: bool, i: int)
    requires
        after.session_recorded(&before, completed),
        0 <= i < before.lists.track_list@.len(),
    ensures
        after.lists.track_list@.len() == before.lists.track_list@.len(),
        after.lists.track_list@[i].name == before.lists.track_list@[i].name,
        after.lists.track_list@[i].artist == before.lists.track_list@[i].artist,
        after.lists.track_list@[i].album == before.lists.track_list@[i].album,
        after.lists.track_list@[i].location == before.lists.track_list@[i].location,
        after.lists.track_list@[i].duration_ms == before.lists.track_list@[i].duration_ms,
{
}

/// On the loaded row, a paused session goes on and a playing one starts over;
/// neither begins another session.
pub proof fn the_loaded_row_goes_on(
    before: App,
    after: App,
    audio: Seq<AudioCommand>,
    audio_after: Seq<AudioCommand>,
)
    requires
        after.selected_played(&before, audio, audio_after),
        before.lists.track_selected < before.lists.track_list@.len(),
        before.lists.track_list@[before.lists.track_selected as int].location is Some,
        before.player.now_playing matches Some(np) && np.track_index < np.playlist@.len()
            && np.playlist@[np.track_index as int].location is Some
            && np.playlist@[np.track_index as int].location->0@
            == before.lists.track_list@[before.lists.track_selected as int].location->0@,
    ensures
        after.player.now_playing is Some,
        after.player.now_playing->0.state == PlaybackState::Playing,
        after.player.now_playing->0.track_name == before.player.now_playing->0.track_name,
        before.player.now_playing->0.state == PlaybackState::Paused ==> audio_after == audio.push(
            AudioCommand::Resume,
        ) && after.player.now_playing->0.elapsed_ms == before.player.now_playing->0.elapsed_ms,
        before.player.now_playing->0.state == PlaybackState::Playing ==> audio_after == audio.push(
            AudioCommand::Scrub { delta_ms: rewind_of(before.player.now_playing->0.elapsed_ms) as i64 },
        ) && after.player.now_playing->0.elapsed_ms == 0 && !after.player.now_playing->0.counted,
        after.player.local_plays == before.player.local_plays,
{
}

/// A restart rewinds past the start of the track from wherever it stands.
pub proof fn restarts_rewind_to_the_start(elapsed_ms: u64)
    requires
        elapsed_ms <= i64::MAX,
    ensures
        elapsed_ms + rewind_of(elapsed_ms) == -60000,
{
}

/// Pausing and resuming toggle, and say so to the audio thread.
pub proof fn toggling_pauses_and_resumes(
    before: App,
    after: App,
    audio: Seq<AudioCommand>,
    audio_after: Seq<AudioCommand>,
)
    requires
        after.playback_toggled(&before, audio, audio_after),
        before.player.now_playing is Some,
    ensures
        after.player.now_playing is Some,
        after.player.now_playing->0.state != before.player.now_playing->0.state,
        after.player.now_playing->0.elapsed_ms == before.player.now_playing->0.elapsed_ms,
        after.player.now_playing->0.track_index == before.player.now_playing->0.track_index,
        audio_after.len() == audio.len() + 1,
        after.player.now_playing->0.state == PlaybackState::Paused <==> audio_after.last()
            == AudioCommand::Pause,
        after.player.now_playing->0.state == PlaybackState::Playing <==> audio_after.last()
            == AudioCommand::Resume,
        after.player.now_playing->0.state == PlaybackState::Paused
            <==> after.player.now_playing->0.paused_frame is Some,
{
}

/// The next track is the one that follows in the playlist; after the last one
/// playback stops.
pub proof fn the_next_track_follows(
    before: App,
    after: App,
    audio: Seq<AudioCommand>,
    audio_after: Seq<AudioCommand>,
)
    requires
        after.next_played(&before, audio, audio_after),
        before.player.now_playing is Some,
        before.player.now_playing->0.track_index < usize::MAX,
    ensures
        ({
            let np = before.player.now_playing->0;
            let rows = np.playlist@;
            &&& np.track_index + 1 < rows.len() && rows[np.track_index + 1].location is Some ==> plays_row(
                after,
                rows,
                np.track_index + 1,
                audio,
                audio_after,
            )
            &&& np.track_index + 1 < rows.len() && rows[np.track_index + 1].location is None ==> audio_after
                == audio && after.player.now_playing is Some
                && after.player.now_playing->0.track_index == np.track_index
            &&& np.track_index + 1 >= rows.len() ==> after.player.now_playing is None && audio_after
                == audio.push(AudioCommand::Stop)
        }),
{
}

/// The previous track is the one before in the playlist; in the first one, and
/// after three seconds of any other, the current track starts over.
pub proof fn the_previous_track_precedes(
    before: App,
    after: App,
    audio: Seq<AudioCommand>,
    audio_after: Seq<AudioCommand>,
)
    requires
        after.previous_played(&before, audio, audio_after),
        before.player.now_playing is Some,
    ensures
        ({
            let np = before.player.now_playing->0;
            let rows = np.playlist@;
            let to = if np.elapsed_ms > 3000 || np.track_index == 0 {
                np.track_index as int
            } else {
                np.track_index - 1
            };
            &&& rows[to].location is Some ==> plays_row(after, rows, to, audio, audio_after)
            &&& rows[to].location is None ==> audio_after == audio
        }),
{
}

/// Stopping leaves nothing playing.
pub proof fn stopping_leaves_nothing_playing(
    before: App,
    after: App,
    audio: Seq<AudioCommand>,
    audio_after: Seq<AudioCommand>,
)
    requires
        after.stopped(&before, audio, audio_after),
    ensures
        after.player.now_playing is None,
        audio_after == audio.push(AudioCommand::Stop),
{
}

/// A position that the audio thread reports is the position that is shown.
pub proof fn positions_are_shown(
    before: App,
    after: App,
    elapsed_ms: u64,
    audio: Seq<AudioCommand>,
    audio_after: Seq<AudioCommand>,
)
    requires
        after.audio_handled(&before, AudioEvent::Position { elapsed_ms }, audio, audio_after),
        before.player.now_playing is Some,
    ensures
        after.player.now_playing is Some,
        after.player.now_playing->0.elapsed_ms == elapsed_ms,
        after.player.now_playing->0.track_index == before.player.now_playing->0.track_index,
        audio_after == audio,
{
}

/// A track that ended gives way to the one that follows, and counts as played.
pub proof fn an_ended_track_gives_way(
    before: App,
    after: App,
    audio: Seq<AudioCommand>,
    audio_after: Seq<AudioCommand>,
)
    requires
        after.audio_handled(&before, AudioEvent::TrackEnded, audio, audio_after),
        before.player.now_playing is Some,
        before.player.now_playing->0.track_index + 1 < before.player.now_playing->0.playlist@.len(),
        before.player.now_playing->0.playlist@[before.player.now_playing->0.track_index
            + 1].location is Some,
        before.player.now_playing->0.track_index < usize::MAX,
    ensures
        plays_row(
            after,
            before.player.now_playing->0.playlist@,
            before.player.now_playing->0.track_index + 1,
            audio,
            audio_after,
        ),
{
    let mid = choose|mid: App| #[trigger]
        mid.session_recorded(&before, true) && after.next_played(&mid, audio, audio_after);
    the_next_track_follows(mid, after, audio, audio_after);
}

/// The player is shown while something plays, where the user wants it, or else
/// where there is room for it.
pub proof fn the_player_is_shown_while_playing(app: App, height: u16)
    ensures
        app.player.now_playing is None ==> !app.shows_player(height),
        app.player.now_playing is Some && app.player.show_player == Some(true) ==> app.shows_player(height),
        app.player.show_player == Some(false) ==> !app.shows_player(height),
        app.player.now_playing is Some && app.player.show_player is None ==> (app.shows_player(height)
            <==> 20 <= height),
        app.shows_strip() ==> app.player.now_playing is Some && app.player.last_term_height
            >= app.host.player_min_height,
{
}

/// The preference goes from automatic to hidden to always on, and its label says
/// which it is.
pub proof fn the_player_preference_goes_round(p: Option<bool>)
    ensures
        p is None ==> next_show_player(p) == Some(false),
        p == Some(false) ==> next_show_player(p) == Some(true),
        p == Some(true) ==> next_show_player(p) is None,
        show_player_label(None) == "Player: auto"@,
        show_player_label(Some(false)) == "Player: hidden"@,
        show_player_label(Some(true)) == "Player: always on"@,
{
}

/// One step round a ring leads to the neighbour; beyond an end lies the other.
pub proof fn rings_close(index: int, count: int)
    requires
        0 <= index < count,
    ensures
        index + 1 < count ==> wrapped(index, 1, count) == index + 1,
        index + 1 == count ==> wrapped(index, 1, count) == 0,
        index > 0 ==> wrapped(index, -1, count) == index - 1,
        index == 0 ==> wrapped(index, -1, count) == count - 1,
{
    if index + 1 < count {
        vstd::arithmetic::div_mod::lemma_small_mod((index + 1) as nat, count as nat);
    } else {
        vstd::arithmetic::div_mod::lemma_mod_self_0(count);
    }
    if index > 0 {
        vstd::arithmetic::div_mod::lemma_small_mod((index - 1) as nat, count as nat);
    } else {
        vstd::arithmetic::div_mod::lemma_fundamental_div_mod_converse(-1, count, -1, count - 1);
    }
}

/// Scrolling moves by as many rows as asked for, but not above the first.
pub proof fn scrolling_moves_by_rows(at: usize, delta: int)
    requires
        at + delta <= usize::MAX,
    ensures
        at + delta >= 0 ==> scrolled(at as int, delta) == at + delta,
        at + delta < 0 ==> scrolled(at as int, delta) == 0,
{
}

/// The track has the title, artist and album of the row, ignoring case.
pub open spec fn names_row(x: Track, t: TrackInfo) -> bool {
    &&& same_ignoring_case(x.name@, t.name@)
    &&& same_ignoring_case(x.artist@, t.artist@)
    &&& same_ignoring_case(x.album@, t.album@)
}

/// The details that are shown of a row are those of a library track of its
/// title, artist and album; none are shown where the library has no such track.
pub proof fn details_are_of_the_row(library: Library, t: TrackInfo)
    ensures
        match library_row(Some(library), t) {
            Some(x) => library.tracks@.contains(x) && names_row(x, t),
            None => forall|k: int|
                0 <= k < library.tracks@.len() ==> !names_row(#[trigger] library.tracks@[k], t),
        },
{
    let p = |x: Track| is_row(x, t.name@, t.artist@, t.album@);
    the_first_is_found(library.tracks@, p);
    match first_where(library.tracks@, p) {
        Some(x) => {
            let i = choose|i: int|
                0 <= i < library.tracks@.len() && #[trigger] library.tracks@[i] == x && p(x);
            assert(library.tracks@.contains(x));
        },
        None => {
            assert forall|k: int| 0 <= k < library.tracks@.len() implies !names_row(
                #[trigger] library.tracks@[k],
                t,
            ) by {
                assert(!p(library.tracks@[k]));
            }
        },
    }
}

proof fn runs_are_alike<G>(groups: Seq<G>, at: int, k: int)
    requires
        0 <= at < groups.len(),
        run_start(groups, at) <= k <= at,
    ensures
        0 <= run_start(groups, at) <= at,
        groups[k] == groups[at],
        run_start(groups, at) > 0 ==> groups[run_start(groups, at) - 1] != groups[at],
    decreases at,
{
    if at > 0 && groups[at - 1] == groups[at] {
        if k < at {
            runs_are_alike(groups, at - 1, k);
        } else {
            run_start_is_not_above(groups, at - 1);
            runs_are_alike(groups, at - 1, at - 1);
        }
    }
}

proof fn run_start_is_not_above<G>(groups: Seq<G>, at: int)
    requires
        0 <= at < groups.len(),
    ensures
        0 <= run_start(groups, at) <= at,
    decreases at,
{
    if at > 0 && groups[at - 1] == groups[at] {
        run_start_is_not_above(groups, at - 1);
    }
}

proof fn the_next_other_is_next<G>(groups: Seq<G>, g: G, from: int)
    requires
        0 < from <= groups.len(),
    ensures
        ({
            let to = next_other(groups, g, from);
            ||| from <= to < groups.len() && groups[to] != g && forall|k: int|
                from <= k < to ==> #[trigger] groups[k] == g
            ||| to == 0 && forall|k: int| from <= k < groups.len() ==> #[trigger] groups[k] == g
        }),
    decreases groups.len() - from,
{
    if from < groups.len() && groups[from] == g {
        the_next_other_is_next(groups, g, from + 1);
    }
}

/// A skip forward goes to the nearest entry below of another group; where there
/// is none, to the top.
pub proof fn skipping_goes_to_the_next_group<G>(groups: Seq<G>, at: int)
    requires
        0 <= at < groups.len(),
    ensures
        ({
            let to = next_group(groups, at);
            ||| at < to < groups.len() && groups[to] != groups[at] && forall|k: int|
                at < k < to ==> #[trigger] groups[k] == groups[at]
            ||| to == 0 && forall|k: int| at < k < groups.len() ==> #[trigger] groups[k] == groups[at]
        }),
{
    the_next_other_is_next(groups, groups[at], at + 1);
}

/// A skip back goes to the first entry of the group above; from the first group
/// it goes to the end.
pub proof fn skipping_back_goes_to_the_group_above<G>(groups: Seq<G>, at: int)
    requires
        0 <= at < groups.len(),
    ensures
        ({
            let to = prev_group(groups, at);
            if forall|j: int| 0 <= j <= at ==> #[trigger] groups[j] == groups[at] {
                to == groups.len() - 1
            } else {
                &&& 0 <= to < at
                &&& to > 0 ==> groups[to - 1] != groups[to]
                &&& exists|s: int| to < s <= at && #[trigger] parts_runs(groups, to, s, at)
            }
        }),
{
    let start = run_start(groups, at);
    run_start_is_not_above(groups, at);
    runs_are_alike(groups, at, at);
    assert forall|j: int| start <= j <= at implies #[trigger] groups[j] == groups[at] by {
        runs_are_alike(groups, at, j);
    }
    if start > 0 {
        assert(groups[start - 1] != groups[at]);
        run_start_is_not_above(groups, start - 1);
        runs_are_alike(groups, start - 1, start - 1);
        let to = run_start(groups, start - 1);
        assert forall|j: int| to <= j < start implies #[trigger] groups[j] == groups[to] by {
            runs_are_alike(groups, start - 1, j);
            runs_are_alike(groups, start - 1, to);
        }
        runs_are_alike(groups, start - 1, to);
        assert(parts_runs(groups, to, start, at));
        assert(prev_group(groups, at) == to);
        assert(groups[to] == groups[start - 1]);
        assert(to > 0 ==> groups[to - 1] != groups[to]);
        assert(!(forall|j: int| 0 <= j <= at ==> #[trigger] groups[j] == groups[at]));
    } else {
        assert forall|j: int| 0 <= j <= at implies #[trigger] groups[j] == groups[at] by {
            assert(start <= j);
        }
    }
}

/// One group reaches from `to` up to `s`, and another from there to `at`.
pub open spec fn parts_runs<G>(groups: Seq<G>, to: int, s: int, at: int) -> bool {
    &&& forall|j: int| to <= j < s ==> #[trigger] groups[j] == groups[to]
    &&& forall|j: int| s <= j <= at ==> #[trigger] groups[j] == groups[at]
    &&& groups[to] != groups[at]
}

/// Albums are grouped by their year, and entries of the sidebar by a letter.
pub proof fn groups_are_years_and_letters(app: App, i: int, j: int)
    requires
        0 <= i < app.lists.album_list@.len(),
        0 <= j < app.nav.sidebar_items@.len(),
    ensures
        album_groups(app.lists.album_list@).len() == app.lists.album_list@.len(),
        album_groups(app.lists.album_list@)[i] == app.lists.album_list@[i].year,
        entry_letters(app.nav.sidebar_items@).len() == app.nav.sidebar_items@.len(),
        entry_letters(app.nav.sidebar_items@)[j] == crate::format::first_upper(
            app.nav.sidebar_items@[j]@.jump_text(),
        ),
{
}

/// One step up or down in a list of tracks moves the selection by one, within
/// the list, and changes no track.
pub proof fn stepping_moves_by_one(before: App, up: App, down: App)
    requires
        up.stepped_up(&before),
        down.stepped_down(&before),
        before.nav.active_panel == Panel::TrackList,
        before.lists.track_selected < before.lists.track_list@.len(),
    ensures
        before.lists.track_selected > 0 ==> up.lists.track_selected == before.lists.track_selected - 1,
        before.lists.track_selected == 0 ==> up.lists.track_selected == 0,
        before.lists.track_selected + 1 < before.lists.track_list@.len() ==> down.lists.track_selected
            == before.lists.track_selected + 1,
        before.lists.track_selected + 1 == before.lists.track_list@.len() ==> down.lists.track_selected
            == before.lists.track_selected,
        up.lists.track_list == before.lists.track_list,
        down.lists.track_list == before.lists.track_list,
{
    assert(before.lists.track_list.len() == before.lists.track_list@.len());
}

/// One step in the sidebar, the albums, the queue and the files of the device
/// moves that selection by one, within the list.
pub proof fn steps_move_what_has_the_focus(before: App, up: App, down: App)
    requires
        up.stepped_up(&before),
        down.stepped_down(&before),
        before.nav.sidebar_selected < before.nav.sidebar_items@.len(),
        before.lists.album_selected < before.lists.album_list@.len(),
        before.sync.queue_selected < before.sync.queue@.len(),
        before.device.selected < before.device.tracks@.len(),
    ensures
        match before.nav.active_panel {
            Panel::SyncQueue => {
                &&& before.sync.queue_selected > 0 ==> up.sync.queue_selected == before.sync.queue_selected
                    - 1
                &&& before.sync.queue_selected == 0 ==> up.sync.queue_selected == 0
                &&& before.sync.queue_selected + 1 < before.sync.queue@.len() ==> down.sync.queue_selected
                    == before.sync.queue_selected + 1
                &&& before.sync.queue_selected + 1 == before.sync.queue@.len() ==> down == before
                &&& up.sync.queue == before.sync.queue
            },
            Panel::Device => {
                &&& before.device.selected > 0 ==> up.device.selected == before.device.selected - 1
                &&& before.device.selected + 1 < before.device.tracks@.len() ==> down.device.selected
                    == before.device.selected + 1
                &&& before.device.selected + 1 == before.device.tracks@.len() ==> down == before
            },
            Panel::Albums => {
                &&& before.lists.album_selected > 0 ==> up.lists.album_selected
                    == before.lists.album_selected - 1
                &&& before.lists.album_selected == 0 ==> up == before
                &&& before.lists.album_selected + 1 < before.lists.album_list@.len()
                    ==> down.lists.album_selected == before.lists.album_selected + 1
                &&& before.lists.album_selected + 1 == before.lists.album_list@.len() ==> down == before
            },
            Panel::Library => {
                &&& before.nav.sidebar_selected > 0 ==> up.nav.sidebar_selected
                    == before.nav.sidebar_selected - 1
                &&& before.nav.sidebar_selected == 0 ==> up == before
                &&& before.nav.sidebar_selected + 1 < before.nav.sidebar_items@.len()
                    ==> down.nav.sidebar_selected == before.nav.sidebar_selected + 1
                &&& before.nav.sidebar_selected + 1 == before.nav.sidebar_items@.len() ==> down == before
            },
            Panel::TrackList => true,
        },
{
    assert(before.sync.queue.len() == before.sync.queue@.len());
    assert(before.device.tracks.len() == before.device.tracks@.len());
    assert(before.lists.album_list.len() == before.lists.album_list@.len());
    assert(before.nav.sidebar_items.len() == before.nav.sidebar_items@.len());
}

/// In the sidebar a skip forward goes to the nearest entry below that starts with
/// another letter, and in the albums to the nearest of another year.
pub proof fn skips_go_by_letter_and_year(before: App, after: App, k: int)
    requires
        after.skipped(&before, true),
        before.nav.sidebar_selected < before.nav.sidebar_items@.len(),
        before.lists.album_selected < before.lists.album_list@.len(),
    ensures
        before.nav.active_panel == Panel::Albums && before.lists.album_selected < k
            < before.lists.album_list@.len() && before.lists.album_list@[k].year
            != before.lists.album_list@[before.lists.album_selected as int].year
            ==> before.lists.album_selected < after.lists.album_selected <= k
            && before.lists.album_list@[after.lists.album_selected as int].year
            != before.lists.album_list@[before.lists.album_selected as int].year,
        before.nav.active_panel == Panel::Library && before.nav.sidebar_selected < k
            < before.nav.sidebar_items@.len() && first_upper(before.nav.sidebar_items@[k]@.jump_text())
            != first_upper(
            before.nav.sidebar_items@[before.nav.sidebar_selected as int]@.jump_text(),
        ) ==> before.nav.sidebar_selected < after.nav.sidebar_selected <= k,
{
    assert(before.lists.album_list.len() == before.lists.album_list@.len());
    assert(before.nav.sidebar_items.len() == before.nav.sidebar_items@.len());
    if before.nav.active_panel == Panel::Albums {
        let years = album_groups(before.lists.album_list@);
        let at = before.lists.album_selected as int;
        skipping_goes_to_the_next_group(years, at);
        if at < k < years.len() && years[k] != years[at] {
            assert(next_group(years, at) <= k);
        }
    }
    if before.nav.active_panel == Panel::Library {
        let letters = entry_letters(before.nav.sidebar_items@);
        let at = before.nav.sidebar_selected as int;
        skipping_goes_to_the_next_group(letters, at);
        if at < k < letters.len() && letters[k] != letters[at] {
            assert(next_group(letters, at) <= k);
        }
    }
}

/// Stems that could not be played leave the file playing and the stems off; a file
/// that could not be gone back to leaves the stems as they are.
pub proof fn failed_swaps_leave_what_plays(
    before: App,
    after: App,
    error: String,
    to_stems: bool,
    audio: Seq<AudioCommand>,
    audio_after: Seq<AudioCommand>,
)
    requires
        after.audio_handled(&before, AudioEvent::SwapFailed { error, to_stems }, audio, audio_after),
    ensures
        audio_after == audio,
        after.player == before.player,
        to_stems ==> after.stems.state.status == StemStatus::Off,
        !to_stems ==> after.stems == before.stems,
{
}

/// A track that cannot be played leaves nothing playing, and says why.
pub proof fn unplayable_tracks_stop_playback(
    before: App,
    after: App,
    msg: String,
    audio: Seq<AudioCommand>,
    audio_after: Seq<AudioCommand>,
)
    requires
        after.audio_handled(&before, AudioEvent::PlaybackError(msg), audio, audio_after),
    ensures
        after.player.now_playing is None,
        audio_after == audio,
        after.says("Playback: "@ + msg@, true),
        after.player.local_plays == before.player.local_plays,
{
}

} // verus!
