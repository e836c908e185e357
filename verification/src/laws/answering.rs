//! Keys: what a question does when it is answered, and what is asked first.
use vstd::prelude::*;
use crate::app::keys::{is_quit, Sent};
use crate::app::modals::{is_no, is_yes};
use crate::app::{slot_of, App, SyncState};
use crate::commands::{AudioCommand, BgCommand, HostRequest};
use crate::input::{typed, KeyCode, KeyEvent};
use crate::laws::playing::{plays_row, the_next_track_follows, the_previous_track_precedes};
use crate::types::{BrowseMode, DeviceStatus, KeyOutcome, Panel, SidebarMode, StemStatus};

verus! {

/// Typing adds the character at the end, and backspace takes the last one away:
/// one undoes the other.
pub proof fn typing_adds_and_backspace_takes(text: Seq<char>, c: char)
    ensures
        typed(text, KeyCode::Char(c)).len() == text.len() + 1,
        typed(text, KeyCode::Char(c)).last() == c,
        typed(typed(text, KeyCode::Char(c)), KeyCode::Backspace) == text,
        typed(text, KeyCode::Enter) == text,
        text.len() == 0 ==> typed(text, KeyCode::Backspace) == text,
        text.len() > 0 ==> typed(text, KeyCode::Backspace) == text.take(text.len() - 1),
{
    assert(text.push(c).drop_last() =~= text);
    if text.len() > 0 {
        assert(text.drop_last() =~= text.take(text.len() - 1));
    }
}

/// No key both accepts and declines.
pub proof fn answers_are_clear(code: KeyCode)
    ensures
        !(is_yes(code) && is_no(code)),
        is_yes(KeyCode::Enter) && is_yes(KeyCode::Char('y')),
        is_no(KeyCode::Esc) && is_no(KeyCode::Char('n')),
{
}

/// Files leave the device only after the question was accepted, and then those
/// that it was about.
pub proof fn removal_waits_for_the_answer(
    before: App,
    after: App,
    code: KeyCode,
    sent: Seq<BgCommand>,
    sent_after: Seq<BgCommand>,
)
    requires
        after.removal_pressed(&before, code, sent, sent_after),
        before.removal.pending_removal is Some,
    ensures
        code == KeyCode::Enter || code == KeyCode::Char('y') || code == KeyCode::Char('Y') ==> {
            &&& sent_after.len() == sent.len() + 1
            &&& sent_after.last() == BgCommand::RemoveFromDevice(before.removal.pending_removal->0)
            &&& after.removal.removal_queue@.len() == 0
            &&& after.removal.pending_removal is None
        },
        !(code == KeyCode::Enter || code == KeyCode::Char('y') || code == KeyCode::Char('Y')) ==> sent_after
            == sent && after.removal.removal_queue == before.removal.removal_queue,
        code == KeyCode::Esc || code == KeyCode::Char('n') || code == KeyCode::Char('N')
            ==> after.removal.pending_removal is None,
{
}

/// The question before a removal is about the whole queue, and changes nothing
/// yet.
pub proof fn removals_are_asked_about(before: App, after: App)
    requires
        after.removal_asked(&before),
    ensures
        after.removal.removal_queue == before.removal.removal_queue,
        after.out == before.out,
        before.nav.browse_mode == BrowseMode::Device && before.removal.removal_queue@.len() > 0
            ==> after.removal.pending_removal is Some && after.removal.pending_removal->0@
            == before.removal.removal_queue@,
        before.nav.browse_mode != BrowseMode::Device ==> after == before,
{
}

/// A playlist is deleted only after the question was accepted.
pub proof fn deletion_waits_for_the_answer(before: App, after: App, code: KeyCode)
    requires
        after.deletion_pressed(&before, code),
        before.playlists.pending_delete is Some,
        !(code == KeyCode::Enter || code == KeyCode::Char('y') || code == KeyCode::Char('Y')),
    ensures
        after.playlists.store == before.playlists.store,
        code == KeyCode::Esc || code == KeyCode::Char('n') ==> after.playlists.pending_delete is None,
        !(code == KeyCode::Esc || code == KeyCode::Char('n')) ==> after == before,
{
}

/// The question whether to delete is about the selected playlist.
pub proof fn deletion_is_of_the_selected_playlist(before: App, after: App)
    requires
        after.deletion_asked(&before),
        before.nav.sidebar_selected < before.nav.sidebar_items@.len(),
        before.nav.sidebar_items@[before.nav.sidebar_selected as int] is Playlist,
    ensures
        after.playlists.pending_delete == Some(
            before.nav.sidebar_items@[before.nav.sidebar_selected as int]->Playlist_id,
        ),
        after.playlists.store == before.playlists.store,
{
}

/// Accepting a deletion deletes the playlist that it was about.
pub proof fn accepted_deletion_deletes(before: App, after: App, x: u64)
    requires
        after.deletion_pressed(&before, KeyCode::Enter),
        before.playlists.pending_delete is Some,
        before.playlists.store.valid(),
    ensures
        crate::laws::picking::has_playlist(after.playlists.store.playlists@, x)
            <==> crate::laws::picking::has_playlist(before.playlists.store.playlists@, x) && Some(x)
            != before.playlists.pending_delete,
{
    crate::laws::picking::only_the_deleted_playlist_goes(
        App::deletion_answered(before),
        after,
        before.playlists.pending_delete->0,
        x,
    );
}

/// The playback cache is cleared only after the question was accepted.
pub proof fn clearing_waits_for_the_answer(before: App, after: App, code: KeyCode)
    requires
        after.cache_pressed(&before, code),
        before.popup.pending_cache_clear,
    ensures
        code == KeyCode::Enter || code == KeyCode::Char('y') || code == KeyCode::Char('Y')
            ==> after.out.host_requests@ == before.out.host_requests@.push(
            HostRequest::ClearPlaybackCache,
        ) && !after.popup.pending_cache_clear,
        !(code == KeyCode::Enter || code == KeyCode::Char('y') || code == KeyCode::Char('Y'))
            ==> after.out == before.out,
{
}

/// An engine is installed only after the question was accepted, and then the one
/// that it was about.
pub proof fn installing_waits_for_the_answer(before: App, after: App, code: KeyCode)
    requires
        after.consent_pressed(&before, code),
        before.stems.state.consent is Some,
        before.stems.state.job_gen < u64::MAX,
    ensures
        code == KeyCode::Enter || code == KeyCode::Char('y') || code == KeyCode::Char('Y') ==> {
            let c = before.stems.state.consent->0;
            &&& after.out.pending_bg_commands@.last() is ProvisionStemEngine
            &&& after.out.pending_bg_commands@.last()->ProvisionStemEngine_engine == c.engine
            &&& after.out.pending_bg_commands@.last()->ProvisionStemEngine_package == c.package
            &&& after.out.pending_bg_commands@.last()->ProvisionStemEngine_gpu == c.gpu
            &&& after.stems.state.status == StemStatus::Provisioning
            &&& after.stems.state.consent is None
        },
        !(code == KeyCode::Enter || code == KeyCode::Char('y') || code == KeyCode::Char('Y'))
            ==> after.out == before.out && after.stems.state.status == before.stems.state.status,
{
}

/// `q` and Ctrl-C quit, and no other key does.
pub proof fn quitting_takes_its_keys(key: KeyEvent)
    ensures
        is_quit(key) <==> key.code == KeyCode::Char('q') || (key.code == KeyCode::Char('c') && key.ctrl),
{
}

/// Digits switch the stem of their number, from one on, while the stems are shown.
pub proof fn digits_switch_their_stem(app: App, c: char)
    ensures
        app.stem_of_key(KeyCode::Char(c)) matches Some(i) ==> {
            &&& c as int == '1' as int + i
            &&& 0 <= i < app.stems.state.layout->0.size()
            &&& app.stems.state.status == StemStatus::Active
            &&& app.shows_strip()
        },
        app.stems.state.status != StemStatus::Active ==> app.stem_of_key(KeyCode::Char(c)) is None,
        app.stems.state.status == StemStatus::Active && app.shows_strip() && app.stems.state.layout is Some
            && '1' <= c <= '8' && (c as int) - ('1' as int) < app.stems.state.layout->0.size()
            ==> app.stem_of_key(KeyCode::Char(c)) is Some,
{
}

/// The keys beside the space key move five seconds back and on.
pub proof fn scrubbing_moves_five_seconds(
    before: App,
    back: App,
    on: App,
    audio: Seq<AudioCommand>,
    audio_back: Seq<AudioCommand>,
    audio_on: Seq<AudioCommand>,
)
    requires
        back.player_pressed(&before, '<', audio, audio_back),
        on.player_pressed(&before, '>', audio, audio_on),
        before.player.now_playing is Some,
    ensures
        audio_back.last() is Scrub && audio_back.last()->Scrub_delta_ms == -5000,
        audio_on.last() is Scrub && audio_on.last()->Scrub_delta_ms == 5000,
        back == before && on == before,
{
}

/// Escape cancels a sync that runs, and dismisses the message.
pub proof fn escape_cancels_a_sync(
    before: App,
    after: App,
    sent: Seq<BgCommand>,
    sent_after: Seq<BgCommand>,
)
    requires
        after.escape_pressed(&before, sent, sent_after),
    ensures
        after.toast_message is None,
        before.sync.status is Running ==> sent_after.len() == sent.len() + 1 && sent_after.last()
            == BgCommand::CancelSync && after.playlists.pending_imports@.len() == 0,
        !(before.sync.status is Running) ==> sent_after == sent && after.playlists == before.playlists,
        after.sync.queue == before.sync.queue,
{
}

/// The delete key acts on what has the focus: an entry of the queue, a playlist,
/// a track of a playlist. Elsewhere it disconnects the device.
pub proof fn deleting_acts_on_the_focus(
    before: App,
    after: App,
    sent: Seq<BgCommand>,
    sent_after: Seq<BgCommand>,
)
    requires
        after.delete_pressed(&before, sent, sent_after),
        before.sync.on_entry(),
    ensures
        before.nav.active_panel == Panel::SyncQueue && before.sync.queue@.len() > 0 ==> sent_after == sent
            && after.sync.queue@.len() == before.sync.queue@.len() - 1 && after.device == before.device,
        before.nav.active_panel == Panel::Library && before.nav.browse_mode == BrowseMode::Playlists
            ==> sent_after == sent && after.playlists.store == before.playlists.store && after.device
            == before.device,
        before.nav.active_panel == Panel::Albums && before.device.status == DeviceStatus::Connected
            ==> sent_after.len() == sent.len() + 1 && sent_after.last() == BgCommand::Disconnect,
        before.device.status == DeviceStatus::Disconnected ==> sent_after == sent,
{
}

/// The connect key seeks a device only where none is connected, and cancels a rip
/// where one runs.
pub proof fn connecting_takes_no_second_device(
    before: App,
    after: App,
    sent: Seq<BgCommand>,
    sent_after: Seq<BgCommand>,
)
    requires
        after.connect_pressed(&before, sent, sent_after),
    ensures
        before.cd.rip is None && before.device.status == DeviceStatus::Disconnected ==> sent_after.len()
            == sent.len() + 1 && sent_after.last() == BgCommand::Connect && after.device.status
            == DeviceStatus::Detecting && !after.device.ignore_session_events,
        before.device.status == DeviceStatus::Connected ==> sent_after == sent && after.device
            == before.device,
        before.cd.rip is Some ==> sent_after == sent && after.out.pending_bg_commands@.last()
            == BgCommand::CancelRip,
{
}

/// A device that was disconnected is forgotten: nothing is listed as being on it,
/// and what it still reports is ignored.
pub proof fn a_disconnected_device_is_forgotten(
    before: App,
    after: App,
    sent: Seq<BgCommand>,
    sent_after: Seq<BgCommand>,
    artist: Seq<char>,
    title: Seq<char>,
)
    requires
        after.disconnected(&before, sent, sent_after),
    ensures
        sent_after.len() == sent.len() + 1,
        sent_after.last() == BgCommand::Disconnect,
        after.device.status == DeviceStatus::Disconnected,
        after.device.ignore_session_events,
        !after.device.holds(artist, title),
        after.nav.browse_mode != BrowseMode::Device,
        !after.lists.artist_device_status@.contains_key(artist),
{
    let mid = choose|mid: App| #[trigger]
        mid.unplugged(&before) && exists|bare: App| #[trigger]
            bare.index_cleared(&mid) && after.only_says(&bare, "Disconnected"@, false);
    let bare = choose|bare: App| #[trigger]
        bare.index_cleared(&mid) && after.only_says(&bare, "Disconnected"@, false);
    assert(bare.device.status == DeviceStatus::Disconnected);
}

/// The log scrolls by as many lines as asked for, and stays within it; down undoes
/// up where up met no end.
pub proof fn the_log_scrolls_within_itself(a: SyncState, up: SyncState, back: SyncState, n: int)
    requires
        up.scrolled_up(&a, n),
        back.scrolled_down(&up, n),
        n >= 0,
    ensures
        a.log@.len() > 0 ==> up.log_scroll < a.log@.len(),
        a.log_scroll + n < a.log@.len() ==> up.log_scroll == a.log_scroll + n && back.log_scroll
            == a.log_scroll,
        up.log == a.log && back.log == a.log,
{
}

/// Every pair of modes remembers its own selection.
pub proof fn selections_are_remembered_apart(a: BrowseMode, s: SidebarMode, b: BrowseMode, t: SidebarMode)
    ensures
        0 <= slot_of(a, s) < 6,
        slot_of(a, s) == slot_of(b, t) <==> a == b && s == t,
{
}

/// The rename key takes the selected playlist and its name.
pub proof fn renaming_starts_from_the_name(before: App, after: App)
    requires
        after.rename_opened(&before),
        before.nav.browse_mode == BrowseMode::Playlists,
        before.nav.sidebar_selected < before.nav.sidebar_items@.len(),
        before.nav.sidebar_items@[before.nav.sidebar_selected as int] is Playlist,
    ensures
        after.playlists.rename_target == Some(
            before.nav.sidebar_items@[before.nav.sidebar_selected as int]->Playlist_id,
        ),
        after.playlists.name_input == Some(
            before.nav.sidebar_items@[before.nav.sidebar_selected as int]->Playlist_name,
        ),
{
}

/// In the list of a device the add key removes and does not upload.
pub proof fn a_device_is_not_uploaded_to_itself(before: App, after: App)
    requires
        after.add_pressed(&before),
        before.nav.browse_mode == BrowseMode::Device,
    ensures
        after.sync.queue == before.sync.queue,
        after.out == before.out,
{
}

/// Clearing in the list of a device empties the removals, and elsewhere the
/// uploads.
pub proof fn clearing_empties_one_queue(before: App, after: App)
    requires
        after.clear_pressed(&before),
        before.nav.browse_mode == BrowseMode::Device,
    ensures
        after.removal.removal_queue@.len() == 0,
        after.sync.queue == before.sync.queue,
{
}

/// An entry of the sidebar that is an artist or an album renames nothing.
pub proof fn only_playlists_are_renamed(before: App, after: App)
    requires
        after.rename_opened(&before),
        before.nav.sidebar_selected < before.nav.sidebar_items@.len(),
        !(before.nav.sidebar_items@[before.nav.sidebar_selected as int] is Playlist),
    ensures
        after == before,
{
}

/// While a name is typed every character goes into it: none quits, and none moves.
pub proof fn typing_a_name_does_nothing_else(
    before: App,
    after: App,
    c: char,
    sent: Seq<BgCommand>,
    sent_after: Seq<BgCommand>,
)
    requires
        after.modal_pressed(&before, KeyCode::Char(c), sent, sent_after),
        before.playlists.name_input is Some,
    ensures
        after.playlists.name_input is Some,
        after.playlists.name_input->0@ == before.playlists.name_input->0@.push(c),
        after.should_quit == before.should_quit,
        after.nav == before.nav,
        sent_after == sent,
{
}

/// The same holds while a search is typed.
pub proof fn typing_a_search_does_nothing_else(
    before: App,
    after: App,
    c: char,
    sent: Seq<BgCommand>,
    sent_after: Seq<BgCommand>,
)
    requires
        after.modal_pressed(&before, KeyCode::Char(c), sent, sent_after),
        before.nav.search_active,
        before.playlists.name_input is None && before.playlists.form is None,
        before.playlists.picker is None && before.playlists.pending_delete is None,
    ensures
        after.nav.search_query@ == before.nav.search_query@.push(c),
        after.should_quit == before.should_quit,
        sent_after == sent,
{
}

/// A key goes to a question, an input or an overlay exactly where one is open.
pub proof fn open_questions_take_the_key(app: App)
    ensures
        app.has_modal() <==> app.playlists.name_input is Some || app.playlists.form is Some
            || app.playlists.picker is Some || app.playlists.pending_delete is Some
            || app.nav.search_active || app.themes.show_picker || app.stems.panel is Some
            || app.popup.pending_cache_clear || app.stems.state.consent is Some
            || app.stems.bulk_confirm is Some || app.removal.pending_removal is Some
            || app.popup.show_help || app.tags.manager is Some || app.popup.show_track_info,
{
}

/// The worker's keys: `S` sends the queue to a connected device, `r` reads the
/// device again, `m` opens the tag manager, and `U` removes duplicates in the list
/// of the device only.
pub proof fn worker_keys_do_their_work(
    before: App,
    sync: App,
    read: App,
    dedupe: App,
    sent: Seq<BgCommand>,
    sent_sync: Seq<BgCommand>,
    sent_read: Seq<BgCommand>,
    sent_dedupe: Seq<BgCommand>,
)
    requires
        sync.worker_pressed(&before, 'S', sent, sent_sync),
        read.worker_pressed(&before, 'r', sent, sent_read),
        dedupe.worker_pressed(&before, 'U', sent, sent_dedupe),
    ensures
        before.sync.queue@.len() > 0 && before.device.status == DeviceStatus::Connected ==> sent_sync.len()
            == sent.len() + 1 && sent_sync.last() is ExecuteSyncQueue && sync.nav.active_panel
            == Panel::SyncQueue,
        before.sync.queue@.len() == 0 ==> sent_sync == sent && sync == before,
        before.device.status == DeviceStatus::Connected ==> sent_read.len() == sent.len() + 1
            && sent_read.last() == BgCommand::LoadDeviceTracks,
        before.device.status != DeviceStatus::Connected ==> sent_read == sent,
        before.nav.browse_mode != BrowseMode::Device ==> sent_dedupe == sent && dedupe == before,
{
}

/// The editing keys: `N` starts a playlist among playlists, `D` asks about the
/// removals, and `A` queues what is listed.
pub proof fn editing_keys_do_their_work(before: App, named: App, asked: App, all: App)
    requires
        named.edit_pressed(&before, 'N'),
        asked.edit_pressed(&before, 'D'),
        all.edit_pressed(&before, 'A'),
    ensures
        before.nav.browse_mode == BrowseMode::Playlists ==> named.playlists.name_input is Some
            && named.playlists.name_input->0@.len() == 0 && named.playlists.rename_target is None,
        before.nav.browse_mode != BrowseMode::Playlists ==> named == before,
        before.nav.browse_mode == BrowseMode::Device && before.removal.removal_queue@.len() > 0
            ==> asked.removal.pending_removal is Some,
        before.nav.browse_mode == BrowseMode::Device ==> all.sync.queue == before.sync.queue,
        before.nav.browse_mode != BrowseMode::Device && before.nav.active_panel != Panel::TrackList ==> all
            == before,
        named.out == before.out && asked.out == before.out,
{
}

/// A key that quits does nothing else; any other does not quit.
pub proof fn only_quitting_quits(
    before: App,
    after: App,
    key: KeyEvent,
    sent: Sent,
    sent_after: Sent,
    outcome: KeyOutcome,
)
    requires
        after.global_pressed(&before, key, sent, sent_after, outcome),
    ensures
        key.code == KeyCode::Char('q') ==> after.should_quit && sent_after == sent && outcome
            == KeyOutcome::Quit && after.lists == before.lists,
        key.code == KeyCode::Char('c') && key.ctrl ==> after.should_quit && outcome == KeyOutcome::Quit,
        !(key.code == KeyCode::Char('q') || key.code == KeyCode::Char('c') && key.ctrl) ==> outcome
            == KeyOutcome::Continue,
{
}

/// The details of a track scroll by one row or by ten, and start at the top.
pub proof fn details_scroll_by_rows_and_pages(before: App, down: App, page: App, up: App, top: App)
    requires
        down.info_pressed(&before, KeyCode::Down),
        page.info_pressed(&before, KeyCode::PageDown),
        up.info_pressed(&before, KeyCode::Up),
        top.info_pressed(&before, KeyCode::Char('g')),
        before.popup.track_info_scroll < 1000000,
    ensures
        down.popup.track_info_scroll == before.popup.track_info_scroll + 1,
        page.popup.track_info_scroll == before.popup.track_info_scroll + 10,
        before.popup.track_info_scroll > 0 ==> up.popup.track_info_scroll
            == before.popup.track_info_scroll - 1,
        before.popup.track_info_scroll == 0 ==> up.popup.track_info_scroll == 0,
        top.popup.track_info_scroll == 0,
        down.popup.show_track_info == before.popup.show_track_info,
{
}

/// The player's keys: space pauses and resumes, `n` plays the row that follows and
/// `p` the one before.
pub proof fn player_keys_do_their_work(
    before: App,
    space: App,
    next: App,
    back: App,
    sent: Sent,
    sent_space: Sent,
    sent_next: Sent,
    sent_back: Sent,
)
    requires
        space.char_pressed(&before, ' ', sent, sent_space),
        next.char_pressed(&before, 'n', sent, sent_next),
        back.char_pressed(&before, 'p', sent, sent_back),
        before.player.now_playing is Some,
        before.player.now_playing->0.track_index < usize::MAX,
    ensures
        space.player.now_playing is Some,
        space.player.now_playing->0.state != before.player.now_playing->0.state,
        sent_space.audio.len() == sent.audio.len() + 1,
        ({
            let np = before.player.now_playing->0;
            let i = np.track_index as int;
            let rows = np.playlist@;
            &&& i + 1 < rows.len() && rows[i + 1].location is Some ==> plays_row(
                next,
                rows,
                i + 1,
                sent.audio,
                sent_next.audio,
            )
            &&& i > 0 && np.elapsed_ms <= 3000 && rows[i - 1].location is Some ==> plays_row(
                back,
                rows,
                i - 1,
                sent.audio,
                sent_back.audio,
            )
        }),
        sent_space.bg == sent.bg && sent_next.bg == sent.bg && sent_back.bg == sent.bg,
{
    the_next_track_follows(before, next, sent.audio, sent_next.audio);
    the_previous_track_precedes(before, back, sent.audio, sent_back.audio);
}

/// The worker's and the editing keys are taken among all others.
pub proof fn worker_and_editing_keys_are_taken(before: App, after: App, c: char, sent: Sent, sent_after: Sent)
    requires
        after.char_pressed(&before, c, sent, sent_after),
    ensures
        c == 'S' || c == 'r' || c == 'U' || c == 'm' || c == 'c' || c == 'd' ==> after.worker_pressed(
            &before,
            c,
            sent.bg,
            sent_after.bg,
        ) && sent_after.audio == sent.audio,
        c == 'a' || c == 'A' || c == 'D' || c == 'C' || c == 'N' || c == 'e' || c == 'G' || c == 'R' || c
            == 'M' || c == '+' ==> after.edit_pressed(&before, c) && sent_after == sent,
{
}

/// The stem key splits the album under the cursor in the sidebar of the library,
/// and elsewhere the track that plays.
pub proof fn the_stem_key_takes_album_or_track(before: App, after: App)
    requires
        after.edit_pressed(&before, 'M'),
    ensures
        before.nav.browse_mode == BrowseMode::Library && before.nav.active_panel == Panel::Library
            && before.nav.sidebar_selected < before.nav.sidebar_items@.len()
            && before.nav.sidebar_items@[before.nav.sidebar_selected as int] is Album
            ==> after.album_split_pressed(&before),
        before.nav.browse_mode != BrowseMode::Library || before.nav.active_panel != Panel::Library
            ==> after.split_pressed(&before),
{
}

/// An album is split only after the question was accepted.
pub proof fn splitting_an_album_waits_for_the_answer(before: App, after: App, code: KeyCode)
    requires
        after.bulk_pressed(&before, code),
        before.stems.bulk_confirm is Some,
        before.has_engine(before.stems.bulk_confirm->0.recipe.driver()),
    ensures
        code == KeyCode::Enter || code == KeyCode::Char('y') || code == KeyCode::Char('Y')
            ==> after.out.pending_bg_commands@.len() == before.out.pending_bg_commands@.len() + 1
            && after.out.pending_bg_commands@.last() is SeparateStemsBatch,
        !(code == KeyCode::Enter || code == KeyCode::Char('y') || code == KeyCode::Char('Y'))
            ==> after.out == before.out && after.stems.batch == before.stems.batch,
        code == KeyCode::Esc || code == KeyCode::Char('n') || code == KeyCode::Char('N')
            ==> after.stems.bulk_confirm is None,
{
}

/// The stem cache is cleared only after a question, which is put only where there
/// is something to clear.
pub proof fn clearing_stems_waits_for_the_answer(before: App, asked: App, yes: App, no: App)
    requires
        asked.panel_pressed(&before, KeyCode::Char('c')),
        before.stems.panel is Some,
        !before.stems.panel->0.confirm_uninstall && !before.stems.panel->0.confirm_clear_cache,
        before.stems.state.status == StemStatus::Off,
        before.stems.cfg.cache_dir is Some,
        before.host.stems_cache_bytes > 0,
        yes.panel_pressed(&asked, KeyCode::Enter),
        no.panel_pressed(&asked, KeyCode::Esc),
    ensures
        asked.out == before.out,
        asked.stems.panel is Some && asked.stems.panel->0.confirm_clear_cache,
        yes.out.pending_bg_commands@.len() == before.out.pending_bg_commands@.len() + 1,
        yes.out.pending_bg_commands@.last() is ClearStemCache,
        no.out == before.out,
        no.stems.panel is Some && !no.stems.panel->0.confirm_clear_cache,
{
}

/// In the queue the clear key empties it, with the playlists that were to follow;
/// in other panels of the library it does nothing.
pub proof fn clearing_the_queue_takes_the_queue(before: App, after: App)
    requires
        after.clear_pressed(&before),
        before.nav.browse_mode != BrowseMode::Device,
    ensures
        before.nav.active_panel == Panel::SyncQueue ==> after.sync.queue@.len() == 0
            && after.playlists.pending_imports@.len() == 0 && after.sync.queue_selected == 0,
        before.nav.active_panel != Panel::SyncQueue ==> after == before,
        after.removal == before.removal,
{
}

/// The picker moves by one within the playlists, and escape closes it with nothing
/// added.
pub proof fn the_picker_moves_by_one(before: App, up: App, down: App, left: App)
    requires
        up.picker_pressed(&before, KeyCode::Up),
        down.picker_pressed(&before, KeyCode::Char('j')),
        left.picker_pressed(&before, KeyCode::Esc),
        before.playlists.picker is Some,
        before.playlists.picker->0.selected < before.playlists.picker->0.options@.len(),
    ensures
        up.playlists.picker is Some && down.playlists.picker is Some,
        ({
            let p = before.playlists.picker->0;
            &&& p.selected > 0 ==> up.playlists.picker->0.selected == p.selected - 1
            &&& p.selected == 0 ==> up == before
            &&& p.selected + 1 < p.options@.len() ==> down.playlists.picker->0.selected == p.selected + 1
            &&& p.selected + 1 == p.options@.len() ==> down == before
        }),
        left.playlists.picker is None,
        left.playlists.store == before.playlists.store,
{
    assert(before.playlists.picker->0.options.len() == before.playlists.picker->0.options@.len());
}

/// A question about removals that is open takes the key, where no input stands
/// before it.
pub proof fn open_removals_take_the_answer(
    before: App,
    after: App,
    sent: Seq<BgCommand>,
    sent_after: Seq<BgCommand>,
)
    requires
        after.modal_pressed(&before, KeyCode::Enter, sent, sent_after),
        before.removal.pending_removal is Some,
        !before.has_plain_modal(),
    ensures
        sent_after.len() == sent.len() + 1,
        sent_after.last() == BgCommand::RemoveFromDevice(before.removal.pending_removal->0),
{
}

} // verus!
