//! Browsing: modes, searches, what a selection opens, and what art goes with it.
use vstd::prelude::*;
use crate::app::keys::Sent;
use crate::app::player::library_row;
use crate::app::select::{art_follows, art_key, row_paths};
use crate::app::sidebar::entry_rows;
use crate::app::{slot_of, App, ArtState, NavState, Outbox};
use crate::commands::{AudioCommand, BgCommand, HostRequest};
use crate::format::texts;
use crate::input::KeyCode;
use crate::laws::listing::row_holds;
use crate::text::lowercase_of;
use crate::tracks::TrackInfo;
use crate::types::{BrowseMode, DeviceStatus, Panel, SidebarEntry, SidebarMode, SidebarRow};

verus! {

/// The mode key goes from the library to the device where one is connected, else
/// to the playlists, and from there back; the focus goes to the sidebar and the
/// selection that is left is remembered.
pub proof fn modes_go_round(before: App, after: App)
    requires
        after.mode_cycled(&before),
    ensures
        before.nav.browse_mode == BrowseMode::Library && before.device.status == DeviceStatus::Connected
            ==> after.nav.browse_mode == BrowseMode::Device,
        before.nav.browse_mode == BrowseMode::Library && before.device.status != DeviceStatus::Connected
            ==> after.nav.browse_mode == BrowseMode::Playlists,
        before.nav.browse_mode == BrowseMode::Device ==> after.nav.browse_mode == BrowseMode::Playlists,
        before.nav.browse_mode == BrowseMode::Playlists ==> after.nav.browse_mode == BrowseMode::Library,
        after.nav.active_panel == Panel::Library,
        after.nav.saved_sidebar_pos.at(before.nav.browse_mode, before.nav.sidebar_mode) == Some(
            before.nav.sidebar_selected,
        ),
        after.lists.track_list@.len() == 0 && after.lists.album_list@.len() == 0,
{
}

/// A selection that was remembered is taken up again: it is the one of these
/// modes, held within the list.
pub proof fn remembered_selections_come_back(nav: NavState, len: nat, p: usize)
    requires
        nav.saved_sidebar_pos.at(nav.browse_mode, nav.sidebar_mode) == Some(p),
        len <= usize::MAX,
    ensures
        p < len ==> nav.restored(len) == p,
        0 < len <= p ==> nav.restored(len) == len - 1,
        len == 0 ==> nav.restored(len) == 0,
{
}

/// `1` lists artists and `2` albums, and both go to the sidebar.
pub proof fn digits_choose_artists_or_albums(before: App, artists: App, albums: App)
    requires
        artists.view_pressed(&before, '1'),
        albums.view_pressed(&before, '2'),
    ensures
        artists.nav.sidebar_mode == SidebarMode::Artists,
        albums.nav.sidebar_mode == SidebarMode::Albums,
        artists.nav.browse_mode == before.nav.browse_mode,
        albums.nav.browse_mode == before.nav.browse_mode,
        artists.nav.active_panel == Panel::Library,
        albums.nav.active_panel == Panel::Library,
{
}

/// A character typed into a search is added to the query, and the sidebar then
/// shows the entries that hold it; escape shows all of them again.
pub proof fn searches_narrow_the_sidebar(before: App, more: App, none: App, c: char)
    requires
        more.search_pressed(&before, KeyCode::Char(c)),
        none.search_pressed(&before, KeyCode::Esc),
        texts(before.nav.sidebar_lowercase_full@) == crate::app::sidebar::search_texts(
            entry_rows(before.nav.sidebar_items_full@),
        ),
    ensures
        more.nav.search_query@ == before.nav.search_query@.push(c),
        entry_rows(more.nav.sidebar_items@) == entry_rows(before.nav.sidebar_items_full@).filter(
            |r: SidebarRow| row_holds(r, lowercase_of(before.nav.search_query@.push(c))),
        ),
        more.nav.sidebar_items_full == before.nav.sidebar_items_full,
        none.nav.search_query@.len() == 0,
        !none.nav.search_active,
        entry_rows(none.nav.sidebar_items@) == entry_rows(before.nav.sidebar_items_full@),
{
    let a = choose|a: NavState| #[trigger]
        a.query_put(&before.nav, true, before.nav.search_query@.push(c)) && more.nav.refiltered(&a);
    crate::laws::listing::a_search_shows_what_holds_the_query(a);
    let b = choose|b: NavState| #[trigger]
        b.query_put(&before.nav, false, Seq::empty()) && none.nav.refiltered(&b);
    crate::laws::listing::a_search_shows_what_holds_the_query(b);
}

/// Enter keeps what a search found, and goes to the sidebar.
pub proof fn enter_keeps_what_was_found(before: App, after: App)
    requires
        after.search_pressed(&before, KeyCode::Enter),
    ensures
        after.nav.sidebar_items == before.nav.sidebar_items,
        after.nav.sidebar_selected == before.nav.sidebar_selected,
        !after.nav.search_active,
        after.nav.active_panel == Panel::Library,
{
}

/// Moving in the theme picker shows the theme it stands on; escape goes back to
/// the one before, and enter keeps the one shown and has it written.
pub proof fn themes_are_tried_and_kept(before: App, down: App, kept: App, left: App)
    requires
        down.theme_pressed(&before, KeyCode::Down),
        kept.theme_pressed(&before, KeyCode::Enter),
        left.theme_pressed(&before, KeyCode::Esc),
        before.themes.picker_index < before.host.theme_count <= isize::MAX,
    ensures
        down.themes.current == down.themes.picker_index,
        before.themes.picker_index + 1 < before.host.theme_count ==> down.themes.picker_index
            == before.themes.picker_index + 1,
        before.themes.picker_index + 1 == before.host.theme_count ==> down.themes.picker_index == 0,
        down.out == before.out,
        kept.themes.current == before.themes.current && !kept.themes.show_picker,
        kept.out.host_requests@ == before.out.host_requests@.push(HostRequest::SaveTheme),
        left.themes.current == before.themes.before_picker && !left.themes.show_picker,
        left.out == before.out,
{
    crate::laws::playing::rings_close(
        before.themes.picker_index as int,
        before.host.theme_count as int,
    );
}

/// Enter opens what has the focus: an entry its albums or tracks, an album its
/// tracks, a track starts to play, and the queue is sent.
pub proof fn enter_opens_what_has_the_focus(
    before: App,
    after: App,
    sent: Seq<BgCommand>,
    sent_after: Seq<BgCommand>,
    audio: Seq<AudioCommand>,
    audio_after: Seq<AudioCommand>,
)
    requires
        after.enter_pressed(&before, sent, sent_after, audio, audio_after),
    ensures
        before.nav.active_panel == Panel::Library ==> sent_after == sent && audio_after == audio && (
        after.lists.album_list@.len() > 0 ==> after.nav.active_panel == Panel::Albums) && (
        after.lists.album_list@.len() == 0 ==> after.nav.active_panel == Panel::TrackList),
        before.nav.active_panel == Panel::Albums ==> after.nav.active_panel == Panel::TrackList
            && after.lists == before.lists && audio_after == audio,
        before.nav.active_panel == Panel::TrackList && before.player.now_playing is None
            && before.lists.track_selected < before.lists.track_list@.len()
            && before.lists.track_list@[before.lists.track_selected as int].location is Some
            ==> audio_after == audio.push(
            AudioCommand::Play {
                path: before.lists.track_list@[before.lists.track_selected as int].location->0,
            },
        ),
        before.nav.active_panel == Panel::SyncQueue && before.sync.queue@.len() > 0
            && before.device.status == DeviceStatus::Connected ==> sent_after.len() == sent.len() + 1
            && sent_after.last() is ExecuteSyncQueue,
        before.nav.active_panel == Panel::Device ==> after == before && sent_after == sent,
{
}

/// Art that is shown goes with the first listed track. Art that is not there yet
/// is asked for once, by the artist and album of that track and in the files of
/// the list; without a list there is none.
pub proof fn art_goes_with_the_list(
    rows: Seq<TrackInfo>,
    art: ArtState,
    out: Outbox,
    art_after: ArtState,
    out_after: Outbox,
    path: Seq<char>,
)
    requires
        art_follows(rows, art, out, art_after, out_after),
    ensures
        rows.len() == 0 ==> art_after.album_art is None && art_after.album_art_cache is None && out_after
            == out,
        rows.len() > 0 ==> art_after.album_art_key@ == art_key(rows[0]),
        rows.len() > 0 && art.album_art_key@ == art_key(rows[0]) ==> art_after == art && out_after == out,
        rows.len() > 0 && art.album_art_key@ != art_key(rows[0]) ==> {
            let sent = out_after.pending_bg_commands@;
            &&& art_after.album_art is None && art_after.album_art_cache is None
            &&& sent.len() == out.pending_bg_commands@.len() + 1
            &&& sent.last() is LoadAlbumArt
            &&& sent.last()->LoadAlbumArt_artist == rows[0].artist
            &&& sent.last()->LoadAlbumArt_album == rows[0].album
            &&& sent.last()->LoadAlbumArt_key@ == art_after.album_art_key@
            &&& texts(sent.last()->LoadAlbumArt_paths@).contains(path) <==> exists|i: int|
                0 <= i < rows.len() && (#[trigger] rows[i]).location is Some && rows[i].location->0@ == path
        },
{
    crate::laws::listing::art_is_looked_for_in_the_files(rows, path);
    if rows.len() > 0 && art.album_art_key@ != art_key(rows[0]) {
        assert(texts(out_after.pending_bg_commands@.last()->LoadAlbumArt_paths@) == row_paths(rows));
    }
}

/// Rows of one album share their art; the key tells artist and album apart.
pub proof fn art_is_shared_by_an_album(a: TrackInfo, b: TrackInfo)
    requires
        a.artist@ == b.artist@,
    ensures
        art_key(a) == art_key(b) <==> a.album@ == b.album@,
{
    let head = a.artist@ + "/"@;
    if art_key(a) == art_key(b) {
        assert(art_key(a).skip(head.len() as int) =~= a.album@);
        assert(art_key(b).skip(head.len() as int) =~= b.album@);
    }
}

/// Another size or another style makes the cells of the art anew; what is current
/// is kept.
pub proof fn art_is_drawn_for_its_area(before: App, after: App, w: u16, h: u16)
    requires
        after.art_rendered(&before, w, h),
    ensures
        after.art.album_art_size == (w, h),
        before.art.album_art is Some ==> after.art.album_art_cache is Some,
        before.art.album_art is Some ==> after.art.album_art_cache->0.in_style(before.art.album_art_style),
        before.art.album_art is None && before.art.album_art_size != (w, h)
            ==> after.art.album_art_cache is None,
        after.art.album_art == before.art.album_art,
{
}

/// The tracks of an album of the library are listed for the entry that names it,
/// each with its id.
pub proof fn an_album_entry_lists_its_tracks(before: App, after: App, artist: String, album: String, k: int)
    requires
        after.item_listed(&before),
        before.nav.browse_mode == BrowseMode::Library,
        before.library is Some,
        before.nav.sidebar_selected < before.nav.sidebar_items@.len(),
        before.nav.sidebar_items@[before.nav.sidebar_selected as int] == (SidebarEntry::Album {
            artist,
            album,
        }),
        0 <= k < before.library->0.tracks@.len(),
        before.library->0.tracks@[k].album@ == album@,
    ensures
        crate::laws::listing::lists_id(after.lists.track_list@, before.library->0.tracks@[k].id),
        after.lists.album_list@.len() == 0,
        after.lists.track_selected == 0,
{
    let lib = before.library->0;
    let t = lib.tracks@[k];
    let tracks = lib.by_album(album@);
    crate::laws::listing::library_queries_find_what_they_name(lib, artist, album, t);
    assert(lib.tracks@.contains(t));
    let raw = choose|raw: Seq<TrackInfo>|
        #[trigger] before.lists_tracks(raw, tracks) && after.lists.track_list@
            == crate::app::select::column_sorted(
            raw,
            before.lists.sort_column,
            before.lists.sort_ascending,
        );
    let q = tracks.index_of(t);
    assert(raw[q].library_id == Some(t.id));
    let column = before.lists.sort_column;
    let order = |a: TrackInfo, b: TrackInfo| crate::tracks::column_before(column, a, b);
    crate::laws::listing::sorted_has_the_same(raw, order);
    let up = crate::sort::sorted(raw, order);
    assert(raw.contains(raw[q]));
    assert(up.contains(raw[q]));
    let p = up.index_of(raw[q]);
    if before.lists.sort_ascending {
        assert(after.lists.track_list@[p].library_id == Some(t.id));
    } else {
        assert(up.reverse()[up.len() - 1 - p] == up[p]);
        assert(after.lists.track_list@[up.len() - 1 - p].library_id == Some(t.id));
    }
}

/// The files of an album of the device are listed for the entry that names it, in
/// their order.
pub proof fn a_device_album_lists_its_files(before: App, after: App, artist: String, album: String, k: int)
    requires
        after.item_listed(&before),
        before.nav.browse_mode == BrowseMode::Device,
        before.nav.sidebar_selected < before.nav.sidebar_items@.len(),
        before.nav.sidebar_items@[before.nav.sidebar_selected as int] == (SidebarEntry::Album {
            artist,
            album,
        }),
        before.device.album_tracks@.contains_key((artist@, album@)),
        0 <= k < before.device.album_tracks@[(artist@, album@)]@.len(),
    ensures
        after.lists.track_list@.len() == before.device.album_tracks@[(artist@, album@)]@.len(),
        after.lists.track_list@[k].name == before.device.album_tracks@[(artist@, album@)]@[k].name,
        after.lists.track_list@[k].artist == before.device.album_tracks@[(artist@, album@)]@[k].artist,
        after.lists.album_list@.len() == 0,
{
}

/// The albums of an artist of the device are put up in the order of the device.
pub proof fn a_device_artist_lists_its_albums(before: App, after: App, artist: String, k: int)
    requires
        after.item_listed(&before),
        before.nav.browse_mode == BrowseMode::Device,
        before.nav.sidebar_selected < before.nav.sidebar_items@.len(),
        before.nav.sidebar_items@[before.nav.sidebar_selected as int] == SidebarEntry::Artist(artist),
        before.device.albums@.contains_key(artist@),
        0 <= k < before.device.albums@[artist@]@.len(),
    ensures
        after.lists.album_list@.len() == before.device.albums@[artist@]@.len(),
        after.lists.album_list@[k].name == before.device.albums@[artist@]@[k],
        after.lists.album_list@[k].artist == artist,
        after.lists.album_selected == 0,
{
}

/// A playlist lists its tracks that the library has, in its own order.
pub proof fn a_playlist_lists_its_tracks(before: App, after: App, id: u64, i: int, k: int)
    requires
        after.playlist_listed(&before, id),
        before.library is Some,
        0 <= i < before.playlists.store.playlists@.len(),
        before.playlists.store.playlists@[i].id == id,
        before.playlists.store.valid(),
        ({
            let tracks = crate::app::select::resolved(
                before.playlists.store.playlists@[i].track_ids@,
                before.library->0.tracks@,
            );
            0 <= k < tracks.len()
        }),
    ensures
        ({
            let tracks = crate::app::select::resolved(
                before.playlists.store.playlists@[i].track_ids@,
                before.library->0.tracks@,
            );
            &&& after.lists.track_list@.len() == tracks.len()
            &&& after.lists.track_list@[k].library_id == Some(tracks[k].id)
            &&& after.lists.track_list@[k].name == tracks[k].name
        }),
        after.lists.track_selected == 0,
{
    let all = before.playlists.store.playlists@;
    crate::laws::picking::playlists_are_found_by_id(all, id);
    let at = crate::playlists::playlist_index(all, id);
    if at is None {
        assert(all[i].id != id);
    } else if at->0 != i {
        assert(all[at->0 as int].id != all[i].id);
    }
}

/// View keys send nothing to the worker or to the audio thread.
pub proof fn looking_sends_nothing(before: App, after: App, c: char, sent: Sent, sent_after: Sent)
    requires
        after.char_pressed(&before, c, sent, sent_after),
        c == '?' || c == 'h' || c == '1' || c == '2' || c == 't' || c == 'T' || c == 'I' || c == 'P' || c
            == 'v' || c == '/' || c == 's',
    ensures
        sent_after == sent,
        c == '?' ==> after.popup.show_help,
        c == 'h' ==> after.popup.show_keys != before.popup.show_keys,
        c == 't' ==> after.themes.show_picker && after.themes.current == before.themes.current,
        c == '/' ==> after.nav.search_active && after.nav.search_query@.len() == 0,
        c == 'T' ==> after.art.album_art_style != before.art.album_art_style
            && after.art.album_art_cache is None,
        c == 'P' ==> after.player.show_player != before.player.show_player,
{
}

/// The panel key goes through the panels from left to right, past the albums
/// where there are none.
pub proof fn panels_go_from_left_to_right(before: App, after: App)
    requires
        after.moved(&before, KeyCode::Tab),
    ensures
        match before.nav.active_panel {
            Panel::Library => if before.lists.album_list@.len() > 0 {
                after.nav.active_panel == Panel::Albums
            } else {
                after.nav.active_panel == Panel::TrackList
            },
            Panel::Albums => after.nav.active_panel == Panel::TrackList,
            Panel::TrackList => after.nav.active_panel == Panel::Device,
            Panel::Device => after.nav.active_panel == Panel::SyncQueue,
            Panel::SyncQueue => after.nav.active_panel == Panel::Library,
        },
        after.lists == before.lists,
{
}

/// A jump to an entry selects it, and is remembered for these modes.
pub proof fn jumps_are_remembered(before: App, after: App, i: usize)
    requires
        after.sidebar_put(&before, i as int),
    ensures
        after.nav.sidebar_selected == i,
        after.nav.saved_sidebar_pos.slots@[slot_of(before.nav.browse_mode, before.nav.sidebar_mode)]
            == Some(i),
        after.nav.sidebar_items == before.nav.sidebar_items,
{
    crate::laws::answering::selections_are_remembered_apart(
        before.nav.browse_mode,
        before.nav.sidebar_mode,
        before.nav.browse_mode,
        before.nav.sidebar_mode,
    );
    assert(before.nav.saved_sidebar_pos.slots@.len() == 6);
}

/// The details that open are those of the selected row, from the top.
pub proof fn details_open_on_the_selected_row(before: App, after: App)
    requires
        after == App::info_opened(before),
        before.lists.track_selected < before.lists.track_list@.len(),
    ensures
        after.popup.show_track_info,
        after.popup.track_info_scroll == 0,
        after.popup.track_info_lib == library_row(
            before.library,
            before.lists.track_list@[before.lists.track_selected as int],
        ),
{
}

/// Listing an album of the library brings its art: the art is that of the artist
/// and album of the first track listed.
pub proof fn a_listed_album_brings_its_art(before: App, after: App)
    requires
        after.album_listed(&before),
        before.lists.album_selected < before.lists.album_list@.len(),
        before.nav.browse_mode == BrowseMode::Library,
        before.library is Some,
        after.lists.track_list@.len() > 0,
    ensures
        after.art.album_art_key@ == art_key(after.lists.track_list@[0]),
        before.art.album_art_key@ != after.art.album_art_key@ ==> after.out.pending_bg_commands@.last() is LoadAlbumArt
            && after.art.album_art is None,
        before.art.album_art_key@ == after.art.album_art_key@ ==> after.out == before.out,
{
}

/// Moving to an artist in the sidebar puts up that artist's albums; in the list of
/// albums a move lists nothing yet.
pub proof fn moving_to_an_artist_lists_the_albums(before: App, after: App, i: int, artist: String, k: int)
    requires
        after.sidebar_at(&before, i),
        0 <= i < before.nav.sidebar_items@.len(),
        before.nav.sidebar_items@[i] == SidebarEntry::Artist(artist),
        before.nav.browse_mode == BrowseMode::Library,
        before.library is Some,
        0 <= k < after.lists.album_list@.len(),
    ensures
        before.nav.sidebar_mode == SidebarMode::Artists ==> after.lists.album_list@[k].artist == artist
            && after.lists.album_selected == 0,
        before.nav.sidebar_mode == SidebarMode::Albums ==> after.lists == before.lists,
        after.nav.sidebar_selected == i,
{
    assert(before.nav.sidebar_items.len() == before.nav.sidebar_items@.len());
    let mid = choose|mid: App| #[trigger]
        mid.sidebar_put(&before, i) && if before.nav.sidebar_mode == SidebarMode::Artists {
            after.item_listed(&mid)
        } else {
            after == mid
        };
    if before.nav.sidebar_mode == SidebarMode::Artists {
        crate::laws::listing::a_listed_artist_has_its_own_albums(mid, after, artist);
    }
}

} // verus!
