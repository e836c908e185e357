//! The tag manager: opening it, the answers of the services it asks, and its
//! keys.
use vstd::prelude::*;
use crate::app::splitting::logs;
use crate::app::{App, SyncState, TagState};
use crate::commands::{one_more, BgCommand};
use crate::format::{opt_text, concat2, concat3, decimal, decimal_of, texts};
use crate::library::{first_index_is, first_index_none, first_where, Library};
use crate::model::Track;
use crate::tag_model::{
    acoustid_hits_to_release_hits, best_hit, best_hit_id, followup, hit_texts,
    pick_recording_mbid_for_followup, recording_hits, recording_releases_to_search_hits,
    rows_of_matches, shown_rows, AcoustIdHit, DiffScope, RecordingLookupResponse, ReleaseDiff,
    ReleaseSearchHit, SearchInputField, SelectionAnchor, TagManagerOverlay, TagManagerPhase,
};
use crate::text::{
    contains_str, eq_ignore_ascii_case, has_substring, same_ignoring_case, str_eq, trim, trimmed,
};
use crate::types::{BrowseMode, Panel};

verus! {

/// The track is one of the selection: of that name, where there is one.
pub open spec fn in_scope(t: Track, name: Option<Seq<char>>) -> bool {
    match name {
        Some(n) => same_ignoring_case(t.name@, n),
        None => true,
    }
}

/// The release ids that the tracks of the selection carry.
pub open spec fn carried_ids(tracks: Seq<Track>, name: Option<Seq<char>>) -> Seq<Seq<char>>
    decreases tracks.len(),
{
    if tracks.len() == 0 {
        Seq::empty()
    } else {
        let rest = carried_ids(tracks.drop_last(), name);
        let t = tracks.last();
        match t.mb_release_id {
            Some(id) => if in_scope(t, name) && id@.len() > 0 {
                rest.push(id@)
            } else {
                rest
            },
            None => rest,
        }
    }
}

/// How often a text occurs.
pub open spec fn times(s: Seq<Seq<char>>, x: Seq<char>) -> nat
    decreases s.len(),
{
    if s.len() == 0 {
        0
    } else {
        times(s.drop_last(), x) + if s.last() == x {
            1nat
        } else {
            0
        }
    }
}

/// No text occurs more often.
pub open spec fn is_most_common(s: Seq<Seq<char>>, x: Seq<char>) -> bool {
    forall|j: int| 0 <= j < s.len() ==> times(s, #[trigger] s[j]) <= times(s, x)
}

/// The most common text; of several, the one that comes first.
pub open spec fn most_common(s: Seq<Seq<char>>) -> Option<Seq<char>> {
    first_where(s, |x: Seq<char>| is_most_common(s, x))
}

/// The track can be looked up by its fingerprint.
pub open spec fn has_fingerprint(t: Track, name: Option<Seq<char>>) -> bool {
    &&& in_scope(t, name)
    &&& t.acoustic_id matches Some(fp) && fp@.len() > 0
    &&& t.total_time_ms matches Some(ms) && ms > 0
}

/// Fingerprint and duration in seconds of the first track that has both.
pub open spec fn fingerprint_of(tracks: Seq<Track>, name: Option<Seq<char>>) -> Option<(String, u32)> {
    match first_where(tracks, |t: Track| has_fingerprint(t, name)) {
        Some(t) => Some((t.acoustic_id->0, (t.total_time_ms->0 / 1000) as u32)),
        None => None,
    }
}

fn count_times(list: &Vec<String>, x: &str) -> (n: usize)
    ensures
        n == times(texts(list@), x@),
        n <= list@.len(),
{
    let ghost all = texts(list@);
    let mut n: usize = 0;
    let mut i: usize = 0;
    while i < list.len()
        invariant
            i <= list.len(),
            n <= i,
            all == texts(list@),
            n == times(all.take(i as int), x@),
        decreases list.len() - i,
    {
        proof {
            assert(all.take(i + 1).drop_last() =~= all.take(i as int));
        }
        if str_eq(list[i].as_str(), x) {
            n = n + 1;
        }
        i = i + 1;
    }
    proof {
        assert(all.take(all.len() as int) =~= all);
    }
    n
}

fn find_most_common(list: &Vec<String>) -> (r: Option<String>)
    ensures
        match r {
            Some(x) => most_common(texts(list@)) == Some(x@),
            None => most_common(texts(list@)) is None,
        },
{
    let ghost all = texts(list@);
    let ghost p = |x: Seq<char>| is_most_common(all, x);
    if list.len() == 0 {
        proof {
            first_index_none(all, p);
        }
        return None;
    }
    let mut best: usize = 0;
    let mut best_n: usize = count_times(list, list[0].as_str());
    let mut i: usize = 1;
    while i < list.len()
        invariant
            1 <= i <= list.len(),
            best < i,
            all == texts(list@),
            best_n == times(all, all[best as int]),
            forall|k: int| 0 <= k < i ==> times(all, #[trigger] all[k]) <= best_n,
            forall|k: int| 0 <= k < best ==> times(all, #[trigger] all[k]) < best_n,
        decreases list.len() - i,
    {
        let n = count_times(list, list[i].as_str());
        proof {
            assert(all[i as int] == list@[i as int]@);
        }
        if n > best_n {
            best = i;
            best_n = n;
        }
        i = i + 1;
    }
    proof {
        assert(is_most_common(all, all[best as int]));
        assert(p(all[best as int]));
        assert forall|k: int| 0 <= k < best implies !p(#[trigger] all[k]) by {
            assert(times(all, all[best as int]) > times(all, all[k]));
        }
        first_index_is(all, p, best as int);
    }
    Some(list[best].clone())
}

fn is_in_scope(t: &Track, name: &Option<String>) -> (r: bool)
    ensures
        r == in_scope(*t, opt_text(*name)),
{
    match name {
        Some(n) => eq_ignore_ascii_case(t.name.as_str(), n.as_str()),
        None => true,
    }
}

fn collect_ids(tracks: &Vec<Track>, name: &Option<String>) -> (r: Vec<String>)
    ensures
        texts(r@) == carried_ids(tracks@, opt_text(*name)),
{
    let ghost scope = opt_text(*name);
    let mut r: Vec<String> = Vec::new();
    let mut i: usize = 0;
    proof {
        assert(texts(r@) =~= carried_ids(tracks@.take(0), scope));
    }
    while i < tracks.len()
        invariant
            i <= tracks.len(),
            scope == opt_text(*name),
            texts(r@) == carried_ids(tracks@.take(i as int), scope),
        decreases tracks.len() - i,
    {
        proof {
            assert(tracks@.take(i + 1).drop_last() =~= tracks@.take(i as int));
        }
        let t = &tracks[i];
        if is_in_scope(t, name) {
            if let Some(id) = &t.mb_release_id {
                if !id.as_str().is_empty() {
                    let ghost before = texts(r@);
                    r.push(id.clone());
                    proof {
                        assert(texts(r@) =~= before.push(id@));
                    }
                }
            }
        }
        i = i + 1;
    }
    proof {
        assert(tracks@.take(tracks@.len() as int) =~= tracks@);
    }
    r
}

fn find_fingerprint(tracks: &Vec<Track>, name: &Option<String>) -> (r: Option<(String, u32)>)
    ensures
        r == fingerprint_of(tracks@, opt_text(*name)),
{
    let ghost scope = opt_text(*name);
    let ghost p = |t: Track| has_fingerprint(t, scope);
    let mut i: usize = 0;
    while i < tracks.len()
        invariant
            i <= tracks.len(),
            scope == opt_text(*name),
            p == |t: Track| has_fingerprint(t, scope),
            forall|k: int| 0 <= k < i ==> !p(#[trigger] tracks@[k]),
        decreases tracks.len() - i,
    {
        let t = &tracks[i];
        if is_in_scope(t, name) {
            if let Some(fp) = &t.acoustic_id {
                if let Some(ms) = t.total_time_ms {
                    if !fp.as_str().is_empty() && ms > 0 {
                        proof {
                            assert(p(tracks@[i as int]));
                            first_index_is(tracks@, p, i as int);
                        }
                        return Some((fp.clone(), (ms / 1000) as u32));
                    }
                }
            }
        }
        i = i + 1;
    }
    proof {
        first_index_none(tracks@, p);
    }
    None
}

impl App {
    /// The tracks of an album of the library.
    pub open spec fn album_of(&self, artist: Seq<char>, album: Seq<char>) -> Seq<Track> {
        match self.library {
            Some(l) => l.by_artist_album(artist, album),
            None => Seq::empty(),
        }
    }

    fn album_tracks_of(&self, artist: &str, album: &str) -> (r: Vec<Track>)
        ensures
            r@ == self.album_of(artist@, album@),
    {
        match &self.library {
            Some(l) => l.album_tracks_by_artist(artist, album),
            None => Vec::new(),
        }
    }

    /// The first library track of the selection that carries both a fingerprint
    /// and a positive duration, as (fingerprint, duration in seconds).
    pub fn resolve_acoustid_input(&self, artist: &str, album: &str, track_name: &Option<String>) -> (r: Option<
        (String, u32),
    >)
        ensures
            r == fingerprint_of(
                self.album_of(artist@, album@),
                opt_text(*track_name),
            ),
    {
        let tracks = self.album_tracks_of(artist, album);
        find_fingerprint(&tracks, track_name)
    }

    /// The release id that most library tracks of the selection carry. Ties are
    /// broken in iteration order.
    pub fn resolve_known_release_mbid(
        &self,
        artist: &str,
        album: &str,
        track_name: &Option<String>,
    ) -> (r: Option<String>)
        ensures
            opt_text(r) == most_common(
                carried_ids(
                    self.album_of(artist@, album@),
                    opt_text(*track_name),
                ),
            ),
    {
        let tracks = self.album_tracks_of(artist, album);
        let ids = collect_ids(&tracks, track_name);
        find_most_common(&ids)
    }

    /// What is to be retagged: scope, artist, album and track name of the
    /// focused row, trimmed. A blank track name counts as none.
    pub open spec fn tag_selection(&self) -> Option<
        (DiffScope, Seq<char>, Seq<char>, Option<Seq<char>>),
    > {
        if self.nav.browse_mode != BrowseMode::Library || self.library is None {
            None
        } else {
            match self.nav.active_panel {
                Panel::Albums => if self.lists.album_selected < self.lists.album_list@.len() {
                    let a = self.lists.album_list@[self.lists.album_selected as int];
                    Some((DiffScope::Album, trimmed(a.artist@), trimmed(a.name@), None))
                } else {
                    None
                },
                Panel::TrackList => if self.lists.track_selected < self.lists.track_list@.len() {
                    let t = self.lists.track_list@[self.lists.track_selected as int];
                    let name = trimmed(t.name@);
                    Some(
                        (
                            DiffScope::Track,
                            trimmed(t.artist@),
                            trimmed(t.album@),
                            if name.len() > 0 {
                                Some(name)
                            } else {
                                None
                            },
                        ),
                    )
                } else {
                    None
                },
                _ => None,
            }
        }
    }

    fn resolve_tag_selection(&self) -> (r: Option<(DiffScope, String, String, Option<String>)>)
        ensures
            match r {
                Some(s) => self.tag_selection() == Some(
                    (s.0, s.1@, s.2@, opt_text(s.3)),
                ),
                None => self.tag_selection() is None,
            },
    {
        if self.nav.browse_mode != BrowseMode::Library || self.library.is_none() {
            return None;
        }
        match self.nav.active_panel {
            Panel::Albums => {
                if self.lists.album_selected < self.lists.album_list.len() {
                    let a = &self.lists.album_list[self.lists.album_selected];
                    Some((DiffScope::Album, trim(a.artist.as_str()), trim(a.name.as_str()), None))
                } else {
                    None
                }
            },
            Panel::TrackList => {
                if self.lists.track_selected < self.lists.track_list.len() {
                    let t = &self.lists.track_list[self.lists.track_selected];
                    let name = trim(t.name.as_str());
                    let named: Option<String> = if name.as_str().is_empty() {
                        None
                    } else {
                        Some(name)
                    };
                    Some((DiffScope::Track, trim(t.artist.as_str()), trim(t.album.as_str()), named))
                } else {
                    None
                }
            },
            _ => None,
        }
    }

    /// A fresh overlay on the selection, waiting for the answer to a request.
    pub open spec fn is_fresh_manager(
        o: TagManagerOverlay,
        scope: DiffScope,
        artist: Seq<char>,
        album: Seq<char>,
        name: Option<Seq<char>>,
        token: u64,
        phase: TagManagerPhase,
    ) -> bool {
        &&& o.scope == scope
        &&& o.source_artist@ == artist && o.source_album@ == album
        &&& opt_text(o.source_track_name) == name
        &&& o.query_artist@ == artist && o.query_album@ == album
        &&& o.search_input_field == SearchInputField::Artist
        &&& o.phase == phase
        &&& o.search_hits@.len() == 0 && o.hit_idx == 0
        &&& o.diff is None && o.rows@.len() == 0 && o.collapsed@.len() == 0 && o.focused_row == 0
        &&& o.anchor.artist@ == artist
        &&& opt_text(o.anchor.album) == Some(album)
        &&& opt_text(o.anchor.track_name) == name
        &&& o.error is None && o.acoustid_uuid is None
        &&& o.pending_request_token == token
        &&& o.last_rename_map@.len() == 0
    }

    /// The key for fingerprint lookups, where one is set.
    pub open spec fn acoustid_key(&self) -> Option<String> {
        match self.tags.acoustid_app_key {
            Some(k) => if k@.len() > 0 {
                Some(k)
            } else {
                None
            },
            None => None,
        }
    }

    /// What opening the tag manager does: the release is asked for where the
    /// library knows it, else the fingerprint is looked up where there is one
    /// and a key for it, else artist and album are searched for.
    pub open spec fn manager_opened(&self, before: &App, sent: Seq<BgCommand>, sent_after: Seq<BgCommand>) -> bool {
        match before.tag_selection() {
            None => *self == *before && sent_after == sent,
            Some((scope, artist, album, name)) => {
                let token = (before.tags.token + 1) as u64;
                let tracks = before.album_of(artist, album);
                let known = most_common(carried_ids(tracks, name));
                let print = fingerprint_of(tracks, name);
                &&& *self == (App {
                    tags: TagState { manager: self.tags.manager, token, ..before.tags },
                    ..*before
                })
                &&& self.tags.manager is Some
                &&& App::is_fresh_manager(
                    self.tags.manager->0,
                    scope,
                    artist,
                    album,
                    name,
                    token,
                    if known is Some {
                        TagManagerPhase::LoadingRelease
                    } else {
                        TagManagerPhase::SearchPending
                    },
                )
                &&& one_more(sent, sent_after)
                &&& if known is Some {
                    before.is_details_request(sent_after.last(), token, known->0)
                } else if before.acoustid_key() is Some && print is Some {
                    sent_after.last() matches BgCommand::AcoustIdLookup {
                        token: t,
                        fingerprint,
                        duration_secs,
                        app_key,
                    } && t == token && fingerprint == (print->0).0 && duration_secs == (print->0).1
                        && app_key == before.acoustid_key()->0
                } else {
                    before.is_search_request(sent_after.last(), token, artist, album)
                }
            },
        }
    }

    /// A request for a release.
    pub open spec fn is_details_request(&self, cmd: BgCommand, token: u64, mbid: Seq<char>) -> bool {
        cmd matches BgCommand::MbReleaseDetails { token: t, mbid: m, mb_base_url, mb_user_agent }
            && t == token && m@ == mbid && mb_base_url == self.tags.mb_base_url && mb_user_agent
            == self.tags.mb_user_agent
    }

    /// A search for releases.
    pub open spec fn is_search_request(
        &self,
        cmd: BgCommand,
        token: u64,
        artist: Seq<char>,
        album: Seq<char>,
    ) -> bool {
        cmd matches BgCommand::MbSearchReleases {
            token: t,
            artist: a,
            album: b,
            mb_base_url,
            mb_user_agent,
        } && t == token && a@ == artist && b@ == album && mb_base_url == self.tags.mb_base_url
            && mb_user_agent == self.tags.mb_user_agent
    }

    /// Open the tag-manager overlay for the current selection. The focused
    /// panel decides the scope: the whole album, or the focused track. Nothing
    /// happens outside library mode, without a selection, or without a library.
    pub fn open_tag_manager(&mut self, cmd_tx: &mut Vec<BgCommand>)
        requires
            old(self).tags.token < u64::MAX,
        ensures
            final(self).manager_opened(old(self), old(cmd_tx)@, final(cmd_tx)@),
            old(self).valid() ==> final(self).valid(),
    {
        let (scope, artist, album, name) = match self.resolve_tag_selection() {
            Some(s) => s,
            None => {
                return;
            },
        };
        let known = self.resolve_known_release_mbid(artist.as_str(), album.as_str(), &name);
        let key: Option<String> = match &self.tags.acoustid_app_key {
            Some(k) => if k.as_str().is_empty() {
                None
            } else {
                Some(k.clone())
            },
            None => None,
        };
        let print: Option<(String, u32)> = if known.is_none() && key.is_some() {
            self.resolve_acoustid_input(artist.as_str(), album.as_str(), &name)
        } else {
            None
        };
        let anchor = SelectionAnchor {
            artist: artist.clone(),
            album: Some(album.clone()),
            track_name: name.clone(),
        };
        let mb_base_url = self.tags.mb_base_url.clone();
        let mb_user_agent = self.tags.mb_user_agent.clone();
        let mut overlay = TagManagerOverlay::new(
            scope,
            artist.clone(),
            album.clone(),
            name,
            anchor,
        );
        let token: u64 = self.tags.token + 1;
        self.tags.token = token;
        overlay.pending_request_token = token;
        let cmd: BgCommand = match known {
            Some(mbid) => {
                overlay.phase = TagManagerPhase::LoadingRelease;
                BgCommand::MbReleaseDetails { token, mbid, mb_base_url, mb_user_agent }
            },
            None => match print {
                Some((fingerprint, duration_secs)) => match key {
                    Some(app_key) => BgCommand::AcoustIdLookup {
                        token,
                        fingerprint,
                        duration_secs,
                        app_key,
                    },
                    None => BgCommand::MbSearchReleases {
                        token,
                        artist,
                        album,
                        mb_base_url,
                        mb_user_agent,
                    },
                },
                None => BgCommand::MbSearchReleases {
                    token,
                    artist,
                    album,
                    mb_base_url,
                    mb_user_agent,
                },
            },
        };
        self.tags.manager = Some(overlay);
        cmd_tx.push(cmd);
        proof {
            assert(cmd_tx@.drop_last() =~= old(cmd_tx)@);
        }
    }

    /// Another state of the tag manager, and nothing else.
    pub open spec fn with_manager(before: App, manager: Option<TagManagerOverlay>) -> App {
        App { tags: TagState { manager, ..before.tags }, ..before }
    }

    pub fn close_tag_manager(&mut self)
        ensures
            *final(self) == App::with_manager(*old(self), None),
            old(self).valid() ==> final(self).valid(),
    {
        self.tags.manager = None;
    }

    // -- Answers --
    /// The overlay waits for this answer.
    pub open spec fn awaits(&self, token: u64) -> bool {
        self.tags.manager matches Some(o) && o.pending_request_token == token
    }

    /// What is logged of an answer that nobody waits for.
    pub open spec fn dropped_text(&self, what: Seq<char>, token: u64) -> Seq<char> {
        let head = "tag-manager: dropped "@ + what + " response (token="@ + decimal(token as nat);
        match self.tags.manager {
            None => head + ") \u{2014} overlay closed"@,
            Some(o) => head + " expected="@ + decimal(o.pending_request_token as nat) + ")"@,
        }
    }

    /// An answer was dropped, and that is logged.
    pub open spec fn answer_dropped(&self, before: &App, what: Seq<char>, token: u64) -> bool {
        self.only_log(before) && logs(
            before.sync.log@,
            self.sync.log@,
            before.dropped_text(what, token),
        )
    }

    fn drop_answer(&mut self, what: &str, token: u64)
        ensures
            final(self).answer_dropped(old(self), what@, token),
    {
        let mut line = concat3("tag-manager: dropped ", what, " response (token=");
        let t = decimal_of(token);
        line.append(t.as_str());
        match &self.tags.manager {
            None => {
                line.append(") \u{2014} overlay closed");
            },
            Some(o) => {
                line.append(" expected=");
                let e = decimal_of(o.pending_request_token);
                line.append(e.as_str());
                line.append(")");
            },
        }
        self.sync.log.push(line);
        proof {
            assert(self.sync.log@.drop_last() =~= old(self).sync.log@);
        }
    }

    fn is_awaiting(&self, token: u64) -> (r: bool)
        ensures
            r == self.awaits(token),
    {
        match &self.tags.manager {
            Some(o) => o.accepts_token(token),
            None => false,
        }
    }

    /// The overlay shows an error.
    pub open spec fn manager_failed(&self, before: &App, msg: Seq<char>) -> bool {
        &&& *self == App::with_manager(*before, self.tags.manager)
        &&& self.tags.manager matches Some(o) && o == (TagManagerOverlay {
            error: o.error,
            phase: TagManagerPhase::Error,
            ..before.tags.manager->0
        }) && (o.error matches Some(e) && e@ == msg)
    }

    pub(crate) fn fail_manager(&mut self, msg: String)
        requires
            old(self).tags.manager is Some,
        ensures
            final(self).manager_failed(old(self), msg@),
    {
        if let Some(o) = &mut self.tags.manager {
            o.error = Some(msg);
            o.phase = TagManagerPhase::Error;
        }
    }

    /// The overlay lists hits.
    pub open spec fn hits_shown(before: TagManagerOverlay, after: TagManagerOverlay) -> bool {
        after == (TagManagerOverlay {
            search_hits: after.search_hits,
            hit_idx: 0,
            phase: TagManagerPhase::SearchResults,
            ..before
        })
    }

    /// What the answer to a recording lookup does.
    pub open spec fn recording_answered(
        &self,
        before: &App,
        token: u64,
        result: Result<RecordingLookupResponse, String>,
    ) -> bool {
        if !before.awaits(token) {
            self.answer_dropped(before, "MB recording"@, token)
        } else {
            match result {
                Ok(rec) => {
                    let o = before.tags.manager->0;
                    let hits = recording_hits(rec, o.source_artist@);
                    if hits.len() == 0 {
                        self.manager_failed(
                            before,
                            "AcoustID + MB both confirm the recording but no releases are linked. The recording stands alone \u{2014} there's nothing to tag against."@,
                        )
                    } else {
                        &&& *self == App::with_manager(*before, self.tags.manager)
                        &&& self.tags.manager is Some
                        &&& App::hits_shown(o, self.tags.manager->0)
                        &&& hit_texts(self.tags.manager->0.search_hits@) == hits
                    }
                },
                Err(e) => self.manager_failed(before, "MB recording lookup failed: "@ + e@),
            }
        }
    }

    /// The worker looked up a recording: its releases are put up for the user
    /// to pick from.
    pub fn handle_mb_recording_releases(
        &mut self,
        token: u64,
        result: Result<RecordingLookupResponse, String>,
    )
        ensures
            final(self).recording_answered(old(self), token, result),
            old(self).valid() ==> final(self).valid(),
    {
        if !self.is_awaiting(token) {
            self.drop_answer("MB recording", token);
            return;
        }
        match result {
            Ok(rec) => {
                let hits: Vec<ReleaseSearchHit> = match &self.tags.manager {
                    Some(o) => recording_releases_to_search_hits(&rec, o.source_artist.as_str()),
                    None => Vec::new(),
                };
                proof {
                    assert(hit_texts(hits@).len() == hits@.len());
                }
                if hits.len() == 0 {
                    self.fail_manager(
                        "AcoustID + MB both confirm the recording but no releases are linked. The recording stands alone \u{2014} there's nothing to tag against.".to_owned(),
                    );
                } else if let Some(o) = &mut self.tags.manager {
                    o.search_hits = hits;
                    o.hit_idx = 0;
                    o.phase = TagManagerPhase::SearchResults;
                }
            },
            Err(e) => {
                let msg = concat2("MB recording lookup failed: ", e.as_str());
                self.fail_manager(msg);
            },
        }
    }

    /// The overlay after a fingerprint answer that leads to another request.
    pub open spec fn asked_again(&self, before: &App, uuid: Option<String>, line: Seq<char>) -> bool {
        let token = (before.tags.token + 1) as u64;
        &&& *self == (App {
            tags: TagState {
                manager: Some(
                    TagManagerOverlay {
                        acoustid_uuid: uuid,
                        pending_request_token: token,
                        ..before.tags.manager->0
                    },
                ),
                token,
                ..before.tags
            },
            sync: SyncState { log: self.sync.log, ..before.sync },
            out: self.out,
            ..*before
        })
        &&& logs(before.sync.log@, self.sync.log@, line)
        &&& self.out.sends(&before.out)
    }

    /// What the answer to a fingerprint lookup does.
    pub open spec fn acoustid_answered(
        &self,
        before: &App,
        token: u64,
        result: Result<Vec<AcoustIdHit>, String>,
    ) -> bool {
        if !before.awaits(token) {
            self.answer_dropped(before, "AcoustID"@, token)
        } else {
            match result {
                Err(e) => self.manager_failed(before, "AcoustID lookup failed: "@ + e@),
                Ok(hits) => if hits@.len() == 0 {
                    self.manager_failed(
                        before,
                        "AcoustID had no matches \u{2014} this file may not be in the AcoustID database. Submit it via Picard if you'd like it to be."@,
                    )
                } else {
                    let o = before.tags.manager->0;
                    let uuid = Some(hits@[best_hit(hits@)].id);
                    let rows = rows_of_matches(hits@, o.source_artist@);
                    let next = (before.tags.token + 1) as u64;
                    if rows.len() > 0 {
                        &&& *self == App::with_manager(*before, self.tags.manager)
                        &&& self.tags.manager is Some
                        &&& App::hits_shown(
                            TagManagerOverlay { acoustid_uuid: uuid, ..o },
                            self.tags.manager->0,
                        )
                        &&& hit_texts(self.tags.manager->0.search_hits@) == rows
                    } else if followup(hits@) is Some {
                        let mbid = followup(hits@)->0;
                        &&& self.asked_again(
                            before,
                            uuid,
                            "tag-manager: AcoustID hit had no releases; asking MB for recording "@
                                + mbid@,
                        )
                        &&& self.out.pending_bg_commands@.last() == (BgCommand::MbRecordingReleases {
                            token: next,
                            recording_mbid: mbid,
                            mb_base_url: before.tags.mb_base_url,
                            mb_user_agent: before.tags.mb_user_agent,
                        })
                    } else {
                        &&& self.asked_again(
                            before,
                            uuid,
                            "tag-manager: AcoustID hit had no MB links; falling back to MB artist+album search"@,
                        )
                        &&& self.out.pending_bg_commands@.last() == (BgCommand::MbSearchReleases {
                            token: next,
                            artist: o.source_artist,
                            album: o.source_album,
                            mb_base_url: before.tags.mb_base_url,
                            mb_user_agent: before.tags.mb_user_agent,
                        })
                    }
                },
            }
        }
    }

    fn ask_again(&mut self, line: String, cmd: BgCommand, uuid: Option<String>, token: u64)
        requires
            old(self).tags.manager is Some,
            token == old(self).tags.token + 1,
        ensures
            final(self).asked_again(old(self), uuid, line@),
            final(self).out.pending_bg_commands@.last() == cmd,
    {
        self.tags.token = token;
        if let Some(o) = &mut self.tags.manager {
            o.acoustid_uuid = uuid;
            o.pending_request_token = token;
        }
        self.sync.log.push(line);
        self.out.pending_bg_commands.push(cmd);
        proof {
            assert(self.sync.log@.drop_last() =~= old(self).sync.log@);
            assert(self.out.pending_bg_commands@.drop_last() =~= old(self).out.pending_bg_commands@);
        }
    }

    /// The worker looked up a fingerprint. Its matches are put up as hits; where
    /// they name no release the recording is asked about, and where they name no
    /// recording either, artist and album are searched for.
    pub fn handle_acoustid_resolved(&mut self, token: u64, result: Result<Vec<AcoustIdHit>, String>)
        requires
            old(self).tags.token < u64::MAX,
        ensures
            final(self).acoustid_answered(old(self), token, result),
            old(self).valid() ==> final(self).valid(),
    {
        if !self.is_awaiting(token) {
            self.drop_answer("AcoustID", token);
            return;
        }
        let hits: Vec<AcoustIdHit> = match result {
            Ok(h) => h,
            Err(e) => {
                let msg = concat2("AcoustID lookup failed: ", e.as_str());
                self.fail_manager(msg);
                return;
            },
        };
        if hits.len() == 0 {
            self.fail_manager(
                "AcoustID had no matches \u{2014} this file may not be in the AcoustID database. Submit it via Picard if you'd like it to be.".to_owned(),
            );
            return;
        }
        let uuid = best_hit_id(&hits);
        let (artist, album): (String, String) = match &self.tags.manager {
            Some(o) => (o.source_artist.clone(), o.source_album.clone()),
            None => (String::new(), String::new()),
        };
        let rows = acoustid_hits_to_release_hits(&hits, artist.as_str());
        proof {
            assert(hit_texts(rows@).len() == rows@.len());
        }
        if rows.len() > 0 {
            if let Some(o) = &mut self.tags.manager {
                o.acoustid_uuid = uuid;
                o.search_hits = rows;
                o.hit_idx = 0;
                o.phase = TagManagerPhase::SearchResults;
            }
            return;
        }
        let next: u64 = self.tags.token + 1;
        let mb_base_url = self.tags.mb_base_url.clone();
        let mb_user_agent = self.tags.mb_user_agent.clone();
        match pick_recording_mbid_for_followup(&hits) {
            Some(recording_mbid) => {
                let line = concat2(
                    "tag-manager: AcoustID hit had no releases; asking MB for recording ",
                    recording_mbid.as_str(),
                );
                self.ask_again(
                    line,
                    BgCommand::MbRecordingReleases {
                        token: next,
                        recording_mbid,
                        mb_base_url,
                        mb_user_agent,
                    },
                    uuid,
                    next,
                );
            },
            None => {
                self.ask_again(
                    "tag-manager: AcoustID hit had no MB links; falling back to MB artist+album search".to_owned(),
                    BgCommand::MbSearchReleases {
                        token: next,
                        artist,
                        album,
                        mb_base_url,
                        mb_user_agent,
                    },
                    uuid,
                    next,
                );
            },
        }
    }

    /// The searches go to a local mirror.
    pub open spec fn on_mirror(&self) -> bool {
        match self.tags.mb_base_url {
            Some(u) => !has_substring(u@, "musicbrainz.org"@),
            None => false,
        }
    }

    /// What the answer to a search does.
    pub open spec fn search_answered(
        &self,
        before: &App,
        token: u64,
        result: Result<Vec<ReleaseSearchHit>, String>,
    ) -> bool {
        if !before.awaits(token) {
            self.answer_dropped(before, "MB search"@, token)
        } else {
            match result {
                Err(e) => self.manager_failed(before, e@),
                Ok(hits) => {
                    &&& *self == (App {
                        sync: self.sync,
                        ..App::with_manager(*before, self.tags.manager)
                    })
                    &&& self.tags.manager is Some
                    &&& App::hits_shown(before.tags.manager->0, self.tags.manager->0)
                    &&& self.tags.manager->0.search_hits == hits
                    &&& self.sync == (SyncState { log: self.sync.log, ..before.sync })
                    &&& if hits@.len() == 0 && before.on_mirror() {
                        logs(
                            before.sync.log@,
                            self.sync.log@,
                            "tag-manager: 0 hits from your local MB mirror \u{2014} check that the search-server (Solr) container is running and indexed. Direct MBID lookups (auto-resolved from library tags) still work."@,
                        )
                    } else {
                        self.sync.log == before.sync.log
                    }
                },
            }
        }
    }

    /// The worker searched for releases. Answers that nobody waits for are
    /// dropped.
    pub fn handle_mb_search_results(&mut self, token: u64, result: Result<Vec<ReleaseSearchHit>, String>)
        ensures
            final(self).search_answered(old(self), token, result),
            old(self).valid() ==> final(self).valid(),
    {
        if !self.is_awaiting(token) {
            self.drop_answer("MB search", token);
            return;
        }
        let mirror = match &self.tags.mb_base_url {
            Some(u) => !contains_str(u.as_str(), "musicbrainz.org"),
            None => false,
        };
        match result {
            Ok(hits) => {
                let empty = hits.len() == 0;
                if let Some(o) = &mut self.tags.manager {
                    o.search_hits = hits;
                    o.hit_idx = 0;
                    o.phase = TagManagerPhase::SearchResults;
                }
                if empty && mirror {
                    self.sync.log.push(
                        "tag-manager: 0 hits from your local MB mirror \u{2014} check that the search-server (Solr) container is running and indexed. Direct MBID lookups (auto-resolved from library tags) still work.".to_owned(),
                    );
                    proof {
                        assert(self.sync.log@.drop_last() =~= old(self).sync.log@);
                    }
                }
            },
            Err(e) => {
                self.fail_manager(e);
            },
        }
    }

    /// The library tracks that the overlay retags.
    pub open spec fn retagged_tracks(&self, o: TagManagerOverlay) -> Seq<Track> {
        let all = self.album_of(o.source_artist@, o.source_album@);
        match o.scope {
            DiffScope::Album => all,
            DiffScope::Track => all.filter(
                |t: Track| same_ignoring_case(t.name@, o.source_track_name->0@),
            ),
        }
    }

    /// The root of the music files: the configured one, or the library's own.
    pub open spec fn music_root(&self) -> Option<String> {
        match self.import.music_dir {
            Some(d) => Some(d),
            None => match self.library {
                Some(l) => l.music_folder,
                None => None,
            },
        }
    }

    pub(crate) fn find_music_root(&self) -> (r: Option<String>)
        ensures
            r == self.music_root(),
    {
        match &self.import.music_dir {
            Some(d) => Some(d.clone()),
            None => match &self.library {
                Some(l) => l.music_folder.clone(),
                None => None,
            },
        }
    }

    /// The library tracks to compare a release with, and the root of the music
    /// files. Nothing where the overlay is closed or lacks what it needs.
    pub fn diff_source(&self) -> (r: Option<(Vec<Track>, String)>)
        ensures
            match r {
                Some(s) => self.tags.manager is Some && self.diff_error() is None && s.0@
                    == self.retagged_tracks(self.tags.manager->0) && Some(s.1) == self.music_root(),
                None => self.tags.manager is None || self.diff_error() is Some,
            },
    {
        let tracks: Vec<Track> = match &self.tags.manager {
            Some(o) => match self.tracks_to_retag(o) {
                Ok(t) => t,
                Err(_) => {
                    return None;
                },
            },
            None => {
                return None;
            },
        };
        match self.find_music_root() {
            Some(root) => Some((tracks, root)),
            None => None,
        }
    }

    /// Why the overlay's tracks cannot be compared with a release, if they
    /// cannot.
    pub open spec fn track_error(&self, o: TagManagerOverlay) -> Option<Seq<char>> {
        if self.library is None {
            Some("library not loaded"@)
        } else if o.scope == DiffScope::Track && o.source_track_name is None {
            Some("track-scope overlay missing track name"@)
        } else if self.retagged_tracks(o).len() == 0 {
            Some("no library tracks matched the source selection"@)
        } else {
            None
        }
    }

    /// Why no diff can be made, if none can.
    pub open spec fn diff_error(&self) -> Option<Seq<char>> {
        match self.track_error(self.tags.manager->0) {
            Some(e) => Some(e),
            None => if self.music_root() is None {
                Some("music root unknown \u{2014} set music_dir in config"@)
            } else {
                None
            },
        }
    }

    fn tracks_to_retag(&self, o: &TagManagerOverlay) -> (r: Result<Vec<Track>, &'static str>)
        ensures
            match r {
                Ok(t) => self.track_error(*o) is None && t@ == self.retagged_tracks(*o),
                Err(e) => self.track_error(*o) == Some(e@),
            },
    {
        if self.library.is_none() {
            return Err("library not loaded");
        }
        let all = self.album_tracks_of(o.source_artist.as_str(), o.source_album.as_str());
        let tracks: Vec<Track> = match o.scope {
            DiffScope::Album => all,
            DiffScope::Track => match &o.source_track_name {
                None => {
                    return Err("track-scope overlay missing track name");
                },
                Some(name) => named_tracks(&all, name.as_str()),
            },
        };
        if tracks.len() == 0 {
            return Err("no library tracks matched the source selection");
        }
        Ok(tracks)
    }

    /// What the answer to a release request does.
    pub open spec fn release_answered(
        &self,
        before: &App,
        token: u64,
        result: Result<ReleaseDiff, String>,
    ) -> bool {
        if !before.awaits(token) {
            *self == *before
        } else {
            match result {
                Err(e) => self.manager_failed(before, e@),
                Ok(diff) => match before.diff_error() {
                    Some(e) => self.manager_failed(before, e),
                    None => {
                        let o = before.tags.manager->0;
                        &&& *self == App::with_manager(*before, self.tags.manager)
                        &&& self.tags.manager matches Some(n) && n == (TagManagerOverlay {
                            diff: Some(diff),
                            rows: n.rows,
                            focused_row: 0,
                            phase: TagManagerPhase::DiffPreview,
                            ..o
                        }) && n.rows@ == shown_rows(Some(diff), o.collapsed@)
                    },
                },
            }
        }
    }

    /// The worker loaded a release: its diff against the selected library tracks
    /// is put up for preview. Answers that nobody waits for are dropped.
    pub fn handle_mb_release_loaded(&mut self, token: u64, result: Result<ReleaseDiff, String>)
        ensures
            final(self).release_answered(old(self), token, result),
            old(self).valid() ==> final(self).valid(),
    {
        if !self.is_awaiting(token) {
            return;
        }
        let diff: ReleaseDiff = match result {
            Ok(d) => d,
            Err(e) => {
                self.fail_manager(e);
                return;
            },
        };
        let problem: Option<&'static str> = match &self.tags.manager {
            Some(o) => match self.tracks_to_retag(o) {
                Ok(_) => None,
                Err(e) => Some(e),
            },
            None => None,
        };
        if let Some(e) = problem {
            self.fail_manager(e.to_owned());
            return;
        }
        if self.find_music_root().is_none() {
            self.fail_manager("music root unknown \u{2014} set music_dir in config".to_owned());
            return;
        }
        if let Some(o) = &mut self.tags.manager {
            o.diff = Some(diff);
            o.rebuild_flattened_paths();
            o.focused_row = 0;
            o.phase = TagManagerPhase::DiffPreview;
        }
    }
}

fn named_tracks(tracks: &Vec<Track>, name: &str) -> (r: Vec<Track>)
    ensures
        r@ == tracks@.filter(|t: Track| same_ignoring_case(t.name@, name@)),
{
    let ghost p = |t: Track| same_ignoring_case(t.name@, name@);
    let mut r: Vec<Track> = Vec::new();
    let mut i: usize = 0;
    proof {
        crate::library::filter_none(tracks@, p);
    }
    while i < tracks.len()
        invariant
            i <= tracks.len(),
            p == |t: Track| same_ignoring_case(t.name@, name@),
            r@ == tracks@.take(i as int).filter(p),
        decreases tracks.len() - i,
    {
        proof {
            crate::library::filter_step(tracks@, i as int, p);
        }
        if eq_ignore_ascii_case(tracks[i].name.as_str(), name) {
            r.push(tracks[i].clone());
        }
        i = i + 1;
    }
    proof {
        assert(tracks@.take(tracks@.len() as int) =~= tracks@);
    }
    r
}

} // verus!
