//! Playing, pausing, and moving through the playlist.
use vstd::prelude::*;
use crate::app::history::playable_row;
use crate::app::{App, NowPlaying, PlayerState};
use crate::commands::{AudioCommand, AudioEvent};
use crate::format::{concat2, joined};
use crate::model::Track;
use crate::text::str_eq;
use crate::tracks::{build_now_playing_metadata, marquee_parts, TrackInfo};
use crate::types::PlaybackState;

verus! {

/// A 64-bit count read as a signed number.
pub open spec fn as_signed(x: u64) -> int {
    if x <= i64::MAX {
        x as int
    } else {
        x - 0x1_0000_0000_0000_0000
    }
}

/// How far a restart rewinds: to the start, and a minute beyond it.
pub open spec fn rewind_of(elapsed_ms: u64) -> int {
    -as_signed(elapsed_ms) - 60000
}

/// The rewind can be counted.
pub open spec fn can_rewind(elapsed_ms: u64) -> bool {
    as_signed(elapsed_ms) != i64::MIN && rewind_of(elapsed_ms) >= i64::MIN
}

impl PlayerState {
    /// The playing track has a next position.
    pub open spec fn can_advance(&self) -> bool {
        self.now_playing matches Some(np) ==> np.track_index < usize::MAX
    }

    /// Going back from the playing track finds a track.
    pub open spec fn can_go_back(&self) -> bool {
        self.now_playing matches Some(np) ==> if np.elapsed_ms > 3000 || np.track_index == 0 {
            np.track_index < np.playlist@.len()
        } else {
            np.track_index - 1 < np.playlist@.len()
        }
    }

    /// The playing track can be restarted.
    pub open spec fn can_restart(&self) -> bool {
        self.now_playing matches Some(np) ==> can_rewind(np.elapsed_ms)
    }
}

fn rewind_delta(elapsed_ms: u64) -> (r: i64)
    requires
        can_rewind(elapsed_ms),
    ensures
        r == rewind_of(elapsed_ms),
{
    let s: i128 = if elapsed_ms <= 9223372036854775807 {
        elapsed_ms as i128
    } else {
        elapsed_ms as i128 - 18446744073709551616
    };
    let d: i128 = -s - 60000;
    d as i64
}

/// What plays once a row of a playlist was started.
pub open spec fn is_session(
    np: NowPlaying,
    track: TrackInfo,
    index: int,
    playlist: Seq<TrackInfo>,
    row: Option<Track>,
) -> bool {
    &&& np.track_name == track.name
    &&& np.artist == track.artist
    &&& np.album == track.album
    &&& np.duration_ms == match track.duration_ms {
        Some(d) => d,
        None => 0,
    }
    &&& np.elapsed_ms == 0
    &&& np.state == PlaybackState::Playing
    &&& np.track_index == index
    &&& np.playlist@ == playlist
    &&& np.paused_frame is None
    &&& !np.counted
    &&& match row {
        Some(t) => np.track_id == Some(t.id) && np.year == t.year && np.metadata_marquee@ == joined(
            marquee_parts(t),
            " | "@,
        ),
        None => np.track_id is None && np.year is None && np.metadata_marquee@.len() == 0,
    }
}

fn copy_rows(rows: &Vec<TrackInfo>) -> (r: Vec<TrackInfo>)
    ensures
        r@ == rows@,
{
    let r = rows.clone();
    proof {
        assert(r@ =~= rows@);
    }
    r
}

fn same_path(a: &Option<String>, b: &Option<String>) -> (r: bool)
    ensures
        r == (a is Some && b is Some && a->0@ == b->0@),
{
    match a {
        Some(x) => match b {
            Some(y) => str_eq(x.as_str(), y.as_str()),
            None => false,
        },
        None => false,
    }
}

/// Recording a session changes no row's file.
proof fn recording_keeps_files(before: App, after: App, completed: bool)
    requires
        after.session_recorded(&before, completed),
    ensures
        after.lists.track_list@.len() == before.lists.track_list@.len(),
        forall|i: int|
            0 <= i < before.lists.track_list@.len() ==> (#[trigger] after.lists.track_list@[i]).location
                == before.lists.track_list@[i].location,
{
}

impl App {
    /// The row that would be played: the selected one, held within the list.
    pub open spec fn row_to_play(&self) -> int {
        if self.lists.track_selected < self.lists.track_list@.len() {
            self.lists.track_selected as int
        } else {
            self.lists.track_list@.len() - 1
        }
    }

    /// A row was started in a new session.
    pub open spec fn session_started(
        &self,
        before: &App,
        index: int,
        playlist: Seq<TrackInfo>,
        audio: Seq<AudioCommand>,
        audio_after: Seq<AudioCommand>,
    ) -> bool {
        let track = playlist[index];
        &&& *self == (App { player: self.player, ..*before })
        &&& self.player == (PlayerState { now_playing: self.player.now_playing, ..before.player })
        &&& self.player.now_playing is Some
        &&& is_session(
            self.player.now_playing->0,
            track,
            index,
            playlist,
            playable_row(before.library, track),
        )
        &&& audio_after == audio.push(AudioCommand::Play { path: track.location->0 })
    }

    fn start_session(
        &mut self,
        track: TrackInfo,
        path: String,
        index: usize,
        playlist: Vec<TrackInfo>,
        audio_tx: &mut Vec<AudioCommand>,
    )
        requires
            index < playlist@.len(),
            track == playlist@[index as int],
            track.location == Some(path),
        ensures
            final(self).session_started(
                old(self),
                index as int,
                playlist@,
                old(audio_tx)@,
                final(audio_tx)@,
            ),
    {
        let row = self.lookup_library_track(&track);
        let track_id: Option<u64> = match &row {
            Some(t) => Some(t.id),
            None => None,
        };
        let (year, metadata_marquee) = build_now_playing_metadata(row.as_ref());
        audio_tx.push(AudioCommand::Play { path });
        self.player.now_playing = Some(
            NowPlaying {
                track_name: track.name,
                artist: track.artist,
                album: track.album,
                duration_ms: match track.duration_ms {
                    Some(d) => d,
                    None => 0,
                },
                elapsed_ms: 0,
                state: PlaybackState::Playing,
                track_index: index,
                playlist,
                paused_frame: None,
                track_id,
                counted: false,
                year,
                metadata_marquee,
            },
        );
    }

    /// The session goes on: resumed where it was paused, from the start where
    /// it was playing.
    pub open spec fn session_continued(
        np: NowPlaying,
        after: NowPlaying,
        audio: Seq<AudioCommand>,
        audio_after: Seq<AudioCommand>,
    ) -> bool {
        match np.state {
            PlaybackState::Paused => {
                &&& after == (NowPlaying {
                    state: PlaybackState::Playing,
                    paused_frame: None,
                    track_index: after.track_index,
                    playlist: after.playlist,
                    ..np
                })
                &&& audio_after == audio.push(AudioCommand::Resume)
            },
            PlaybackState::Playing => {
                &&& after == (NowPlaying {
                    elapsed_ms: 0,
                    counted: false,
                    track_index: after.track_index,
                    playlist: after.playlist,
                    ..np
                })
                &&& audio_after == audio.push(
                    AudioCommand::Scrub { delta_ms: rewind_of(np.elapsed_ms) as i64 },
                )
            },
        }
    }

    /// Same-track start: resume when paused, restart when already playing. Both
    /// keep the current session: no skip is recorded and stem state is
    /// untouched. `false` when there is no session to act on.
    pub fn resume_or_restart_current(&mut self, audio_tx: &mut Vec<AudioCommand>) -> (r: bool)
        requires
            old(self).player.can_restart(),
        ensures
            r == (old(self).player.now_playing is Some),
            *final(self) == (App { player: final(self).player, ..*old(self) }),
            final(self).player == (PlayerState {
                now_playing: final(self).player.now_playing,
                ..old(self).player
            }),
            match old(self).player.now_playing {
                Some(np) => {
                    &&& final(self).player.now_playing is Some
                    &&& final(self).player.now_playing->0.track_index == np.track_index
                    &&& final(self).player.now_playing->0.playlist == np.playlist
                    &&& App::session_continued(
                        np,
                        final(self).player.now_playing->0,
                        old(audio_tx)@,
                        final(audio_tx)@,
                    )
                },
                None => final(self).player.now_playing is None && final(audio_tx)@ == old(audio_tx)@,
            },
            old(self).valid() ==> final(self).valid(),
    {
        match &mut self.player.now_playing {
            Some(np) => {
                match np.state {
                    PlaybackState::Paused => {
                        audio_tx.push(AudioCommand::Resume);
                        np.state = PlaybackState::Playing;
                        np.paused_frame = None;
                    },
                    PlaybackState::Playing => {
                        let delta_ms = rewind_delta(np.elapsed_ms);
                        audio_tx.push(AudioCommand::Scrub { delta_ms });
                        np.elapsed_ms = 0;
                        np.counted = false;
                    },
                }
                true
            },
            None => false,
        }
    }

    /// The session before was ended: recorded as a skip unless it was counted,
    /// and its stems let go.
    pub open spec fn session_ended(&self, before: &App) -> bool {
        exists|mid: App| #[trigger]
            mid.session_recorded(before, false) && self.stems_let_go(&mid)
    }

    fn end_session(&mut self)
        requires
            old(self).stems.state.can_let_go(),
        ensures
            final(self).session_ended(old(self)),
    {
        self.record_now_playing_skip();
        let ghost mid = *self;
        proof {
            assert(mid.session_recorded(old(self), false));
        }
        self.reset_stems_for_track_change();
    }

    /// What starting the selected row does.
    pub open spec fn selected_played(
        &self,
        before: &App,
        audio: Seq<AudioCommand>,
        audio_after: Seq<AudioCommand>,
    ) -> bool {
        if before.lists.track_list@.len() == 0 {
            *self == *before && audio_after == audio
        } else {
            let index = before.row_to_play();
            let rows = before.lists.track_list@;
            let here = before.playing_path();
            if rows[index].location is Some && here is Some && rows[index].location->0@ == here->0@ {
                let np = before.player.now_playing->0;
                &&& *self == (App { player: self.player, ..*before })
                &&& self.player == (PlayerState {
                    now_playing: self.player.now_playing,
                    ..before.player
                })
                &&& self.player.now_playing is Some
                &&& self.player.now_playing->0.track_index == index
                &&& self.player.now_playing->0.playlist@ == rows
                &&& App::session_continued(np, self.player.now_playing->0, audio, audio_after)
            } else if rows[index].location is None {
                &&& (App { toast_message: before.toast_message, ..*self }).session_ended(before)
                &&& self.says("No file path for this track"@, true)
                &&& audio_after == audio
            } else {
                exists|mid: App| #[trigger]
                    mid.session_ended(before) && self.session_started(
                        &mid,
                        index,
                        mid.lists.track_list@,
                        audio,
                        audio_after,
                    )
            }
        }
    }

    /// Starts the selected row. On the row that is loaded already the session
    /// goes on, now within the list on screen; any other start ends the session
    /// before.
    pub fn play_selected_track(&mut self, audio_tx: &mut Vec<AudioCommand>)
        requires
            old(self).stems.state.can_let_go(),
            old(self).player.can_restart(),
        ensures
            final(self).selected_played(old(self), old(audio_tx)@, final(audio_tx)@),
            old(self).valid() ==> final(self).valid(),
    {
        if self.lists.track_list.len() == 0 {
            return;
        }
        let index: usize = if self.lists.track_selected < self.lists.track_list.len() {
            self.lists.track_selected
        } else {
            self.lists.track_list.len() - 1
        };
        let here = self.playing_track_path();
        if same_path(&self.lists.track_list[index].location, &here) {
            let rows = copy_rows(&self.lists.track_list);
            let _ = self.resume_or_restart_current(audio_tx);
            if let Some(np) = &mut self.player.now_playing {
                np.track_index = index;
                np.playlist = rows;
            }
            return;
        }
        self.end_session();
        let ghost mid = *self;
        proof {
            assert(mid.session_ended(old(self)));
            let m = choose|m: App| #[trigger]
                m.session_recorded(old(self), false) && mid.stems_let_go(&m);
            recording_keeps_files(*old(self), m, false);
        }
        let path: String = match &self.lists.track_list[index].location {
            Some(p) => p.clone(),
            None => {
                self.set_toast("No file path for this track".to_owned(), true);
                return;
            },
        };
        let track = self.lists.track_list[index].clone();
        let rows = copy_rows(&self.lists.track_list);
        self.start_session(track, path, index, rows, audio_tx);
    }

    /// What the pause key does.
    pub open spec fn playback_toggled(
        &self,
        before: &App,
        audio: Seq<AudioCommand>,
        audio_after: Seq<AudioCommand>,
    ) -> bool {
        match before.player.now_playing {
            Some(np) => {
                &&& *self == (App {
                    player: PlayerState {
                        now_playing: Some(
                            match np.state {
                                PlaybackState::Playing => NowPlaying {
                                    state: PlaybackState::Paused,
                                    paused_frame: Some(before.anim.anim_frame),
                                    ..np
                                },
                                PlaybackState::Paused => NowPlaying {
                                    state: PlaybackState::Playing,
                                    paused_frame: None,
                                    ..np
                                },
                            },
                        ),
                        ..before.player
                    },
                    ..*before
                })
                &&& audio_after == audio.push(
                    match np.state {
                        PlaybackState::Playing => AudioCommand::Pause,
                        PlaybackState::Paused => AudioCommand::Resume,
                    },
                )
            },
            None => self.selected_played(before, audio, audio_after),
        }
    }

    /// Pauses or resumes; with nothing playing, starts the selected row.
    pub fn toggle_playback(&mut self, audio_tx: &mut Vec<AudioCommand>)
        requires
            old(self).stems.state.can_let_go(),
            old(self).player.can_restart(),
        ensures
            final(self).playback_toggled(old(self), old(audio_tx)@, final(audio_tx)@),
            old(self).valid() ==> final(self).valid(),
    {
        if self.player.now_playing.is_none() {
            self.play_selected_track(audio_tx);
            return;
        }
        let frame: usize = self.anim.anim_frame;
        if let Some(np) = &mut self.player.now_playing {
            match np.state {
                PlaybackState::Playing => {
                    audio_tx.push(AudioCommand::Pause);
                    np.state = PlaybackState::Paused;
                    np.paused_frame = Some(frame);
                },
                PlaybackState::Paused => {
                    audio_tx.push(AudioCommand::Resume);
                    np.state = PlaybackState::Playing;
                    np.paused_frame = None;
                },
            }
        }
    }

    /// What starting a row of a playlist does: a row without a file only brings
    /// up a message.
    pub open spec fn playlist_row_played(
        &self,
        before: &App,
        index: int,
        playlist: Seq<TrackInfo>,
        audio: Seq<AudioCommand>,
        audio_after: Seq<AudioCommand>,
    ) -> bool {
        if playlist[index].location is None {
            &&& *self == (App { toast_message: self.toast_message, ..*before })
            &&& self.says("No file path for this track"@, true)
            &&& audio_after == audio
        } else {
            exists|mid: App| #[trigger]
                mid.stems_let_go(before) && self.session_started(
                    &mid,
                    index,
                    playlist,
                    audio,
                    audio_after,
                )
        }
    }

    /// Starts a row of a playlist.
    pub fn play_from_playlist(
        &mut self,
        index: usize,
        playlist: Vec<TrackInfo>,
        audio_tx: &mut Vec<AudioCommand>,
    )
        requires
            index < playlist@.len(),
            old(self).stems.state.can_let_go(),
        ensures
            final(self).playlist_row_played(
                old(self),
                index as int,
                playlist@,
                old(audio_tx)@,
                final(audio_tx)@,
            ),
            old(self).valid() ==> final(self).valid(),
    {
        let track = playlist[index].clone();
        let path: String = match &track.location {
            Some(p) => p.clone(),
            None => {
                self.set_toast("No file path for this track".to_owned(), true);
                return;
            },
        };
        self.reset_stems_for_track_change();
        let ghost mid = *self;
        proof {
            assert(mid.stems_let_go(old(self)));
        }
        self.start_session(track, path, index, playlist, audio_tx);
    }

    /// Playback stopped: no session, and its stems let go.
    pub open spec fn playback_ended(
        &self,
        before: &App,
        audio: Seq<AudioCommand>,
        audio_after: Seq<AudioCommand>,
    ) -> bool {
        exists|mid: App| #[trigger]
            mid.stems_let_go(before) && *self == (App {
                player: PlayerState { now_playing: None, ..mid.player },
                ..mid
            }) && audio_after == audio.push(AudioCommand::Stop)
    }

    fn end_playback(&mut self, audio_tx: &mut Vec<AudioCommand>)
        requires
            old(self).stems.state.can_let_go(),
        ensures
            final(self).playback_ended(old(self), old(audio_tx)@, final(audio_tx)@),
    {
        self.reset_stems_for_track_change();
        let ghost mid = *self;
        proof {
            assert(mid.stems_let_go(old(self)));
        }
        audio_tx.push(AudioCommand::Stop);
        self.player.now_playing = None;
    }

    /// What going to the next track does, once the session was recorded.
    pub open spec fn went_on(
        &self,
        before: &App,
        audio: Seq<AudioCommand>,
        audio_after: Seq<AudioCommand>,
    ) -> bool {
        match before.player.now_playing {
            None => *self == *before && audio_after == audio,
            Some(np) => if np.track_index + 1 < np.playlist@.len() {
                self.playlist_row_played(
                    before,
                    np.track_index + 1,
                    np.playlist@,
                    audio,
                    audio_after,
                )
            } else {
                self.playback_ended(before, audio, audio_after)
            },
        }
    }

    /// What the next-track key does.
    pub open spec fn next_played(
        &self,
        before: &App,
        audio: Seq<AudioCommand>,
        audio_after: Seq<AudioCommand>,
    ) -> bool {
        exists|mid: App| #[trigger]
            mid.session_recorded(before, false) && self.went_on(&mid, audio, audio_after)
    }

    /// Goes to the next track of the playlist; playback stops at its end. The
    /// session left behind counts as a skip unless it was counted.
    pub fn next_track(&mut self, audio_tx: &mut Vec<AudioCommand>)
        requires
            old(self).stems.state.can_let_go(),
            old(self).player.can_advance(),
        ensures
            final(self).next_played(old(self), old(audio_tx)@, final(audio_tx)@),
            old(self).valid() ==> final(self).valid(),
    {
        self.record_now_playing_skip();
        let ghost mid = *self;
        proof {
            assert(mid.session_recorded(old(self), false));
        }
        let next: Option<(usize, Vec<TrackInfo>)> = match &self.player.now_playing {
            None => {
                return;
            },
            Some(np) => {
                if np.track_index + 1 < np.playlist.len() {
                    Some((np.track_index + 1, copy_rows(&np.playlist)))
                } else {
                    None
                }
            },
        };
        match next {
            Some((index, playlist)) => {
                self.play_from_playlist(index, playlist, audio_tx);
            },
            None => {
                self.end_playback(audio_tx);
            },
        }
    }

    /// Going back restarts the track: it has run a while, or it is the first.
    pub open spec fn back_restarts(&self) -> bool {
        self.player.now_playing matches Some(np) && (np.elapsed_ms > 3000 || np.track_index == 0)
    }

    /// What the previous-track key does.
    pub open spec fn previous_played(
        &self,
        before: &App,
        audio: Seq<AudioCommand>,
        audio_after: Seq<AudioCommand>,
    ) -> bool {
        match before.player.now_playing {
            None => *self == *before && audio_after == audio,
            Some(np) => if before.back_restarts() {
                self.playlist_row_played(
                    before,
                    np.track_index as int,
                    np.playlist@,
                    audio,
                    audio_after,
                )
            } else {
                exists|mid: App| #[trigger]
                    mid.session_recorded(before, false) && self.playlist_row_played(
                        &mid,
                        np.track_index - 1,
                        np.playlist@,
                        audio,
                        audio_after,
                    )
            },
        }
    }

    /// Goes to the previous track, or restarts the current one after three
    /// seconds. A restart records no skip.
    pub fn prev_track(&mut self, audio_tx: &mut Vec<AudioCommand>)
        requires
            old(self).stems.state.can_let_go(),
            old(self).player.can_go_back(),
        ensures
            final(self).previous_played(old(self), old(audio_tx)@, final(audio_tx)@),
            old(self).valid() ==> final(self).valid(),
    {
        let restart = match &self.player.now_playing {
            Some(np) => np.elapsed_ms > 3000 || np.track_index == 0,
            None => {
                return;
            },
        };
        if !restart {
            self.record_now_playing_skip();
        }
        let ghost mid = *self;
        proof {
            assert(restart || mid.session_recorded(old(self), false));
        }
        let (index, playlist): (usize, Vec<TrackInfo>) = match &self.player.now_playing {
            None => {
                return;
            },
            Some(np) => (
                if restart {
                    np.track_index
                } else {
                    np.track_index - 1
                },
                copy_rows(&np.playlist),
            ),
        };
        self.play_from_playlist(index, playlist, audio_tx);
    }

    /// What the stop key does.
    pub open spec fn stopped(
        &self,
        before: &App,
        audio: Seq<AudioCommand>,
        audio_after: Seq<AudioCommand>,
    ) -> bool {
        exists|mid: App| #[trigger]
            mid.session_recorded(before, false) && self.playback_ended(&mid, audio, audio_after)
    }

    /// Stops playback. The session counts as a skip unless it was counted.
    pub fn stop_playback(&mut self, audio_tx: &mut Vec<AudioCommand>)
        requires
            old(self).stems.state.can_let_go(),
        ensures
            final(self).stopped(old(self), old(audio_tx)@, final(audio_tx)@),
            old(self).valid() ==> final(self).valid(),
    {
        self.record_now_playing_skip();
        let ghost mid = *self;
        proof {
            assert(mid.session_recorded(old(self), false));
        }
        self.end_playback(audio_tx);
    }

    /// The playing position moved.
    pub open spec fn at_position(before: App, elapsed_ms: u64) -> App {
        match before.player.now_playing {
            Some(np) => App {
                player: PlayerState {
                    now_playing: Some(NowPlaying { elapsed_ms, ..np }),
                    ..before.player
                },
                ..before
            },
            None => before,
        }
    }

    /// What an event of the audio thread does.
    pub open spec fn audio_handled(
        &self,
        before: &App,
        event: AudioEvent,
        audio: Seq<AudioCommand>,
        audio_after: Seq<AudioCommand>,
    ) -> bool {
        match event {
            AudioEvent::Position { elapsed_ms } => {
                let moved = App::at_position(*before, elapsed_ms);
                &&& audio_after == audio
                &&& if moved.play_is_due() {
                    self.session_recorded(&moved, true)
                } else {
                    *self == moved
                }
            },
            AudioEvent::TrackEnded => exists|mid: App| #[trigger]
                mid.session_recorded(before, true) && self.next_played(&mid, audio, audio_after),
            AudioEvent::PlaybackError(msg) => {
                &&& audio_after == audio
                &&& (App { toast_message: before.toast_message, ..*self }).stems_let_go(
                    &(App {
                        player: PlayerState { now_playing: None, ..before.player },
                        ..*before
                    }),
                )
                &&& self.says("Playback: "@ + msg@, true)
            },
            AudioEvent::SwapFailed { error, to_stems } => {
                &&& audio_after == audio
                &&& *self == (App {
                    stems: self.stems,
                    toast_message: self.toast_message,
                    ..*before
                })
                &&& self.stems == (crate::app::StemUi { state: self.stems.state, ..before.stems })
                &&& if to_stems {
                    self.stems.state.is_off() && self.stems.state.keeps_job(&before.stems.state)
                } else {
                    self.stems.state == before.stems.state
                }
                &&& self.says("Stem swap failed: "@ + error@, true)
            },
            AudioEvent::SeekFailed(msg) => {
                &&& audio_after == audio
                &&& *self == (App { toast_message: self.toast_message, ..*before })
                &&& self.says("Seek failed: "@ + msg@, true)
            },
        }
    }

    /// Takes an event of the audio thread. A track that ended counts as played
    /// and the next one starts; a playback failure drops the session and counts
    /// as neither.
    pub fn handle_audio_event(&mut self, event: AudioEvent, audio_tx: &mut Vec<AudioCommand>)
        requires
            old(self).stems.state.can_let_go(),
            old(self).player.can_advance(),
        ensures
            final(self).audio_handled(old(self), event, old(audio_tx)@, final(audio_tx)@),
            old(self).valid() ==> final(self).valid(),
    {
        match event {
            AudioEvent::Position { elapsed_ms } => {
                if let Some(np) = &mut self.player.now_playing {
                    np.elapsed_ms = elapsed_ms;
                }
                proof {
                    assert(*self == App::at_position(*old(self), elapsed_ms));
                }
                self.maybe_record_play_for_threshold();
            },
            AudioEvent::TrackEnded => {
                self.record_now_playing_play();
                let ghost mid = *self;
                proof {
                    assert(mid.session_recorded(old(self), true));
                }
                self.next_track(audio_tx);
            },
            AudioEvent::PlaybackError(msg) => {
                self.player.now_playing = None;
                self.reset_stems_for_track_change();
                let text = concat2("Playback: ", msg.as_str());
                self.set_toast(text, true);
            },
            AudioEvent::SwapFailed { error, to_stems } => {
                if to_stems {
                    self.stems.state.reset();
                }
                let text = concat2("Stem swap failed: ", error.as_str());
                self.set_toast(text, true);
            },
            AudioEvent::SeekFailed(msg) => {
                let text = concat2("Seek failed: ", msg.as_str());
                self.set_toast(text, true);
            },
        }
    }
}

proof fn recording_keeps_valid(before: App, after: App, completed: bool)
    requires
        before.valid(),
        after.session_recorded(&before, completed),
    ensures
        after.valid(),
        after.lists.track_list@.len() == before.lists.track_list@.len(),
{
    recording_keeps_files(before, after, completed);
}

/// Whatever the audio thread reports, the playing track stays one of its
/// playlist and every selection stays within its list.
pub proof fn audio_events_keep_valid(
    before: App,
    after: App,
    event: AudioEvent,
    audio: Seq<AudioCommand>,
    audio_after: Seq<AudioCommand>,
)
    requires
        before.valid(),
        after.audio_handled(&before, event, audio, audio_after),
    ensures
        after.valid(),
{
    match event {
        AudioEvent::Position { elapsed_ms } => {
            let moved = App::at_position(before, elapsed_ms);
            assert(moved.valid());
            if moved.play_is_due() {
                recording_keeps_valid(moved, after, true);
            }
        },
        AudioEvent::TrackEnded => {
            let mid = choose|mid: App| #[trigger]
                mid.session_recorded(&before, true) && after.next_played(&mid, audio, audio_after);
            recording_keeps_valid(before, mid, true);
            going_on_keeps_valid(mid, after, audio, audio_after);
        },
        _ => {},
    }
}

proof fn going_on_keeps_valid(
    before: App,
    after: App,
    audio: Seq<AudioCommand>,
    audio_after: Seq<AudioCommand>,
)
    requires
        before.valid(),
        after.next_played(&before, audio, audio_after),
    ensures
        after.valid(),
{
    let mid = choose|mid: App| #[trigger]
        mid.session_recorded(&before, false) && after.went_on(&mid, audio, audio_after);
    recording_keeps_valid(before, mid, false);
}

} // verus!
