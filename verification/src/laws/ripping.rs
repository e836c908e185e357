//! Discs: which tracks are ripped, and what the user is warned of.
use vstd::prelude::*;
use crate::app::importing::release_texts;
use crate::app::App;
use crate::cd::{
    active_tracks, conflict_total, conflicts_at, count_true, fidelity_named, planned_at,
    position_of, selected_positions, CdDrive, CdStatusEvent, DiscToc, ImportField, ImportOverlay,
    MbTrack, PlannedFile, Release, RipFidelity, RipScan,
};
use crate::input::KeyCode;
use crate::laws::counting::the_first_is_found;
use crate::library::first_where;

verus! {

/// A position is ripped exactly when one of the selected tracks stands there: at
/// its own position, or else at its place on the disc.
pub proof fn selected_tracks_are_ripped(tracks: Seq<MbTrack>, selected: Seq<bool>, n: int, p: u32)
    requires
        0 <= n <= tracks.len() < u32::MAX,
        n <= selected.len(),
    ensures
        selected_positions(tracks, selected, n).contains(p) <==> exists|i: int|
            0 <= i < n && #[trigger] selected[i] && stands_at(tracks[i], i, p),
    decreases n,
{
    if n > 0 {
        let rest = selected_positions(tracks, selected, n - 1);
        let all = selected_positions(tracks, selected, n);
        selected_tracks_are_ripped(tracks, selected, n - 1, p);
        if rest.contains(p) {
            assert(all[rest.index_of(p)] == p);
        }
        if selected[n - 1] {
            assert(all[all.len() - 1] == position_of(tracks[n - 1], n - 1));
        }
        if all.contains(p) && !rest.contains(p) {
            let k = all.index_of(p);
            if k < rest.len() {
                assert(rest[k] == p);
            }
            assert(selected[n - 1] && stands_at(tracks[n - 1], n - 1, p));
        }
    }
}

/// The track stands at the position: its own, or else its place counted from one.
pub open spec fn stands_at(t: MbTrack, i: int, p: u32) -> bool {
    match t.position {
        Some(own) => own == p,
        None => p == i + 1,
    }
}

/// As many positions are ripped as tracks are selected.
pub proof fn each_selected_track_is_ripped_once(tracks: Seq<MbTrack>, selected: Seq<bool>, n: int)
    requires
        0 <= n <= selected.len(),
    ensures
        selected_positions(tracks, selected, n).len() == count_true(selected.take(n)),
    decreases n,
{
    if n > 0 {
        each_selected_track_is_ripped_once(tracks, selected, n - 1);
        assert(selected.take(n).drop_last() =~= selected.take(n - 1));
        assert(selected.take(n).last() == selected[n - 1]);
    } else {
        assert(selected.take(n) =~= Seq::<bool>::empty());
    }
}

/// Marks are counted one by one.
pub proof fn marks_add_up(s: Seq<bool>, b: bool)
    ensures
        count_true(s.push(b)) == count_true(s) + if b {
            1nat
        } else {
            0
        },
        count_true(Seq::<bool>::empty()) == 0,
{
    assert(s.push(b).drop_last() =~= s);
}

/// The tracks of a release are those of its first disc that has any.
pub proof fn the_first_disc_with_tracks_counts(media: Seq<Seq<MbTrack>>)
    ensures
        active_tracks(media).len() == 0 ==> forall|i: int|
            0 <= i < media.len() ==> (#[trigger] media[i]).len() == 0,
        active_tracks(media).len() > 0 ==> exists|i: int|
            0 <= i < media.len() && active_tracks(media) == #[trigger] media[i] && forall|k: int|
                0 <= k < i ==> (#[trigger] media[k]).len() == 0,
    decreases media.len(),
{
    if media.len() > 0 {
        if media[0].len() > 0 {
            assert(active_tracks(media) == media[0]);
        } else {
            let t = media.skip(1);
            the_first_disc_with_tracks_counts(t);
            if active_tracks(t).len() == 0 {
                assert forall|i: int| 0 <= i < media.len() implies (#[trigger] media[i]).len() == 0 by {
                    if i > 0 {
                        assert(t[i - 1].len() == 0);
                    }
                }
            } else {
                let i = choose|i: int|
                    0 <= i < t.len() && active_tracks(t) == #[trigger] t[i] && forall|k: int|
                        0 <= k < i ==> (#[trigger] t[k]).len() == 0;
                assert(media[i + 1] == t[i]);
                assert forall|k: int| 0 <= k < i + 1 implies (#[trigger] media[k]).len() == 0 by {
                    if k > 0 {
                        assert(t[k - 1].len() == 0);
                    }
                }
            }
        }
    }
}

/// The planned file is there: itself, or a file of its name under another
/// extension.
pub open spec fn is_there_already(scan: RipScan, f: PlannedFile) -> bool {
    f.exists || f.stem is Some && exists|i: int|
        0 <= i < scan.existing_stems@.len() && (#[trigger] scan.existing_stems@[i])@ == f.stem->0@
}

/// The user is warned of a position exactly when the release has a track there
/// and the file that is planned for it is there already.
pub proof fn warnings_are_of_files_that_are_there(scan: RipScan, tracks: Seq<MbTrack>, p: u32, k: int)
    requires
        0 <= k < scan.planned@.len(),
        scan.planned@[k].position == p,
        forall|j: int| 0 <= j < k ==> (#[trigger] scan.planned@[j]).position != p,
    ensures
        conflicts_at(scan, tracks, p) <==> (exists|i: int|
            0 <= i < tracks.len() && (#[trigger] tracks[i]).position == Some(p)) && is_there_already(
            scan,
            scan.planned@[k],
        ),
{
    let q = |f: PlannedFile| f.position == p;
    the_first_is_found(scan.planned@, q);
    match first_where(scan.planned@, q) {
        Some(f) => {
            let i = choose|i: int|
                0 <= i < scan.planned@.len() && #[trigger] scan.planned@[i] == f && q(f) && forall|j: int|
                    0 <= j < i ==> !q(#[trigger] scan.planned@[j]);
            if i < k {
                assert(scan.planned@[i].position != p);
            }
            if k < i {
                assert(!q(scan.planned@[k]));
            }
            assert(planned_at(scan.planned@, p) == Some(scan.planned@[k]));
        },
        None => {
            assert(!q(scan.planned@[k]));
        },
    }
}

/// Warnings are counted position by position.
pub proof fn warnings_add_up(scan: RipScan, tracks: Seq<MbTrack>, positions: Seq<u32>, p: u32)
    ensures
        conflict_total(scan, tracks, positions.push(p)) == conflict_total(scan, tracks, positions)
            + if conflicts_at(scan, tracks, p) {
            1nat
        } else {
            0
        },
        conflict_total(scan, tracks, Seq::empty()) == 0,
{
    assert(positions.push(p).drop_last() =~= positions);
}

/// What is confirmed is ripped: from the drive and disc of the overlay, the
/// chosen release, exactly the selected tracks, in the chosen fidelity, into the
/// music directory. Files that are there are overwritten only after a warning.
pub proof fn what_is_confirmed_is_ripped(before: App, after: App, o: ImportOverlay, p: u32)
    requires
        after.import_confirmed(&before),
        before.import.overlay == Some(o),
        o.valid(),
        o.positions().len() > 0,
        before.import.music_dir is Some,
    ensures
        before.conflicts(o) > 0 && !o.overwrite_armed ==> {
            &&& after.out == before.out
            &&& after.import.overlay is Some
            &&& after.import.overlay->0.overwrite_armed
        },
        before.conflicts(o) == 0 || o.overwrite_armed ==> {
            &&& after.import.overlay is None
            &&& after.out.pending_bg_commands@.len() == before.out.pending_bg_commands@.len() + 1
            &&& after.out.pending_bg_commands@.last() is RipAndImport
            &&& ({
                let r = after.out.pending_bg_commands@.last()->RipAndImport_0;
                let tracks = o.release().tracks();
                &&& r.drive == o.drive
                &&& r.release@.id == o.releases@[o.release_idx as int].id
                &&& r.fidelity == o.fidelity
                &&& r.auto_eject == o.auto_eject
                &&& Some(r.dest_dir) == before.import.music_dir
                &&& r.track_positions@.contains(p) <==> exists|i: int|
                    0 <= i < o.selected@.len() && #[trigger] o.selected@[i] && stands_at(tracks[i], i, p)
            })
        },
{
    selected_tracks_are_ripped(o.release().tracks(), o.selected@, o.selected@.len() as int, p);
}

/// Nothing is ripped where nothing is selected.
pub proof fn nothing_selected_is_nothing_ripped(before: App, after: App, o: ImportOverlay)
    requires
        after.import_confirmed(&before),
        before.import.overlay == Some(o),
        o.positions().len() == 0,
    ensures
        after.out == before.out,
        after.import == before.import,
{
}

/// The space key marks or unmarks the track under the cursor and no other; `a`
/// marks all and `n` none. Each takes back an earlier warning.
pub proof fn marks_follow_the_keys(before: ImportOverlay, after: ImportOverlay, code: KeyCode, i: int)
    requires
        after.edited(&before, code),
        before.valid(),
        before.focus == ImportField::Tracks,
        0 <= i < before.selected@.len(),
    ensures
        code == KeyCode::Char(' ') ==> after.selected@.len() == before.selected@.len() && (
        after.selected@[i] != before.selected@[i] <==> i == before.cursor) && !after.overwrite_armed,
        code == KeyCode::Char('a') ==> after.selected@[i] && !after.overwrite_armed,
        code == KeyCode::Char('n') ==> !after.selected@[i] && !after.overwrite_armed,
        code == KeyCode::Down && before.cursor + 1 < before.selected@.len() ==> after.cursor
            == before.cursor + 1 && after.selected == before.selected,
        code == KeyCode::Up && before.cursor > 0 ==> after.cursor == before.cursor - 1 && after.selected
            == before.selected,
{
    assert(before.selected.len() == before.selected@.len());
}

/// Choosing another release goes to its neighbour, round and round, and marks all
/// of its tracks.
pub proof fn another_release_is_marked_whole(before: ImportOverlay, after: ImportOverlay, i: int)
    requires
        after.edited(&before, KeyCode::Char(']')),
        before.valid(),
        0 <= i < after.selected@.len(),
    ensures
        after.release_idx == before.release_idx + 1 || after.release_idx == 0 && before.release_idx + 1
            == before.releases@.len(),
        after.releases == before.releases,
        after.selected@[i],
        after.selected@.len() == after.releases@[after.release_idx as int].tracks().len(),
        !after.overwrite_armed,
{
}

/// The fidelity is one of lossless and lossy formats in a fixed round; going on
/// and going back undo each other.
pub proof fn fidelities_go_round(f: RipFidelity)
    ensures
        f.after().ahead() == f,
        f.ahead().after() == f,
        f.after() != f,
        RipFidelity::Flac.after() == RipFidelity::Alac,
        RipFidelity::Alac.after() == RipFidelity::Wav,
        RipFidelity::Wav.after() == RipFidelity::Aac,
        RipFidelity::Aac.after() == RipFidelity::Mp3Cbr320,
        RipFidelity::Mp3Cbr320.after() == RipFidelity::Mp3V0,
        RipFidelity::Mp3V0.after() == RipFidelity::Mp3V2,
        RipFidelity::Mp3V2.after() == RipFidelity::Flac,
{
}

/// The drive is asked for a disc at most every five seconds, and not while an
/// answer is awaited.
pub proof fn drives_are_asked_now_and_then(before: App, after: App)
    requires
        after.detect_requested(&before),
    ensures
        before.cd.detect_in_flight ==> after.out == before.out,
        before.cd.last_request is Some && before.host.clock_ms < before.cd.last_request->0 + 5000
            ==> after.out == before.out,
        !before.cd.detect_in_flight && (before.cd.last_request is None || before.host.clock_ms
            >= before.cd.last_request->0 + 5000) ==> {
            &&& after.out.pending_bg_commands@.len() == before.out.pending_bg_commands@.len() + 1
            &&& after.out.pending_bg_commands@.last() is DetectCd
            &&& after.cd.detect_in_flight
            &&& after.cd.last_request == Some(before.host.clock_ms)
        },
{
}

/// A reload reads the music directory that is configured.
pub proof fn reloads_read_the_music_directory(before: App, after: App)
    requires
        after.reload_queued(&before),
    ensures
        before.import.music_dir is None ==> after.out == before.out,
        before.import.music_dir is Some ==> after.out.pending_bg_commands@.last() is LoadLibrary
            && after.out.pending_bg_commands@.last()->LoadLibrary_music_dir == before.import.music_dir,
{
}

/// A disc that was identified opens with its own releases, the first one chosen,
/// every track marked, and in the fidelity that is configured.
pub proof fn an_identified_disc_opens_whole(
    before: App,
    after: App,
    drive: CdDrive,
    toc: DiscToc,
    mb_disc_id: String,
    primary: Release,
    alternates: Vec<Release>,
    i: int,
)
    requires
        after.import_opened(&before),
        before.cd.last_status == Some(
            CdStatusEvent::Identified { drive, toc, mb_disc_id, primary, alternates },
        ),
        0 <= i < primary.tracks().len(),
    ensures
        after.import.overlay is Some,
        ({
            let o = after.import.overlay->0;
            &&& o.drive == drive
            &&& o.mb_disc_id == mb_disc_id
            &&& o.releases@.len() == alternates@.len() + 1
            &&& o.releases@[0]@ == primary@
            &&& o.release_idx == 0
            &&& o.selected@.len() == primary.tracks().len()
            &&& o.selected@[i]
            &&& o.fidelity == before.import.default_rip_fidelity
            &&& o.auto_eject == before.import.auto_eject_default
            &&& !o.overwrite_armed
        }),
        after.out == before.out,
{
    let o = after.import.overlay->0;
    let texts = release_texts(o.releases@);
    assert(texts.len() == o.releases@.len());
    assert(texts[0] == o.releases@[0]@);
}

/// Without a disc that was identified nothing opens.
pub proof fn nothing_opens_without_a_disc(before: App, after: App)
    requires
        after.import_opened(&before),
        !(before.cd.last_status is Some && before.cd.last_status->0 is Identified),
    ensures
        after.import == before.import,
        after.out == before.out,
        after.toast_message is Some,
        (after.toast_message->0).2,
{
}

/// A fidelity is read from its own name, and from no name of another.
pub proof fn fidelities_are_read_from_their_names(s: Seq<char>)
    ensures
        s == "flac"@ ==> fidelity_named(s) == Some(RipFidelity::Flac),
        s == "wav"@ ==> fidelity_named(s) == Some(RipFidelity::Wav),
        s == "mp3-v0"@ ==> fidelity_named(s) == Some(RipFidelity::Mp3V0),
        s == "mp3-v2"@ ==> fidelity_named(s) == Some(RipFidelity::Mp3V2),
        s == "alac"@ || s == "apple-lossless"@ ==> fidelity_named(s) == Some(RipFidelity::Alac),
        s == "aac"@ || s == "aac-256"@ ==> fidelity_named(s) == Some(RipFidelity::Aac),
        s == "mp3-320"@ || s == "mp3-cbr-320"@ ==> fidelity_named(s) == Some(RipFidelity::Mp3Cbr320),
        fidelity_named(s) is Some ==> s == "flac"@ || s == "wav"@ || s == "mp3-v0"@ || s == "mp3-v2"@ || s
            == "alac"@ || s == "apple-lossless"@ || s == "aac"@ || s == "aac-256"@ || s == "mp3-320"@ || s
            == "mp3-cbr-320"@,
{
    reveal_strlit("flac");
    reveal_strlit("wav");
    reveal_strlit("mp3-v0");
    reveal_strlit("mp3-v2");
    reveal_strlit("alac");
    reveal_strlit("apple-lossless");
    reveal_strlit("aac");
    reveal_strlit("aac-256");
    reveal_strlit("mp3-320");
    reveal_strlit("mp3-cbr-320");
    assert("mp3-cbr-320"@.len() == 11);
    assert("mp3-320"@.len() == 7);
    assert("mp3-v0"@.len() == 6);
    assert("mp3-v2"@.len() == 6);
    assert("aac"@.len() == 3);
    assert("aac-256"@.len() == 7);
    assert("alac"@.len() == 4);
    assert("apple-lossless"@.len() == 14);
    assert("flac"@.len() == 4);
    assert("wav"@.len() == 3);
    assert("flac"@[0] == 'f' && "alac"@[0] == 'a');
    assert("wav"@[0] == 'w' && "aac"@[0] == 'a');
    assert("mp3-v0"@[5] == '0' && "mp3-v2"@[5] == '2');
    assert("aac-256"@[0] == 'a' && "mp3-320"@[0] == 'm');
}

} // verus!
