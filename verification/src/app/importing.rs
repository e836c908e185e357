//! CD import: detection, the import overlay, and the request to rip.
use vstd::prelude::*;
use crate::app::{elapsed, App, ImportState};
use crate::cd::{
    conflict_total, count_conflicts, CdDrive, CdState, CdStatusEvent, DiscToc, ImportField,
    ImportOverlay, Release, ReleaseText, RipAndImportRequest, RipFidelity,
};
use crate::commands::BgCommand;
use crate::format::{concat2, concat5, decimal, decimal_of};
use crate::input::{KeyCode, KeyEvent};

verus! {

/// What the releases say.
pub open spec fn release_texts(s: Seq<Release>) -> Seq<ReleaseText> {
    s.map_values(|r: Release| r@)
}

fn copy_releases(list: &Vec<Release>) -> (r: Vec<Release>)
    ensures
        release_texts(r@) == release_texts(list@),
        r@.len() == list@.len(),
        forall|i: int| 0 <= i < r@.len() ==> (#[trigger] r@[i])@ == list@[i]@,
{
    let mut r: Vec<Release> = Vec::new();
    let mut i: usize = 0;
    while i < list.len()
        invariant
            i <= list.len(),
            r.len() == i,
            forall|k: int| 0 <= k < i ==> (#[trigger] r@[k])@ == list@[k]@,
        decreases list.len() - i,
    {
        r.push(list[i].clone());
        i = i + 1;
    }
    proof {
        assert(release_texts(r@) =~= release_texts(list@));
    }
    r
}

/// An overlay as it opens on an identified disc: the primary match first, every
/// track selected.
pub open spec fn is_fresh_overlay(
    o: ImportOverlay,
    drive: CdDrive,
    toc: DiscToc,
    disc_id: String,
    primary: Release,
    alternates: Seq<Release>,
    fidelity: RipFidelity,
    auto_eject: bool,
) -> bool {
    &&& o.drive == drive
    &&& o.toc == (DiscToc { tracks: o.toc.tracks, ..toc })
    &&& o.toc.tracks@ == toc.tracks@
    &&& o.mb_disc_id == disc_id
    &&& release_texts(o.releases@) == seq![primary@] + release_texts(alternates)
    &&& o.release_idx == 0
    &&& o.cursor == 0
    &&& o.fidelity == fidelity
    &&& o.auto_eject == auto_eject
    &&& o.focus == ImportField::Tracks
    &&& o.selected@ == Seq::new(primary.tracks().len(), |i: int| true)
    &&& o.disarmed()
}

impl App {
    /// Another overlay, and nothing else.
    pub open spec fn with_overlay(before: App, overlay: Option<ImportOverlay>) -> App {
        App { import: ImportState { overlay, ..before.import }, ..before }
    }

    /// A library reload was queued.
    pub open spec fn reload_queued(&self, before: &App) -> bool {
        match before.import.music_dir {
            Some(dir) => {
                &&& *self == (App { out: self.out, ..*before })
                &&& self.out.sends(&before.out)
                &&& self.out.pending_bg_commands@.last() == (BgCommand::LoadLibrary {
                    music_dir: Some(dir),
                    fingerprint: before.scan.scan_fingerprint,
                })
            },
            None => *self == *before,
        }
    }

    /// Queue a library reload so the views see new content. Nothing happens
    /// without a music directory.
    pub fn queue_library_reload(&mut self)
        ensures
            final(self).reload_queued(old(self)),
            old(self).valid() ==> final(self).valid(),
    {
        let dir = self.import.music_dir.clone();
        if dir.is_some() {
            let fingerprint = self.scan.scan_fingerprint;
            self.out.pending_bg_commands.push(
                BgCommand::LoadLibrary { music_dir: dir, fingerprint },
            );
            proof {
                assert(self.out.pending_bg_commands@.drop_last()
                    =~= old(self).out.pending_bg_commands@);
            }
        }
    }

    /// What the import key does: an identified disc opens the overlay, anything
    /// else brings up a message.
    pub open spec fn import_opened(&self, before: &App) -> bool {
        match before.cd.last_status {
            None => self.only_says(before, "No optical drive detected"@, true),
            Some(CdStatusEvent::NoDrive) => self.only_says(
                before,
                "No optical drive detected"@,
                true,
            ),
            Some(CdStatusEvent::NoMedia { .. }) => self.only_says(
                before,
                "Insert a CD to import"@,
                true,
            ),
            Some(CdStatusEvent::UnknownDisc { reason, .. }) => self.only_says(
                before,
                "Cannot import \u{2014} "@ + reason@,
                true,
            ),
            Some(
                CdStatusEvent::Identified { drive, toc, mb_disc_id, primary, alternates },
            ) => {
                &&& *self == App::with_overlay(*before, self.import.overlay)
                &&& self.import.overlay matches Some(o) && o.valid() && is_fresh_overlay(
                    o,
                    drive,
                    toc,
                    mb_disc_id,
                    primary,
                    alternates@,
                    before.import.default_rip_fidelity,
                    before.import.auto_eject_default,
                )
            },
        }
    }

    /// The CD import entry point.
    pub fn handle_cd_import_key(&mut self)
        requires
            old(self).cd.valid(),
        ensures
            final(self).import_opened(old(self)),
    {
        let overlay: ImportOverlay = match &self.cd.last_status {
            None => {
                self.set_toast("No optical drive detected".to_owned(), true);
                return;
            },
            Some(status) => match status {
                CdStatusEvent::NoDrive => {
                    self.set_toast("No optical drive detected".to_owned(), true);
                    return;
                },
                CdStatusEvent::NoMedia { .. } => {
                    self.set_toast("Insert a CD to import".to_owned(), true);
                    return;
                },
                CdStatusEvent::UnknownDisc { reason, .. } => {
                    let msg = concat2("Cannot import \u{2014} ", reason.as_str());
                    self.set_toast(msg, true);
                    return;
                },
                CdStatusEvent::Identified { drive, toc, mb_disc_id, primary, alternates } => {
                    let first = primary.clone();
                    let rest = copy_releases(alternates);
                    proof {
                        assert forall|i: int| 0 <= i < rest@.len() implies (
                        #[trigger] rest@[i]).tracks().len() < u32::MAX by {
                            assert(rest@[i]@ == alternates@[i]@);
                            assert(alternates@[i].tracks().len() < u32::MAX);
                        }
                    }
                    let ghost rest_now = rest@;
                    let o = ImportOverlay::new(
                        drive.clone(),
                        toc.clone(),
                        mb_disc_id.clone(),
                        first,
                        rest,
                        self.import.default_rip_fidelity,
                        self.import.auto_eject_default,
                    );
                    proof {
                        assert(release_texts(o.releases@) =~= seq![primary@] + release_texts(
                            alternates@,
                        ));
                        assert(first.tracks() == primary.tracks());
                    }
                    o
                },
            },
        };
        self.import.overlay = Some(overlay);
    }

    /// Close the import overlay without starting a rip.
    pub fn close_import_overlay(&mut self)
        ensures
            *final(self) == App::with_overlay(*old(self), None),
            old(self).valid() ==> final(self).valid(),
    {
        self.import.overlay = None;
    }

    /// The directory that ripped tracks land in.
    pub fn import_destination(&self) -> (r: Option<String>)
        ensures
            r == self.import.music_dir,
    {
        self.import.music_dir.clone()
    }

    /// How many of the selected tracks are in the destination already.
    pub open spec fn conflicts(&self, o: ImportOverlay) -> nat {
        match self.host.rip_scan {
            Some(scan) => conflict_total(scan, o.release().tracks(), o.positions()),
            None => 0,
        }
    }

    /// The request to rip what the overlay selects.
    pub open spec fn is_rip_request(&self, o: ImportOverlay, dir: String, r: RipAndImportRequest) -> bool {
        &&& r.drive == o.drive
        &&& r.toc == (DiscToc { tracks: r.toc.tracks, ..o.toc })
        &&& r.toc.tracks@ == o.toc.tracks@
        &&& r.release@ == o.release()@
        &&& r.track_positions@ == o.positions()
        &&& r.fidelity == o.fidelity
        &&& r.dest_dir == dir
        &&& r.auto_eject == o.auto_eject
        &&& r.compute_acoustid_fingerprint == self.import.acoustid_fingerprint
    }

    /// What confirming the import does. Existing files ask for a second
    /// confirmation.
    pub open spec fn import_confirmed(&self, before: &App) -> bool {
        match before.import.overlay {
            None => *self == *before,
            Some(o) => if o.positions().len() == 0 {
                self.only_says(before, "Select at least one track before importing"@, true)
            } else {
                match before.import.music_dir {
                    None => self.only_says(
                        before,
                        "No music directory configured \u{2014} set `music_dir` in ~/.config/zytunes/config.toml or `ZYTUNES_MUSIC_DIR`"@,
                        true,
                    ),
                    Some(dir) => {
                        let n = before.conflicts(o);
                        if n > 0 && !o.overwrite_armed {
                            &&& *self == (App {
                                toast_message: self.toast_message,
                                ..App::with_overlay(
                                    *before,
                                    Some(
                                        ImportOverlay {
                                            conflict_count: n as usize,
                                            overwrite_armed: true,
                                            ..o
                                        },
                                    ),
                                )
                            })
                            &&& self.says(
                                decimal(n)
                                    + " track(s) already exist in the library \u{2014} press Enter again to overwrite, Esc to cancel"@,
                                true,
                            )
                        } else {
                            &&& *self == (App {
                                out: self.out,
                                toast_message: self.toast_message,
                                ..App::with_overlay(*before, None)
                            })
                            &&& self.out.sends(&before.out)
                            &&& self.out.pending_bg_commands@.last() matches BgCommand::RipAndImport(
                                r,
                            ) && before.is_rip_request(o, dir, r)
                            &&& self.says(
                                "Ripping "@ + decimal(o.positions().len()) + " tracks from "@ + (
                                o.release().artist@ + " \u{2014} "@ + o.release().title@)
                                    + "\u{2026}"@,
                                false,
                            )
                        }
                    },
                }
            },
        }
    }

    /// Confirm import: build the request from the overlay and queue it for the
    /// worker. Closes the overlay on success; brings up a message and stays open
    /// otherwise.
    pub fn confirm_import(&mut self)
        requires
            old(self).import.valid(),
        ensures
            final(self).import_confirmed(old(self)),
            final(self).import.valid(),
    {
        let (positions, conflicts, armed): (Vec<u32>, usize, bool) = match &self.import.overlay {
            Some(o) => {
                let positions = o.selected_track_positions();
                let n: usize = match &self.host.rip_scan {
                    Some(scan) => count_conflicts(scan, o.current_release(), &positions),
                    None => 0,
                };
                (positions, n, o.overwrite_armed)
            },
            None => {
                return;
            },
        };
        if positions.len() == 0 {
            self.set_toast("Select at least one track before importing".to_owned(), true);
            return;
        }
        let dest_dir: String = match self.import_destination() {
            Some(d) => d,
            None => {
                self.set_toast(
                    "No music directory configured \u{2014} set `music_dir` in ~/.config/zytunes/config.toml or `ZYTUNES_MUSIC_DIR`".to_owned(),
                    true,
                );
                return;
            },
        };
        if conflicts > 0 && !armed {
            if let Some(o) = &mut self.import.overlay {
                o.conflict_count = conflicts;
                o.overwrite_armed = true;
            }
            let n = decimal_of(conflicts as u64);
            let msg = concat2(
                n.as_str(),
                " track(s) already exist in the library \u{2014} press Enter again to overwrite, Esc to cancel",
            );
            self.set_toast(msg, true);
            return;
        }
        let count = decimal_of(positions.len() as u64);
        let fingerprint = self.import.acoustid_fingerprint;
        let taken = self.import.overlay.take();
        if let Some(o) = taken {
            let label = o.current_release_label();
            let msg = concat5(
                "Ripping ",
                count.as_str(),
                " tracks from ",
                label.as_str(),
                "\u{2026}",
            );
            let release = o.current_release().clone();
            let request = RipAndImportRequest {
                drive: o.drive,
                toc: o.toc,
                release,
                track_positions: positions,
                fidelity: o.fidelity,
                dest_dir,
                auto_eject: o.auto_eject,
                compute_acoustid_fingerprint: fingerprint,
            };
            self.out.pending_bg_commands.push(BgCommand::RipAndImport(request));
            proof {
                assert(self.out.pending_bg_commands@.drop_last()
                    =~= old(self).out.pending_bg_commands@);
            }
            self.set_toast(msg, false);
        }
    }

    /// The rip in flight was asked to stop.
    pub open spec fn rip_cancelled(&self, before: &App) -> bool {
        if before.cd.rip is None {
            *self == *before
        } else {
            &&& *self == (App { out: self.out, toast_message: self.toast_message, ..*before })
            &&& self.out.sends(&before.out)
            &&& self.out.pending_bg_commands@.last() == BgCommand::CancelRip
            &&& self.says("Cancelling rip\u{2026}"@, false)
        }
    }

    /// Cancel an in-flight rip.
    pub fn cancel_rip(&mut self)
        ensures
            final(self).rip_cancelled(old(self)),
            old(self).valid() ==> final(self).valid(),
    {
        if self.cd.rip.is_none() {
            return;
        }
        self.out.pending_bg_commands.push(BgCommand::CancelRip);
        proof {
            assert(self.out.pending_bg_commands@.drop_last() =~= old(self).out.pending_bg_commands@);
        }
        self.set_toast("Cancelling rip\u{2026}".to_owned(), false);
    }

    /// What a key does to the open overlay.
    pub open spec fn overlay_pressed(&self, before: &App, code: KeyCode) -> bool {
        if code == KeyCode::Esc || code == KeyCode::Char('q') {
            *self == App::with_overlay(*before, None)
        } else if code == KeyCode::Enter {
            self.import_confirmed(before)
        } else {
            &&& *self == App::with_overlay(*before, self.import.overlay)
            &&& self.import.overlay is Some
            &&& self.import.overlay->0.edited(&before.import.overlay->0, code)
        }
    }

    /// The open overlay claims the key: every one but the one that quits.
    pub open spec fn overlay_claims(&self, key: KeyEvent) -> bool {
        self.import.overlay is Some && !(key.code == KeyCode::Char('c') && key.ctrl)
    }

    /// Dispatch a key when the import overlay is open. `true` if the key was
    /// handled; Ctrl-C falls through.
    pub fn handle_import_overlay_key(&mut self, key: KeyEvent) -> (r: bool)
        requires
            old(self).import.valid(),
        ensures
            r == old(self).overlay_claims(key),
            r ==> final(self).overlay_pressed(old(self), key.code),
            !r ==> *final(self) == *old(self),
            final(self).import.valid(),
    {
        if key.code == KeyCode::Char('c') && key.ctrl {
            return false;
        }
        if self.import.overlay.is_none() {
            return false;
        }
        if key.code == KeyCode::Esc || key.code == KeyCode::Char('q') {
            self.close_import_overlay();
        } else if key.code == KeyCode::Enter {
            self.confirm_import();
        } else if let Some(o) = &mut self.import.overlay {
            o.press(key.code);
        }
        true
    }

    /// A detection is due: none is in flight, and the last request is five
    /// seconds old.
    pub open spec fn detect_is_due(&self) -> bool {
        !self.cd.detect_in_flight && match self.cd.last_request {
            None => true,
            Some(t) => elapsed(self.host.clock_ms, t) >= 5000,
        }
    }

    /// A detection was requested where one was due.
    pub open spec fn detect_requested(&self, before: &App) -> bool {
        if before.detect_is_due() {
            &&& *self == (App {
                cd: CdState {
                    last_request: Some(before.host.clock_ms),
                    detect_in_flight: true,
                    ..before.cd
                },
                out: self.out,
                ..*before
            })
            &&& self.out.sends(&before.out)
            &&& self.out.pending_bg_commands@.last() == (BgCommand::DetectCd {
                mb_base_url: before.tags.mb_base_url,
                mb_user_agent: before.tags.mb_user_agent,
            })
        } else {
            *self == *before
        }
    }

    /// Request a CD detection if we haven't recently and one isn't in flight.
    pub fn maybe_request_cd_detect(&mut self)
        ensures
            final(self).detect_requested(old(self)),
            old(self).valid() ==> final(self).valid(),
    {
        if self.cd.detect_in_flight {
            return;
        }
        let due = match self.cd.last_request {
            None => true,
            Some(t) => self.host.clock_ms.saturating_sub(t) >= 5000,
        };
        if !due {
            return;
        }
        self.cd.last_request = Some(self.host.clock_ms);
        self.cd.detect_in_flight = true;
        let mb_base_url = self.tags.mb_base_url.clone();
        let mb_user_agent = self.tags.mb_user_agent.clone();
        self.out.pending_bg_commands.push(BgCommand::DetectCd { mb_base_url, mb_user_agent });
        proof {
            assert(self.out.pending_bg_commands@.drop_last() =~= old(self).out.pending_bg_commands@);
        }
    }
}

/// Two requests for a detection are never in flight at once: right after one,
/// another is not due.
pub proof fn detections_do_not_pile_up(before: App, after: App)
    requires
        before.detect_is_due(),
        after.detect_requested(&before),
    ensures
        !after.detect_is_due(),
{
}

} // verus!
