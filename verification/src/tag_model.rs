//! The tag-manager overlay: search hits, the diff against a release, and which
//! row has the focus.
use vstd::prelude::*;
use crate::format::opt_text;
use crate::library::{first_index, first_index_is, first_index_none, first_where};
use crate::text::{eq_ignore_ascii_case, same_ignoring_case, str_eq};

verus! {

/// Whether one track or a whole album is retagged.
#[derive(Debug, Clone, Copy, PartialEq, Eq, Structural)]
pub enum DiffScope {
    Album,
    Track,
}

/// Where the tag manager is.
#[derive(Debug, Clone, Copy, PartialEq, Eq, Structural)]
pub enum TagManagerPhase {
    SearchInput,
    SearchPending,
    SearchResults,
    LoadingRelease,
    DiffPreview,
    Applying,
    Error,
    Done,
}

/// The two texts of the search form.
#[derive(Debug, Clone, Copy, PartialEq, Eq, Structural)]
pub enum SearchInputField {
    Artist,
    Album,
}

/// One name of an artist credit.
#[derive(Debug, PartialEq, Eq)]
pub struct ArtistCredit {
    pub name: String,
    pub joinphrase: Option<String>,
}

impl Clone for ArtistCredit {
    fn clone(&self) -> (r: Self)
        ensures
            r == *self,
    {
        ArtistCredit { name: self.name.clone(), joinphrase: self.joinphrase.clone() }
    }
}

/// A release that a search found.
#[derive(Debug)]
pub struct ReleaseSearchHit {
    pub id: String,
    /// 0 to 100.
    pub score: u32,
    pub title: String,
    pub date: Option<String>,
    pub country: Option<String>,
    pub artist_credit: Vec<ArtistCredit>,
    pub release_group: Option<String>,
    pub track_count: Option<u32>,
}

/// A release that a recording appears on.
#[derive(Debug)]
pub struct RecordingReleaseRef {
    pub id: String,
    pub title: String,
    pub date: Option<String>,
    pub country: Option<String>,
    pub release_group: Option<String>,
}

/// What MusicBrainz knows of a recording.
#[derive(Debug)]
pub struct RecordingLookupResponse {
    pub id: String,
    pub title: String,
    pub artist_credit: Vec<ArtistCredit>,
    pub releases: Vec<RecordingReleaseRef>,
}

#[derive(Debug)]
pub struct AcoustIdRelease {
    pub id: String,
    pub title: Option<String>,
}

#[derive(Debug)]
pub struct AcoustIdRecording {
    pub id: String,
    pub title: Option<String>,
    pub artists: Vec<String>,
    pub releases: Vec<AcoustIdRelease>,
}

/// One match of a fingerprint.
#[derive(Debug)]
pub struct AcoustIdHit {
    pub id: String,
    /// How well it matches, as a number that orders hits as their scores do.
    pub rank: u64,
    /// The score rounded to 0 to 100.
    pub score: u32,
    pub recordings: Vec<AcoustIdRecording>,
}

/// One tag of a track: what it is, what it would become.
#[derive(Debug)]
pub struct FieldDiff {
    pub name: String,
    pub current: Option<String>,
    pub proposed: Option<String>,
    pub enabled: bool,
}

impl Clone for FieldDiff {
    fn clone(&self) -> (r: Self)
        ensures
            r == *self,
    {
        FieldDiff {
            name: self.name.clone(),
            current: self.current.clone(),
            proposed: self.proposed.clone(),
            enabled: self.enabled,
        }
    }
}

/// The tags of one track.
#[derive(Debug)]
pub struct TrackTagDiff {
    pub src_path: String,
    pub fields: Vec<FieldDiff>,
}

impl Clone for TrackTagDiff {
    fn clone(&self) -> (r: Self)
        ensures
            r.src_path == self.src_path,
            r.fields@ == self.fields@,
    {
        let r = TrackTagDiff { src_path: self.src_path.clone(), fields: self.fields.clone() };
        proof {
            assert(r.fields@ =~= self.fields@);
        }
        r
    }
}

/// The tags of every track of the selection against a release.
#[derive(Debug)]
pub struct ReleaseDiff {
    pub tracks: Vec<TrackTagDiff>,
}

/// What a diff says: the path and the fields of each track.
pub open spec fn diff_rows(s: Seq<TrackTagDiff>) -> Seq<(String, Seq<FieldDiff>)> {
    s.map_values(|t: TrackTagDiff| (t.src_path, t.fields@))
}

impl View for ReleaseDiff {
    type V = Seq<(String, Seq<FieldDiff>)>;

    open spec fn view(&self) -> Seq<(String, Seq<FieldDiff>)> {
        diff_rows(self.tracks@)
    }
}

impl Clone for ReleaseDiff {
    fn clone(&self) -> (r: Self)
        ensures
            r@ == self@,
    {
        let r = ReleaseDiff { tracks: self.tracks.clone() };
        proof {
            assert(r@ =~= self@);
        }
        r
    }
}

/// Some field of the row is switched on.
pub open spec fn row_has_enabled(row: (String, Seq<FieldDiff>)) -> bool {
    exists|j: int| 0 <= j < row.1.len() && (#[trigger] row.1[j]).enabled
}

/// Some field is switched on.
pub open spec fn any_enabled(d: Seq<(String, Seq<FieldDiff>)>) -> bool {
    exists|i: int| 0 <= i < d.len() && row_has_enabled(#[trigger] d[i])
}

impl ReleaseDiff {
    /// Whether some field is switched on.
    pub fn has_any_enabled(&self) -> (r: bool)
        ensures
            r == any_enabled(self@),
    {
        let mut i: usize = 0;
        while i < self.tracks.len()
            invariant
                i <= self.tracks.len(),
                forall|k: int| 0 <= k < i ==> !row_has_enabled(#[trigger] self@[k]),
            decreases self.tracks.len() - i,
        {
            let t = &self.tracks[i];
            let mut j: usize = 0;
            while j < t.fields.len()
                invariant
                    j <= t.fields.len(),
                    i < self.tracks.len(),
                    *t == self.tracks@[i as int],
                    forall|k: int| 0 <= k < j ==> !(#[trigger] t.fields@[k]).enabled,
                decreases t.fields.len() - j,
            {
                if t.fields[j].enabled {
                    proof {
                        assert(self@[i as int].1[j as int].enabled);
                        assert(row_has_enabled(self@[i as int]));
                    }
                    return true;
                }
                j = j + 1;
            }
            proof {
                assert(self@[i as int].1 == t.fields@);
            }
            i = i + 1;
        }
        false
    }
}

/// The tag under a name.
pub open spec fn is_field(f: FieldDiff, name: Seq<char>) -> bool {
    f.name@ == name
}

/// The tag under a name is switched on and has a value.
pub open spec fn is_proposed(f: FieldDiff, name: Seq<char>) -> bool {
    f.name@ == name && f.enabled && f.proposed is Some
}

/// A row of the diff table.
#[derive(Debug, Clone, Copy, PartialEq, Eq, Structural)]
pub enum FocusRow {
    /// The header of a track.
    Header(usize),
    /// A field of a track.
    Field(usize, usize),
}

/// What the selection was when the overlay opened.
#[derive(Debug)]
pub struct SelectionAnchor {
    pub artist: String,
    pub album: Option<String>,
    pub track_name: Option<String>,
}

impl Clone for SelectionAnchor {
    fn clone(&self) -> (r: Self)
        ensures
            r == *self,
    {
        SelectionAnchor {
            artist: self.artist.clone(),
            album: self.album.clone(),
            track_name: self.track_name.clone(),
        }
    }
}

/// The tag-manager overlay.
pub struct TagManagerOverlay {
    pub scope: DiffScope,
    pub source_artist: String,
    pub source_album: String,
    pub source_track_name: Option<String>,
    pub query_artist: String,
    pub query_album: String,
    pub search_input_field: SearchInputField,
    pub phase: TagManagerPhase,
    pub search_hits: Vec<ReleaseSearchHit>,
    pub hit_idx: usize,
    pub diff: Option<ReleaseDiff>,
    /// The rows of the diff table, collapsed tracks without their fields.
    pub rows: Vec<FocusRow>,
    /// Which tracks are collapsed.
    pub collapsed: Vec<usize>,
    pub focused_row: usize,
    pub anchor: SelectionAnchor,
    pub error: Option<String>,
    pub acoustid_uuid: Option<String>,
    /// The request that a response has to answer.
    pub pending_request_token: u64,
    /// Old and new path of every renamed file.
    pub last_rename_map: Vec<(String, String)>,
}

/// The rows of one track: its header, and its fields unless it is collapsed.
pub open spec fn rows_of_track(i: int, fields: int, folded: bool) -> Seq<FocusRow> {
    seq![FocusRow::Header(i as usize)] + if folded {
        Seq::empty()
    } else {
        Seq::new(fields as nat, |j: int| FocusRow::Field(i as usize, j as usize))
    }
}

/// The rows of the first `n` tracks.
pub open spec fn table_rows(
    d: Seq<(String, Seq<FieldDiff>)>,
    collapsed: Seq<usize>,
    n: int,
) -> Seq<FocusRow>
    decreases n,
{
    if n <= 0 {
        Seq::empty()
    } else {
        table_rows(d, collapsed, n - 1) + rows_of_track(
            n - 1,
            d[n - 1].1.len() as int,
            collapsed.contains((n - 1) as usize),
        )
    }
}

/// What the diff table shows.
pub open spec fn shown_rows(diff: Option<ReleaseDiff>, collapsed: Seq<usize>) -> Seq<FocusRow> {
    match diff {
        Some(d) => table_rows(d@, collapsed, d@.len() as int),
        None => Seq::empty(),
    }
}

/// The position `delta` rows on, held within the table.
pub open spec fn clamped_focus(focus: int, delta: int, len: int) -> int {
    if len == 0 {
        0
    } else if focus + delta < 0 {
        0
    } else if focus + delta >= len {
        len - 1
    } else {
        focus + delta
    }
}

fn contains_usize(list: &Vec<usize>, x: usize) -> (r: bool)
    ensures
        r == list@.contains(x),
{
    let mut i: usize = 0;
    while i < list.len()
        invariant
            i <= list.len(),
            forall|k: int| 0 <= k < i ==> list@[k] != x,
        decreases list.len() - i,
    {
        if list[i] == x {
            return true;
        }
        i = i + 1;
    }
    false
}

impl TagManagerOverlay {
    /// A fresh overlay on a selection, waiting for a search.
    pub fn new(
        scope: DiffScope,
        artist: String,
        album: String,
        track_name: Option<String>,
        anchor: SelectionAnchor,
    ) -> (r: Self)
        ensures
            r.scope == scope,
            r.source_artist == artist && r.source_album == album,
            r.source_track_name == track_name,
            r.query_artist == artist && r.query_album == album,
            r.search_input_field == SearchInputField::Artist,
            r.phase == TagManagerPhase::SearchPending,
            r.search_hits@.len() == 0 && r.hit_idx == 0,
            r.diff is None,
            r.rows@.len() == 0 && r.collapsed@.len() == 0 && r.focused_row == 0,
            r.anchor == anchor,
            r.error is None && r.acoustid_uuid is None,
            r.pending_request_token == 0,
            r.last_rename_map@.len() == 0,
    {
        TagManagerOverlay {
            scope,
            query_artist: artist.clone(),
            query_album: album.clone(),
            source_artist: artist,
            source_album: album,
            source_track_name: track_name,
            search_input_field: SearchInputField::Artist,
            phase: TagManagerPhase::SearchPending,
            search_hits: Vec::new(),
            hit_idx: 0,
            diff: None,
            rows: Vec::new(),
            collapsed: Vec::new(),
            focused_row: 0,
            anchor,
            error: None,
            acoustid_uuid: None,
            pending_request_token: 0,
            last_rename_map: Vec::new(),
        }
    }

    /// Whether a response answers the request that is pending.
    pub fn accepts_token(&self, token: u64) -> (r: bool)
        ensures
            r == (token == self.pending_request_token),
    {
        token == self.pending_request_token
    }

    /// Makes the rows of the diff table anew.
    pub fn rebuild_flattened_paths(&mut self)
        ensures
            *final(self) == (TagManagerOverlay { rows: final(self).rows, ..*old(self) }),
            final(self).rows@ == shown_rows(old(self).diff, old(self).collapsed@),
    {
        let mut rows: Vec<FocusRow> = Vec::new();
        if let Some(d) = &self.diff {
            let mut i: usize = 0;
            while i < d.tracks.len()
                invariant
                    i <= d.tracks.len(),
                    rows@ == table_rows(d@, self.collapsed@, i as int),
                decreases d.tracks.len() - i,
            {
                let ghost before = rows@;
                rows.push(FocusRow::Header(i));
                let n = d.tracks[i].fields.len();
                let folded = contains_usize(&self.collapsed, i);
                if !folded {
                    let mut j: usize = 0;
                    while j < n
                        invariant
                            j <= n,
                            rows@ == before + seq![FocusRow::Header(i)] + Seq::new(
                                j as nat,
                                |k: int| FocusRow::Field(i, k as usize),
                            ),
                        decreases n - j,
                    {
                        rows.push(FocusRow::Field(i, j));
                        proof {
                            assert(rows@ =~= before + seq![FocusRow::Header(i)] + Seq::new(
                                (j + 1) as nat,
                                |k: int| FocusRow::Field(i, k as usize),
                            ));
                        }
                        j = j + 1;
                    }
                }
                proof {
                    assert(d@[i as int].1.len() == n);
                    assert(rows@ =~= before + rows_of_track(i as int, n as int, folded));
                }
                i = i + 1;
            }
        }
        self.rows = rows;
    }

    /// Moves the focus by `delta` rows, held within the table.
    pub fn move_focus(&mut self, delta: isize)
        ensures
            *final(self) == (TagManagerOverlay { focused_row: final(self).focused_row, ..*old(self) }),
            final(self).focused_row == clamped_focus(
                old(self).focused_row as int,
                delta as int,
                old(self).rows@.len() as int,
            ),
    {
        let len = self.rows.len();
        if len == 0 {
            self.focused_row = 0;
        } else if delta < 0 {
            let back: usize = (-(delta + 1)) as usize + 1;
            let at: usize = if self.focused_row < back {
                0
            } else {
                self.focused_row - back
            };
            self.focused_row = if at >= len {
                len - 1
            } else {
                at
            };
        } else {
            let on: usize = delta as usize;
            self.focused_row = if self.focused_row >= len || on >= len - self.focused_row {
                len - 1
            } else {
                self.focused_row + on
            };
        }
    }

    pub fn focus_first(&mut self)
        ensures
            *final(self) == (TagManagerOverlay { focused_row: 0, ..*old(self) }),
    {
        self.focused_row = 0;
    }

    pub fn focus_last(&mut self)
        ensures
            *final(self) == (TagManagerOverlay { focused_row: final(self).focused_row, ..*old(self) }),
            final(self).focused_row == if old(self).rows@.len() == 0 {
                0int
            } else {
                old(self).rows@.len() - 1
            },
    {
        self.focused_row = if self.rows.len() == 0 {
            0
        } else {
            self.rows.len() - 1
        };
    }

    /// The track that the focused row belongs to.
    pub open spec fn focused_track(&self) -> Option<usize> {
        if self.focused_row < self.rows@.len() {
            match self.rows@[self.focused_row as int] {
                FocusRow::Header(i) => Some(i),
                FocusRow::Field(i, _) => Some(i),
            }
        } else {
            None
        }
    }

    fn focused_track_exec(&self) -> (r: Option<usize>)
        ensures
            r == self.focused_track(),
    {
        if self.focused_row < self.rows.len() {
            match self.rows[self.focused_row] {
                FocusRow::Header(i) => Some(i),
                FocusRow::Field(i, _) => Some(i),
            }
        } else {
            None
        }
    }

    /// The focused field was switched, where there is one.
    pub open spec fn field_toggled(&self, before: &Self) -> bool {
        &&& *self == (TagManagerOverlay { diff: self.diff, ..*before })
        &&& match before.focused_field() {
            Some((i, j)) => {
                let before = before.diff->0@;
                let f = before[i as int].1[j as int];
                &&& self.diff is Some
                &&& self.diff->0@ == before.update(
                    i as int,
                    (
                        before[i as int].0,
                        before[i as int].1.update(j as int, FieldDiff { enabled: !f.enabled, ..f }),
                    ),
                )
            },
            None => self.diff == before.diff,
        }
    }

    /// Switches the focused field on or off. A header, or a row that the diff
    /// lacks, changes nothing.
    pub fn toggle_focused_field(&mut self)
        ensures
            final(self).field_toggled(old(self)),
    {
        if self.focused_row >= self.rows.len() {
            return;
        }
        if let FocusRow::Field(i, j) = self.rows[self.focused_row] {
            if let Some(d) = &mut self.diff {
                if i < d.tracks.len() {
                    if j < d.tracks[i].fields.len() {
                        let ghost before = diff_rows(d.tracks@);
                        let on = d.tracks[i].fields[j].enabled;
                        d.tracks[i].fields[j].enabled = !on;
                        proof {
                            let f = before[i as int].1[j as int];
                            assert(diff_rows(d.tracks@) =~= before.update(
                                i as int,
                                (
                                    before[i as int].0,
                                    before[i as int].1.update(
                                        j as int,
                                        FieldDiff { enabled: !f.enabled, ..f },
                                    ),
                                ),
                            ));
                        }
                    }
                }
            }
        }
    }

    /// The field that has the focus, where the diff holds it.
    pub open spec fn focused_field(&self) -> Option<(usize, usize)> {
        if self.focused_row < self.rows@.len() && self.diff is Some {
            match self.rows@[self.focused_row as int] {
                FocusRow::Header(_) => None,
                FocusRow::Field(i, j) => if i < self.diff->0@.len() && j < self.diff->0@[i as int].1.len() {
                    Some((i, j))
                } else {
                    None
                },
            }
        } else {
            None
        }
    }

    /// Every field was switched on or off.
    pub open spec fn all_set(&self, before: &Self, on: bool) -> bool {
        &&& *self == (TagManagerOverlay { diff: self.diff, ..*before })
        &&& match before.diff {
            Some(d) => self.diff is Some && self.diff->0@ == all_switched(d@, on),
            None => self.diff is None,
        }
    }

    /// Switches every field on or off.
    pub fn set_all_enabled(&mut self, on: bool)
        ensures
            final(self).all_set(old(self), on),
    {
        let taken = self.diff.take();
        match taken {
            Some(mut d) => {
                let ghost before = diff_rows(d.tracks@);
                let mut i: usize = 0;
                while i < d.tracks.len()
                    invariant
                        i <= d.tracks.len(),
                        before.len() == d.tracks.len(),
                        diff_rows(d.tracks@) =~= all_switched(before.take(i as int), on) + before.skip(
                            i as int,
                        ),
                    decreases d.tracks.len() - i,
                {
                    let ghost rows = diff_rows(d.tracks@);
                    let t = switched(&d.tracks[i], on);
                    proof {
                        assert(rows[i as int] == before[i as int]);
                    }
                    d.tracks[i] = t;
                    proof {
                        assert(diff_rows(d.tracks@) =~= rows.update(i as int, row_switched(before[i as int], on)));
                        assert(all_switched(before.take(i + 1), on) =~= all_switched(
                            before.take(i as int),
                            on,
                        ).push(row_switched(before[i as int], on)));
                    }
                    i = i + 1;
                }
                proof {
                    assert(before.take(before.len() as int) =~= before);
                    assert(diff_rows(d.tracks@) =~= all_switched(before, on));
                }
                self.diff = Some(d);
            },
            None => {},
        }
    }

    /// The track of the focused row was folded or unfolded.
    pub open spec fn fold_toggled(&self, before: &Self) -> bool {
        match before.focused_track() {
            Some(i) => {
                &&& *self == (TagManagerOverlay {
                    collapsed: self.collapsed,
                    rows: self.rows,
                    focused_row: self.focused_row,
                    ..*before
                })
                &&& self.collapsed@ == if before.collapsed@.contains(i) {
                    without_usize(before.collapsed@, i)
                } else {
                    before.collapsed@.push(i)
                }
                &&& self.rows@ == shown_rows(before.diff, self.collapsed@)
                &&& self.focused_row == header_row(self.rows@, i)
            },
            None => *self == *before,
        }
    }

    /// Folds or unfolds the track that the focused row belongs to, and moves
    /// the focus to its header.
    pub fn toggle_collapse_focused_track(&mut self)
        ensures
            final(self).fold_toggled(old(self)),
    {
        match self.focused_track_exec() {
            Some(i) => {
                if contains_usize(&self.collapsed, i) {
                    self.collapsed = drop_usize(&self.collapsed, i);
                } else {
                    self.collapsed.push(i);
                }
                self.rebuild_flattened_paths();
                self.focused_row = find_header(&self.rows, i);
            },
            None => {},
        }
    }

    /// Every track was folded.
    pub open spec fn all_folded(&self, before: &Self) -> bool {
        &&& *self == (TagManagerOverlay {
            collapsed: self.collapsed,
            rows: self.rows,
            focused_row: 0,
            ..*before
        })
        &&& self.collapsed@ == Seq::new(
            match before.diff {
                Some(d) => d@.len(),
                None => 0,
            },
            |i: int| i as usize,
        )
        &&& self.rows@ == shown_rows(before.diff, self.collapsed@)
    }

    /// Folds every track.
    pub fn collapse_all_tracks(&mut self)
        ensures
            final(self).all_folded(old(self)),
    {
        let n: usize = match &self.diff {
            Some(d) => d.tracks.len(),
            None => 0,
        };
        let mut all: Vec<usize> = Vec::new();
        let mut i: usize = 0;
        while i < n
            invariant
                i <= n,
                all@ == Seq::new(i as nat, |k: int| k as usize),
            decreases n - i,
        {
            all.push(i);
            proof {
                assert(all@ =~= Seq::new((i + 1) as nat, |k: int| k as usize));
            }
            i = i + 1;
        }
        self.collapsed = all;
        self.rebuild_flattened_paths();
        self.focused_row = 0;
    }

    /// Every track was unfolded.
    pub open spec fn all_unfolded(&self, before: &Self) -> bool {
        &&& *self == (TagManagerOverlay {
            collapsed: self.collapsed,
            rows: self.rows,
            focused_row: 0,
            ..*before
        })
        &&& self.collapsed@ == Seq::<usize>::empty()
        &&& self.rows@ == shown_rows(before.diff, Seq::empty())
    }

    /// Unfolds every track.
    pub fn expand_all_tracks(&mut self)
        ensures
            final(self).all_unfolded(old(self)),
    {
        self.collapsed = Vec::new();
        self.rebuild_flattened_paths();
        self.focused_row = 0;
    }
}

/// The fields of a row, all switched on or off.
pub open spec fn row_switched(row: (String, Seq<FieldDiff>), on: bool) -> (String, Seq<FieldDiff>) {
    (row.0, row.1.map_values(|f: FieldDiff| FieldDiff { enabled: on, ..f }))
}

/// The fields of all rows switched on or off.
pub open spec fn all_switched(d: Seq<(String, Seq<FieldDiff>)>, on: bool) -> Seq<
    (String, Seq<FieldDiff>),
> {
    d.map_values(|row: (String, Seq<FieldDiff>)| row_switched(row, on))
}

fn switched(t: &TrackTagDiff, on: bool) -> (r: TrackTagDiff)
    ensures
        (r.src_path, r.fields@) == row_switched((t.src_path, t.fields@), on),
{
    let mut fields: Vec<FieldDiff> = Vec::new();
    let mut j: usize = 0;
    while j < t.fields.len()
        invariant
            j <= t.fields.len(),
            fields@ =~= t.fields@.take(j as int).map_values(|f: FieldDiff| FieldDiff { enabled: on, ..f }),
        decreases t.fields.len() - j,
    {
        let mut f = t.fields[j].clone();
        f.enabled = on;
        fields.push(f);
        j = j + 1;
    }
    proof {
        assert(t.fields@.take(t.fields@.len() as int) =~= t.fields@);
    }
    TrackTagDiff { src_path: t.src_path.clone(), fields }
}

/// The numbers other than one, in order.
pub open spec fn without_usize(s: Seq<usize>, x: usize) -> Seq<usize>
    decreases s.len(),
{
    if s.len() == 0 {
        s
    } else if s.last() == x {
        without_usize(s.drop_last(), x)
    } else {
        without_usize(s.drop_last(), x).push(s.last())
    }
}

fn drop_usize(list: &Vec<usize>, x: usize) -> (r: Vec<usize>)
    ensures
        r@ == without_usize(list@, x),
{
    let mut r: Vec<usize> = Vec::new();
    let mut i: usize = 0;
    while i < list.len()
        invariant
            i <= list.len(),
            r@ == without_usize(list@.take(i as int), x),
        decreases list.len() - i,
    {
        proof {
            assert(list@.take(i + 1).drop_last() =~= list@.take(i as int));
        }
        if list[i] != x {
            r.push(list[i]);
        }
        i = i + 1;
    }
    proof {
        assert(list@.take(list@.len() as int) =~= list@);
    }
    r
}

/// The row of a track's header; the first row where there is none.
pub open spec fn header_row(rows: Seq<FocusRow>, i: usize) -> nat {
    match crate::library::first_index(rows, |r: FocusRow| r == FocusRow::Header(i)) {
        Some(k) => k,
        None => 0,
    }
}

fn find_header(rows: &Vec<FocusRow>, i: usize) -> (r: usize)
    ensures
        r == header_row(rows@, i),
{
    let ghost p = |r: FocusRow| r == FocusRow::Header(i);
    let mut k: usize = 0;
    while k < rows.len()
        invariant
            k <= rows.len(),
            p == |r: FocusRow| r == FocusRow::Header(i),
            forall|q: int| 0 <= q < k ==> !p(#[trigger] rows@[q]),
        decreases rows.len() - k,
    {
        if rows[k] == FocusRow::Header(i) {
            proof {
                crate::library::first_index_is(rows@, p, k as int);
            }
            return k;
        }
        k = k + 1;
    }
    proof {
        crate::library::first_index_none(rows@, p);
    }
    0
}

// ---------------------------------------------------------------------------
// Search hits
// ---------------------------------------------------------------------------
/// What an artist credit says.
pub open spec fn credit_texts(s: Seq<ArtistCredit>) -> Seq<(Seq<char>, Option<Seq<char>>)> {
    s.map_values(|c: ArtistCredit| (c.name@, opt_text(c.joinphrase)))
}

/// What a search hit says.
#[verifier::ext_equal]
pub struct HitText {
    pub id: Seq<char>,
    pub score: u32,
    pub title: Seq<char>,
    pub date: Option<Seq<char>>,
    pub country: Option<Seq<char>>,
    pub credits: Seq<(Seq<char>, Option<Seq<char>>)>,
    pub release_group: Option<Seq<char>>,
    pub track_count: Option<u32>,
}

impl View for ReleaseSearchHit {
    type V = HitText;

    open spec fn view(&self) -> HitText {
        HitText {
            id: self.id@,
            score: self.score,
            title: self.title@,
            date: opt_text(self.date),
            country: opt_text(self.country),
            credits: credit_texts(self.artist_credit@),
            release_group: opt_text(self.release_group),
            track_count: self.track_count,
        }
    }
}

/// What the hits say.
pub open spec fn hit_texts(s: Seq<ReleaseSearchHit>) -> Seq<HitText> {
    s.map_values(|h: ReleaseSearchHit| h@)
}

/// The fallback artist as a credit; nothing where there is none.
pub open spec fn fallback_credit(artist: Seq<char>) -> Seq<(Seq<char>, Option<Seq<char>>)> {
    if artist.len() == 0 {
        Seq::empty()
    } else {
        seq![(artist, None)]
    }
}

fn copy_credits(list: &Vec<ArtistCredit>) -> (r: Vec<ArtistCredit>)
    ensures
        r@ == list@,
{
    let r = list.clone();
    proof {
        assert(r@ =~= list@);
    }
    r
}

fn single_credit(artist: &str) -> (r: Vec<ArtistCredit>)
    ensures
        credit_texts(r@) == fallback_credit(artist@),
{
    let mut r: Vec<ArtistCredit> = Vec::new();
    if !artist.is_empty() {
        r.push(ArtistCredit { name: artist.to_owned(), joinphrase: None });
    }
    proof {
        assert(credit_texts(r@) =~= fallback_credit(artist@));
    }
    r
}

/// The place of the best hit; of several equally good ones, the last.
pub open spec fn best_hit(hits: Seq<AcoustIdHit>) -> int
    decreases hits.len(),
{
    if hits.len() <= 1 {
        0
    } else {
        let b = best_hit(hits.drop_last());
        if hits[b].rank <= hits.last().rank {
            hits.len() - 1
        } else {
            b
        }
    }
}

/// No hit is better than the best one.
pub proof fn best_hit_is_best(hits: Seq<AcoustIdHit>, i: int)
    requires
        0 <= i < hits.len(),
    ensures
        0 <= best_hit(hits) < hits.len(),
        hits[i].rank <= hits[best_hit(hits)].rank,
    decreases hits.len(),
{
    if hits.len() > 1 {
        let d = hits.drop_last();
        best_hit_is_best(d, if i < d.len() {
            i
        } else {
            0
        });
    }
}

fn find_best(hits: &Vec<AcoustIdHit>) -> (r: usize)
    requires
        hits@.len() > 0,
    ensures
        r == best_hit(hits@),
        r < hits@.len(),
{
    let mut b: usize = 0;
    let mut i: usize = 1;
    while i < hits.len()
        invariant
            1 <= i <= hits.len(),
            b < i,
            b == best_hit(hits@.take(i as int)),
        decreases hits.len() - i,
    {
        proof {
            assert(hits@.take(i + 1).drop_last() =~= hits@.take(i as int));
        }
        if hits[b].rank <= hits[i].rank {
            b = i;
        }
        i = i + 1;
    }
    proof {
        assert(hits@.take(hits@.len() as int) =~= hits@);
    }
    b
}

/// The identifier of the best hit.
pub fn best_hit_id(hits: &Vec<AcoustIdHit>) -> (r: Option<String>)
    ensures
        r == if hits@.len() == 0 {
            None
        } else {
            Some(hits@[best_hit(hits@)].id)
        },
{
    if hits.len() == 0 {
        None
    } else {
        let b = find_best(hits);
        Some(hits[b].id.clone())
    }
}

/// The recording that is asked about when no hit names a release: the first one
/// of the best hit.
pub open spec fn followup(hits: Seq<AcoustIdHit>) -> Option<String> {
    if hits.len() == 0 || hits[best_hit(hits)].recordings@.len() == 0 {
        None
    } else {
        Some(hits[best_hit(hits)].recordings@[0].id)
    }
}

/// When the hits carry recordings but none lists any release, pick a recording
/// to follow up on.
pub fn pick_recording_mbid_for_followup(hits: &Vec<AcoustIdHit>) -> (r: Option<String>)
    ensures
        r == followup(hits@),
{
    if hits.len() == 0 {
        return None;
    }
    let b = find_best(hits);
    if hits[b].recordings.len() == 0 {
        None
    } else {
        Some(hits[b].recordings[0].id.clone())
    }
}

/// The credits of a looked-up recording, or the fallback artist.
pub open spec fn recording_credits(rec: RecordingLookupResponse, fallback: Seq<char>) -> Seq<
    (Seq<char>, Option<Seq<char>>),
> {
    if rec.artist_credit@.len() == 0 {
        fallback_credit(fallback)
    } else {
        credit_texts(rec.artist_credit@)
    }
}

/// The hits that the releases of a recording make: all at the top of the
/// visible range.
pub open spec fn recording_hits(rec: RecordingLookupResponse, fallback: Seq<char>) -> Seq<HitText> {
    rec.releases@.map_values(
        |r: RecordingReleaseRef|
            HitText {
                id: r.id@,
                score: 90,
                title: r.title@,
                date: opt_text(r.date),
                country: opt_text(r.country),
                credits: recording_credits(rec, fallback),
                release_group: opt_text(r.release_group),
                track_count: None,
            },
    )
}

/// Turn the releases of a looked-up recording into search hits.
pub fn recording_releases_to_search_hits(rec: &RecordingLookupResponse, fallback_artist: &str) -> (r: Vec<
    ReleaseSearchHit,
>)
    ensures
        hit_texts(r@) == recording_hits(*rec, fallback_artist@),
{
    let credits: Vec<ArtistCredit> = if rec.artist_credit.len() == 0 {
        single_credit(fallback_artist)
    } else {
        copy_credits(&rec.artist_credit)
    };
    let ghost all = recording_hits(*rec, fallback_artist@);
    let mut r: Vec<ReleaseSearchHit> = Vec::new();
    let mut i: usize = 0;
    while i < rec.releases.len()
        invariant
            i <= rec.releases.len(),
            r.len() == i,
            all == recording_hits(*rec, fallback_artist@),
            credit_texts(credits@) == recording_credits(*rec, fallback_artist@),
            forall|k: int| 0 <= k < i ==> (#[trigger] r@[k])@ == all[k],
        decreases rec.releases.len() - i,
    {
        let x = &rec.releases[i];
        let h = ReleaseSearchHit {
            id: x.id.clone(),
            score: 90,
            title: x.title.clone(),
            date: x.date.clone(),
            country: x.country.clone(),
            artist_credit: copy_credits(&credits),
            release_group: x.release_group.clone(),
            track_count: None,
        };
        proof {
            assert(h@ =~= all[i as int]);
        }
        r.push(h);
        i = i + 1;
    }
    proof {
        assert(hit_texts(r@) =~= all);
    }
    r
}

/// The credits of a matched recording, or the fallback artist.
pub open spec fn match_credits(rec: AcoustIdRecording, fallback: Seq<char>) -> Seq<
    (Seq<char>, Option<Seq<char>>),
> {
    if rec.artists@.len() == 0 {
        fallback_credit(fallback)
    } else {
        rec.artists@.map_values(|a: String| (a@, None::<Seq<char>>))
    }
}

/// The title of a release: its own, or that of the recording.
pub open spec fn match_title(rec: AcoustIdRecording, rel: AcoustIdRelease) -> Seq<char> {
    match rel.title {
        Some(t) => t@,
        None => match rec.title {
            Some(t) => t@,
            None => Seq::empty(),
        },
    }
}

/// One hit per release of a matched recording.
pub open spec fn rows_of_recording(rec: AcoustIdRecording, score: u32, fallback: Seq<char>) -> Seq<
    HitText,
> {
    rec.releases@.map_values(
        |rel: AcoustIdRelease|
            HitText {
                id: rel.id@,
                score,
                title: match_title(rec, rel),
                date: None,
                country: None,
                credits: match_credits(rec, fallback),
                release_group: None,
                track_count: None,
            },
    )
}

/// One hit per release of the recordings of a match.
pub open spec fn rows_of_match(recs: Seq<AcoustIdRecording>, score: u32, fallback: Seq<char>) -> Seq<HitText>
    decreases recs.len(),
{
    if recs.len() == 0 {
        Seq::empty()
    } else {
        rows_of_match(recs.drop_last(), score, fallback) + rows_of_recording(
            recs.last(),
            score,
            fallback,
        )
    }
}

/// One hit per release of every recording of every match.
pub open spec fn rows_of_matches(hits: Seq<AcoustIdHit>, fallback: Seq<char>) -> Seq<HitText>
    decreases hits.len(),
{
    if hits.len() == 0 {
        Seq::empty()
    } else {
        rows_of_matches(hits.drop_last(), fallback) + rows_of_match(
            hits.last().recordings@,
            hits.last().score,
            fallback,
        )
    }
}

fn credits_of(rec: &AcoustIdRecording, fallback: &str) -> (r: Vec<ArtistCredit>)
    ensures
        credit_texts(r@) == match_credits(*rec, fallback@),
{
    if rec.artists.len() == 0 {
        return single_credit(fallback);
    }
    let mut r: Vec<ArtistCredit> = Vec::new();
    let mut i: usize = 0;
    while i < rec.artists.len()
        invariant
            i <= rec.artists.len(),
            r.len() == i,
            forall|k: int|
                0 <= k < i ==> (#[trigger] r@[k]).name@ == rec.artists@[k]@ && r@[k].joinphrase is None,
        decreases rec.artists.len() - i,
    {
        r.push(ArtistCredit { name: rec.artists[i].clone(), joinphrase: None });
        i = i + 1;
    }
    proof {
        assert(credit_texts(r@) =~= match_credits(*rec, fallback@));
    }
    r
}

fn push_recording(
    out: &mut Vec<ReleaseSearchHit>,
    rec: &AcoustIdRecording,
    score: u32,
    fallback: &str,
)
    ensures
        hit_texts(final(out)@) == hit_texts(old(out)@) + rows_of_recording(*rec, score, fallback@),
{
    let ghost before = hit_texts(out@);
    let ghost all = rows_of_recording(*rec, score, fallback@);
    let credits = credits_of(rec, fallback);
    let mut i: usize = 0;
    proof {
        assert(hit_texts(out@) =~= before + all.take(0));
    }
    while i < rec.releases.len()
        invariant
            i <= rec.releases.len(),
            all == rows_of_recording(*rec, score, fallback@),
            credit_texts(credits@) == match_credits(*rec, fallback@),
            hit_texts(out@) == before + all.take(i as int),
        decreases rec.releases.len() - i,
    {
        let rel = &rec.releases[i];
        let title: String = match &rel.title {
            Some(t) => t.clone(),
            None => match &rec.title {
                Some(t) => t.clone(),
                None => String::new(),
            },
        };
        let h = ReleaseSearchHit {
            id: rel.id.clone(),
            score,
            title,
            date: None,
            country: None,
            artist_credit: copy_credits(&credits),
            release_group: None,
            track_count: None,
        };
        let ghost now = hit_texts(out@);
        proof {
            assert(h@ =~= all[i as int]);
        }
        out.push(h);
        proof {
            assert(hit_texts(out@) =~= now.push(all[i as int]));
            assert(hit_texts(out@) =~= before + all.take(i + 1));
        }
        i = i + 1;
    }
    proof {
        assert(all.take(rec.releases@.len() as int) =~= all);
    }
}

fn push_match(out: &mut Vec<ReleaseSearchHit>, hit: &AcoustIdHit, fallback: &str)
    ensures
        hit_texts(final(out)@) == hit_texts(old(out)@) + rows_of_match(
            hit.recordings@,
            hit.score,
            fallback@,
        ),
{
    let ghost before = hit_texts(out@);
    let mut j: usize = 0;
    proof {
        assert(before + rows_of_match(hit.recordings@.take(0), hit.score, fallback@) =~= before);
    }
    while j < hit.recordings.len()
        invariant
            j <= hit.recordings.len(),
            hit_texts(out@) == before + rows_of_match(
                hit.recordings@.take(j as int),
                hit.score,
                fallback@,
            ),
        decreases hit.recordings.len() - j,
    {
        let ghost so_far = rows_of_match(hit.recordings@.take(j as int), hit.score, fallback@);
        proof {
            assert(hit.recordings@.take(j + 1).drop_last() =~= hit.recordings@.take(j as int));
        }
        push_recording(out, &hit.recordings[j], hit.score, fallback);
        proof {
            let row = rows_of_recording(hit.recordings@[j as int], hit.score, fallback@);
            assert(before + so_far + row =~= before + (so_far + row));
        }
        j = j + 1;
    }
    proof {
        assert(hit.recordings@.take(hit.recordings@.len() as int) =~= hit.recordings@);
    }
}

/// Flatten fingerprint matches into search hits: one per release of every
/// recording, under the score of its match.
pub fn acoustid_hits_to_release_hits(hits: &Vec<AcoustIdHit>, fallback_artist: &str) -> (r: Vec<
    ReleaseSearchHit,
>)
    ensures
        hit_texts(r@) == rows_of_matches(hits@, fallback_artist@),
{
    let mut out: Vec<ReleaseSearchHit> = Vec::new();
    let mut i: usize = 0;
    proof {
        assert(hit_texts(out@) =~= rows_of_matches(hits@.take(0), fallback_artist@));
    }
    while i < hits.len()
        invariant
            i <= hits.len(),
            hit_texts(out@) == rows_of_matches(hits@.take(i as int), fallback_artist@),
        decreases hits.len() - i,
    {
        proof {
            assert(hits@.take(i + 1).drop_last() =~= hits@.take(i as int));
        }
        push_match(&mut out, &hits[i], fallback_artist);
        i = i + 1;
    }
    proof {
        assert(hits@.take(hits@.len() as int) =~= hits@);
    }
    out
}

// ---------------------------------------------------------------------------
// What the selection becomes once the tags are written
// ---------------------------------------------------------------------------
/// The value that the first track with an enabled proposal for a tag gets.
pub open spec fn first_proposed(rows: Seq<(String, Seq<FieldDiff>)>, name: Seq<char>) -> Option<String>
    decreases rows.len(),
{
    if rows.len() == 0 {
        None
    } else {
        match first_where(rows[0].1, |f: FieldDiff| is_proposed(f, name)) {
            Some(f) => f.proposed,
            None => first_proposed(rows.skip(1), name),
        }
    }
}

/// The title that a track has: that of its title tag, or the given one.
pub open spec fn current_title(row: (String, Seq<FieldDiff>), given: Seq<char>) -> Seq<char> {
    match first_where(row.1, |f: FieldDiff| is_field(f, "Title"@)) {
        Some(f) => match f.current {
            Some(t) => t@,
            None => given,
        },
        None => given,
    }
}

/// The track that the selection stood on: the first one of that title, or else
/// the first one.
pub open spec fn anchor_row(rows: Seq<(String, Seq<FieldDiff>)>, given: Seq<char>) -> int {
    match first_index(
        rows,
        |r: (String, Seq<FieldDiff>)| same_ignoring_case(current_title(r, given), given),
    ) {
        Some(i) => i as int,
        None => 0,
    }
}

/// The selection after the enabled proposals of the diff were written.
pub open spec fn renamed_anchor(o: TagManagerOverlay) -> SelectionAnchor {
    match o.diff {
        None => o.anchor,
        Some(d) => {
            let given = match o.source_track_name {
                Some(n) => n@,
                None => Seq::empty(),
            };
            let title: Option<String> = if o.scope == DiffScope::Track && d@.len() > 0 {
                match first_where(
                    d@[anchor_row(d@, given)].1,
                    |f: FieldDiff| is_proposed(f, "Title"@),
                ) {
                    Some(f) => f.proposed,
                    None => None,
                }
            } else {
                None
            };
            SelectionAnchor {
                artist: match first_proposed(d@, "Album Artist"@) {
                    Some(a) => a,
                    None => o.anchor.artist,
                },
                album: match first_proposed(d@, "Album"@) {
                    Some(a) => Some(a),
                    None => o.anchor.album,
                },
                track_name: match title {
                    Some(t) => Some(t),
                    None => o.anchor.track_name,
                },
            }
        },
    }
}

fn find_proposed(fields: &Vec<FieldDiff>, name: &str) -> (r: Option<String>)
    ensures
        match first_where(fields@, |f: FieldDiff| is_proposed(f, name@)) {
            Some(f) => r == f.proposed && r is Some,
            None => r is None,
        },
{
    let ghost p = |f: FieldDiff| is_proposed(f, name@);
    let mut i: usize = 0;
    while i < fields.len()
        invariant
            i <= fields.len(),
            p == |f: FieldDiff| is_proposed(f, name@),
            forall|k: int| 0 <= k < i ==> !p(#[trigger] fields@[k]),
        decreases fields.len() - i,
    {
        let f = &fields[i];
        if str_eq(f.name.as_str(), name) && f.enabled && f.proposed.is_some() {
            proof {
                assert(p(fields@[i as int]));
                first_index_is(fields@, p, i as int);
            }
            return f.proposed.clone();
        }
        i = i + 1;
    }
    proof {
        first_index_none(fields@, p);
    }
    None
}

fn find_first_proposed(d: &ReleaseDiff, name: &str) -> (r: Option<String>)
    ensures
        r == first_proposed(d@, name@),
{
    let mut i: usize = 0;
    proof {
        assert(d@.skip(0) =~= d@);
    }
    while i < d.tracks.len()
        invariant
            i <= d.tracks.len(),
            first_proposed(d@, name@) == first_proposed(d@.skip(i as int), name@),
        decreases d.tracks.len() - i,
    {
        proof {
            assert(d@.skip(i as int)[0] == d@[i as int]);
            assert(d@.skip(i as int).skip(1) =~= d@.skip(i + 1));
        }
        let found = find_proposed(&d.tracks[i].fields, name);
        if found.is_some() {
            return found;
        }
        i = i + 1;
    }
    None
}

fn title_is(t: &TrackTagDiff, given: &str) -> (r: bool)
    ensures
        r == same_ignoring_case(current_title((t.src_path, t.fields@), given@), given@),
{
    let ghost p = |f: FieldDiff| is_field(f, "Title"@);
    let mut i: usize = 0;
    while i < t.fields.len()
        invariant
            i <= t.fields.len(),
            p == |f: FieldDiff| is_field(f, "Title"@),
            forall|k: int| 0 <= k < i ==> !p(#[trigger] t.fields@[k]),
        decreases t.fields.len() - i,
    {
        let f = &t.fields[i];
        if str_eq(f.name.as_str(), "Title") {
            proof {
                assert(p(t.fields@[i as int]));
                first_index_is(t.fields@, p, i as int);
            }
            return match &f.current {
                Some(cur) => eq_ignore_ascii_case(cur.as_str(), given),
                None => eq_ignore_ascii_case(given, given),
            };
        }
        i = i + 1;
    }
    proof {
        first_index_none(t.fields@, p);
    }
    eq_ignore_ascii_case(given, given)
}

fn find_anchor_row(d: &ReleaseDiff, given: &str) -> (r: usize)
    requires
        d@.len() > 0,
    ensures
        r == anchor_row(d@, given@),
        r < d@.len(),
{
    let ghost p = |r: (String, Seq<FieldDiff>)| same_ignoring_case(current_title(r, given@), given@);
    let ghost rows = d@;
    let mut i: usize = 0;
    while i < d.tracks.len()
        invariant
            i <= d.tracks.len(),
            rows == d@,
            p == |r: (String, Seq<FieldDiff>)|
                same_ignoring_case(current_title(r, given@), given@),
            forall|k: int| 0 <= k < i ==> !p(#[trigger] rows[k]),
        decreases d.tracks.len() - i,
    {
        if title_is(&d.tracks[i], given) {
            proof {
                assert(p(rows[i as int]));
                first_index_is(rows, p, i as int);
            }
            return i;
        }
        proof {
            assert(rows[i as int] == (d.tracks@[i as int].src_path, d.tracks@[i as int].fields@));
        }
        i = i + 1;
    }
    proof {
        first_index_none(rows, p);
    }
    0
}

impl TagManagerOverlay {
    /// Points the anchor at what the selection is called after the enabled
    /// proposals were written.
    pub fn rename_anchor(&mut self)
        ensures
            *final(self) == (TagManagerOverlay { anchor: renamed_anchor(*old(self)), ..*old(self) }),
    {
        let (album, artist, title): (Option<String>, Option<String>, Option<String>) = match &self.diff {
            None => {
                return;
            },
            Some(d) => {
                let album = find_first_proposed(d, "Album");
                let artist = find_first_proposed(d, "Album Artist");
                let title: Option<String> = if self.scope == DiffScope::Track && d.tracks.len() > 0 {
                    let given: String = match &self.source_track_name {
                        Some(n) => n.clone(),
                        None => String::new(),
                    };
                    let row = find_anchor_row(d, given.as_str());
                    find_proposed(&d.tracks[row].fields, "Title")
                } else {
                    None
                };
                (album, artist, title)
            },
        };
        if album.is_some() {
            self.anchor.album = album;
        }
        if let Some(a) = artist {
            self.anchor.artist = a;
        }
        if title.is_some() {
            self.anchor.track_name = title;
        }
    }
}

} // verus!
