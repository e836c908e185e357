//! The music library and its queries.
use vstd::prelude::*;
use crate::model::Track;
use crate::text::{eq_ignore_ascii_case, same_ignoring_case, str_eq};

verus! {

/// The scanned library: its tracks, and the artist and album lists that the
/// scanner made of them.
pub struct Library {
    pub tracks: Vec<Track>,
    pub artists: Vec<String>,
    /// (artist, album) pairs.
    pub albums: Vec<(String, String)>,
    pub music_folder: Option<String>,
}

/// The first element that a condition holds of.
pub open spec fn first_where<T>(s: Seq<T>, p: spec_fn(T) -> bool) -> Option<T>
    decreases s.len(),
{
    if s.len() == 0 {
        None
    } else if p(s[0]) {
        Some(s[0])
    } else {
        first_where(s.skip(1), p)
    }
}

/// The position of the first element that a condition holds of.
pub open spec fn first_index<T>(s: Seq<T>, p: spec_fn(T) -> bool) -> Option<nat>
    decreases s.len(),
{
    if s.len() == 0 {
        None
    } else if p(s[0]) {
        Some(0)
    } else {
        match first_index(s.skip(1), p) {
            Some(i) => Some(i + 1),
            None => None,
        }
    }
}

/// What a first index says: the condition holds there, and at no earlier place.
pub proof fn first_index_facts<T>(s: Seq<T>, p: spec_fn(T) -> bool)
    ensures
        match first_index(s, p) {
            Some(i) => i < s.len() && p(s[i as int]) && forall|k: int| 0 <= k < i ==> !p(#[trigger] s[k]),
            None => forall|k: int| 0 <= k < s.len() ==> !p(#[trigger] s[k]),
        },
    decreases s.len(),
{
    if s.len() > 0 && !p(s[0]) {
        let t = s.skip(1);
        first_index_facts(t, p);
        match first_index(t, p) {
            Some(i) => {
                assert forall|k: int| 0 <= k < i + 1 implies !p(#[trigger] s[k]) by {
                    if k > 0 {
                        assert(t[k - 1] == s[k]);
                    }
                }
            },
            None => {
                assert forall|k: int| 0 <= k < s.len() implies !p(#[trigger] s[k]) by {
                    if k > 0 {
                        assert(t[k - 1] == s[k]);
                    }
                }
            },
        }
    }
}

/// A first index is recognised by its place.
pub proof fn first_index_is<T>(s: Seq<T>, p: spec_fn(T) -> bool, i: int)
    requires
        0 <= i < s.len(),
        p(s[i]),
        forall|k: int| 0 <= k < i ==> !p(#[trigger] s[k]),
    ensures
        first_index(s, p) == Some(i as nat),
        first_where(s, p) == Some(s[i]),
    decreases s.len(),
{
    if i > 0 {
        let t = s.skip(1);
        assert(!p(s[0]));
        assert forall|k: int| 0 <= k < i - 1 implies !p(#[trigger] t[k]) by {
            assert(t[k] == s[k + 1]);
        }
        assert(t[i - 1] == s[i]);
        first_index_is(t, p, i - 1);
    }
}

/// There is no first index where the condition holds nowhere.
pub proof fn first_index_none<T>(s: Seq<T>, p: spec_fn(T) -> bool)
    requires
        forall|k: int| 0 <= k < s.len() ==> !p(#[trigger] s[k]),
    ensures
        first_index(s, p) is None,
        first_where(s, p) is None,
    decreases s.len(),
{
    if s.len() > 0 {
        let t = s.skip(1);
        assert(!p(s[0]));
        assert forall|k: int| 0 <= k < t.len() implies !p(#[trigger] t[k]) by {
            assert(t[k] == s[k + 1]);
        }
        first_index_none(t, p);
    }
}

/// One step of filtering: the next element joins the result where the
/// condition holds of it.
pub proof fn filter_step<T>(s: Seq<T>, i: int, p: spec_fn(T) -> bool)
    requires
        0 <= i < s.len(),
    ensures
        s.take(i + 1).filter(p) == if p(s[i]) {
            s.take(i).filter(p).push(s[i])
        } else {
            s.take(i).filter(p)
        },
{
    reveal(Seq::filter);
    assert(s.take(i + 1).drop_last() =~= s.take(i));
    assert(s.take(i + 1).last() == s[i]);
}

/// Filtering nothing gives nothing.
pub proof fn filter_none<T>(s: Seq<T>, p: spec_fn(T) -> bool)
    ensures
        s.take(0).filter(p) == Seq::<T>::empty(),
{
    reveal(Seq::filter);
    assert(s.take(0).filter(p) =~= Seq::<T>::empty());
}

/// The last track with an id, which is the one that a lookup by id finds.
pub open spec fn track_with_id(s: Seq<Track>, id: u64) -> Option<Track>
    decreases s.len(),
{
    if s.len() == 0 {
        None
    } else if s.last().id == id {
        Some(s.last())
    } else {
        track_with_id(s.drop_last(), id)
    }
}

/// The track is the one of that name, artist and album, whatever the case of
/// the letters.
pub open spec fn is_row(t: Track, name: Seq<char>, artist: Seq<char>, album: Seq<char>) -> bool {
    same_ignoring_case(t.name@, name) && same_ignoring_case(t.artist@, artist) && same_ignoring_case(
        t.album@,
        album,
    )
}

/// The track is one of that name and artist, whatever the case of the letters.
pub open spec fn is_title_by(t: Track, name: Seq<char>, artist: Seq<char>) -> bool {
    same_ignoring_case(t.name@, name) && same_ignoring_case(t.artist@, artist)
}

impl Library {
    /// The tracks of an artist.
    pub open spec fn by_artist(&self, artist: Seq<char>) -> Seq<Track> {
        self.tracks@.filter(|t: Track| t.artist@ == artist)
    }

    /// The tracks of every album of that name.
    pub open spec fn by_album(&self, album: Seq<char>) -> Seq<Track> {
        self.tracks@.filter(|t: Track| t.album@ == album)
    }

    /// The tracks of an artist's album.
    pub open spec fn by_artist_album(&self, artist: Seq<char>, album: Seq<char>) -> Seq<Track> {
        self.tracks@.filter(|t: Track| t.artist@ == artist && t.album@ == album)
    }

    pub fn artist_tracks(&self, artist: &str) -> (r: Vec<Track>)
        ensures
            r@ == self.by_artist(artist@),
    {
        let mut r: Vec<Track> = Vec::new();
        let ghost p = |t: Track| t.artist@ == artist@;
        let mut i: usize = 0;
        proof {
            filter_none(self.tracks@, p);
        }
        while i < self.tracks.len()
            invariant
                i <= self.tracks.len(),
                p == |t: Track| t.artist@ == artist@,
                r@ == self.tracks@.take(i as int).filter(p),
            decreases self.tracks.len() - i,
        {
            proof {
                filter_step(self.tracks@, i as int, p);
            }
            if str_eq(self.tracks[i].artist.as_str(), artist) {
                r.push(self.tracks[i].clone());
            }
            i = i + 1;
        }
        proof {
            assert(self.tracks@.take(self.tracks@.len() as int) =~= self.tracks@);
        }
        r
    }

    pub fn album_tracks(&self, album: &str) -> (r: Vec<Track>)
        ensures
            r@ == self.by_album(album@),
    {
        let mut r: Vec<Track> = Vec::new();
        let ghost p = |t: Track| t.album@ == album@;
        let mut i: usize = 0;
        proof {
            filter_none(self.tracks@, p);
        }
        while i < self.tracks.len()
            invariant
                i <= self.tracks.len(),
                p == |t: Track| t.album@ == album@,
                r@ == self.tracks@.take(i as int).filter(p),
            decreases self.tracks.len() - i,
        {
            proof {
                filter_step(self.tracks@, i as int, p);
            }
            if str_eq(self.tracks[i].album.as_str(), album) {
                r.push(self.tracks[i].clone());
            }
            i = i + 1;
        }
        proof {
            assert(self.tracks@.take(self.tracks@.len() as int) =~= self.tracks@);
        }
        r
    }

    pub fn album_tracks_by_artist(&self, artist: &str, album: &str) -> (r: Vec<Track>)
        ensures
            r@ == self.by_artist_album(artist@, album@),
    {
        let mut r: Vec<Track> = Vec::new();
        let ghost p = |t: Track| t.artist@ == artist@ && t.album@ == album@;
        let mut i: usize = 0;
        proof {
            filter_none(self.tracks@, p);
        }
        while i < self.tracks.len()
            invariant
                i <= self.tracks.len(),
                p == |t: Track| t.artist@ == artist@ && t.album@ == album@,
                r@ == self.tracks@.take(i as int).filter(p),
            decreases self.tracks.len() - i,
        {
            proof {
                filter_step(self.tracks@, i as int, p);
            }
            if str_eq(self.tracks[i].artist.as_str(), artist) && str_eq(
                self.tracks[i].album.as_str(),
                album,
            ) {
                r.push(self.tracks[i].clone());
            }
            i = i + 1;
        }
        proof {
            assert(self.tracks@.take(self.tracks@.len() as int) =~= self.tracks@);
        }
        r
    }

    /// The first track of that name, artist and album.
    pub fn find_row(&self, name: &str, artist: &str, album: &str) -> (r: Option<Track>)
        ensures
            r == first_where(self.tracks@, |t: Track| is_row(t, name@, artist@, album@)),
    {
        let ghost p = |t: Track| is_row(t, name@, artist@, album@);
        let mut i: usize = 0;
        while i < self.tracks.len()
            invariant
                i <= self.tracks.len(),
                p == |t: Track| is_row(t, name@, artist@, album@),
                forall|k: int| 0 <= k < i ==> !p(#[trigger] self.tracks@[k]),
            decreases self.tracks.len() - i,
        {
            let t = &self.tracks[i];
            if eq_ignore_ascii_case(t.name.as_str(), name) && eq_ignore_ascii_case(
                t.artist.as_str(),
                artist,
            ) && eq_ignore_ascii_case(t.album.as_str(), album) {
                proof {
                    first_index_is(self.tracks@, p, i as int);
                }
                return Some(t.clone());
            }
            i = i + 1;
        }
        proof {
            first_index_none(self.tracks@, p);
        }
        None
    }

    /// The first track of that name and artist.
    pub fn find_title(&self, name: &str, artist: &str) -> (r: Option<&Track>)
        ensures
            match r {
                Some(t) => first_where(self.tracks@, |t: Track| is_title_by(t, name@, artist@)) == Some(*t),
                None => first_where(self.tracks@, |t: Track| is_title_by(t, name@, artist@)) is None,
            },
    {
        let ghost p = |t: Track| is_title_by(t, name@, artist@);
        let mut i: usize = 0;
        while i < self.tracks.len()
            invariant
                i <= self.tracks.len(),
                p == |t: Track| is_title_by(t, name@, artist@),
                forall|k: int| 0 <= k < i ==> !p(#[trigger] self.tracks@[k]),
            decreases self.tracks.len() - i,
        {
            let t = &self.tracks[i];
            if eq_ignore_ascii_case(t.name.as_str(), name) && eq_ignore_ascii_case(
                t.artist.as_str(),
                artist,
            ) {
                proof {
                    first_index_is(self.tracks@, p, i as int);
                }
                return Some(t);
            }
            i = i + 1;
        }
        proof {
            first_index_none(self.tracks@, p);
        }
        None
    }

    /// The track that a lookup by id finds.
    pub fn find_id(&self, id: u64) -> (r: Option<&Track>)
        ensures
            match r {
                Some(t) => track_with_id(self.tracks@, id) == Some(*t),
                None => track_with_id(self.tracks@, id) is None,
            },
    {
        let mut i: usize = self.tracks.len();
        proof {
            assert(self.tracks@.take(self.tracks@.len() as int) =~= self.tracks@);
        }
        while i > 0
            invariant
                i <= self.tracks.len(),
                track_with_id(self.tracks@, id) == track_with_id(self.tracks@.take(i as int), id),
            decreases i,
        {
            proof {
                assert(self.tracks@.take(i as int).drop_last() =~= self.tracks@.take(i - 1));
                assert(self.tracks@.take(i as int).last() == self.tracks@[i - 1]);
            }
            if self.tracks[i - 1].id == id {
                return Some(&self.tracks[i - 1]);
            }
            i = i - 1;
        }
        None
    }
}

} // verus!
