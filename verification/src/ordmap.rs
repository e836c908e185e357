//! An ordered map kept as a sorted vector of entries.
use vstd::prelude::*;
use crate::text::{str_lt, text_lt, text_order_is_total, text_order_is_transitive};

verus! {

/// A key with a strict total order on its view.
pub trait MapKey: DeepView + Sized {
    spec fn key_lt(a: Self::V, b: Self::V) -> bool;

    proof fn key_order_is_total(a: Self::V, b: Self::V)
        ensures
            !Self::key_lt(a, a),
            Self::key_lt(a, b) || Self::key_lt(b, a) || a == b,
            !(Self::key_lt(a, b) && Self::key_lt(b, a)),
    ;

    proof fn key_order_is_transitive(a: Self::V, b: Self::V, c: Self::V)
        requires
            Self::key_lt(a, b),
            Self::key_lt(b, c),
        ensures
            Self::key_lt(a, c),
    ;

    fn before(&self, other: &Self) -> (r: bool)
        ensures
            r == Self::key_lt(self.deep_view(), other.deep_view()),
    ;

    /// The same key once more.
    fn again(&self) -> (r: Self)
        ensures
            r.deep_view() == self.deep_view(),
    ;
}

impl MapKey for String {
    open spec fn key_lt(a: Seq<char>, b: Seq<char>) -> bool {
        text_lt(a, b)
    }

    proof fn key_order_is_total(a: Seq<char>, b: Seq<char>) {
        text_order_is_total(a, b);
    }

    proof fn key_order_is_transitive(a: Seq<char>, b: Seq<char>, c: Seq<char>) {
        text_order_is_transitive(a, b, c);
    }

    fn before(&self, other: &Self) -> (r: bool) {
        str_lt(self.as_str(), other.as_str())
    }

    fn again(&self) -> (r: Self) {
        self.clone()
    }
}

impl MapKey for (String, String) {
    open spec fn key_lt(a: (Seq<char>, Seq<char>), b: (Seq<char>, Seq<char>)) -> bool {
        text_lt(a.0, b.0) || (a.0 == b.0 && text_lt(a.1, b.1))
    }

    proof fn key_order_is_total(a: (Seq<char>, Seq<char>), b: (Seq<char>, Seq<char>)) {
        text_order_is_total(a.0, b.0);
        text_order_is_total(a.1, b.1);
    }

    proof fn key_order_is_transitive(
        a: (Seq<char>, Seq<char>),
        b: (Seq<char>, Seq<char>),
        c: (Seq<char>, Seq<char>),
    ) {
        if text_lt(a.0, b.0) && text_lt(b.0, c.0) {
            text_order_is_transitive(a.0, b.0, c.0);
        }
        if text_lt(a.1, b.1) && text_lt(b.1, c.1) {
            text_order_is_transitive(a.1, b.1, c.1);
        }
    }

    fn before(&self, other: &Self) -> (r: bool) {
        if str_lt(self.0.as_str(), other.0.as_str()) {
            true
        } else if self.0 == other.0 {
            str_lt(self.1.as_str(), other.1.as_str())
        } else {
            false
        }
    }

    fn again(&self) -> (r: Self) {
        (self.0.clone(), self.1.clone())
    }
}

impl MapKey for u64 {
    open spec fn key_lt(a: u64, b: u64) -> bool {
        a < b
    }

    proof fn key_order_is_total(a: u64, b: u64) {
    }

    proof fn key_order_is_transitive(a: u64, b: u64, c: u64) {
    }

    fn before(&self, other: &Self) -> (r: bool) {
        *self < *other
    }

    fn again(&self) -> (r: Self) {
        *self
    }
}

/// The entries hold the key.
pub open spec fn has_key<K: MapKey, T>(s: Seq<(K, T)>, k: K::V) -> bool {
    exists|i: int| 0 <= i < s.len() && #[trigger] s[i].0.deep_view() == k
}

/// Where the key stands among the entries.
pub open spec fn pos_of<K: MapKey, T>(s: Seq<(K, T)>, k: K::V) -> int {
    choose|i: int| 0 <= i < s.len() && #[trigger] s[i].0.deep_view() == k
}

/// The map that a list of entries stands for.
pub open spec fn entries_map<K: MapKey, T>(s: Seq<(K, T)>) -> Map<K::V, T> {
    Map::new(|k: K::V| has_key(s, k), |k: K::V| s[pos_of(s, k)].1)
}

/// The keys of the entries strictly ascend.
pub open spec fn keys_ascend<K: MapKey, T>(s: Seq<(K, T)>) -> bool {
    forall|i: int, j: int|
        0 <= i < j < s.len() ==> K::key_lt(
            #[trigger] s[i].0.deep_view(),
            #[trigger] s[j].0.deep_view(),
        )
}

proof fn pos_is_unique<K: MapKey, T>(s: Seq<(K, T)>, i: int)
    requires
        keys_ascend(s),
        0 <= i < s.len(),
    ensures
        has_key(s, s[i].0.deep_view()),
        pos_of(s, s[i].0.deep_view()) == i,
{
    let k = s[i].0.deep_view();
    let p = pos_of(s, k);
    assert(s[i].0.deep_view() == k);
    assert(0 <= p < s.len() && s[p].0.deep_view() == k);
    K::key_order_is_total(k, k);
}

proof fn map_values_by_index<K: MapKey, T>(s: Seq<(K, T)>)
    requires
        keys_ascend(s),
    ensures
        forall|i: int|
            #![trigger s[i].0.deep_view()]
            0 <= i < s.len() ==> entries_map(s).contains_key(s[i].0.deep_view())
                && entries_map(s)[s[i].0.deep_view()] == s[i].1,
{
    assert forall|i: int|
        #![trigger s[i].0.deep_view()]
        0 <= i < s.len() implies entries_map(s).contains_key(s[i].0.deep_view())
        && entries_map(s)[s[i].0.deep_view()] == s[i].1 by {
        pos_is_unique(s, i);
    }
}

/// A map from keys to values whose entries stand in key order.
#[derive(Debug, PartialEq, Eq)]
pub struct OrdMap<K: MapKey, T> {
    entries: Vec<(K, T)>,
}

impl<K: MapKey, T> View for OrdMap<K, T> {
    type V = Map<K::V, T>;

    closed spec fn view(&self) -> Map<K::V, T> {
        entries_map(self.entries@)
    }
}

impl<K: MapKey, T> OrdMap<K, T> {
    #[verifier::type_invariant]
    spec fn inv(&self) -> bool {
        keys_ascend(self.entries@)
    }

    /// The keys in ascending order.
    pub closed spec fn keys(&self) -> Seq<K::V> {
        self.entries@.map_values(|e: (K, T)| e.0.deep_view())
    }

    /// An empty map.
    pub fn new() -> (r: Self)
        ensures
            r@ == Map::<K::V, T>::empty(),
            r.keys() == Seq::<K::V>::empty(),
    {
        let r = OrdMap { entries: Vec::new() };
        proof {
            assert(r@ =~= Map::<K::V, T>::empty());
            assert(r.keys() =~= Seq::<K::V>::empty());
        }
        r
    }

    /// The number of entries. The ascending keys are those of the map, each once.
    pub fn len(&self) -> (n: usize)
        ensures
            n == self.keys().len(),
            self.keys().no_duplicates(),
            forall|i: int, j: int|
                0 <= i < j < self.keys().len() ==> K::key_lt(self.keys()[i], self.keys()[j]),
            forall|k: K::V| #[trigger] self@.contains_key(k) <==> self.keys().contains(k),
    {
        proof {
            use_type_invariant(self);
            assert forall|i: int, j: int|
                0 <= i < j < self.keys().len() implies K::key_lt(self.keys()[i], self.keys()[j]) by {
                assert(K::key_lt(self.entries@[i].0.deep_view(), self.entries@[j].0.deep_view()));
            }
            assert forall|i: int, j: int|
                0 <= i < self.keys().len() && 0 <= j < self.keys().len() && i != j implies self.keys()[i]
                != self.keys()[j] by {
                K::key_order_is_total(self.keys()[i], self.keys()[i]);
            }
            assert forall|k: K::V| #[trigger] self@.contains_key(k) implies self.keys().contains(k) by {
                let p = pos_of(self.entries@, k);
                assert(self.keys()[p] == k);
            }
            assert forall|k: K::V| self.keys().contains(k) implies #[trigger] self@.contains_key(k) by {
                let p = self.keys().index_of(k);
                assert(self.entries@[p].0.deep_view() == k);
            }
        }
        self.entries.len()
    }

    /// Whether the map holds nothing.
    pub fn is_empty(&self) -> (r: bool)
        ensures
            r == (self@ == Map::<K::V, T>::empty()),
            r == (self.keys().len() == 0),
    {
        let r = self.entries.len() == 0;
        proof {
            if r {
                assert(self@ =~= Map::<K::V, T>::empty());
            } else {
                assert(has_key(self.entries@, self.entries@[0].0.deep_view()));
                assert(self@.contains_key(self.entries@[0].0.deep_view()));
            }
        }
        r
    }

    /// The key at a position of the ascending order.
    pub fn key_at(&self, i: usize) -> (k: &K)
        requires
            i < self.keys().len(),
        ensures
            k.deep_view() == self.keys()[i as int],
    {
        &self.entries[i].0
    }

    /// The value at a position of the ascending order.
    pub fn value_at(&self, i: usize) -> (v: &T)
        requires
            i < self.keys().len(),
        ensures
            self@.contains_key(self.keys()[i as int]),
            *v == self@[self.keys()[i as int]],
    {
        proof {
            use_type_invariant(self);
            pos_is_unique(self.entries@, i as int);
        }
        &self.entries[i].1
    }

    /// The first position whose key does not stand before `k`.
    fn lower_bound(entries: &Vec<(K, T)>, k: &K) -> (p: usize)
        requires
            keys_ascend(entries@),
        ensures
            p <= entries.len(),
            forall|j: int|
                0 <= j < p ==> K::key_lt(#[trigger] entries@[j].0.deep_view(), k.deep_view()),
            forall|j: int|
                p <= j < entries.len() ==> !K::key_lt(
                    #[trigger] entries@[j].0.deep_view(),
                    k.deep_view(),
                ),
    {
        let mut lo: usize = 0;
        let mut hi: usize = entries.len();
        while lo < hi
            invariant
                lo <= hi <= entries.len(),
                keys_ascend(entries@),
                forall|j: int|
                    0 <= j < lo ==> K::key_lt(#[trigger] entries@[j].0.deep_view(), k.deep_view()),
                forall|j: int|
                    hi <= j < entries.len() ==> !K::key_lt(
                        #[trigger] entries@[j].0.deep_view(),
                        k.deep_view(),
                    ),
            decreases hi - lo,
        {
            let mid: usize = lo + (hi - lo) / 2;
            let ghost m = entries@[mid as int].0.deep_view();
            if entries[mid].0.before(k) {
                proof {
                    assert forall|j: int| 0 <= j < mid + 1 implies K::key_lt(
                        #[trigger] entries@[j].0.deep_view(),
                        k.deep_view(),
                    ) by {
                        if j < mid {
                            K::key_order_is_transitive(entries@[j].0.deep_view(), m, k.deep_view());
                        }
                    }
                }
                lo = mid + 1;
            } else {
                proof {
                    assert forall|j: int| mid <= j < entries.len() implies !K::key_lt(
                        #[trigger] entries@[j].0.deep_view(),
                        k.deep_view(),
                    ) by {
                        if mid < j && K::key_lt(entries@[j].0.deep_view(), k.deep_view()) {
                            K::key_order_is_transitive(m, entries@[j].0.deep_view(), k.deep_view());
                        }
                    }
                }
                hi = mid;
            }
        }
        lo
    }

    /// Whether the entry at the lower bound carries the key itself.
    fn found(entries: &Vec<(K, T)>, p: usize, k: &K) -> (r: bool)
        requires
            keys_ascend(entries@),
            p <= entries.len(),
            forall|j: int|
                0 <= j < p ==> K::key_lt(#[trigger] entries@[j].0.deep_view(), k.deep_view()),
            forall|j: int|
                p <= j < entries.len() ==> !K::key_lt(
                    #[trigger] entries@[j].0.deep_view(),
                    k.deep_view(),
                ),
        ensures
            r == has_key(entries@, k.deep_view()),
            r ==> p < entries.len() && entries@[p as int].0.deep_view() == k.deep_view(),
            !r ==> forall|j: int|
                p <= j < entries.len() ==> K::key_lt(
                    k.deep_view(),
                    #[trigger] entries@[j].0.deep_view(),
                ),
    {
        let r = p < entries.len() && !k.before(&entries[p].0);
        proof {
            let kv = k.deep_view();
            K::key_order_is_total(kv, kv);
            if r {
                K::key_order_is_total(entries@[p as int].0.deep_view(), kv);
            } else {
                assert forall|j: int| p <= j < entries.len() implies K::key_lt(
                    kv,
                    #[trigger] entries@[j].0.deep_view(),
                ) by {
                    if p < j {
                        K::key_order_is_transitive(
                            kv,
                            entries@[p as int].0.deep_view(),
                            entries@[j].0.deep_view(),
                        );
                    }
                }
                assert(!has_key(entries@, kv));
            }
        }
        r
    }

    /// The value under a key.
    pub fn get(&self, k: &K) -> (r: Option<&T>)
        ensures
            match r {
                Some(v) => self@.contains_key(k.deep_view()) && *v == self@[k.deep_view()],
                None => !self@.contains_key(k.deep_view()),
            },
    {
        proof {
            use_type_invariant(self);
            map_values_by_index(self.entries@);
        }
        let p = Self::lower_bound(&self.entries, k);
        if Self::found(&self.entries, p, k) {
            Some(&self.entries[p].1)
        } else {
            None
        }
    }

    /// Whether a key is present.
    pub fn contains_key(&self, k: &K) -> (r: bool)
        ensures
            r == self@.contains_key(k.deep_view()),
    {
        self.get(k).is_some()
    }

    /// Puts a value under a key, in place of what was there.
    pub fn insert(&mut self, k: K, v: T)
        ensures
            final(self)@ == old(self)@.insert(k.deep_view(), v),
    {
        proof {
            use_type_invariant(&*self);
        }
        let mut entries: Vec<(K, T)> = Vec::new();
        let ghost before = self.entries@;
        std::mem::swap(&mut entries, &mut self.entries);
        let p = Self::lower_bound(&entries, &k);
        let ghost kv = k.deep_view();
        if Self::found(&entries, p, &k) {
            let _ = entries.remove(p);
            entries.insert(p, (k, v));
            proof {
                assert(entries@ =~= before.update(p as int, (k, v)));
                assert forall|i: int, j: int| 0 <= i < j < entries@.len() implies K::key_lt(
                    #[trigger] entries@[i].0.deep_view(),
                    #[trigger] entries@[j].0.deep_view(),
                ) by {
                    assert(K::key_lt(before[i].0.deep_view(), before[j].0.deep_view()));
                }
                map_values_by_index(before);
                map_values_by_index(entries@);
                assert forall|x: K::V| has_key(entries@, x) implies has_key(before, x) by {
                    let q = pos_of(entries@, x);
                    assert(before[q].0.deep_view() == x);
                }
                assert forall|x: K::V| has_key(before, x) implies has_key(entries@, x) by {
                    let q = pos_of(before, x);
                    assert(entries@[q].0.deep_view() == x);
                }
                assert(entries@[p as int].0.deep_view() == kv);
                assert forall|x: K::V| x != kv && has_key(before, x) implies entries_map(entries@)[x]
                    == entries_map(before)[x] by {
                    let q = pos_of(before, x);
                    assert(before[q].0.deep_view() == x);
                    assert(entries@[q].0.deep_view() == x);
                }
                assert(entries_map(entries@) =~= entries_map(before).insert(kv, v));
            }
        } else {
            entries.insert(p, (k, v));
            proof {
                assert(entries@ =~= before.insert(p as int, (k, v)));
                assert forall|i: int, j: int| 0 <= i < j < entries@.len() implies K::key_lt(
                    #[trigger] entries@[i].0.deep_view(),
                    #[trigger] entries@[j].0.deep_view(),
                ) by {
                    let bi = if i < p { i } else { i - 1 };
                    let bj = if j < p { j } else { j - 1 };
                    if i == p {
                        assert(entries@[j] == before[bj]);
                        assert(K::key_lt(kv, before[bj].0.deep_view()));
                    } else if j == p {
                        assert(entries@[i] == before[bi]);
                        assert(K::key_lt(before[bi].0.deep_view(), kv));
                    } else {
                        assert(entries@[i] == before[bi]);
                        assert(entries@[j] == before[bj]);
                        assert(K::key_lt(before[bi].0.deep_view(), before[bj].0.deep_view()));
                    }
                }
                map_values_by_index(before);
                map_values_by_index(entries@);
                assert(entries@[p as int].0.deep_view() == kv);
                assert forall|x: K::V| has_key(entries@, x) && x != kv implies has_key(before, x) by {
                    let q = pos_of(entries@, x);
                    let b = if q < p { q } else { q - 1 };
                    assert(entries@[q].0.deep_view() == x);
                    assert(before[b] == entries@[q]);
                    assert(before[b].0.deep_view() == x);
                }
                assert forall|x: K::V| has_key(before, x) implies has_key(entries@, x)
                    && entries_map(entries@)[x] == entries_map(before)[x] by {
                    let q = pos_of(before, x);
                    let b = if q < p { q } else { q + 1 };
                    assert(before[q].0.deep_view() == x);
                    assert(entries@[b] == before[q]);
                    assert(entries@[b].0.deep_view() == x);
                }
                assert(entries_map(entries@) =~= entries_map(before).insert(kv, v));
            }
        }
        self.entries = entries;
    }

    /// Takes out the value under a key.
    pub fn remove(&mut self, k: &K) -> (r: Option<T>)
        ensures
            final(self)@ == old(self)@.remove(k.deep_view()),
            match r {
                Some(v) => old(self)@.contains_key(k.deep_view()) && v == old(self)@[k.deep_view()],
                None => !old(self)@.contains_key(k.deep_view()),
            },
    {
        proof {
            use_type_invariant(&*self);
        }
        let mut entries: Vec<(K, T)> = Vec::new();
        let ghost before = self.entries@;
        std::mem::swap(&mut entries, &mut self.entries);
        let p = Self::lower_bound(&entries, k);
        let ghost kv = k.deep_view();
        let mut out: Option<T> = None;
        if Self::found(&entries, p, k) {
            let e = entries.remove(p);
            out = Some(e.1);
            proof {
                map_values_by_index(before);
                assert(before[p as int].0.deep_view() == kv);
                assert(entries@ =~= before.remove(p as int));
                assert forall|i: int, j: int| 0 <= i < j < entries@.len() implies K::key_lt(
                    #[trigger] entries@[i].0.deep_view(),
                    #[trigger] entries@[j].0.deep_view(),
                ) by {
                    let bi = if i < p { i } else { i + 1 };
                    let bj = if j < p { j } else { j + 1 };
                    assert(entries@[i] == before[bi]);
                    assert(entries@[j] == before[bj]);
                    assert(K::key_lt(before[bi].0.deep_view(), before[bj].0.deep_view()));
                }
                map_values_by_index(entries@);
                assert forall|x: K::V| has_key(entries@, x) implies has_key(before, x) && x != kv by {
                    let q = pos_of(entries@, x);
                    let b = if q < p { q } else { q + 1 };
                    assert(entries@[q].0.deep_view() == x);
                    assert(before[b] == entries@[q]);
                    assert(before[b].0.deep_view() == x);
                    pos_is_unique(before, b);
                    pos_is_unique(before, p as int);
                }
                assert forall|x: K::V| has_key(before, x) && x != kv implies has_key(entries@, x)
                    && entries_map(entries@)[x] == entries_map(before)[x] by {
                    let q = pos_of(before, x);
                    let b = if q < p { q } else { q - 1 };
                    assert(before[q].0.deep_view() == x);
                    assert(entries@[b] == before[q]);
                    assert(entries@[b].0.deep_view() == x);
                }
                assert(entries_map(entries@) =~= entries_map(before).remove(kv));
            }
        } else {
            proof {
                assert(entries_map(entries@) =~= entries_map(before).remove(kv));
            }
        }
        self.entries = entries;
        out
    }
}

/// A set of keys that stand in key order.
#[derive(Debug, PartialEq, Eq)]
pub struct OrdSet<K: MapKey> {
    pub map: OrdMap<K, ()>,
}

impl<K: MapKey> View for OrdSet<K> {
    type V = Set<K::V>;

    open spec fn view(&self) -> Set<K::V> {
        self.map@.dom()
    }
}

impl<K: MapKey> OrdSet<K> {
    /// An empty set.
    pub fn new() -> (r: Self)
        ensures
            r@ == Set::<K::V>::empty(),
    {
        let r = OrdSet { map: OrdMap::new() };
        proof {
            assert(r@ =~= Set::<K::V>::empty());
        }
        r
    }

    /// Whether the set holds nothing.
    pub fn is_empty(&self) -> (r: bool)
        ensures
            r == (self@ == Set::<K::V>::empty()),
    {
        let r = self.map.is_empty();
        proof {
            if r {
                assert(self@ =~= Set::<K::V>::empty());
            } else if self@ == Set::<K::V>::empty() {
                assert(self.map@ =~= Map::<K::V, ()>::empty());
            }
        }
        r
    }

    /// Whether a key is in the set.
    pub fn contains(&self, k: &K) -> (r: bool)
        ensures
            r == self@.contains(k.deep_view()),
    {
        self.map.contains_key(k)
    }

    /// Adds a key.
    pub fn insert(&mut self, k: K)
        ensures
            final(self)@ == old(self)@.insert(k.deep_view()),
    {
        let ghost kv = k.deep_view();
        self.map.insert(k, ());
        proof {
            assert(self@ =~= old(self)@.insert(kv));
        }
    }

    /// Takes out a key.
    pub fn remove(&mut self, k: &K)
        ensures
            final(self)@ == old(self)@.remove(k.deep_view()),
    {
        let _ = self.map.remove(k);
        proof {
            assert(self@ =~= old(self)@.remove(k.deep_view()));
        }
    }
}

} // verus!
