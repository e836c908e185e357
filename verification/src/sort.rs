//! Stable sorting by an order on the elements.
use vstd::prelude::*;

verus! {

/// An order on elements: which of two stands strictly before the other.
pub trait Order<T> {
    spec fn before(&self, a: T, b: T) -> bool;

    fn is_before(&self, a: &T, b: &T) -> (r: bool)
        ensures
            r == self.before(*a, *b),
    ;
}

/// An element put behind all those that it does not stand before.
pub open spec fn insert_in<T>(s: Seq<T>, x: T, before: spec_fn(T, T) -> bool) -> Seq<T>
    decreases s.len(),
{
    if s.len() > 0 && before(x, s.last()) {
        insert_in(s.drop_last(), x, before).push(s.last())
    } else {
        s.push(x)
    }
}

/// The elements in order; those of which neither stands before the other keep
/// the order that they came in.
pub open spec fn sorted<T>(s: Seq<T>, before: spec_fn(T, T) -> bool) -> Seq<T>
    decreases s.len(),
{
    if s.len() == 0 {
        s
    } else {
        insert_in(sorted(s.drop_last(), before), s.last(), before)
    }
}

/// Nothing stands before itself, and what does not stand behind is passed on:
/// the condition under which sorting puts everything in order.
pub open spec fn is_order<T>(before: spec_fn(T, T) -> bool) -> bool {
    &&& forall|a: T| !#[trigger] before(a, a)
    &&& forall|a: T, b: T| #[trigger] before(a, b) ==> !before(b, a)
    &&& forall|a: T, b: T, c: T|
        #![trigger before(a, b), before(b, c)]
        !before(a, b) && !before(b, c) ==> !before(a, c)
}

/// No element stands before one that comes earlier.
pub open spec fn in_order<T>(s: Seq<T>, before: spec_fn(T, T) -> bool) -> bool {
    forall|i: int, j: int| 0 <= i < j < s.len() ==> !before(#[trigger] s[j], #[trigger] s[i])
}

proof fn insert_keeps_elements<T>(s: Seq<T>, x: T, before: spec_fn(T, T) -> bool)
    ensures
        insert_in(s, x, before).len() == s.len() + 1,
        insert_in(s, x, before).to_multiset() == s.to_multiset().insert(x),
    decreases s.len(),
{
    broadcast use vstd::seq_lib::group_to_multiset_ensures;

    if s.len() > 0 && before(x, s.last()) {
        insert_keeps_elements(s.drop_last(), x, before);
        assert(s =~= s.drop_last().push(s.last()));
        assert(insert_in(s, x, before).to_multiset() =~= s.to_multiset().insert(x));
    }
}

/// Sorting keeps every element, as often as it occurs.
pub proof fn sorting_keeps_elements<T>(s: Seq<T>, before: spec_fn(T, T) -> bool)
    ensures
        sorted(s, before).len() == s.len(),
        sorted(s, before).to_multiset() == s.to_multiset(),
    decreases s.len(),
{
    broadcast use vstd::seq_lib::group_to_multiset_ensures;

    if s.len() > 0 {
        sorting_keeps_elements(s.drop_last(), before);
        insert_keeps_elements(sorted(s.drop_last(), before), s.last(), before);
        assert(s =~= s.drop_last().push(s.last()));
    }
}

proof fn insert_keeps_order<T>(s: Seq<T>, x: T, before: spec_fn(T, T) -> bool)
    requires
        is_order(before),
        in_order(s, before),
    ensures
        in_order(insert_in(s, x, before), before),
    decreases s.len(),
{
    broadcast use vstd::seq_lib::group_to_multiset_ensures;

    let r = insert_in(s, x, before);
    if s.len() > 0 && before(x, s.last()) {
        let d = s.drop_last();
        let l = s.last();
        assert(in_order(d, before)) by {
            assert forall|i: int, j: int| 0 <= i < j < d.len() implies !before(
                #[trigger] d[j],
                #[trigger] d[i],
            ) by {
                assert(!before(s[j], s[i]));
            }
        }
        insert_keeps_order(d, x, before);
        insert_keeps_elements(d, x, before);
        let t = insert_in(d, x, before);
        assert forall|i: int| 0 <= i < t.len() implies !before(l, #[trigger] t[i]) by {
            assert(t.contains(t[i]));
            assert(t.to_multiset().count(t[i]) > 0);
            if t[i] != x {
                assert(d.to_multiset().count(t[i]) > 0);
                assert(d.contains(t[i]));
                let k = d.index_of(t[i]);
                assert(!before(s[s.len() - 1], s[k]));
            }
        }
        assert forall|i: int, j: int| 0 <= i < j < r.len() implies !before(
            #[trigger] r[j],
            #[trigger] r[i],
        ) by {
            if j < t.len() {
                assert(!before(t[j], t[i]));
            } else {
                assert(!before(l, t[i]));
            }
        }
    } else {
        assert forall|i: int, j: int| 0 <= i < j < r.len() implies !before(
            #[trigger] r[j],
            #[trigger] r[i],
        ) by {
            if j < s.len() {
                assert(!before(s[j], s[i]));
            } else if i < s.len() - 1 {
                assert(!before(s[s.len() - 1], s[i]));
                assert(!before(x, s.last()));
            }
        }
    }
}

/// Sorting by an order puts the elements in that order.
pub proof fn sorting_sorts<T>(s: Seq<T>, before: spec_fn(T, T) -> bool)
    requires
        is_order(before),
    ensures
        in_order(sorted(s, before), before),
    decreases s.len(),
{
    if s.len() > 0 {
        sorting_sorts(s.drop_last(), before);
        insert_keeps_order(sorted(s.drop_last(), before), s.last(), before);
    }
}

/// Neither element stands before the other.
pub open spec fn tied<T>(a: T, b: T, before: spec_fn(T, T) -> bool) -> bool {
    !before(a, b) && !before(b, a)
}

/// The elements tied with `a`, in order.
pub open spec fn ties_of<T>(s: Seq<T>, a: T, before: spec_fn(T, T) -> bool) -> Seq<T>
    decreases s.len(),
{
    if s.len() == 0 {
        s
    } else if tied(s.last(), a, before) {
        ties_of(s.drop_last(), a, before).push(s.last())
    } else {
        ties_of(s.drop_last(), a, before)
    }
}

proof fn insert_keeps_ties<T>(s: Seq<T>, x: T, a: T, before: spec_fn(T, T) -> bool)
    requires
        is_order(before),
        in_order(s, before),
    ensures
        ties_of(insert_in(s, x, before), a, before) == ties_of(s.push(x), a, before),
    decreases s.len(),
{
    if s.len() > 0 && before(x, s.last()) {
        let d = s.drop_last();
        assert(in_order(d, before)) by {
            assert forall|i: int, j: int| 0 <= i < j < d.len() implies !before(
                #[trigger] d[j],
                #[trigger] d[i],
            ) by {
                assert(!before(s[j], s[i]));
            }
        }
        insert_keeps_ties(d, x, a, before);
        let t = insert_in(d, x, before);
        assert(t.push(s.last()).drop_last() =~= t);
        assert(s.push(x).drop_last() =~= s);
        assert(d.push(x).drop_last() =~= d);
        let l = s.last();
        if tied(x, a, before) && tied(l, a, before) {
            assert(!before(x, a) && !before(a, l));
            assert(!before(x, l));
        }
        let r = t.push(l);
        assert(r.last() == l);
        assert(insert_in(s, x, before) == r);
        assert(s.push(x).last() == x);
        assert(d.push(x).last() == x);
        let td = ties_of(d, a, before);
        if tied(l, a, before) {
            assert(ties_of(s, a, before) == td.push(l));
            assert(ties_of(r, a, before) == ties_of(t, a, before).push(l));
        } else {
            assert(ties_of(s, a, before) == td);
            assert(ties_of(r, a, before) == ties_of(t, a, before));
        }
    }
}

/// Elements of which neither stands before the other keep the order that they
/// came in.
pub proof fn sorting_is_stable<T>(s: Seq<T>, a: T, before: spec_fn(T, T) -> bool)
    requires
        is_order(before),
    ensures
        ties_of(sorted(s, before), a, before) == ties_of(s, a, before),
    decreases s.len(),
{
    if s.len() > 0 {
        let d = s.drop_last();
        let t = sorted(d, before);
        sorting_is_stable(d, a, before);
        sorting_sorts(d, before);
        insert_keeps_ties(t, s.last(), a, before);
        assert(t.push(s.last()).drop_last() =~= t);
    }
}

proof fn insert_splits<T>(s: Seq<T>, j: int, x: T, before: spec_fn(T, T) -> bool)
    requires
        0 <= j <= s.len(),
        forall|k: int| j <= k < s.len() ==> before(x, #[trigger] s[k]),
        j == 0 || !before(x, s[j - 1]),
    ensures
        insert_in(s, x, before) == s.insert(j, x),
    decreases s.len() - j,
{
    if j == s.len() {
        assert(s.insert(j, x) =~= s.push(x));
    } else {
        let d = s.drop_last();
        assert(s.last() == s[s.len() - 1]);
        insert_splits(d, j, x, before);
        assert(s.insert(j, x) =~= d.insert(j, x).push(s.last()));
    }
}

/// Sorts a vector in place.
pub fn stable_sort<T, O: Order<T>>(v: &mut Vec<T>, order: &O)
    ensures
        final(v)@ == sorted(old(v)@, |a: T, b: T| order.before(a, b)),
{
    let ghost input = v@;
    let ghost before = |a: T, b: T| order.before(a, b);
    let mut i: usize = 0;
    proof {
        assert(input.take(0) =~= Seq::<T>::empty());
        assert(sorted(input.take(0), before) + input.skip(0) =~= input);
    }
    while i < v.len()
        invariant
            i <= v.len(),
            input.len() == v.len(),
            before == |a: T, b: T| order.before(a, b),
            sorted(input.take(i as int), before).len() == i,
            v@ == sorted(input.take(i as int), before) + input.skip(i as int),
        decreases v.len() - i,
    {
        let ghost head = sorted(input.take(i as int), before);
        let ghost whole = v@;
        let x = v.remove(i);
        proof {
            assert(x == input[i as int]);
            assert(v@ =~= head + input.skip(i + 1));
        }
        let mut j: usize = i;
        while j > 0 && order.is_before(&x, &v[j - 1])
            invariant
                j <= i <= v.len(),
                head.len() == i,
                v@ == head + input.skip(i + 1),
                before == |a: T, b: T| order.before(a, b),
                forall|k: int| j <= k < i ==> before(x, #[trigger] head[k]),
            decreases j,
        {
            proof {
                assert(v@[j - 1] == head[j - 1]);
            }
            j = j - 1;
        }
        proof {
            if j > 0 {
                assert(v@[j - 1] == head[j - 1]);
            }
            insert_splits(head, j as int, x, before);
            assert(input.take(i + 1).drop_last() =~= input.take(i as int));
            assert(input.take(i + 1).last() == x);
            assert(head.insert(j as int, x) + input.skip(i + 1) =~= (head + input.skip(i + 1)).insert(
                j as int,
                x,
            ));
        }
        v.insert(j, x);
        i = i + 1;
    }
    proof {
        assert(input.take(input.len() as int) =~= input);
        assert(sorted(input, before) + input.skip(input.len() as int) =~= sorted(input, before));
    }
}

/// Turns a vector round.
pub fn reverse<T>(v: &mut Vec<T>)
    ensures
        final(v)@ == old(v)@.reverse(),
{
    let ghost input = v@;
    let mut i: usize = 0;
    let n: usize = v.len();
    proof {
        assert(input.take(0).reverse() + input.skip(0) =~= input);
    }
    while i < n
        invariant
            i <= n,
            n == v.len(),
            n == input.len(),
            v@ == input.take(i as int).reverse() + input.skip(i as int),
        decreases n - i,
    {
        let x = v.remove(i);
        v.insert(0, x);
        proof {
            assert(v@ =~= input.take(i + 1).reverse() + input.skip(i + 1));
        }
        i = i + 1;
    }
    proof {
        assert(input.take(n as int).reverse() + input.skip(n as int) =~= input.reverse());
    }
}

} // verus!
