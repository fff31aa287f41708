//! Sequences: keeping some of the elements, and finding the first of a kind.

use vstd::prelude::*;

verus! {

/// The elements of `s` for which `p` holds, in their order.
pub open spec fn kept<T>(s: Seq<T>, p: spec_fn(T) -> bool) -> Seq<T>
    decreases s.len(),
{
    if s.len() == 0 {
        seq![]
    } else if p(s[0]) {
        seq![s[0]] + kept(s.drop_first(), p)
    } else {
        kept(s.drop_first(), p)
    }
}

/// The position of the first element from `from` on for which `p` holds.
pub open spec fn first_where<T>(s: Seq<T>, from: int, p: spec_fn(T) -> bool) -> Option<int>
    decreases s.len() - from,
{
    if from >= s.len() {
        None
    } else if p(s[from]) {
        Some(from)
    } else {
        first_where(s, from + 1, p)
    }
}

/// What `first_where` finds is the first element for which `p` holds; where it finds
/// nothing, `p` holds of no element.
pub proof fn first_where_is_first<T>(s: Seq<T>, from: int, p: spec_fn(T) -> bool)
    requires
        0 <= from,
    ensures
        match first_where(s, from, p) {
            Some(k) => from <= k < s.len() && p(s[k]) && forall|j: int|
                from <= j < k ==> !p(#[trigger] s[j]),
            None => forall|j: int| from <= j < s.len() ==> !p(#[trigger] s[j]),
        },
    decreases s.len() - from,
{
    if from < s.len() && !p(s[from]) {
        first_where_is_first(s, from + 1, p);
    }
}

/// An element for which `p` holds, and before which it holds of none, is the first.
pub proof fn first_where_at<T>(s: Seq<T>, from: int, p: spec_fn(T) -> bool, k: int)
    requires
        0 <= from <= k < s.len(),
        p(s[k]),
        forall|j: int| from <= j < k ==> !p(#[trigger] s[j]),
    ensures
        first_where(s, from, p) == Some(k),
    decreases k - from,
{
    if from < k {
        first_where_at(s, from + 1, p, k);
    }
}

/// Where `p` holds of no element there is no first one.
pub proof fn first_where_none<T>(s: Seq<T>, from: int, p: spec_fn(T) -> bool)
    requires
        0 <= from,
        forall|j: int| from <= j < s.len() ==> !p(#[trigger] s[j]),
    ensures
        first_where(s, from, p) is None,
    decreases s.len() - from,
{
    if from < s.len() {
        first_where_none(s, from + 1, p);
    }
}

/// What is kept are the elements for which `p` holds.
pub proof fn kept_elements<T>(s: Seq<T>, p: spec_fn(T) -> bool)
    ensures
        forall|x: T| #[trigger] kept(s, p).contains(x) <==> s.contains(x) && p(x),
        kept(s, p).len() <= s.len(),
    decreases s.len(),
{
    if s.len() > 0 {
        let rest = s.drop_first();
        kept_elements(rest, p);
        let k = kept(s, p);
        let r = kept(rest, p);
        assert forall|x: T| #[trigger] k.contains(x) <==> s.contains(x) && p(x) by {
            if s.contains(x) {
                let i = choose|i: int| 0 <= i < s.len() && s[i] == x;
                if i > 0 {
                    assert(rest[i - 1] == x);
                }
            }
            if rest.contains(x) {
                let i = choose|i: int| 0 <= i < rest.len() && rest[i] == x;
                assert(s[i + 1] == x);
            }
            if p(s[0]) {
                assert(k == seq![s[0]] + r);
                if k.contains(x) {
                    let i = choose|i: int| 0 <= i < k.len() && k[i] == x;
                    if i > 0 {
                        assert(r[i - 1] == x);
                    }
                }
                if r.contains(x) {
                    let i = choose|i: int| 0 <= i < r.len() && r[i] == x;
                    assert(k[i + 1] == x);
                }
                assert(k[0] == s[0]);
            }
        }
    }
}

/// Where `p` holds of every element, all are kept.
pub proof fn kept_all<T>(s: Seq<T>, p: spec_fn(T) -> bool)
    requires
        forall|i: int| 0 <= i < s.len() ==> p(#[trigger] s[i]),
    ensures
        kept(s, p) == s,
    decreases s.len(),
{
    if s.len() > 0 {
        let rest = s.drop_first();
        assert forall|i: int| 0 <= i < rest.len() implies p(#[trigger] rest[i]) by {
            assert(rest[i] == s[i + 1]);
        }
        kept_all(rest, p);
        assert(p(s[0]));
    }
}

/// Fewer elements are kept exactly where `p` fails of one.
pub proof fn kept_shorter<T>(s: Seq<T>, p: spec_fn(T) -> bool)
    ensures
        kept(s, p).len() <= s.len(),
        kept(s, p).len() == s.len() <==> forall|i: int| 0 <= i < s.len() ==> p(#[trigger] s[i]),
    decreases s.len(),
{
    if s.len() > 0 {
        let rest = s.drop_first();
        kept_shorter(rest, p);
        if forall|i: int| 0 <= i < s.len() ==> p(#[trigger] s[i]) {
            kept_all(s, p);
        } else if kept(s, p).len() == s.len() {
            assert(p(s[0]));
            assert(forall|i: int| 0 <= i < rest.len() ==> p(#[trigger] rest[i]));
            assert forall|i: int| 0 <= i < s.len() implies p(#[trigger] s[i]) by {
                if i > 0 {
                    assert(rest[i - 1] == s[i]);
                }
            }
        }
    }
}

/// Keeping distributes over appending one element.
pub proof fn kept_push<T>(s: Seq<T>, x: T, p: spec_fn(T) -> bool)
    ensures
        kept(s.push(x), p) == (if p(x) {
            kept(s, p).push(x)
        } else {
            kept(s, p)
        }),
    decreases s.len(),
{
    let t = s.push(x);
    if s.len() == 0 {
        assert(t.drop_first() == Seq::<T>::empty());
        assert(kept(t.drop_first(), p) == Seq::<T>::empty());
        assert(kept(t, p) == if p(x) {
            seq![x]
        } else {
            Seq::<T>::empty()
        });
        assert(kept(s, p) == Seq::<T>::empty());
        assert(kept(s, p).push(x) == seq![x]);
    } else {
        assert(t.drop_first() == s.drop_first().push(x));
        kept_push(s.drop_first(), x, p);
        assert(kept(t, p) == if p(x) {
            kept(s, p).push(x)
        } else {
            kept(s, p)
        });
    }
}

/// `f` decides what `p` says.
pub open spec fn decides<T, F: Fn(&T) -> bool>(f: F, p: spec_fn(T) -> bool) -> bool {
    &&& forall|x: &T| #[trigger] call_requires(f, (x,))
    &&& forall|x: &T, b: bool| #[trigger] call_ensures(f, (x,), b) ==> b == p(*x)
}

/// The position of the first element that `f` accepts.
pub(crate) fn find_first<T, F: Fn(&T) -> bool>(
    v: &Vec<T>,
    f: F,
    Ghost(p): Ghost<spec_fn(T) -> bool>,
) -> (r: Option<usize>)
    requires
        decides(f, p),
    ensures
        match r {
            Some(i) => first_where(v@, 0, p) == Some(i as int) && i < v@.len(),
            None => first_where(v@, 0, p) is None,
        },
{
    let mut i: usize = 0;
    while i < v.len()
        invariant
            i <= v@.len(),
            decides(f, p),
            first_where(v@, 0, p) == first_where(v@, i as int, p),
        decreases v@.len() - i,
    {
        if f(&v[i]) {
            return Some(i);
        }
        i += 1;
    }
    None
}

/// Removes the elements that `f` does not accept.
pub(crate) fn retain<T, F: Fn(&T) -> bool>(
    v: &mut Vec<T>,
    f: F,
    Ghost(p): Ghost<spec_fn(T) -> bool>,
)
    requires
        decides(f, p),
    ensures
        final(v)@ == kept(old(v)@, p),
{
    let ghost all = v@;
    let mut i: usize = 0;
    assert(all == v@.take(0) + all.skip(0));
    while i < v.len()
        invariant
            i <= v@.len(),
            decides(f, p),
            kept(all, p) == v@.take(i as int) + kept(v@.skip(i as int), p),
        decreases v@.len() - i,
    {
        let ghost now = v@;
        assert(now.skip(i as int).drop_first() == now.skip(i + 1));
        if f(&v[i]) {
            assert(now.take(i + 1) == now.take(i as int).push(now[i as int]));
            assert(kept(now.skip(i as int), p) == seq![now[i as int]] + kept(now.skip(i + 1), p));
            i += 1;
        } else {
            v.remove(i);
            assert(v@.skip(i as int) == now.skip(i + 1));
            assert(v@.take(i as int) == now.take(i as int));
        }
    }
    assert(v@.skip(i as int) == Seq::<T>::empty());
    assert(v@.take(i as int) == v@);
}

// ---------------------------------------------------------------------------
// Sequences of views
// ---------------------------------------------------------------------------
/// The views of the elements.
pub open spec fn views<T: View>(s: Seq<T>) -> Seq<T::V> {
    Seq::new(s.len(), |i: int| s[i]@)
}

/// `f` decides what `q` says of the view.
pub open spec fn decides_view<T: View, F: Fn(&T) -> bool>(f: F, q: spec_fn(T::V) -> bool) -> bool {
    &&& forall|x: &T| #[trigger] call_requires(f, (x,))
    &&& forall|x: &T, b: bool| #[trigger] call_ensures(f, (x,), b) ==> b == q(x@)
}

/// The position of the first element whose view `f` accepts.
pub(crate) fn find_first_view<T: View, F: Fn(&T) -> bool>(
    v: &Vec<T>,
    f: F,
    Ghost(q): Ghost<spec_fn(T::V) -> bool>,
) -> (r: Option<usize>)
    requires
        decides_view(f, q),
    ensures
        match r {
            Some(i) => first_where(views(v@), 0, q) == Some(i as int) && i < v@.len(),
            None => first_where(views(v@), 0, q) is None,
        },
{
    let mut i: usize = 0;
    while i < v.len()
        invariant
            i <= v@.len(),
            decides_view(f, q),
            first_where(views(v@), 0, q) == first_where(views(v@), i as int, q),
        decreases v@.len() - i,
    {
        if f(&v[i]) {
            return Some(i);
        }
        i += 1;
    }
    None
}

/// Removes the elements whose view `f` does not accept.
pub(crate) fn retain_view<T: View, F: Fn(&T) -> bool>(
    v: &mut Vec<T>,
    f: F,
    Ghost(q): Ghost<spec_fn(T::V) -> bool>,
)
    requires
        decides_view(f, q),
    ensures
        views(final(v)@) == kept(views(old(v)@), q),
{
    let ghost all = views(v@);
    let mut i: usize = 0;
    assert(all == all.take(0) + all.skip(0));
    assert(all.skip(0) == all);
    while i < v.len()
        invariant
            i <= v@.len(),
            decides_view(f, q),
            kept(all, q) == views(v@).take(i as int) + kept(views(v@).skip(i as int), q),
        decreases v@.len() - i,
    {
        let ghost now = views(v@);
        assert(now.skip(i as int).drop_first() == now.skip(i + 1));
        if f(&v[i]) {
            assert(now.take(i + 1) == now.take(i as int).push(now[i as int]));
            assert(kept(now.skip(i as int), q) == seq![now[i as int]] + kept(now.skip(i + 1), q));
            i += 1;
        } else {
            v.remove(i);
            assert(views(v@).skip(i as int) == now.skip(i + 1));
            assert(views(v@).take(i as int) == now.take(i as int));
        }
    }
    assert(views(v@).skip(i as int) == Seq::<T::V>::empty());
    assert(views(v@).take(i as int) == views(v@));
}

} // verus!
