//! Tag names in normal form: trimmed, non-empty, sorted, each one once.

use vstd::prelude::*;

use crate::text::{
    is_white_space, lex_less, sort_strings, strictly_ascending, strs, trim_end, trim_start, trimmed,
};

verus! {

/// `tag` is what is left of one of `tags` when white space is taken away at its ends.
pub open spec fn is_tag_of(tag: Seq<char>, tags: Seq<Seq<char>>) -> bool {
    exists|i: int| 0 <= i < tags.len() && trimmed(#[trigger] tags[i]) == tag
}

/// `r` lists in ascending order, once each, the tags that `tags` names.
pub open spec fn is_normal_form(r: Seq<Seq<char>>, tags: Seq<Seq<char>>) -> bool {
    &&& strictly_ascending(r)
    &&& forall|t: Seq<char>| #[trigger] r.contains(t) <==> t.len() > 0 && is_tag_of(t, tags)
}

/// The normal form of a list of tags.
pub open spec fn normalized(tags: Seq<Seq<char>>) -> Seq<Seq<char>> {
    choose|r: Seq<Seq<char>>| is_normal_form(r, tags)
}

// ---------------------------------------------------------------------------
// The order of strings
// ---------------------------------------------------------------------------
/// No string is smaller than itself.
pub proof fn lex_less_irreflexive(a: Seq<char>)
    ensures
        !lex_less(a, a),
    decreases a.len(),
{
    if a.len() > 0 {
        lex_less_irreflexive(a.drop_first());
    }
}

/// Where one string is smaller than a second and that than a third, the first is
/// smaller than the third.
pub proof fn lex_less_transitive(a: Seq<char>, b: Seq<char>, c: Seq<char>)
    requires
        lex_less(a, b),
        lex_less(b, c),
    ensures
        lex_less(a, c),
    decreases a.len(),
{
    if a.len() > 0 && a[0] == b[0] && b[0] == c[0] {
        lex_less_transitive(a.drop_first(), b.drop_first(), c.drop_first());
    }
}

/// Of two different strings one is smaller.
pub proof fn lex_less_total(a: Seq<char>, b: Seq<char>)
    requires
        a != b,
    ensures
        lex_less(a, b) || lex_less(b, a),
    decreases a.len(),
{
    if a.len() > 0 && b.len() > 0 && a[0] == b[0] {
        if a.drop_first() == b.drop_first() {
            assert(a == seq![a[0]] + a.drop_first());
            assert(b == seq![b[0]] + b.drop_first());
        }
        lex_less_total(a.drop_first(), b.drop_first());
    } else if a.len() == 0 && b.len() == 0 {
        assert(a == b);
    }
}

// ---------------------------------------------------------------------------
// Normal forms
// ---------------------------------------------------------------------------
proof fn ascending_last_is_greatest(v: Seq<Seq<char>>, t: Seq<char>)
    requires
        strictly_ascending(v),
        v.contains(t),
        t != v.last(),
    ensures
        lex_less(t, v.last()),
{
    let i = choose|i: int| 0 <= i < v.len() && v[i] == t;
    assert(lex_less(v[i], v[v.len() - 1]));
}

proof fn ascending_drop_last(v: Seq<Seq<char>>)
    requires
        strictly_ascending(v),
        v.len() > 0,
    ensures
        strictly_ascending(v.drop_last()),
        forall|t: Seq<char>| #[trigger]
            v.drop_last().contains(t) <==> v.contains(t) && t != v.last(),
{
    let w = v.drop_last();
    assert forall|i: int, j: int| 0 <= i < j < w.len() implies lex_less(
        #[trigger] w[i],
        #[trigger] w[j],
    ) by {
        assert(lex_less(v[i], v[j]));
    }
    assert forall|t: Seq<char>| #[trigger] w.contains(t) <==> v.contains(t) && t != v.last() by {
        if w.contains(t) {
            let i = choose|i: int| 0 <= i < w.len() && w[i] == t;
            assert(v[i] == t);
            assert(lex_less(v[i], v[v.len() - 1]));
            lex_less_irreflexive(v.last());
        }
        if v.contains(t) && t != v.last() {
            let i = choose|i: int| 0 <= i < v.len() && v[i] == t;
            assert(w[i] == t);
        }
    }
}

/// Two ascending lists of the same strings are the same list.
pub proof fn ascending_lists_are_unique(a: Seq<Seq<char>>, b: Seq<Seq<char>>)
    requires
        strictly_ascending(a),
        strictly_ascending(b),
        forall|t: Seq<char>| #[trigger] a.contains(t) <==> b.contains(t),
    ensures
        a == b,
    decreases a.len(),
{
    if a.len() == 0 {
        if b.len() > 0 {
            assert(b.contains(b[0]));
            assert(a.contains(b[0]));
        }
        assert(a =~= b);
    } else {
        assert(a.contains(a[a.len() - 1]));
        assert(b.contains(a.last()));
        assert(b.len() > 0);
        assert(b.contains(b[b.len() - 1]));
        assert(a.contains(b.last()));
        if a.last() != b.last() {
            ascending_last_is_greatest(a, b.last());
            ascending_last_is_greatest(b, a.last());
            lex_less_transitive(a.last(), b.last(), a.last());
            lex_less_irreflexive(a.last());
        }
        ascending_drop_last(a);
        ascending_drop_last(b);
        assert forall|t: Seq<char>| #[trigger]
            a.drop_last().contains(t) <==> b.drop_last().contains(t) by {
            assert(a.contains(t) <==> b.contains(t));
        }
        ascending_lists_are_unique(a.drop_last(), b.drop_last());
        assert(a =~= a.drop_last().push(a.last()));
        assert(b =~= b.drop_last().push(b.last()));
    }
}

/// A list in normal form is the normal form.
pub proof fn normal_form_is_normalized(r: Seq<Seq<char>>, tags: Seq<Seq<char>>)
    requires
        is_normal_form(r, tags),
    ensures
        normalized(tags) == r,
        is_normal_form(normalized(tags), tags),
{
    let n = normalized(tags);
    assert(is_normal_form(n, tags));
    assert forall|t: Seq<char>| #[trigger] n.contains(t) <==> r.contains(t) by {}
    ascending_lists_are_unique(n, r);
}

proof fn trim_start_stable(s: Seq<char>)
    ensures
        trim_start(trim_start(s)) == trim_start(s),
        trim_start(s).len() > 0 ==> !is_white_space_at(trim_start(s), 0),
    decreases s.len(),
{
    if s.len() > 0 && is_white_space(s[0]) {
        trim_start_stable(s.drop_first());
    }
}

spec fn is_white_space_at(s: Seq<char>, i: int) -> bool {
    is_white_space(s[i])
}

proof fn trim_end_stable(s: Seq<char>)
    ensures
        trim_end(trim_end(s)) == trim_end(s),
        trim_end(s).len() > 0 ==> trim_end(s)[0] == s[0],
        trim_end(s).len() <= s.len(),
    decreases s.len(),
{
    if s.len() > 0 && is_white_space(s.last()) {
        trim_end_stable(s.drop_last());
    }
}

/// Trimming a second time changes nothing.
pub proof fn trimming_is_idempotent(s: Seq<char>)
    ensures
        trimmed(trimmed(s)) == trimmed(s),
{
    let a = trim_start(s);
    trim_start_stable(s);
    trim_end_stable(a);
    let t = trim_end(a);
    if t.len() > 0 {
        assert(!is_white_space(t[0]));
    }
    assert(trim_start(t) == t);
}

spec fn with_tag(v: Seq<Seq<char>>, t: Seq<char>) -> Seq<Seq<char>>
    decreases v.len(),
{
    if v.len() == 0 {
        seq![t]
    } else if lex_less(t, v.last()) {
        with_tag(v.drop_last(), t).push(v.last())
    } else {
        v.push(t)
    }
}

proof fn lemma_with_tag(v: Seq<Seq<char>>, t: Seq<char>)
    requires
        strictly_ascending(v),
        !v.contains(t),
    ensures
        strictly_ascending(with_tag(v, t)),
        forall|u: Seq<char>| #[trigger] with_tag(v, t).contains(u) <==> v.contains(u) || u == t,
    decreases v.len(),
{
    let w = with_tag(v, t);
    if v.len() == 0 {
        assert forall|u: Seq<char>| #[trigger] w.contains(u) <==> v.contains(u) || u == t by {
            assert(w =~= v.push(t));
            push_contains(v, t, u);
        }
    } else if lex_less(t, v.last()) {
        ascending_drop_last(v);
        let z = with_tag(v.drop_last(), t);
        lemma_with_tag(v.drop_last(), t);
        assert forall|i: int, j: int| 0 <= i < j < w.len() implies lex_less(
            #[trigger] w[i],
            #[trigger] w[j],
        ) by {
            if j < z.len() {
                assert(lex_less(z[i], z[j]));
            } else {
                assert(z.contains(z[i]));
                if z[i] != t {
                    ascending_last_is_greatest(v, z[i]);
                }
            }
        }
        assert forall|u: Seq<char>| #[trigger] w.contains(u) <==> v.contains(u) || u == t by {
            push_contains(z, v.last(), u);
            assert(z.contains(u) <==> v.drop_last().contains(u) || u == t);
            assert(v.contains(v[v.len() - 1]));
        }
    } else {
        assert(v.contains(v[v.len() - 1]));
        lex_less_total(t, v.last());
        assert forall|i: int, j: int| 0 <= i < j < w.len() implies lex_less(
            #[trigger] w[i],
            #[trigger] w[j],
        ) by {
            if j < v.len() {
                assert(lex_less(v[i], v[j]));
            } else if i < v.len() - 1 {
                assert(lex_less(v[i], v[v.len() - 1]));
                lex_less_transitive(v[i], v.last(), t);
            }
        }
        assert forall|u: Seq<char>| #[trigger] w.contains(u) <==> v.contains(u) || u == t by {
            push_contains(v, t, u);
        }
    }
}

proof fn lemma_tag_of_push(tags: Seq<Seq<char>>, u: Seq<char>)
    requires
        tags.len() > 0,
    ensures
        is_tag_of(u, tags) <==> is_tag_of(u, tags.drop_last()) || u == trimmed(tags.last()),
{
    let rest = tags.drop_last();
    if is_tag_of(u, tags) {
        let k = choose|k: int| 0 <= k < tags.len() && trimmed(#[trigger] tags[k]) == u;
        if k < rest.len() {
            assert(trimmed(rest[k]) == u);
        }
    }
    if is_tag_of(u, rest) {
        let k = choose|k: int| 0 <= k < rest.len() && trimmed(#[trigger] rest[k]) == u;
        assert(trimmed(tags[k]) == u);
    }
    if u == trimmed(tags.last()) {
        assert(trimmed(tags[tags.len() - 1]) == u);
    }
}

/// Every list of tags has a normal form.
pub proof fn normal_form_exists(tags: Seq<Seq<char>>)
    ensures
        is_normal_form(normalized(tags), tags),
    decreases tags.len(),
{
    if tags.len() == 0 {
        assert(is_normal_form(seq![], tags));
    } else {
        let rest = tags.drop_last();
        let t = trimmed(tags.last());
        let n = normalized(rest);
        normal_form_exists(rest);
        let r = if t.len() == 0 || n.contains(t) {
            n
        } else {
            with_tag(n, t)
        };
        if t.len() > 0 && !n.contains(t) {
            lemma_with_tag(n, t);
        }
        assert forall|u: Seq<char>| #[trigger] r.contains(u) <==> u.len() > 0 && is_tag_of(
            u,
            tags,
        ) by {
            lemma_tag_of_push(tags, u);
            assert(n.contains(u) <==> u.len() > 0 && is_tag_of(u, rest));
        }
        assert(is_normal_form(r, tags));
    }
}

/// Normalizing a second time changes nothing.
pub proof fn normalizing_is_idempotent(tags: Seq<Seq<char>>)
    ensures
        normalized(normalized(tags)) == normalized(tags),
{
    let n = normalized(tags);
    normal_form_exists(tags);
    assert forall|t: Seq<char>| #[trigger] n.contains(t) <==> t.len() > 0 && is_tag_of(t, n) by {
        if n.contains(t) {
            let i = choose|i: int| 0 <= i < tags.len() && trimmed(#[trigger] tags[i]) == t;
            trimming_is_idempotent(tags[i]);
            let k = choose|k: int| 0 <= k < n.len() && n[k] == t;
            assert(trimmed(n[k]) == t);
        }
        if t.len() > 0 && is_tag_of(t, n) {
            let k = choose|k: int| 0 <= k < n.len() && trimmed(#[trigger] n[k]) == t;
            assert(n.contains(n[k]));
            let i = choose|i: int| 0 <= i < tags.len() && trimmed(#[trigger] tags[i]) == n[k];
            trimming_is_idempotent(tags[i]);
        }
    }
    normal_form_is_normalized(n, n);
}

/// A list that is its own normal form: ascending, and each tag trimmed and not empty.
pub open spec fn is_normal(tags: Seq<Seq<char>>) -> bool {
    &&& strictly_ascending(tags)
    &&& forall|i: int|
        0 <= i < tags.len() ==> (#[trigger] tags[i]).len() > 0 && trimmed(tags[i]) == tags[i]
}

/// The lists that normalizing leaves as they are are the ascending lists of trimmed tags
/// that are not empty.
pub proof fn normal_lists_are_fixed(tags: Seq<Seq<char>>)
    ensures
        normalized(tags) == tags <==> is_normal(tags),
        is_normal(normalized(tags)),
{
    let n = normalized(tags);
    normal_form_exists(tags);
    assert forall|i: int| 0 <= i < n.len() implies (#[trigger] n[i]).len() > 0 && trimmed(n[i])
        == n[i] by {
        assert(n.contains(n[i]));
        let k = choose|k: int| 0 <= k < tags.len() && trimmed(#[trigger] tags[k]) == n[i];
        trimming_is_idempotent(tags[k]);
    }
    if is_normal(tags) {
        assert forall|t: Seq<char>| #[trigger] tags.contains(t) <==> t.len() > 0 && is_tag_of(
            t,
            tags,
        ) by {
            if tags.contains(t) {
                let k = choose|k: int| 0 <= k < tags.len() && tags[k] == t;
                assert(trimmed(tags[k]) == t);
            }
            if is_tag_of(t, tags) {
                let k = choose|k: int| 0 <= k < tags.len() && trimmed(#[trigger] tags[k]) == t;
                assert(tags[k] == t);
            }
        }
        normal_form_is_normalized(tags, tags);
    }
}

/// A list in normal form stays so when a tag is taken out.
pub proof fn normal_without_one(tags: Seq<Seq<char>>, i: int)
    requires
        is_normal(tags),
        0 <= i < tags.len(),
    ensures
        is_normal(tags.remove(i)),
{
    let rest = tags.remove(i);
    assert forall|a: int, b: int| 0 <= a < b < rest.len() implies lex_less(
        #[trigger] rest[a],
        #[trigger] rest[b],
    ) by {
        let x = if a < i {
            a
        } else {
            a + 1
        };
        let y = if b < i {
            b
        } else {
            b + 1
        };
        assert(lex_less(tags[x], tags[y]));
    }
    assert forall|a: int| 0 <= a < rest.len() implies (#[trigger] rest[a]).len() > 0 && trimmed(
        rest[a],
    ) == rest[a] by {
        let x = if a < i {
            a
        } else {
            a + 1
        };
        assert(tags[x].len() > 0);
    }
}

/// Removes repetitions from a sorted list of strings.
pub(crate) fn dedup_sorted(v: &mut Vec<String>)
    requires
        forall|i: int, j: int|
            0 <= i < j < old(v)@.len() ==> !lex_less(
                #[trigger] old(v)@[j]@,
                #[trigger] old(v)@[i]@,
            ),
    ensures
        strictly_ascending(strs(final(v)@)),
        forall|t: Seq<char>| #[trigger] strs(final(v)@).contains(t) <==> strs(old(v)@).contains(t),
{
    let ghost all = strs(v@);
    let mut r: Vec<String> = Vec::new();
    let mut i: usize = 0;
    while i < v.len()
        invariant
            i <= v.len(),
            all == strs(v@),
            forall|i: int, j: int|
                0 <= i < j < v@.len() ==> !lex_less(#[trigger] v@[j]@, #[trigger] v@[i]@),
            strictly_ascending(strs(r@)),
            i == 0 ==> r@.len() == 0,
            i > 0 ==> r@.len() > 0 && r@.last()@ == v@[i - 1]@,
            forall|t: Seq<char>| #[trigger]
                strs(r@).contains(t) <==> strs(v@).take(i as int).contains(t),
        decreases v.len() - i,
    {
        let ghost before = strs(r@);
        let ghost seen = strs(v@).take(i as int);
        assert(strs(v@).take(i + 1) == seen.push(v@[i as int]@));
        let repeated = r.len() > 0 && r[r.len() - 1] == v[i];
        if !repeated {
            r.push(v[i].clone());
            proof {
                let t = v@[i as int]@;
                assert(strs(r@) == before.push(t));
                assert forall|a: int, b: int| 0 <= a < b < strs(r@).len() implies lex_less(
                    #[trigger] strs(r@)[a],
                    #[trigger] strs(r@)[b],
                ) by {
                    if b < before.len() {
                        assert(lex_less(before[a], before[b]));
                    } else {
                        let last = before.last();
                        assert(last != t);
                        assert(!lex_less(v@[i as int]@, v@[i - 1]@));
                        lex_less_total(last, t);
                        if a < before.len() - 1 {
                            assert(lex_less(before[a], before[before.len() - 1]));
                            lex_less_transitive(before[a], last, t);
                        }
                    }
                }
            }
        }
        proof {
            let t = v@[i as int]@;
            let after = strs(r@);
            assert forall|u: Seq<char>| #[trigger]
                after.contains(u) <==> seen.push(t).contains(u) by {
                assert(before.contains(u) <==> seen.contains(u));
                if !repeated {
                    assert(after == before.push(t));
                    push_contains(before, t, u);
                } else {
                    assert(after == before);
                    assert(before[before.len() - 1] == t);
                    assert(before.contains(t));
                }
                push_contains(seen, t, u);
            }
        }
        i += 1;
    }
    assert(strs(v@).take(v@.len() as int) == strs(v@));
    *v = r;
}

pub(crate) proof fn push_contains(s: Seq<Seq<char>>, t: Seq<char>, u: Seq<char>)
    ensures
        s.push(t).contains(u) <==> s.contains(u) || u == t,
{
    let p = s.push(t);
    if s.contains(u) {
        let k = choose|k: int| 0 <= k < s.len() && s[k] == u;
        assert(p[k] == u);
    }
    if u == t {
        assert(p[s.len() as int] == u);
    }
    if p.contains(u) {
        let k = choose|k: int| 0 <= k < p.len() && p[k] == u;
        if k < s.len() {
            assert(s[k] == u);
        }
    }
}

pub(crate) proof fn same_multiset_same_elements(a: Seq<Seq<char>>, b: Seq<Seq<char>>)
    requires
        a.to_multiset() == b.to_multiset(),
    ensures
        forall|t: Seq<char>| #[trigger] a.contains(t) <==> b.contains(t),
{
    a.to_multiset_ensures();
    b.to_multiset_ensures();
    assert forall|t: Seq<char>| #[trigger] a.contains(t) <==> b.contains(t) by {
        assert(a.contains(t) <==> a.to_multiset().count(t) > 0);
        assert(b.contains(t) <==> b.to_multiset().count(t) > 0);
    }
}

/// The normal form of a list of tags: each tag trimmed, empty ones dropped, the rest
/// in ascending order and each one once.
pub fn normalize_tags(tags: Vec<String>) -> (r: Vec<String>)
    ensures
        strs(r@) == normalized(strs(tags@)),
        is_normal_form(strs(r@), strs(tags@)),
{
    let ghost given = strs(tags@);
    let mut kept: Vec<String> = Vec::new();
    let mut i: usize = 0;
    while i < tags.len()
        invariant
            i <= tags.len(),
            given == strs(tags@),
            forall|t: Seq<char>| #[trigger]
                strs(kept@).contains(t) <==> t.len() > 0 && is_tag_of(t, given.take(i as int)),
        decreases tags.len() - i,
    {
        let ghost before = strs(kept@);
        let tag = tags[i].trim();
        if !tag.is_empty() {
            kept.push(tag.to_string());
        }
        proof {
            let t = trimmed(given[i as int]);
            let seen = given.take(i as int);
            let more = given.take(i + 1);
            assert(more == seen.push(given[i as int]));
            assert forall|u: Seq<char>| #[trigger]
                strs(kept@).contains(u) <==> u.len() > 0 && is_tag_of(u, more) by {
                assert(before.contains(u) <==> u.len() > 0 && is_tag_of(u, seen));
                if t.len() > 0 {
                    assert(strs(kept@) == before.push(t));
                    push_contains(before, t, u);
                } else {
                    assert(strs(kept@) == before);
                }
                if is_tag_of(u, seen) {
                    let k = choose|k: int| 0 <= k < seen.len() && trimmed(#[trigger] seen[k]) == u;
                    assert(trimmed(more[k]) == u);
                }
                if u == t {
                    assert(trimmed(more[i as int]) == u);
                }
                if is_tag_of(u, more) && u != t {
                    let k = choose|k: int| 0 <= k < more.len() && trimmed(#[trigger] more[k]) == u;
                    assert(trimmed(seen[k]) == u);
                }
            }
        }
        i += 1;
    }
    assert(given.take(given.len() as int) == given);
    let ghost unsorted = strs(kept@);
    sort_strings(&mut kept);
    proof {
        same_multiset_same_elements(strs(kept@), unsorted);
    }
    dedup_sorted(&mut kept);
    proof {
        assert(is_normal_form(strs(kept@), given));
        normal_form_is_normalized(strs(kept@), given);
    }
    kept
}

} // verus!
