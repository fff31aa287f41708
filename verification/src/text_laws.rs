//! What holds of texts that are trimmed, cut, joined and put in order.

use vstd::prelude::*;

use crate::tag_names::{lex_less_irreflexive, normal_form_exists, normalized};
use crate::text::{
    after_last, decimal, first_line, index_from, is_white_space, joined, lex_less, trim_end,
    trim_start, trimmed,
};

verus! {

proof fn lemma_trim_start(s: Seq<char>) -> (n: int)
    ensures
        0 <= n <= s.len(),
        trim_start(s) == s.skip(n),
        forall|k: int| 0 <= k < n ==> is_white_space(#[trigger] s[k]),
        n < s.len() ==> !is_white_space(s[n]),
    decreases s.len(),
{
    if s.len() > 0 && is_white_space(s[0]) {
        let rest = s.drop_first();
        let m = lemma_trim_start(rest);
        assert(rest.skip(m) =~= s.skip(m + 1));
        assert forall|k: int| 0 <= k < m + 1 implies is_white_space(#[trigger] s[k]) by {
            if k > 0 {
                assert(rest[k - 1] == s[k]);
            }
        }
        m + 1
    } else {
        assert(s.skip(0) =~= s);
        0
    }
}

proof fn lemma_trim_end(s: Seq<char>) -> (n: int)
    ensures
        0 <= n <= s.len(),
        trim_end(s) == s.take(n),
        forall|k: int| n <= k < s.len() ==> is_white_space(#[trigger] s[k]),
        n > 0 ==> !is_white_space(s[n - 1]),
    decreases s.len(),
{
    if s.len() > 0 && is_white_space(s.last()) {
        let rest = s.drop_last();
        let m = lemma_trim_end(rest);
        assert(rest.take(m) =~= s.take(m));
        assert forall|k: int| m <= k < s.len() implies is_white_space(#[trigger] s[k]) by {
            if k < rest.len() {
                assert(rest[k] == s[k]);
            }
        }
        m
    } else {
        assert(s.take(s.len() as int) =~= s);
        s.len() as int
    }
}

/// A trimmed text is a part of the text with only white space before and behind it, and begins
/// and ends with something else.
pub proof fn trimming_takes_white_space_at_the_ends(s: Seq<char>)
    ensures
        ({
            let t = trimmed(s);
            &&& exists|from: int, to: int|
                0 <= from <= to <= s.len() && #[trigger] s.subrange(from, to) == t && (forall|k: int|
                    0 <= k < from || to <= k < s.len() ==> is_white_space(#[trigger] s[k]))
            &&& t.len() > 0 ==> !is_white_space(t[0]) && !is_white_space(t.last())
        }),
{
    let n = lemma_trim_start(s);
    let u = trim_start(s);
    let m = lemma_trim_end(u);
    assert(s.subrange(n, n + m) =~= trimmed(s));
    assert forall|k: int| 0 <= k < n || n + m <= k < s.len() implies is_white_space(
        #[trigger] s[k],
    ) by {
        if k >= n + m {
            assert(u[k - n] == s[k]);
        }
    }
    if m > 0 {
        assert(trimmed(s)[0] == u[0]);
        assert(u[0] == s[n]);
        assert(trimmed(s).last() == u[m - 1]);
    }
}

/// Nothing is left of a trimmed text exactly where all of it is white space.
pub proof fn blank_texts_are_white_space(s: Seq<char>)
    ensures
        trimmed(s).len() == 0 <==> forall|k: int|
            0 <= k < s.len() ==> is_white_space(#[trigger] s[k]),
{
    let n = lemma_trim_start(s);
    let u = trim_start(s);
    let m = lemma_trim_end(u);
    if trimmed(s).len() == 0 {
        assert forall|k: int| 0 <= k < s.len() implies is_white_space(#[trigger] s[k]) by {
            if k >= n {
                assert(u[k - n] == s[k]);
            }
        }
    } else {
        assert(u[0] == s[n]);
    }
}

/// One text is before another where it has the smaller character in the first place in which
/// they differ, or where the other goes on behind it.
pub proof fn texts_are_ordered_by_the_first_difference(a: Seq<char>, b: Seq<char>, k: int)
    requires
        0 <= k <= a.len(),
        k <= b.len(),
        forall|i: int| 0 <= i < k ==> #[trigger] a[i] == b[i],
    ensures
        k == a.len() && k < b.len() ==> lex_less(a, b),
        k == b.len() ==> !lex_less(a, b),
        k < a.len() && k < b.len() && a[k] < b[k] ==> lex_less(a, b),
        k < a.len() && k < b.len() && a[k] > b[k] ==> !lex_less(a, b),
    decreases k,
{
    if k > 0 {
        let (a1, b1) = (a.drop_first(), b.drop_first());
        assert(a[0] == b[0]);
        assert forall|i: int| 0 <= i < k - 1 implies #[trigger] a1[i] == b1[i] by {
            assert(a[i + 1] == b[i + 1]);
        }
        texts_are_ordered_by_the_first_difference(a1, b1, k - 1);
    }
}

/// The number that digits stand for.
pub open spec fn number_of(digits: Seq<char>) -> int
    decreases digits.len(),
{
    if digits.len() == 0 {
        0
    } else {
        10 * number_of(digits.drop_last()) + (digits.last() as int - '0' as int)
    }
}

/// A number is written with digits that stand for it, without a zero in front but where it is
/// zero.
pub proof fn decimals_stand_for_the_number(n: nat)
    ensures
        number_of(decimal(n)) == n,
        decimal(n).len() > 0,
        forall|i: int| 0 <= i < decimal(n).len() ==> '0' <= #[trigger] decimal(n)[i] <= '9',
        n > 0 ==> decimal(n)[0] != '0',
        n == 0 ==> decimal(n).len() == 1,
    decreases n,
{
    let d = decimal(n);
    if n < 10 {
        assert(d.drop_last() =~= seq![]);
        assert(number_of(d.drop_last()) == 0);
    } else {
        decimals_stand_for_the_number(n / 10);
        assert(d.drop_last() =~= decimal(n / 10));
        assert(d[0] == decimal(n / 10)[0]);
        assert forall|i: int| 0 <= i < d.len() implies '0' <= #[trigger] d[i] <= '9' by {
            if i < d.len() - 1 {
                assert(d[i] == decimal(n / 10)[i]);
            }
        }
    }
}

/// Parts are joined in order, with the separator between neighbours and nowhere else.
pub proof fn parts_are_joined_in_order(
    left: Seq<Seq<char>>,
    right: Seq<Seq<char>>,
    one: Seq<char>,
    sep: Seq<char>,
)
    ensures
        joined(seq![], sep) == Seq::<char>::empty(),
        joined(seq![one], sep) == one,
        left.len() > 0 && right.len() > 0 ==> joined(left + right, sep) == joined(left, sep) + sep
            + joined(right, sep),
    decreases right.len(),
{
    if left.len() > 0 && right.len() > 0 {
        let all = left + right;
        assert(all.drop_last() =~= left + right.drop_last());
        assert(all.last() == right.last());
        if right.len() == 1 {
            assert(all.drop_last() =~= left);
        } else {
            parts_are_joined_in_order(left, right.drop_last(), one, sep);
            assert(joined(all, sep) =~= joined(left, sep) + sep + joined(right, sep));
        }
    }
}

/// A character is found at the first place from a position on where it stands.
pub proof fn characters_are_found_where_they_stand_first(s: Seq<char>, c: char, from: int)
    requires
        0 <= from <= s.len(),
    ensures
        from <= index_from(s, c, from) <= s.len(),
        forall|k: int| from <= k < index_from(s, c, from) ==> #[trigger] s[k] != c,
        index_from(s, c, from) < s.len() ==> s[index_from(s, c, from)] == c,
    decreases s.len() - from,
{
    if from < s.len() && s[from] != c {
        characters_are_found_where_they_stand_first(s, c, from + 1);
    }
}

/// What stands behind the last separator holds none, and is the end of the text, either all of
/// it or behind a separator.
pub proof fn last_parts_follow_the_last_separator(s: Seq<char>, c: char)
    ensures
        ({
            let t = after_last(s, c);
            let n = s.len() - t.len();
            &&& 0 <= n
            &&& t == s.skip(n)
            &&& forall|k: int| 0 <= k < t.len() ==> #[trigger] t[k] != c
            &&& n > 0 ==> s[n - 1] == c
        }),
    decreases s.len(),
{
    if s.len() > 0 {
        if s.last() == c {
            assert(s.skip(s.len() as int) =~= seq![]);
        } else {
            last_parts_follow_the_last_separator(s.drop_last(), c);
            let t = after_last(s, c);
            let n = s.len() - t.len();
            assert(t =~= s.skip(n));
        }
    } else {
        assert(s.skip(0) =~= s);
    }
}

/// The first line is the beginning of the text, has no line break in it, and is all of the text
/// or is followed by a line break.
pub proof fn first_lines_end_at_the_first_break(s: Seq<char>)
    ensures
        ({
            let t = first_line(s);
            let n = t.len() as int;
            &&& n <= s.len() && t == s.take(n)
            &&& forall|k: int| 0 <= k < n ==> #[trigger] t[k] != '\n'
            &&& n == s.len() || s[n] == '\n' || n + 1 < s.len() && s[n] == '\r' && s[n + 1] == '\n'
            &&& n < s.len() && s[n] == '\n' && n > 0 ==> s[n - 1] != '\r'
        }),
{
    characters_are_found_where_they_stand_first(s, '\n', 0);
    let end = index_from(s, '\n', 0);
    assert forall|k: int| 0 <= k < first_line(s).len() implies #[trigger] first_line(s)[k]
        != '\n' by {
        assert(s[k] != '\n');
    }
}

/// The tags of a list in normal form: each tag that was written, without the white space around
/// it, and nothing else; none empty; in ascending order, so none twice.
pub proof fn normal_tags_are_those_written(tags: Seq<Seq<char>>)
    ensures
        ({
            let r = normalized(tags);
            &&& forall|i: int|
                0 <= i < tags.len() && trimmed(#[trigger] tags[i]).len() > 0 ==> r.contains(
                    trimmed(tags[i]),
                )
            &&& forall|k: int|
                0 <= k < r.len() ==> (#[trigger] r[k]).len() > 0 && exists|i: int|
                    0 <= i < tags.len() && trimmed(#[trigger] tags[i]) == r[k]
            &&& forall|i: int, k: int|
                0 <= i < k < r.len() ==> lex_less(#[trigger] r[i], #[trigger] r[k]) && r[i] != r[k]
        }),
{
    normal_form_exists(tags);
    let r = normalized(tags);
    assert forall|k: int| 0 <= k < r.len() implies (#[trigger] r[k]).len() > 0 && exists|i: int|
        0 <= i < tags.len() && trimmed(#[trigger] tags[i]) == r[k] by {
        assert(r.contains(r[k]));
    }
    assert forall|i: int, k: int| 0 <= i < k < r.len() implies lex_less(
        #[trigger] r[i],
        #[trigger] r[k],
    ) && r[i] != r[k] by {
        lex_less_irreflexive(r[i]);
    }
}

} // verus!
