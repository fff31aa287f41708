//! The list of all annotations: their order, and the line for each.

use vstd::prelude::*;

use crate::state::HunkAnnotation;
use crate::text::{chars_of, decimal, first_line, first_line_of, text_from, usize_text};

verus! {

// ---------------------------------------------------------------------------
// The order
// ---------------------------------------------------------------------------
/// An annotation comes before another in the list: it is older, or of the same time and
/// in front of it.
pub open spec fn listed_before(list: Seq<HunkAnnotation>, a: usize, b: usize) -> bool {
    ||| list[a as int].created_at.is_before(list[b as int].created_at)
    ||| list[a as int].created_at == list[b as int].created_at && a < b
}

/// Positions in the order of the list, each one once.
pub open spec fn is_list_order(list: Seq<HunkAnnotation>, order: Seq<usize>) -> bool {
    &&& order.len() == list.len()
    &&& forall|i: int| 0 <= i < order.len() ==> (#[trigger] order[i]) < list.len()
    &&& forall|i: int, j: int|
        0 <= i < j < order.len() ==> listed_before(list, #[trigger] order[i], #[trigger] order[j])
    &&& forall|a: usize| a < list.len() ==> #[trigger] order.contains(a)
}

/// Where a position belongs among others that are in order.
fn place_for(list: &Vec<HunkAnnotation>, order: &Vec<usize>, a: usize) -> (r: usize)
    requires
        a < list@.len(),
        forall|i: int| 0 <= i < order@.len() ==> (#[trigger] order@[i]) < a,
        forall|i: int, j: int|
            0 <= i < j < order@.len() ==> listed_before(
                list@,
                #[trigger] order@[i],
                #[trigger] order@[j],
            ),
    ensures
        r <= order@.len(),
        forall|i: int| 0 <= i < r ==> listed_before(list@, #[trigger] order@[i], a),
        forall|i: int| r <= i < order@.len() ==> listed_before(list@, a, #[trigger] order@[i]),
{
    let mut r: usize = order.len();
    let time = list[a].created_at;
    while r > 0
        invariant
            a < list@.len(),
            time == list@[a as int].created_at,
            r <= order@.len(),
            forall|i: int| 0 <= i < order@.len() ==> (#[trigger] order@[i]) < a,
            forall|i: int, j: int|
                0 <= i < j < order@.len() ==> listed_before(
                    list@,
                    #[trigger] order@[i],
                    #[trigger] order@[j],
                ),
            forall|i: int| r <= i < order@.len() ==> listed_before(list@, a, #[trigger] order@[i]),
        ensures
            r <= order@.len(),
            r > 0 ==> !time.is_before(list@[order@[r - 1] as int].created_at),
            forall|i: int| r <= i < order@.len() ==> listed_before(list@, a, #[trigger] order@[i]),
        decreases r,
    {
        if !time.before(list[order[r - 1]].created_at) {
            break;
        }
        r -= 1;
    }
    assert forall|i: int| 0 <= i < r implies listed_before(list@, #[trigger] order@[i], a) by {
        let last = order@[r - 1];
        assert(last < a);
        if i < r - 1 {
            assert(listed_before(list@, order@[i], order@[r - 1]));
        }
        assert(order@[i] < a);
    }
    r
}

/// The positions of the annotations in the order of the list: the oldest first, and those
/// of one time as they are.
pub fn annotation_order(list: &Vec<HunkAnnotation>) -> (order: Vec<usize>)
    ensures
        is_list_order(list@, order@),
{
    let mut order: Vec<usize> = Vec::new();
    let mut a: usize = 0;
    while a < list.len()
        invariant
            a <= list@.len(),
            order@.len() == a,
            forall|i: int| 0 <= i < order@.len() ==> (#[trigger] order@[i]) < a,
            forall|i: int, j: int|
                0 <= i < j < order@.len() ==> listed_before(
                    list@,
                    #[trigger] order@[i],
                    #[trigger] order@[j],
                ),
            forall|b: usize| b < a ==> #[trigger] order@.contains(b),
        decreases list@.len() - a,
    {
        let at = place_for(list, &order, a);
        let ghost before = order@;
        order.insert(at, a);
        proof {
            let after = order@;
            assert(after == before.insert(at as int, a));
            assert forall|i: int, j: int| 0 <= i < j < after.len() implies listed_before(
                list@,
                #[trigger] after[i],
                #[trigger] after[j],
            ) by {
                let x = if i < at {
                    i
                } else {
                    i - 1
                };
                let y = if j < at {
                    j
                } else {
                    j - 1
                };
                if i != at && j != at {
                    assert(after[i] == before[x]);
                    assert(after[j] == before[y]);
                } else if i == at {
                    assert(after[j] == before[y]);
                } else {
                    assert(after[i] == before[x]);
                }
            }
            assert forall|b: usize| b < a + 1 implies #[trigger] after.contains(b) by {
                if b < a {
                    assert(before.contains(b));
                    let k = choose|k: int| 0 <= k < before.len() && before[k] == b;
                    if k < at {
                        assert(after[k] == b);
                    } else {
                        assert(after[k + 1] == b);
                    }
                } else {
                    assert(after[at as int] == b);
                }
            }
        }
        a += 1;
    }
    order
}

/// There is only one order of the list.
pub proof fn list_order_is_unique(list: Seq<HunkAnnotation>, p: Seq<usize>, q: Seq<usize>)
    requires
        is_list_order(list, p),
        is_list_order(list, q),
    ensures
        p == q,
{
    assert forall|i: int| 0 <= i < p.len() implies #[trigger] p[i] == q[i] by {
        lemma_prefixes_agree(list, p, q, i + 1);
    }
}

proof fn lemma_prefixes_agree(list: Seq<HunkAnnotation>, p: Seq<usize>, q: Seq<usize>, n: int)
    requires
        is_list_order(list, p),
        is_list_order(list, q),
        0 <= n <= p.len(),
    ensures
        forall|i: int| 0 <= i < n ==> #[trigger] p[i] == q[i],
    decreases n,
{
    if n > 0 {
        lemma_prefixes_agree(list, p, q, n - 1);
        let k = n - 1;
        let (x, y) = (p[k], q[k]);
        if x != y {
            assert(q.contains(x));
            let i = choose|i: int| 0 <= i < q.len() && q[i] == x;
            if i < k {
                assert(p[i] == q[i]);
                assert(listed_before(list, p[i], p[k]));
            }
            assert(p.contains(y));
            let j = choose|j: int| 0 <= j < p.len() && p[j] == y;
            if j < k {
                assert(p[j] == q[j]);
                assert(listed_before(list, q[j], q[k]));
            }
            assert(listed_before(list, q[k], q[i]));
            assert(listed_before(list, p[k], p[j]));
        }
    }
}

// ---------------------------------------------------------------------------
// The lines
// ---------------------------------------------------------------------------
/// How many bytes a character takes in UTF-8.
pub open spec fn utf8_len(c: char) -> nat {
    if (c as u32) < 0x80 {
        1
    } else if (c as u32) < 0x800 {
        2
    } else if (c as u32) < 0x10000 {
        3
    } else {
        4
    }
}

/// How many bytes the first `n` characters take.
pub open spec fn bytes_of(s: Seq<char>, n: int) -> nat
    decreases n,
{
    if n <= 0 {
        0
    } else {
        bytes_of(s, n - 1) + utf8_len(s[n - 1])
    }
}

/// How many of the characters, from `from` on, fit into the first 40 bytes.
pub open spec fn chars_that_fit(s: Seq<char>, from: int) -> int
    decreases s.len() - from,
{
    if from >= s.len() || bytes_of(s, from + 1) > 40 {
        from
    } else {
        chars_that_fit(s, from + 1)
    }
}

/// A line cut off behind its first 40 bytes, with dots for the rest.
pub open spec fn cut(line: Seq<char>) -> Seq<char> {
    if bytes_of(line, line.len() as int) > 40 {
        line.take(chars_that_fit(line, 0)) + "..."@
    } else {
        line
    }
}

/// Whether a line can be cut off behind its first 40 bytes: no character lies across.
pub open spec fn can_cut(line: Seq<char>) -> bool {
    bytes_of(line, line.len() as int) > 40 ==> bytes_of(line, chars_that_fit(line, 0)) == 40
}

fn utf8_len_of(c: char) -> (r: usize)
    ensures
        r == utf8_len(c),
{
    let code = c as u32;
    if code < 0x80 {
        1
    } else if code < 0x800 {
        2
    } else if code < 0x10000 {
        3
    } else {
        4
    }
}

proof fn lemma_bytes_grow(s: Seq<char>, m: int, n: int)
    requires
        0 <= m <= n,
    ensures
        bytes_of(s, m) <= bytes_of(s, n),
    decreases n - m,
{
    if m < n {
        lemma_bytes_grow(s, m, n - 1);
    }
}

/// Whether a line can be cut off behind its first 40 bytes.
pub fn can_be_cut(line: &str) -> (r: bool)
    ensures
        r == can_cut(line@),
{
    let chars = chars_of(line);
    let mut n: usize = 0;
    let mut bytes: usize = 0;
    while n < chars.len()
        invariant
            chars@ == line@,
            n <= chars@.len(),
            bytes == bytes_of(line@, n as int),
            bytes <= 40,
            chars_that_fit(line@, 0) == chars_that_fit(line@, n as int),
        ensures
            n <= chars@.len(),
            bytes == bytes_of(line@, n as int),
            bytes <= 40,
            chars_that_fit(line@, 0) == n,
            n < chars@.len() ==> bytes_of(line@, n + 1) > 40,
        decreases chars@.len() - n,
    {
        let more = bytes + utf8_len_of(chars[n]);
        if more > 40 {
            break;
        }
        bytes = more;
        n += 1;
    }
    if n < chars.len() {
        proof {
            lemma_bytes_grow(line@, n + 1, line@.len() as int);
        }
        bytes == 40
    } else {
        true
    }
}

/// A line cut off behind its first 40 bytes, with dots for the rest.
pub fn cut_line(line: &str) -> (r: String)
    requires
        can_cut(line@),
    ensures
        r@ == cut(line@),
{
    let chars = chars_of(line);
    let mut n: usize = 0;
    let mut bytes: usize = 0;
    while n < chars.len()
        invariant
            chars@ == line@,
            n <= chars@.len(),
            bytes == bytes_of(line@, n as int),
            bytes <= 40,
            chars_that_fit(line@, 0) == chars_that_fit(line@, n as int),
        ensures
            n <= chars@.len(),
            chars_that_fit(line@, 0) == n,
            n < chars@.len() ==> bytes_of(line@, n + 1) > 40,
            n == chars@.len() ==> bytes_of(line@, n as int) <= 40,
        decreases chars@.len() - n,
    {
        let more = bytes + utf8_len_of(chars[n]);
        if more > 40 {
            break;
        }
        bytes = more;
        n += 1;
    }
    let mut r = text_from(&chars, 0, n);
    if n < chars.len() {
        proof {
            lemma_bytes_grow(line@, n + 1, line@.len() as int);
        }
        r.append("...");
        assert(chars@.subrange(0, n as int) == line@.take(n as int));
    } else {
        assert(chars@.subrange(0, n as int) == line@);
    }
    r
}

/// The line for an annotation: the file with its name as it is given, the lines, the
/// beginning of the text, and the time as it is given.
pub open spec fn preview(
    filename: Seq<char>,
    line_range: (usize, usize),
    content: Seq<char>,
    time: Seq<char>,
) -> Seq<char> {
    filename + ":"@ + decimal(line_range.0 as nat) + "-"@ + decimal(line_range.1 as nat) + " | "@
        + cut(first_line(content)) + " | "@ + time
}

/// The line for an annotation.
pub fn format_annotation_preview(annotation: &HunkAnnotation, filename: &str, time: &str) -> (r:
    String)
    requires
        can_cut(first_line(annotation.content@)),
    ensures
        r@ == preview(filename@, annotation.line_range, annotation.content@, time@),
{
    let line = first_line_of(annotation.content.as_str());
    let begun = cut_line(line.as_str());
    let mut r = String::new();
    r.append(filename);
    r.append(":");
    r.append(usize_text(annotation.line_range.0).as_str());
    r.append("-");
    r.append(usize_text(annotation.line_range.1).as_str());
    r.append(" | ");
    r.append(begun.as_str());
    r.append(" | ");
    r.append(time);
    r
}

/// In the order of the list every annotation stands once, the earlier before the later, and of
/// two at one time the one that came first.
pub proof fn lists_are_ordered_by_time(list: Seq<HunkAnnotation>, order: Seq<usize>)
    requires
        is_list_order(list, order),
    ensures
        order.len() == list.len(),
        forall|a: usize| a < list.len() <==> #[trigger] order.contains(a),
        forall|i: int, j: int|
            0 <= i < j < order.len() ==> {
                let (a, b) = (#[trigger] order[i], #[trigger] order[j]);
                let (s, t) = (list[a as int].created_at, list[b as int].created_at);
                s.secs < t.secs || s.secs == t.secs && (s.nanos < t.nanos || s.nanos == t.nanos && a
                    < b)
            },
{
}

proof fn lemma_chars_that_fit(s: Seq<char>, from: int)
    requires
        0 <= from <= s.len(),
        bytes_of(s, from) <= 40,
    ensures
        ({
            let n = chars_that_fit(s, from);
            &&& from <= n <= s.len()
            &&& bytes_of(s, n) <= 40
            &&& n < s.len() ==> bytes_of(s, n + 1) > 40
        }),
    decreases s.len() - from,
{
    if from < s.len() && bytes_of(s, from + 1) <= 40 {
        lemma_chars_that_fit(s, from + 1);
    }
}

/// A line of at most forty bytes is shown as it is. Of a longer one as much of the beginning is
/// shown as forty bytes hold, and three dots.
pub proof fn long_lines_are_cut(line: Seq<char>)
    ensures
        bytes_of(line, line.len() as int) <= 40 ==> cut(line) == line,
        bytes_of(line, line.len() as int) > 40 ==> {
            let n = cut(line).len() - 3;
            &&& 0 <= n < line.len()
            &&& cut(line).take(n) == line.take(n)
            &&& cut(line).skip(n) == "..."@
            &&& bytes_of(line, n) <= 40
            &&& bytes_of(line, n + 1) > 40
        },
{
    reveal_strlit("...");
    lemma_chars_that_fit(line, 0);
    if bytes_of(line, line.len() as int) > 40 {
        let n = chars_that_fit(line, 0);
        assert(cut(line).take(n) =~= line.take(n));
        assert(cut(line).skip(n) =~= "..."@);
    }
}

/// A character takes one byte to four; those of ASCII take one.
pub proof fn characters_take_up_to_four_bytes(c: char, d: char)
    ensures
        1 <= utf8_len(c) <= 4,
        c <= d ==> utf8_len(c) <= utf8_len(d),
        utf8_len(c) == 1 <==> (c as u32) < 128,
        utf8_len(c) <= 2 <==> (c as u32) < 2048,
        utf8_len(c) <= 3 <==> (c as u32) < 65536,
{
}

/// A preview begins with the file and the lines, from the first to the last, ends in the time,
/// and has the first line of the text between them.
pub proof fn previews_show_where_what_and_when(
    filename: Seq<char>,
    line_range: (usize, usize),
    content: Seq<char>,
    time: Seq<char>,
)
    ensures
        ({
            let text = preview(filename, line_range, content, time);
            let (from, to) = line_range;
            let start = filename + ":"@ + decimal(from as nat) + "-"@ + decimal(to as nat);
            let line = cut(first_line(content));
            &&& start.is_prefix_of(text)
            &&& text.len() == start.len() + 3 + line.len() + 3 + time.len()
            &&& text.skip(start.len() as int + 3).take(line.len() as int) == line
            &&& text.skip(text.len() - time.len()) == time
        }),
{
    reveal_strlit(" | ");
    let text = preview(filename, line_range, content, time);
    let (from, to) = line_range;
    let start = filename + ":"@ + decimal(from as nat) + "-"@ + decimal(to as nat);
    let line = cut(first_line(content));
    assert(text =~= start + " | "@ + line + " | "@ + time);
    assert(start.is_prefix_of(text));
    assert(text.skip(start.len() as int + 3).take(line.len() as int) =~= line);
    assert(text.skip(text.len() - time.len()) =~= time);
}

} // verus!
