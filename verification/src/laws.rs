//! What holds of the totals and of the tally of every text.

use vstd::prelude::*;
use crate::chars::{is_space, CharKind};
use crate::scan::{close, kind_count, lemma_scan_bounds, scan, segments, step, totals, Scan};
use crate::tally::{
    bumped, first_seen, lemma_lists_len, lemma_occurrences_bound, lemma_tally_push, lists,
    occurrences, tally,
};
use crate::totals::Totals;

verus! {

/// Whether the scanner stands between words in `st`, as it does at the start
/// of a text: no word open, no dash directly before.
pub open spec fn at_rest(st: Scan) -> bool {
    !st.in_word && st.dashes == 0
}

/// The sum of two totals does not depend on their order.
pub proof fn lemma_plus_commutes(a: Totals, b: Totals)
    ensures
        a.plus(b) == b.plus(a),
{
}

/// The sum of three totals does not depend on how they are grouped.
pub proof fn lemma_plus_associates(a: Totals, b: Totals, c: Totals)
    ensures
        a.plus(b).plus(c) == a.plus(b.plus(c)),
{
}

/// The totals of the empty text are all zero, and to add them changes
/// nothing.
pub proof fn lemma_plus_zero(a: Totals)
    ensures
        totals(Seq::empty()) == Totals::zero(),
        a.plus(Totals::zero()) == a,
        Totals::zero().plus(a) == a,
{
}

/// The characters of a kind in `a + b` are those in `a` and those in `b`.
pub proof fn lemma_kind_count_concat(a: Seq<char>, b: Seq<char>, k: CharKind)
    ensures
        kind_count(a + b, k) == kind_count(a, k) + kind_count(b, k),
    decreases b.len(),
{
    if b.len() == 0 {
        assert(a + b =~= a);
    } else {
        assert((a + b).drop_last() =~= a + b.drop_last());
        lemma_kind_count_concat(a, b.drop_last(), k);
    }
}

/// Where the scanner is at rest after `a`, it goes through `b` behind `a` as
/// it goes through `b` alone, with the words of `a` before those of `b`.
pub proof fn lemma_scan_from_rest(a: Seq<char>, b: Seq<char>)
    requires
        at_rest(scan(a)),
    ensures
        scan(a + b).closed == scan(a).closed + scan(b).closed,
        scan(a + b).in_word == scan(b).in_word,
        scan(a + b).pending == scan(b).pending,
        scan(a + b).dashes == scan(b).dashes,
    decreases b.len(),
{
    lemma_scan_bounds(a);
    if b.len() == 0 {
        assert(a + b =~= a);
        assert(scan(a).closed + scan(b).closed =~= scan(a).closed);
        assert(scan(a).pending =~= scan(b).pending);
    } else {
        let shorter = b.drop_last();
        assert((a + b).drop_last() =~= a + shorter);
        assert((a + b).last() == b.last());
        lemma_scan_from_rest(a, shorter);
        let joint = scan(a + shorter);
        let alone = scan(shorter);
        let c = b.last();
        assert(close(joint) =~= scan(a).closed + close(alone));
        assert(close(joint).push(seq![c]) =~= scan(a).closed + close(alone).push(seq![c]));
        assert(joint.closed.push(joint.pending.drop_last()) =~= scan(a).closed
            + alone.closed.push(alone.pending.drop_last()));
        assert(step(joint, c).closed =~= scan(a).closed + step(alone, c).closed);
    }
}

/// Where the scanner is at rest after `a`, the totals of `a + b` are the sum
/// of the totals of `a` and of `b`. Elsewhere a word may run from `a` into
/// `b`, and the sum counts it twice.
pub proof fn lemma_totals_from_rest(a: Seq<char>, b: Seq<char>)
    requires
        at_rest(scan(a)),
    ensures
        totals(a + b) == totals(a).plus(totals(b)),
{
    lemma_scan_from_rest(a, b);
    lemma_kind_count_concat(a, b, CharKind::Whitespace);
    lemma_kind_count_concat(a, b, CharKind::Cjk);
    assert(close(scan(a + b)) =~= scan(a).closed + close(scan(b)));
}

/// A line with its line feed has the totals of the line and one whitespace
/// character more, and leaves the scanner at rest.
pub proof fn lemma_line_totals(line: Seq<char>)
    ensures
        totals(line.push('\n')) == totals(line).plus(Totals::newline()),
        at_rest(scan(line.push('\n'))),
{
    assert(line.push('\n').drop_last() =~= line);
    assert(is_space('\n'));
}

/// The text made of `lines`, a line feed behind each.
pub open spec fn joined(lines: Seq<Seq<char>>) -> Seq<char>
    decreases lines.len(),
{
    if lines.len() == 0 {
        Seq::empty()
    } else {
        joined(lines.drop_last()) + lines.last().push('\n')
    }
}

/// The sum, over `lines`, of the totals of each line and of one line feed.
pub open spec fn line_by_line(lines: Seq<Seq<char>>) -> Totals
    decreases lines.len(),
{
    if lines.len() == 0 {
        Totals::zero()
    } else {
        line_by_line(lines.drop_last()).plus(totals(lines.last()).plus(Totals::newline()))
    }
}

/// To count a text line by line, adding the totals of a line feed for each
/// line, gives the totals of the whole text, where a line feed stands behind
/// every line.
pub proof fn lemma_line_by_line(lines: Seq<Seq<char>>)
    ensures
        totals(joined(lines)) == line_by_line(lines),
        at_rest(scan(joined(lines))),
    decreases lines.len(),
{
    if lines.len() > 0 {
        let head = joined(lines.drop_last());
        let line = lines.last().push('\n');
        lemma_line_by_line(lines.drop_last());
        lemma_line_totals(lines.last());
        lemma_totals_from_rest(head, line);
        lemma_scan_from_rest(head, line);
    }
}

/// The list of distinct words holds each word of the tally once and no other
/// word, so that it is as long as the tally has entries.
pub proof fn lemma_first_seen_lists_tally(ws: Seq<Seq<char>>)
    ensures
        lists(first_seen(ws), tally(ws)),
        tally(ws).dom().finite(),
        first_seen(ws).len() == tally(ws).len(),
    decreases ws.len(),
{
    let list = first_seen(ws);
    if ws.len() > 0 {
        let shorter = ws.drop_last();
        let last = ws.last();
        let before = first_seen(shorter);
        lemma_first_seen_lists_tally(shorter);
        assert forall|w: Seq<char>| list.contains(w) <==> tally(ws).contains_key(w) by {
            if before.contains(w) {
                let i = choose|i: int| 0 <= i < before.len() && before[i] == w;
                assert(list[i] == w);
            }
            if list.contains(w) && w != last {
                let i = choose|i: int| 0 <= i < list.len() && list[i] == w;
                assert(before[i] == w);
            }
            if w == last && !before.contains(last) {
                assert(list[list.len() - 1] == w);
            }
        }
        assert forall|i: int, j: int|
            0 <= i < list.len() && 0 <= j < list.len() && i != j implies list[i] != list[j] by {
            if occurrences(shorter, last) == 0 {
                if i < before.len() && list[i] == last {
                    assert(before.contains(last));
                }
                if j < before.len() && list[j] == last {
                    assert(before.contains(last));
                }
            }
        }
    }
    lemma_lists_len(list, tally(ws));
}

/// The sum of the numbers that `m` holds for the words of `list`.
pub open spec fn sum_over(list: Seq<Seq<char>>, m: Map<Seq<char>, usize>) -> nat
    decreases list.len(),
{
    if list.len() == 0 {
        0
    } else {
        sum_over(list.drop_last(), m) + m[list.last()] as nat
    }
}

/// One more occurrence of `w` adds one to the sum over a list that holds
/// `w` once, and nothing to the sum over a list that does not hold it.
pub proof fn lemma_sum_over_bumped(list: Seq<Seq<char>>, m: Map<Seq<char>, usize>, w: Seq<char>)
    requires
        list.no_duplicates(),
        m.contains_key(w) ==> m[w] < usize::MAX,
        list.contains(w) ==> m.contains_key(w),
    ensures
        sum_over(list, bumped(m, w)) == sum_over(list, m) + if list.contains(w) {
            1nat
        } else {
            0nat
        },
    decreases list.len(),
{
    if list.len() > 0 {
        let shorter = list.drop_last();
        let last = list.last();
        assert forall|v: Seq<char>| shorter.contains(v) implies list.contains(v) && v != last by {
            let i = choose|i: int| 0 <= i < shorter.len() && shorter[i] == v;
            assert(list[i] == v);
        }
        lemma_sum_over_bumped(shorter, m, w);
        if list.contains(w) && w != last {
            let i = choose|i: int| 0 <= i < list.len() && list[i] == w;
            assert(shorter[i] == w);
        }
        if w == last {
            assert(list[list.len() - 1] == w);
        }
    }
}

/// The numbers of the tally of `ws`, summed over its distinct words, give
/// the number of words in `ws`.
pub proof fn lemma_sum_over_tally(ws: Seq<Seq<char>>)
    requires
        ws.len() <= usize::MAX,
    ensures
        sum_over(first_seen(ws), tally(ws)) == ws.len(),
    decreases ws.len(),
{
    if ws.len() > 0 {
        let shorter = ws.drop_last();
        let last = ws.last();
        assert(shorter.push(last) =~= ws);
        lemma_sum_over_tally(shorter);
        lemma_first_seen_lists_tally(shorter);
        lemma_occurrences_bound(shorter, last);
        lemma_tally_push(shorter, last);
        lemma_sum_over_bumped(first_seen(shorter), tally(shorter), last);
        if !tally(shorter).contains_key(last) {
            assert(first_seen(ws).drop_last() =~= first_seen(shorter));
        }
    }
}

/// The numbers that [`crate::separately::count_separately`] gives for a text
/// add up to the number of words that [`crate::count::count`] gives for it.
pub proof fn lemma_occurrences_sum_to_words(s: Seq<char>)
    requires
        s.len() <= usize::MAX,
    ensures
        sum_over(first_seen(segments(s)), tally(segments(s))) == totals(s).words,
{
    lemma_scan_bounds(s);
    lemma_sum_over_tally(segments(s));
}

} // verus!
