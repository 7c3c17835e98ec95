//! The scanner: where words begin and end.

use vstd::prelude::*;
use crate::chars::{kind_of, CharKind};
use crate::totals::Totals;

verus! {

/// The scanner's state between two characters.
pub struct Scan {
    /// The words that have ended, from left to right.
    pub closed: Seq<Seq<char>>,
    /// Whether a word is open.
    pub in_word: bool,
    /// The open word so far; empty when none is open.
    pub pending: Seq<char>,
    /// How many dashes stand directly before this point.
    pub dashes: nat,
}

/// The state before the first character.
pub open spec fn start() -> Scan {
    Scan { closed: Seq::empty(), in_word: false, pending: Seq::empty(), dashes: 0 }
}

/// The words of `st` once its open word, if any, has ended.
pub open spec fn close(st: Scan) -> Seq<Seq<char>> {
    if st.in_word {
        st.closed.push(st.pending)
    } else {
        st.closed
    }
}

/// The state after `c` is read in state `st`.
///
/// Whitespace ends the open word. A CJK character ends it too and is then a
/// word itself. The first dash of a run is part of a word like any plain
/// character. The second dash ends the open word, which gives that first dash
/// back; from there on the dashes of the run belong to no word.
pub open spec fn step(st: Scan, c: char) -> Scan {
    match kind_of(c) {
        CharKind::Whitespace => Scan {
            closed: close(st),
            in_word: false,
            pending: Seq::empty(),
            dashes: 0,
        },
        CharKind::Dash => if st.dashes >= 1 && st.in_word {
            Scan {
                closed: if st.dashes == 1 {
                    st.closed.push(st.pending.drop_last())
                } else {
                    st.closed
                },
                in_word: false,
                pending: Seq::empty(),
                dashes: st.dashes + 1,
            }
        } else if st.dashes >= 1 {
            Scan { closed: st.closed, in_word: false, pending: Seq::empty(), dashes: st.dashes + 1 }
        } else {
            Scan { closed: st.closed, in_word: true, pending: st.pending.push(c), dashes: 1 }
        },
        CharKind::Cjk => Scan {
            closed: close(st).push(seq![c]),
            in_word: false,
            pending: Seq::empty(),
            dashes: 0,
        },
        CharKind::Plain => Scan {
            closed: st.closed,
            in_word: true,
            pending: st.pending.push(c),
            dashes: 0,
        },
    }
}

/// The state after the whole of `s` is read.
pub open spec fn scan(s: Seq<char>) -> Scan
    decreases s.len(),
{
    if s.len() == 0 {
        start()
    } else {
        step(scan(s.drop_last()), s.last())
    }
}

/// The words of `s`, from left to right.
pub open spec fn segments(s: Seq<char>) -> Seq<Seq<char>> {
    close(scan(s))
}

/// How many characters of `s` are of kind `k`.
pub open spec fn kind_count(s: Seq<char>, k: CharKind) -> nat
    decreases s.len(),
{
    if s.len() == 0 {
        0
    } else {
        kind_count(s.drop_last(), k) + if kind_of(s.last()) == k {
            1nat
        } else {
            0nat
        }
    }
}

/// The totals of `s`.
pub open spec fn totals(s: Seq<char>) -> Totals {
    Totals {
        words: segments(s).len(),
        characters: s.len(),
        whitespaces: kind_count(s, CharKind::Whitespace),
        cjk: kind_count(s, CharKind::Cjk),
    }
}

/// What holds of the state after any text: `pending` is empty where no word
/// is open and not where one is; and where a word is open with a dash
/// directly before, that dash is the word's last character and the only one
/// of its run.
pub open spec fn coherent(st: Scan) -> bool {
    &&& !st.in_word ==> st.pending.len() == 0
    &&& st.in_word ==> st.pending.len() >= 1
    &&& st.in_word && st.dashes >= 1 ==> st.dashes == 1 && st.pending.last() == '-'
}

/// The scanner's state is coherent after any text, it never holds more words
/// than characters were read, and it holds at least one word for each CJK
/// character.
pub proof fn lemma_scan_bounds(s: Seq<char>)
    ensures
        coherent(scan(s)),
        close(scan(s)).len() <= s.len(),
        scan(s).dashes <= s.len(),
        kind_count(s, CharKind::Cjk) <= scan(s).closed.len(),
        kind_count(s, CharKind::Whitespace) <= s.len(),
    decreases s.len(),
{
    if s.len() > 0 {
        lemma_scan_bounds(s.drop_last());
    }
}

/// Of the totals of any text: no more CJK characters than words, no more
/// words than characters, no more whitespace than characters.
pub proof fn lemma_totals_ordered(s: Seq<char>)
    ensures
        totals(s).cjk <= totals(s).words <= totals(s).characters,
        totals(s).whitespaces <= totals(s).characters,
{
    lemma_scan_bounds(s);
}

} // verus!
