//! The totals of a text.

use vstd::prelude::*;
use vstd::string::*;
use vstd::std_specs::iter::IteratorSpec;
use crate::chars::{classify, CharKind};
use crate::cursor::Cursor;
use crate::offsets::byte_len;
use crate::scan::{kind_count, lemma_scan_bounds, scan, totals};
use crate::totals::WordsCount;

verus! {

/// Counts the words, characters, whitespace characters and CJK characters of
/// `s` in one pass over it, the cursor counting in characters.
pub fn count(s: &str) -> (total: WordsCount)
    ensures
        total@ == totals(s@),
        total.cjk <= total.words <= total.characters,
        total.whitespaces <= total.characters,
{
    broadcast use group_string_axioms;

    let size: usize = byte_len(s);
    if size == 0 {
        proof {
            assert(s@ =~= Seq::<char>::empty());
        }
        return WordsCount::default();
    }
    let mut cur = Cursor::start();
    let mut words: usize = 0;
    let mut whitespaces: usize = 0;
    let mut cjk: usize = 0;
    let mut it = s.chars();
    proof {
        assert(s@.take(0) =~= Seq::<char>::empty());
        assert(s@.skip(0) =~= s@);
    }
    loop
        invariant
            s@.len() <= size,
            cur.wf(),
            cur.pos <= s@.len(),
            it.remaining() == s@.skip(cur.pos as int),
            cur.in_word == scan(s@.take(cur.pos as int)).in_word,
            cur.dashes == scan(s@.take(cur.pos as int)).dashes,
            words == scan(s@.take(cur.pos as int)).closed.len(),
            whitespaces == kind_count(s@.take(cur.pos as int), CharKind::Whitespace),
            cjk == kind_count(s@.take(cur.pos as int), CharKind::Cjk),
        ensures
            cur.pos == s@.len(),
        decreases s@.len() - cur.pos,
    {
        let c = match it.next() {
            Some(c) => c,
            None => break,
        };
        proof {
            let after = s@.take(cur.pos + 1);
            assert(after.drop_last() =~= s@.take(cur.pos as int));
            assert(after.last() == c);
            assert(s@.skip(cur.pos as int).drop_first() =~= s@.skip(cur.pos + 1));
            lemma_scan_bounds(s@.take(cur.pos as int));
            lemma_scan_bounds(after);
        }
        let kind = classify(c);
        let ended = cur.advance(kind, 1);
        if ended.word.is_some() {
            words += 1;
        }
        if ended.unit.is_some() {
            words += 1;
            cjk += 1;
        }
        match kind {
            CharKind::Whitespace => {
                whitespaces += 1;
            },
            _ => {},
        }
    }
    proof {
        assert(s@.take(cur.pos as int) =~= s@);
        lemma_scan_bounds(s@);
    }
    if cur.finish().is_some() {
        words += 1;
    }
    WordsCount { words, characters: cur.pos, whitespaces, cjk }
}

} // verus!
