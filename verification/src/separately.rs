//! How often each word of a text occurs.

use vstd::prelude::*;
use vstd::string::*;
use vstd::std_specs::iter::IteratorSpec;
use crate::chars::{classify, CharKind};
use crate::cursor::Cursor;
use crate::offsets::{byte_len, lemma_offsets, offset_of, slice};
use crate::scan::{lemma_scan_bounds, scan, segments};
use crate::tally::{
    first_seen, inc_or_insert, lemma_occurrences_bound, lemma_tally_push, tally, WordOccurrences,
};

verus! {

/// Counts in `map` the word of `s` between the byte offsets `from` and `to`,
/// at which the characters `i` and `j` stand.
fn record(
    map: &mut WordOccurrences,
    s: &str,
    from: usize,
    to: usize,
    Ghost(i): Ghost<int>,
    Ghost(j): Ghost<int>,
    Ghost(ws): Ghost<Seq<Seq<char>>>,
)
    requires
        0 <= i <= j <= s@.len(),
        from == offset_of(s@, i),
        to == offset_of(s@, j),
        old(map).wf(),
        old(map)@ == tally(ws),
        old(map).order() == first_seen(ws),
        ws.len() < usize::MAX,
    ensures
        final(map).wf(),
        final(map)@ == tally(ws.push(s@.subrange(i, j))),
        final(map).order() == first_seen(ws.push(s@.subrange(i, j))),
{
    let word = slice(s, from, to, Ghost(i), Ghost(j));
    proof {
        lemma_occurrences_bound(ws, word@);
        lemma_tally_push(ws, word@);
    }
    inc_or_insert(map, word);
}

/// Counts how often each word of `s` occurs, in one pass over it, the cursor
/// counting in bytes. The words are those that [`crate::count::count`]
/// counts, CJK characters among them; punctuation that touches a word is part
/// of it. The words are cut out of `s` without a copy and copied once they
/// enter the result, which may outlive `s`.
pub fn count_separately(s: &str) -> (words: WordOccurrences)
    ensures
        words.wf(),
        words@ == tally(segments(s@)),
        words.order() == first_seen(segments(s@)),
{
    broadcast use group_string_axioms;

    let size: usize = byte_len(s);
    let mut words = WordOccurrences::new();
    if size == 0 {
        proof {
            assert(s@ =~= Seq::<char>::empty());
            assert(words@ =~= tally(segments(s@)));
        }
        return words;
    }
    let mut cur = Cursor::start();
    let ghost mut start: int = 0;
    let ghost mut i: int = 0;
    let mut it = s.chars();
    proof {
        assert(s@.take(0) =~= Seq::<char>::empty());
        assert(s@.skip(0) =~= s@);
        assert(words@ =~= tally(Seq::empty()));
        lemma_offsets(s@, 0);
    }
    loop
        invariant
            size == vstd::utf8::encode_utf8(s@).len(),
            0 <= i <= s@.len() <= size,
            cur.wf(),
            cur.pos == offset_of(s@, i),
            it.remaining() == s@.skip(i),
            cur.in_word == scan(s@.take(i)).in_word,
            cur.dashes == scan(s@.take(i)).dashes,
            words.wf(),
            words@ == tally(scan(s@.take(i)).closed),
            words.order() == first_seen(scan(s@.take(i)).closed),
            cur.in_word ==> 0 <= start <= i && cur.from == offset_of(s@, start) && scan(
                s@.take(i),
            ).pending == s@.subrange(start, i),
        ensures
            i == s@.len(),
        decreases s@.len() - i,
    {
        let c = match it.next() {
            Some(c) => c,
            None => break,
        };
        let kind = classify(c);
        let width = c.len_utf8();
        let ghost before = scan(s@.take(i));
        let ghost after = scan(s@.take(i + 1));
        let ghost mut closed = before.closed;
        proof {
            assert(s@.take(i + 1).drop_last() =~= s@.take(i));
            assert(s@.take(i + 1).last() == c);
            assert(s@.skip(i).drop_first() =~= s@.skip(i + 1));
            lemma_scan_bounds(s@.take(i));
            lemma_scan_bounds(s@.take(i + 1));
            lemma_offsets(s@, i);
            lemma_offsets(s@, i + 1);
        }
        let ended = cur.advance(kind, width);
        match ended.word {
            Some(span) => {
                let ghost j = if kind == CharKind::Dash {
                    i - 1
                } else {
                    i
                };
                proof {
                    if kind == CharKind::Dash {
                        assert(s@[i - 1] == before.pending.last());
                        lemma_offsets(s@, i - 1);
                        assert(before.pending.drop_last() =~= s@.subrange(start, i - 1));
                    }
                }
                record(&mut words, s, span.from, span.to, Ghost(start), Ghost(j), Ghost(closed));
                proof {
                    closed = closed.push(s@.subrange(start, j));
                }
            },
            None => {},
        }
        match ended.unit {
            Some(span) => {
                proof {
                    assert(s@.subrange(i, i + 1) =~= seq![c]);
                }
                record(&mut words, s, span.from, span.to, Ghost(i), Ghost(i + 1), Ghost(closed));
            },
            None => {},
        }
        proof {
            if cur.in_word {
                if !before.in_word {
                    start = i;
                }
                assert(after.pending =~= s@.subrange(start, i + 1));
            }
            i = i + 1;
        }
    }
    proof {
        assert(s@.take(i) =~= s@);
        lemma_scan_bounds(s@);
    }
    match cur.finish() {
        Some(span) => {
            record(
                &mut words,
                s,
                span.from,
                span.to,
                Ghost(start),
                Ghost(i),
                Ghost(scan(s@).closed),
            );
        },
        None => {},
    }
    words
}

} // verus!
