//! Words and how often each of them occurs.

use vstd::prelude::*;
use vstd::string::*;
use vstd::hash_map::StringHashMap;

verus! {

/// How often `w` occurs in `ws`.
pub open spec fn occurrences(ws: Seq<Seq<char>>, w: Seq<char>) -> nat
    decreases ws.len(),
{
    if ws.len() == 0 {
        0
    } else {
        occurrences(ws.drop_last(), w) + if ws.last() == w {
            1nat
        } else {
            0nat
        }
    }
}

/// The map that holds each word of `ws` with the number of times it occurs
/// there, and nothing else.
pub open spec fn tally(ws: Seq<Seq<char>>) -> Map<Seq<char>, usize> {
    Map::new(|w: Seq<char>| occurrences(ws, w) > 0, |w: Seq<char>| occurrences(ws, w) as usize)
}

/// `m` with one more occurrence of `w`.
pub open spec fn bumped(m: Map<Seq<char>, usize>, w: Seq<char>) -> Map<Seq<char>, usize> {
    m.insert(
        w,
        if m.contains_key(w) {
            (m[w] + 1) as usize
        } else {
            1usize
        },
    )
}

/// No word occurs more often than there are words.
pub proof fn lemma_occurrences_bound(ws: Seq<Seq<char>>, w: Seq<char>)
    ensures
        occurrences(ws, w) <= ws.len(),
    decreases ws.len(),
{
    if ws.len() > 0 {
        lemma_occurrences_bound(ws.drop_last(), w);
    }
}

/// The distinct words of `ws`, in the order in which each first occurs.
pub open spec fn first_seen(ws: Seq<Seq<char>>) -> Seq<Seq<char>>
    decreases ws.len(),
{
    if ws.len() == 0 {
        Seq::empty()
    } else if occurrences(ws.drop_last(), ws.last()) > 0 {
        first_seen(ws.drop_last())
    } else {
        first_seen(ws.drop_last()).push(ws.last())
    }
}

/// `order` with `w` at its end, unless `m` holds `w` already.
pub open spec fn listed(order: Seq<Seq<char>>, m: Map<Seq<char>, usize>, w: Seq<char>) -> Seq<
    Seq<char>,
> {
    if m.contains_key(w) {
        order
    } else {
        order.push(w)
    }
}

/// To count one more occurrence of `w` in the tally of `ws` gives the tally
/// of `ws` with `w` at its end, and likewise for the list of distinct words.
pub proof fn lemma_tally_push(ws: Seq<Seq<char>>, w: Seq<char>)
    requires
        ws.len() < usize::MAX,
    ensures
        bumped(tally(ws), w) == tally(ws.push(w)),
        listed(first_seen(ws), tally(ws), w) == first_seen(ws.push(w)),
{
    let longer = ws.push(w);
    assert(longer.drop_last() =~= ws);
    lemma_occurrences_bound(ws, w);
    assert forall|v: Seq<char>| occurrences(longer, v) == occurrences(ws, v) + if w == v {
        1nat
    } else {
        0nat
    } by {}
    assert(bumped(tally(ws), w) =~= tally(longer));
}

/// Whether `order` holds each word of `m` once, and no other word.
pub open spec fn lists(order: Seq<Seq<char>>, m: Map<Seq<char>, usize>) -> bool {
    &&& order.no_duplicates()
    &&& forall|w: Seq<char>| order.contains(w) <==> m.contains_key(w)
}

/// A list that holds each word of a map once is as long as the map has
/// entries.
pub proof fn lemma_lists_len(order: Seq<Seq<char>>, m: Map<Seq<char>, usize>)
    requires
        lists(order, m),
    ensures
        m.dom().finite(),
        order.len() == m.len(),
{
    assert(order.to_set() =~= m.dom());
    order.unique_seq_to_set();
}

/// One more occurrence of a word keeps the list in step with the map.
pub proof fn lemma_lists_listed(order: Seq<Seq<char>>, m: Map<Seq<char>, usize>, w: Seq<char>)
    requires
        lists(order, m),
    ensures
        lists(listed(order, m, w), bumped(m, w)),
{
    let longer = listed(order, m, w);
    if !m.contains_key(w) {
        assert forall|v: Seq<char>| longer.contains(v) <==> bumped(m, w).contains_key(v) by {
            if order.contains(v) {
                let i = choose|i: int| 0 <= i < order.len() && order[i] == v;
                assert(longer[i] == v);
            }
            if longer.contains(v) && v != w {
                let i = choose|i: int| 0 <= i < longer.len() && longer[i] == v;
                assert(order[i] == v);
            }
            if v == w {
                assert(longer[longer.len() - 1] == v);
            }
        }
        assert forall|i: int, j: int|
            0 <= i < longer.len() && 0 <= j < longer.len() && i != j implies longer[i]
            != longer[j] by {
            if i < order.len() && longer[i] == w {
                assert(order.contains(w));
            }
            if j < order.len() && longer[j] == w {
                assert(order.contains(w));
            }
        }
    }
}

/// The words of a text: each distinct word with the number of times it
/// occurs, and the distinct words in the order in which they first occur.
pub struct WordOccurrences {
    words: Vec<String>,
    numbers: StringHashMap<usize>,
}

impl View for WordOccurrences {
    type V = Map<Seq<char>, usize>;

    /// Each word with the number of times it occurs.
    closed spec fn view(&self) -> Map<Seq<char>, usize> {
        self.numbers@
    }
}

impl WordOccurrences {
    /// The distinct words, in the order in which they first occurred.
    pub closed spec fn order(&self) -> Seq<Seq<char>> {
        self.words@.map_values(|w: String| w@)
    }

    /// Whether the order holds each word of the map once and no other word.
    /// It does for every value that this library makes.
    pub open spec fn wf(&self) -> bool {
        lists(self.order(), self@)
    }

    /// No words.
    pub fn new() -> (empty: WordOccurrences)
        ensures
            empty.wf(),
            empty@ == Map::<Seq<char>, usize>::empty(),
            empty.order() == Seq::<Seq<char>>::empty(),
    {
        let empty = WordOccurrences { words: Vec::new(), numbers: StringHashMap::new() };
        proof {
            assert(empty.order() =~= Seq::<Seq<char>>::empty());
        }
        empty
    }

    /// The number of distinct words.
    pub fn len(&self) -> (n: usize)
        ensures
            n == self.order().len(),
            self.wf() ==> n == self@.len(),
    {
        proof {
            if self.wf() {
                lemma_lists_len(self.order(), self@);
            }
        }
        self.words.len()
    }

    /// Whether there is no word.
    pub fn is_empty(&self) -> (none: bool)
        ensures
            none == (self.order().len() == 0),
            self.wf() ==> none == (self@.len() == 0),
    {
        proof {
            if self.wf() {
                lemma_lists_len(self.order(), self@);
            }
        }
        self.words.len() == 0
    }

    /// The number of times `word` occurs, if it does.
    pub fn get<'a>(&'a self, word: &str) -> (number: Option<&'a usize>)
        ensures
            match number {
                Some(n) => self@.contains_key(word@) && *n == self@[word@],
                None => !self@.contains_key(word@),
            },
    {
        self.numbers.get(word)
    }

    /// The `i`-th distinct word, counted from 0 in the order of first
    /// occurrence.
    pub fn word(&self, i: usize) -> (w: &str)
        requires
            i < self.order().len(),
        ensures
            w@ == self.order()[i as int],
    {
        self.words[i].as_str()
    }
}

/// Counts one more occurrence of the word `s` in `map`: its number goes up
/// by one, or it enters the map with the number 1, last in the order.
pub fn inc_or_insert(map: &mut WordOccurrences, s: &str)
    requires
        old(map).wf(),
        old(map)@.contains_key(s@) ==> old(map)@[s@] < usize::MAX,
    ensures
        final(map).wf(),
        final(map)@ == bumped(old(map)@, s@),
        final(map).order() == listed(old(map).order(), old(map)@, s@),
{
    proof {
        lemma_lists_listed(map.order(), map@, s@);
    }
    let seen: Option<usize> = match map.numbers.get(s) {
        Some(times) => Some(*times),
        None => None,
    };
    match seen {
        Some(times) => {
            map.numbers.insert(s.to_owned(), times + 1);
        },
        None => {
            map.numbers.insert(s.to_owned(), 1);
            map.words.push(s.to_owned());
            proof {
                assert(map.order() =~= old(map).order().push(s@));
            }
        },
    }
}

} // verus!
