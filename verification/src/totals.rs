//! The four totals of a text, and their sum.

use vstd::prelude::*;

verus! {

/// The totals of a text as mathematical numbers.
pub struct Totals {
    pub words: nat,
    pub characters: nat,
    pub whitespaces: nat,
    pub cjk: nat,
}

impl Totals {
    /// The totals of the empty text.
    pub open spec fn zero() -> Totals {
        Totals { words: 0, characters: 0, whitespaces: 0, cjk: 0 }
    }

    /// The totals of a single line feed.
    pub open spec fn newline() -> Totals {
        Totals { words: 0, characters: 1, whitespaces: 1, cjk: 0 }
    }

    /// The field-wise sum.
    pub open spec fn plus(self, other: Totals) -> Totals {
        Totals {
            words: self.words + other.words,
            characters: self.characters + other.characters,
            whitespaces: self.whitespaces + other.whitespaces,
            cjk: self.cjk + other.cjk,
        }
    }

    /// Whether every field fits a `usize`.
    pub open spec fn fits(self) -> bool {
        &&& self.words <= usize::MAX
        &&& self.characters <= usize::MAX
        &&& self.whitespaces <= usize::MAX
        &&& self.cjk <= usize::MAX
    }
}

/// The totals of a text.
#[derive(Debug, Clone, Copy, PartialEq, Eq, Structural)]
pub struct WordsCount {
    /// Words, each CJK character counted as one.
    pub words: usize,
    /// Characters, whitespace included.
    pub characters: usize,
    /// Whitespace characters.
    pub whitespaces: usize,
    /// CJK characters.
    pub cjk: usize,
}

impl View for WordsCount {
    type V = Totals;

    open spec fn view(&self) -> Totals {
        Totals {
            words: self.words as nat,
            characters: self.characters as nat,
            whitespaces: self.whitespaces as nat,
            cjk: self.cjk as nat,
        }
    }
}

impl WordsCount {
    /// The totals of `"\n"`. A caller that counts a file line by line, the
    /// line ends taken off, adds it once for each line.
    pub fn newline() -> (line_end: WordsCount)
        ensures
            line_end@ == Totals::newline(),
    {
        WordsCount { words: 0, characters: 1, whitespaces: 1, cjk: 0 }
    }
}

impl Default for WordsCount {
    fn default() -> (zero: WordsCount)
        ensures
            zero@ == Totals::zero(),
    {
        WordsCount { words: 0, characters: 0, whitespaces: 0, cjk: 0 }
    }
}

impl core::ops::Add for WordsCount {
    type Output = WordsCount;

    /// The field-wise sum of two totals.
    fn add(self, other: WordsCount) -> (sum: WordsCount) {
        WordsCount {
            words: self.words + other.words,
            characters: self.characters + other.characters,
            whitespaces: self.whitespaces + other.whitespaces,
            cjk: self.cjk + other.cjk,
        }
    }
}

impl vstd::std_specs::ops::AddSpecImpl for WordsCount {
    open spec fn obeys_add_spec() -> bool {
        true
    }

    open spec fn add_req(self, other: WordsCount) -> bool {
        self@.plus(other@).fits()
    }

    open spec fn add_spec(self, other: WordsCount) -> WordsCount {
        WordsCount {
            words: (self.words + other.words) as usize,
            characters: (self.characters + other.characters) as usize,
            whitespaces: (self.whitespaces + other.whitespaces) as usize,
            cjk: (self.cjk + other.cjk) as usize,
        }
    }
}

impl core::ops::AddAssign for WordsCount {
    /// Adds `other` to `self`, field by field.
    fn add_assign(&mut self, other: WordsCount)
        requires
            old(self)@.plus(other@).fits(),
        ensures
            final(self)@ == old(self)@.plus(other@),
    {
        self.words = self.words + other.words;
        self.characters = self.characters + other.characters;
        self.whitespaces = self.whitespaces + other.whitespaces;
        self.cjk = self.cjk + other.cjk;
    }
}

} // verus!
