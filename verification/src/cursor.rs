//! The scanner as it runs: one step for each character, from the kind of the
//! character to the words that end at it.
//!
//! The cursor counts positions in whatever unit its caller hands it the
//! widths in: characters, or bytes.

use vstd::prelude::*;
use crate::chars::CharKind;

verus! {

/// A stretch of the text, from the position `from` up to the position `to`.
#[derive(Clone, Copy, Debug, PartialEq, Eq)]
pub struct Span {
    pub from: usize,
    pub to: usize,
}

/// Where the scanner stands between two characters.
#[derive(Clone, Copy, Debug, PartialEq, Eq)]
pub struct Cursor {
    /// Whether a word is open.
    pub in_word: bool,
    /// How many dashes stand directly before `pos`.
    pub dashes: usize,
    /// Where the open word began; `pos` when none is open.
    pub from: usize,
    /// The position of the next character.
    pub pos: usize,
}

/// What ended at one character: the word that was open, a CJK character, or
/// both, the word first.
#[derive(Clone, Copy, Debug, PartialEq, Eq)]
pub struct Ended {
    pub word: Option<Span>,
    pub unit: Option<Span>,
}

impl Cursor {
    /// What holds of a cursor at every point of a scan: an open word is not
    /// empty; there are no more dashes before `pos` than positions; and a
    /// word is open behind a dash only where that dash is the first of its
    /// run.
    pub open spec fn wf(self) -> bool {
        &&& self.in_word ==> self.from < self.pos
        &&& !self.in_word ==> self.from == self.pos
        &&& self.dashes <= self.pos
        &&& self.in_word && self.dashes >= 1 ==> self.dashes == 1
    }

    /// The open word, if there is one.
    pub open spec fn open_word(self) -> Option<Span> {
        if self.in_word {
            Some(Span { from: self.from, to: self.pos })
        } else {
            None
        }
    }

    /// The cursor behind a character of kind `kind` that takes `width`
    /// positions.
    ///
    /// Whitespace and a CJK character leave no word open. The first dash of a
    /// run opens a word or goes on with the open one, as a plain character
    /// does; every further dash leaves no word open.
    pub open spec fn advanced(self, kind: CharKind, width: usize) -> Cursor {
        let pos = (self.pos + width) as usize;
        let from = if self.in_word {
            self.from
        } else {
            self.pos
        };
        match kind {
            CharKind::Whitespace | CharKind::Cjk => Cursor {
                in_word: false,
                dashes: 0,
                from: pos,
                pos,
            },
            CharKind::Dash => if self.dashes >= 1 {
                Cursor { in_word: false, dashes: (self.dashes + 1) as usize, from: pos, pos }
            } else {
                Cursor { in_word: true, dashes: 1, from, pos }
            },
            CharKind::Plain => Cursor { in_word: true, dashes: 0, from, pos },
        }
    }

    /// What ends at a character of kind `kind` that takes `width` positions.
    ///
    /// Whitespace and a CJK character end the open word, and the CJK
    /// character is a unit itself. The second dash of a run ends the open
    /// word before the first dash, which takes one position. Nothing else
    /// ends a word.
    pub open spec fn ended(self, kind: CharKind, width: usize) -> Ended {
        match kind {
            CharKind::Whitespace => Ended { word: self.open_word(), unit: None },
            CharKind::Cjk => Ended {
                word: self.open_word(),
                unit: Some(Span { from: self.pos, to: (self.pos + width) as usize }),
            },
            CharKind::Dash => Ended {
                word: if self.in_word && self.dashes == 1 {
                    Some(Span { from: self.from, to: (self.pos - 1) as usize })
                } else {
                    None
                },
                unit: None,
            },
            CharKind::Plain => Ended { word: None, unit: None },
        }
    }

    /// The cursor before the first character.
    pub fn start() -> (cur: Cursor)
        ensures
            cur == (Cursor { in_word: false, dashes: 0, from: 0, pos: 0 }),
            cur.wf(),
    {
        Cursor { in_word: false, dashes: 0, from: 0, pos: 0 }
    }

    /// Steps over a character of kind `kind` that takes `width` positions,
    /// and says what ended there.
    pub fn advance(&mut self, kind: CharKind, width: usize) -> (out: Ended)
        requires
            old(self).wf(),
            1 <= width,
            old(self).pos + width <= usize::MAX,
        ensures
            *final(self) == old(self).advanced(kind, width),
            out == old(self).ended(kind, width),
            final(self).wf(),
    {
        let pos: usize = self.pos + width;
        let word = self.finish();
        let out = match kind {
            CharKind::Whitespace => {
                self.in_word = false;
                self.dashes = 0;
                Ended { word, unit: None }
            },
            CharKind::Cjk => {
                self.in_word = false;
                self.dashes = 0;
                Ended { word, unit: Some(Span { from: self.pos, to: pos }) }
            },
            CharKind::Dash => {
                self.dashes = self.dashes + 1;
                if self.dashes == 1 {
                    self.in_word = true;
                    Ended { word: None, unit: None }
                } else if self.in_word {
                    self.in_word = false;
                    Ended { word: Some(Span { from: self.from, to: self.pos - 1 }), unit: None }
                } else {
                    Ended { word: None, unit: None }
                }
            },
            CharKind::Plain => {
                self.in_word = true;
                self.dashes = 0;
                Ended { word: None, unit: None }
            },
        };
        if !self.in_word {
            self.from = pos;
        }
        self.pos = pos;
        out
    }

    /// The word that the end of the text ends: the open one, if there is one.
    pub fn finish(&self) -> (word: Option<Span>)
        ensures
            word == self.open_word(),
    {
        if self.in_word {
            Some(Span { from: self.from, to: self.pos })
        } else {
            None
        }
    }
}

} // verus!
