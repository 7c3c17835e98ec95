//! Counting words, characters, whitespace and CJK characters in text.
//!
//! A word is a run of characters between whitespace. Two or more dashes in a
//! row end a word as well, while a single dash joins. Every CJK character is
//! a word of its own.
//!
//! [`count`] gives the four totals of a text, [`count_separately`] the number
//! of times each distinct word occurs. Both run one [`cursor::Cursor`] over
//! the text and are specified against one scanner, [`scan::scan`], a fold of
//! [`scan::step`] over the characters. [`laws`] holds what follows for every
//! text.
//!
//! Three functions are called without proof: `char::is_whitespace` and
//! `char::len_utf8` of the standard library, and `unicode_blocks::is_cjk`.
//! What is taken of them stands in [`chars`] and [`offsets`].

pub mod chars;
pub mod offsets;
pub mod cursor;
pub mod scan;
pub mod totals;
pub mod count;
pub mod tally;
pub mod separately;
pub mod laws;

pub use crate::chars::CharKind;
pub use crate::count::count;
pub use crate::cursor::{Cursor, Ended, Span};
pub use crate::separately::count_separately;
pub use crate::tally::{inc_or_insert, WordOccurrences};
pub use crate::totals::WordsCount;
