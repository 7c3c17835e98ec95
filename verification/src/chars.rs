//! The four kinds of character that the scanner tells apart.

use vstd::prelude::*;

verus! {

/// Whether `c` has the Unicode property White_Space, as `char::is_whitespace`
/// of the standard library decides it.
pub uninterp spec fn unicode_whitespace(c: char) -> bool;

/// Whether `c` lies in one of the blocks that `unicode_blocks::is_cjk` takes
/// for Chinese, Japanese or Korean script.
pub uninterp spec fn cjk_block_member(c: char) -> bool;

/// Whitespace in contracts: White_Space, of which the line feed is known to
/// be a member.
pub open spec fn is_space(c: char) -> bool {
    c == '\n' || unicode_whitespace(c)
}

/// `char::is_whitespace` is not proved here. It is taken to be a fixed
/// property of the character, and to hold of the line feed.
pub assume_specification[ char::is_whitespace ](c: char) -> (b: bool)
    ensures
        b == (c == '\n' || unicode_whitespace(c)),
;

/// `unicode_blocks::is_cjk` is not proved here. It walks a constant table of
/// blocks, so its answer is taken to be a fixed property of the character.
pub assume_specification[ unicode_blocks::is_cjk ](c: char) -> (b: bool)
    ensures
        b == cjk_block_member(c),
;

/// What a character means to the scanner. The kinds are tested in this
/// order, so a whitespace character of a CJK block is whitespace.
#[derive(Clone, Copy, Debug, PartialEq, Eq, Structural)]
pub enum CharKind {
    /// Separates words and belongs to none.
    Whitespace,
    /// The character `-`.
    Dash,
    /// A word of its own.
    Cjk,
    /// Any other character: part of a word.
    Plain,
}

/// The kind of `c`.
pub open spec fn kind_of(c: char) -> CharKind {
    if is_space(c) {
        CharKind::Whitespace
    } else if c == '-' {
        CharKind::Dash
    } else if cjk_block_member(c) {
        CharKind::Cjk
    } else {
        CharKind::Plain
    }
}

/// Computes the kind of `c`.
pub fn classify(c: char) -> (kind: CharKind)
    ensures
        kind == kind_of(c),
{
    if c.is_whitespace() {
        CharKind::Whitespace
    } else if c == '-' {
        CharKind::Dash
    } else if unicode_blocks::is_cjk(c) {
        CharKind::Cjk
    } else {
        CharKind::Plain
    }
}

} // verus!
