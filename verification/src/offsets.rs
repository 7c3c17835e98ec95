//! Byte offsets into a text, and the slices between them.

use vstd::prelude::*;
use vstd::string::*;
use vstd::utf8::*;

verus! {

/// The number of bytes that `c` takes in UTF-8.
pub open spec fn utf8_width(c: char) -> nat {
    if (c as u32) < 0x80 {
        1
    } else if (c as u32) < 0x800 {
        2
    } else if (c as u32) < 0x10000 {
        3
    } else {
        4
    }
}

/// `char::len_utf8` is not proved here. It is taken to give the width of the
/// character's UTF-8 encoding: one byte below U+0080, two below U+0800, three
/// below U+10000, four from there on.
pub assume_specification[ char::len_utf8 ](c: char) -> (width: usize)
    ensures
        width == utf8_width(c),
;

/// The byte offset of the character at index `k` of `s`: the number of bytes
/// that the characters before it take.
pub open spec fn offset_of(s: Seq<char>, k: int) -> int {
    encode_utf8(s.take(k)).len() as int
}

/// The encoding of `a + b` is that of `a` and then that of `b`.
pub proof fn lemma_encode_concat(a: Seq<char>, b: Seq<char>)
    ensures
        encode_utf8(a + b) == encode_utf8(a) + encode_utf8(b),
    decreases a.len(),
{
    if a.len() == 0 {
        assert(a + b =~= b);
        assert(encode_utf8(a) + encode_utf8(b) =~= encode_utf8(b));
    } else {
        assert((a + b).drop_first() =~= a.drop_first() + b);
        lemma_encode_concat(a.drop_first(), b);
        assert(encode_utf8(a + b) =~= encode_utf8(a) + encode_utf8(b));
    }
}

/// A single character is encoded in as many bytes as its width says.
pub proof fn lemma_encode_one(c: char)
    ensures
        encode_utf8(seq![c]).len() == utf8_width(c),
{
    let one = seq![c];
    assert(one.drop_first() =~= Seq::<char>::empty());
    assert(encode_utf8(one.drop_first()).len() == 0);
    assert(one[0] == c);
}

/// A text has no more characters than bytes.
pub proof fn lemma_encode_len(a: Seq<char>)
    ensures
        a.len() <= encode_utf8(a).len(),
    decreases a.len(),
{
    if a.len() > 0 {
        lemma_encode_len(a.drop_first());
    }
}

/// The offsets start at 0, end at the number of bytes, and go up by the
/// width of each character.
pub proof fn lemma_offsets(s: Seq<char>, k: int)
    requires
        0 <= k <= s.len(),
    ensures
        offset_of(s, 0) == 0,
        offset_of(s, s.len() as int) == encode_utf8(s).len(),
        k <= offset_of(s, k) <= encode_utf8(s).len(),
        k < s.len() ==> offset_of(s, k + 1) == offset_of(s, k) + utf8_width(s[k]),
{
    assert(s.take(0) =~= Seq::<char>::empty());
    assert(s.take(s.len() as int) =~= s);
    lemma_encode_len(s.take(k));
    assert(s.take(k) + s.skip(k) =~= s);
    lemma_encode_concat(s.take(k), s.skip(k));
    if k < s.len() {
        assert(s.take(k + 1) =~= s.take(k) + seq![s[k]]);
        lemma_encode_concat(s.take(k), seq![s[k]]);
        lemma_encode_one(s[k]);
    }
}

/// Where `a` ends within the encoding of `a + b`, a character begins or the
/// text ends.
pub proof fn lemma_boundary(a: Seq<char>, b: Seq<char>)
    ensures
        is_char_boundary(encode_utf8(a + b), encode_utf8(a).len() as int),
    decreases a.len(),
{
    let bytes = encode_utf8(a + b);
    encode_utf8_valid_utf8(a + b);
    if a.len() > 0 {
        let rest = a.drop_first();
        lemma_encode_concat(a, b);
        lemma_encode_len(a);
        encode_utf8_first_scalar(a + b);
        assert((a + b).drop_first() =~= rest + b);
        assert(pop_first_scalar(bytes) =~= encode_utf8(rest + b));
        lemma_boundary(rest, b);
    }
}

/// Two texts with the same encoding are the same text.
pub proof fn lemma_encode_injective(a: Seq<char>, b: Seq<char>)
    requires
        encode_utf8(a) == encode_utf8(b),
    ensures
        a == b,
{
    encode_utf8_decode_utf8(a);
    encode_utf8_decode_utf8(b);
}

/// The number of bytes of `s`, which is at least the number of its
/// characters.
pub fn byte_len(s: &str) -> (size: usize)
    ensures
        size == encode_utf8(s@).len(),
        s@.len() <= size,
{
    broadcast use vstd::slice::group_slice_axioms;

    proof {
        lemma_encode_len(s@);
    }
    s.as_bytes().len()
}

/// The part of `s` from the byte offset `from` up to the byte offset `to`,
/// which are the offsets of the characters at `i` and at `j`. It shares the
/// bytes of `s`.
pub(crate) fn slice<'a>(
    s: &'a str,
    from: usize,
    to: usize,
    Ghost(i): Ghost<int>,
    Ghost(j): Ghost<int>,
) -> (part: &'a str)
    requires
        0 <= i <= j <= s@.len(),
        from == offset_of(s@, i),
        to == offset_of(s@, j),
    ensures
        part@ == s@.subrange(i, j),
{
    proof {
        assert(s@.take(j) + s@.skip(j) =~= s@);
        lemma_boundary(s@.take(j), s@.skip(j));
        lemma_encode_concat(s@.take(j), s@.skip(j));
    }
    let (head, _) = s.split_at(to);
    proof {
        assert(head.spec_bytes() =~= encode_utf8(s@.take(j)));
        lemma_encode_injective(head@, s@.take(j));
        assert(s@.take(i) + s@.subrange(i, j) =~= s@.take(j));
        lemma_boundary(s@.take(i), s@.subrange(i, j));
        lemma_encode_concat(s@.take(i), s@.subrange(i, j));
    }
    let (_, part) = head.split_at(from);
    proof {
        assert(part.spec_bytes() =~= encode_utf8(s@.subrange(i, j)));
        lemma_encode_injective(part@, s@.subrange(i, j));
    }
    part
}

} // verus!
