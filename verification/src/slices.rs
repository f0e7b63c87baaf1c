//! Parts of a string between two characters, found by their byte offsets.
//!
//! A walk over the characters of a string counts the bytes that it has
//! passed. Where it stops, the string can be cut without another walk.

use vstd::prelude::*;
use vstd::string::StringSliceAdditionalSpecFns;
use vstd::utf8::{
    encode_scalar, encode_utf8, encode_utf8_decode_utf8, encode_utf8_first_scalar,
    encode_utf8_valid_utf8, is_char_boundary, pop_first_scalar,
};

verus! {

/// The number of bytes that encode the first `count` characters of `text`.
pub open spec fn offset_of(text: Seq<char>, count: int) -> int {
    encode_utf8(text.take(count)).len() as int
}

/// The encoding of a text in two parts is the encoding of the first part
/// followed by that of the second.
pub proof fn lemma_encode_utf8_concat(first: Seq<char>, second: Seq<char>)
    ensures
        encode_utf8(first + second) == encode_utf8(first) + encode_utf8(second),
    decreases first.len(),
{
    if first.len() == 0 {
        assert(first + second =~= second);
        assert(encode_utf8(first) + encode_utf8(second) =~= encode_utf8(second));
    } else {
        lemma_encode_utf8_concat(first.drop_first(), second);
        assert((first + second).drop_first() =~= first.drop_first() + second);
        assert(encode_utf8(first + second) =~= encode_utf8(first) + encode_utf8(second));
    }
}

/// The encoding of a text of one character is the encoding of that
/// character.
pub proof fn lemma_encode_utf8_one(c: char)
    ensures
        encode_utf8(seq![c]) == encode_scalar(c as u32),
{
    let one = seq![c];
    assert(one.drop_first() =~= Seq::<char>::empty());
    assert(encode_utf8(one.drop_first()) =~= Seq::<u8>::empty());
    assert(encode_utf8(one) =~= encode_scalar(one[0] as u32) + encode_utf8(one.drop_first()));
    assert(encode_utf8(one) =~= encode_scalar(c as u32));
}

/// Texts with the same encoding are the same.
pub proof fn lemma_encode_utf8_is_injective(first: Seq<char>, second: Seq<char>)
    requires
        encode_utf8(first) == encode_utf8(second),
    ensures
        first == second,
{
    encode_utf8_decode_utf8(first);
    encode_utf8_decode_utf8(second);
}

/// The bytes of a text up to an offset encode the characters before it, the
/// bytes from the offset on the characters behind it.
pub proof fn lemma_offset_splits(text: Seq<char>, count: int)
    requires
        0 <= count <= text.len(),
    ensures
        0 <= offset_of(text, count) <= encode_utf8(text).len(),
        encode_utf8(text).subrange(0, offset_of(text, count)) == encode_utf8(text.take(count)),
        encode_utf8(text).subrange(offset_of(text, count), encode_utf8(text).len() as int)
            == encode_utf8(text.skip(count)),
{
    lemma_encode_utf8_concat(text.take(count), text.skip(count));
    assert(text.take(count) + text.skip(count) =~= text);
    let head = encode_utf8(text.take(count));
    let tail = encode_utf8(text.skip(count));
    assert((head + tail).subrange(0, head.len() as int) =~= head);
    assert((head + tail).subrange(head.len() as int, (head + tail).len() as int) =~= tail);
}

/// One character further on, the offset has grown by the length of that
/// character's encoding.
pub proof fn lemma_offset_step(text: Seq<char>, count: int)
    requires
        0 <= count < text.len(),
    ensures
        offset_of(text, count + 1) == offset_of(text, count) + encode_scalar(
            text[count] as u32,
        ).len(),
        offset_of(text, count + 1) <= encode_utf8(text).len(),
{
    let one = seq![text[count]];
    assert(text.take(count + 1) =~= text.take(count) + one);
    lemma_encode_utf8_concat(text.take(count), one);
    lemma_encode_utf8_one(text[count]);
    lemma_offset_splits(text, count + 1);
}

/// The offset of the start is zero, that of the end the length of the
/// encoding.
pub proof fn lemma_offset_ends(text: Seq<char>)
    ensures
        offset_of(text, 0) == 0,
        offset_of(text, text.len() as int) == encode_utf8(text).len(),
{
    assert(text.take(0) =~= Seq::<char>::empty());
    assert(text.take(text.len() as int) =~= text);
}

/// An offset is a character boundary.
pub proof fn lemma_offset_is_boundary(text: Seq<char>, count: int)
    requires
        0 <= count <= text.len(),
    ensures
        is_char_boundary(encode_utf8(text), offset_of(text, count)),
    decreases count,
{
    let bytes = encode_utf8(text);
    encode_utf8_valid_utf8(text);
    if count == 0 {
        lemma_offset_ends(text);
    } else {
        let rest = text.drop_first();
        encode_utf8_first_scalar(text);
        assert(pop_first_scalar(bytes) =~= encode_utf8(rest));
        lemma_offset_is_boundary(rest, count - 1);
        let one = seq![text[0]];
        assert(text.take(count) =~= one + rest.take(count - 1));
        lemma_encode_utf8_concat(one, rest.take(count - 1));
        lemma_encode_utf8_one(text[0]);
        lemma_offset_splits(text, count);
    }
}

/// The number of bytes that encode `c`.
pub fn char_len(c: char) -> (len: usize)
    ensures
        len == encode_scalar(c as u32).len(),
        1 <= len <= 4,
{
    let scalar = c as u32;
    if scalar < 0x80 {
        1
    } else if scalar < 0x800 {
        2
    } else if scalar < 0x10000 {
        3
    } else {
        4
    }
}

/// The part of `text` from the character `from` up to the character `to`,
/// which stand `start` and `end` bytes into it.
pub(crate) fn slice<'a>(
    text: &'a str,
    start: usize,
    end: usize,
    Ghost(from): Ghost<int>,
    Ghost(to): Ghost<int>,
) -> (part: &'a str)
    requires
        0 <= from <= to <= text@.len(),
        start == offset_of(text@, from),
        end == offset_of(text@, to),
    ensures
        part@ == text@.subrange(from, to),
{
    proof {
        lemma_offset_is_boundary(text@, to);
        lemma_offset_splits(text@, to);
    }
    let (head, _) = text.split_at(end);
    proof {
        lemma_encode_utf8_is_injective(head@, text@.take(to));
        assert(head@.take(from) =~= text@.take(from));
        lemma_offset_is_boundary(head@, from);
        lemma_offset_splits(head@, from);
    }
    let (_, part) = head.split_at(start);
    proof {
        lemma_encode_utf8_is_injective(part@, head@.skip(from));
        assert(text@.take(to).skip(from) =~= text@.subrange(from, to));
    }
    part
}

} // verus!
