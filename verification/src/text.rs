//! Strings as sequences of characters.

use vstd::prelude::*;

verus! {

/// The texts of string slices.
pub open spec fn texts(slices: Seq<&str>) -> Seq<Seq<char>> {
    slices.map_values(|slice: &str| slice@)
}

/// The characters of `s`, in order.
pub fn chars_of(s: &str) -> (chars: Vec<char>)
    ensures
        chars@ == s@,
{
    let mut chars: Vec<char> = Vec::new();
    for c in it: s.chars()
        invariant
            it.seq() == s@,
            chars@ == it.seq().take(it.index()),
    {
        chars.push(c);
    }
    chars
}

/// Whether `chars` begins with the characters of `prefix`.
pub fn starts_with(chars: &Vec<char>, prefix: &str) -> (found: bool)
    ensures
        found == prefix@.is_prefix_of(chars@),
{
    let head = chars_of(prefix);
    if head.len() > chars.len() {
        return false;
    }
    let mut i: usize = 0;
    while i < head.len()
        invariant
            i <= head.len() <= chars.len(),
            head@ == prefix@,
            forall|j: int| 0 <= j < i ==> chars[j] == head[j],
        decreases head.len() - i,
    {
        if chars[i] != head[i] {
            return false;
        }
        i += 1;
    }
    true
}

/// Whether `needle` stands in `hay` from the index `at` on.
pub open spec fn occurs_at(hay: Seq<char>, needle: Seq<char>, at: int) -> bool {
    0 <= at && at + needle.len() <= hay.len() && hay.subrange(at, at + needle.len()) == needle
}

/// Whether `needle` stands somewhere in `hay`. The empty text stands in
/// every text.
pub open spec fn contains_text(hay: Seq<char>, needle: Seq<char>) -> bool {
    exists|at: int| occurs_at(hay, needle, at)
}

/// Whether `needle` stands in `hay` from the index `at` on.
fn found_at(hay: &Vec<char>, needle: &Vec<char>, at: usize) -> (found: bool)
    requires
        at + needle.len() <= hay.len(),
    ensures
        found == occurs_at(hay@, needle@, at as int),
{
    let mut i: usize = 0;
    while i < needle.len()
        invariant
            i <= needle.len(),
            at + needle.len() <= hay.len(),
            forall|j: int| 0 <= j < i ==> hay[at + j] == needle[j],
        decreases needle.len() - i,
    {
        if hay[at + i] != needle[i] {
            assert(hay@.subrange(at as int, at + needle.len())[i as int] == hay[at + i]);
            return false;
        }
        i += 1;
    }
    assert(hay@.subrange(at as int, at + needle.len()) =~= needle@);
    true
}

/// Whether `needle` stands somewhere in `hay`.
pub fn contains(hay: &Vec<char>, needle: &Vec<char>) -> (found: bool)
    ensures
        found == contains_text(hay@, needle@),
{
    if needle.len() > hay.len() {
        return false;
    }
    let last = hay.len() - needle.len();
    let mut at: usize = 0;
    loop
        invariant
            at <= last,
            last == hay.len() - needle.len(),
            forall|k: int| 0 <= k < at ==> !occurs_at(hay@, needle@, k),
        decreases last - at,
    {
        if found_at(hay, needle, at) {
            return true;
        }
        if at == last {
            return false;
        }
        at += 1;
    }
}

/// The lower-case letter of an ASCII upper-case letter; any other character
/// as it is.
pub open spec fn lower_char(c: char) -> char {
    if 'A' <= c <= 'Z' {
        ((c as u8) + 32) as char
    } else {
        c
    }
}

/// `text` with its ASCII upper-case letters in lower case.
pub open spec fn lower_text(text: Seq<char>) -> Seq<char> {
    text.map_values(|c: char| lower_char(c))
}

/// The lower-case letter of an ASCII upper-case letter; any other character
/// as it is.
pub fn to_lower(c: char) -> (lower: char)
    ensures
        lower == lower_char(c),
{
    if 'A' <= c && c <= 'Z' {
        ((c as u8) + 32) as char
    } else {
        c
    }
}

/// `text` with its ASCII upper-case letters in lower case.
pub fn lowered(text: &Vec<char>) -> (lower: Vec<char>)
    ensures
        lower@ == lower_text(text@),
{
    let mut lower: Vec<char> = Vec::new();
    let mut i: usize = 0;
    while i < text.len()
        invariant
            i <= text.len(),
            lower@ == lower_text(text@.take(i as int)),
        decreases text.len() - i,
    {
        lower.push(to_lower(text[i]));
        i += 1;
        assert(lower@ =~= lower_text(text@.take(i as int)));
    }
    assert(text@.take(text.len() as int) =~= text@);
    lower
}

/// The index of the first `mark` in `text`, or the length of `text` if it
/// holds none.
pub open spec fn first_index(text: Seq<char>, mark: char) -> int
    decreases text.len(),
{
    if text.len() == 0 || text[0] == mark {
        0
    } else {
        1 + first_index(text.drop_first(), mark)
    }
}

/// `first_index` is within the text, finds `mark`, and nothing before it is
/// `mark`.
pub proof fn lemma_first_index(text: Seq<char>, mark: char)
    ensures
        0 <= first_index(text, mark) <= text.len(),
        first_index(text, mark) < text.len() ==> text[first_index(text, mark)] == mark,
        forall|i: int| 0 <= i < first_index(text, mark) ==> text[i] != mark,
    decreases text.len(),
{
    if text.len() > 0 && text[0] != mark {
        let rest = text.drop_first();
        lemma_first_index(rest, mark);
        assert forall|i: int| 0 <= i < first_index(text, mark) implies text[i] != mark by {
            if i > 0 {
                assert(text[i] == rest[i - 1]);
            }
        }
    }
}

/// The first `mark` of `text` is at `at` if there is one at `at` and none
/// before it; if there is none at all, `at` is the length of `text`.
pub proof fn lemma_first_index_is(text: Seq<char>, mark: char, at: int)
    requires
        0 <= at <= text.len(),
        at < text.len() ==> text[at] == mark,
        forall|i: int| 0 <= i < at ==> text[i] != mark,
    ensures
        first_index(text, mark) == at,
{
    lemma_first_index(text, mark);
}

/// The index of the first `mark` in `chars` at or behind `from`, or the
/// length of `chars` if none follows.
pub fn find_from(chars: &Vec<char>, from: usize, mark: char) -> (at: usize)
    requires
        from <= chars.len(),
    ensures
        at == from + first_index(chars@.skip(from as int), mark),
        from <= at <= chars.len(),
{
    let mut at = from;
    while at < chars.len() && chars[at] != mark
        invariant
            from <= at <= chars.len(),
            forall|i: int| from <= i < at ==> chars[i] != mark,
        decreases chars.len() - at,
    {
        at += 1;
    }
    proof {
        lemma_first_index_is(chars@.skip(from as int), mark, at - from);
    }
    at
}

/// Whether the first `len` characters of `chars` are the characters of
/// `text`.
pub fn head_is(chars: &Vec<char>, len: usize, text: &str) -> (same: bool)
    requires
        len <= chars.len(),
    ensures
        same == (chars@.take(len as int) == text@),
{
    let wanted = chars_of(text);
    if wanted.len() != len {
        return false;
    }
    let same = starts_with(chars, text);
    assert(chars@.take(len as int) =~= chars@.subrange(0, len as int));
    same
}

} // verus!
