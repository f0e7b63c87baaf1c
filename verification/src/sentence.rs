//! Sentences: the pieces of a text that end at a delimiter.

use vstd::prelude::*;
use vstd::utf8::encode_utf8;
use crate::slices::{char_len, lemma_offset_ends, lemma_offset_step, offset_of, slice};
use crate::text::{first_index, lemma_first_index, lemma_first_index_is, texts};

verus! {

/// Whether a character is white space, as `char::is_whitespace` tells.
pub uninterp spec fn is_white_space(c: char) -> bool;

/// `char::is_whitespace`: whether `c` has the Unicode property White_Space.
#[verifier::external_body]
fn is_space(c: char) -> (space: bool)
    ensures
        space == is_white_space(c),
{
    c.is_whitespace()
}

/// `text` without the white space at its start.
pub open spec fn trimmed_start(text: Seq<char>) -> Seq<char>
    decreases text.len(),
{
    if text.len() > 0 && is_white_space(text[0]) {
        trimmed_start(text.drop_first())
    } else {
        text
    }
}

/// `text` without the white space at its end.
pub open spec fn trimmed_end(text: Seq<char>) -> Seq<char>
    decreases text.len(),
{
    if text.len() > 0 && is_white_space(text.last()) {
        trimmed_end(text.drop_last())
    } else {
        text
    }
}

/// `text` without the white space at its start and at its end.
pub open spec fn trimmed(text: Seq<char>) -> Seq<char> {
    trimmed_end(trimmed_start(text))
}

/// The first sentence of `text`, if there is one, and the text that is left
/// behind it. A sentence reaches up to the first delimiter, which belongs to
/// it; the white space around it does not. Where no delimiter is left, the
/// whole text is the last sentence, unless it holds nothing but white space.
pub open spec fn first_sentence(text: Seq<char>, delimiter: char) -> (Option<Seq<char>>, Seq<char>) {
    let at = first_index(text, delimiter);
    if at < text.len() {
        (Some(trimmed(text.take(at + 1))), text.skip(at + 1))
    } else if trimmed(text).len() == 0 {
        (None, Seq::empty())
    } else {
        (Some(trimmed(text)), Seq::empty())
    }
}

/// All sentences of `text`, in their order.
pub open spec fn sentences_of(text: Seq<char>, delimiter: char) -> Seq<Seq<char>>
    decreases text.len(),
{
    let at = first_index(text, delimiter);
    if at < text.len() {
        proof {
            lemma_first_index(text, delimiter);
        }
        seq![trimmed(text.take(at + 1))] + sentences_of(text.skip(at + 1), delimiter)
    } else if trimmed(text).len() == 0 {
        Seq::empty()
    } else {
        seq![trimmed(text)]
    }
}

/// A text of white space alone is trimmed to nothing.
pub proof fn lemma_trimmed_blank(text: Seq<char>)
    requires
        forall|i: int| 0 <= i < text.len() ==> is_white_space(text[i]),
    ensures
        trimmed(text).len() == 0,
    decreases text.len(),
{
    if text.len() > 0 {
        let rest = text.drop_first();
        assert forall|i: int| 0 <= i < rest.len() implies is_white_space(rest[i]) by {
            assert(rest[i] == text[i + 1]);
        }
        lemma_trimmed_blank(rest);
    }
}

/// Without the white space at its start, a text begins at its first
/// character that is no white space.
proof fn lemma_trimmed_start(text: Seq<char>, from: int)
    requires
        0 <= from < text.len(),
        forall|i: int| 0 <= i < from ==> is_white_space(text[i]),
        !is_white_space(text[from]),
    ensures
        trimmed_start(text) == text.skip(from),
    decreases from,
{
    if from == 0 {
        assert(text.skip(0) =~= text);
    } else {
        let rest = text.drop_first();
        assert forall|i: int| 0 <= i < from - 1 implies is_white_space(rest[i]) by {
            assert(rest[i] == text[i + 1]);
        }
        lemma_trimmed_start(rest, from - 1);
        assert(rest.skip(from - 1) =~= text.skip(from));
    }
}

/// Without the white space at its end, a text ends behind its last
/// character that is no white space.
proof fn lemma_trimmed_end(text: Seq<char>, to: int)
    requires
        0 < to <= text.len(),
        forall|i: int| to <= i < text.len() ==> is_white_space(text[i]),
        !is_white_space(text[to - 1]),
    ensures
        trimmed_end(text) == text.take(to),
    decreases text.len() - to,
{
    if to == text.len() {
        assert(text.take(to) =~= text);
    } else {
        let rest = text.drop_last();
        lemma_trimmed_end(rest, to);
        assert(rest.take(to) =~= text.take(to));
    }
}

/// A trimmed text reaches from its first character that is no white space
/// to the last such character.
pub proof fn lemma_trimmed(text: Seq<char>, from: int, to: int)
    requires
        0 <= from < to <= text.len(),
        forall|i: int| 0 <= i < from ==> is_white_space(text[i]),
        !is_white_space(text[from]),
        !is_white_space(text[to - 1]),
        forall|i: int| to <= i < text.len() ==> is_white_space(text[i]),
    ensures
        trimmed(text) == text.subrange(from, to),
{
    lemma_trimmed_start(text, from);
    let rest = text.skip(from);
    assert forall|i: int| to - from <= i < rest.len() implies is_white_space(rest[i]) by {
        assert(rest[i] == text[i + from]);
    }
    lemma_trimmed_end(rest, to - from);
    assert(rest.take(to - from) =~= text.subrange(from, to));
}

/// A walk over the sentences of a text. Its view is the text that is left.
pub struct SentenceIter<'a> {
    rest: &'a str,
    delimiter: char,
}

impl<'a> View for SentenceIter<'a> {
    type V = Seq<char>;

    closed spec fn view(&self) -> Seq<char> {
        self.rest@
    }
}

impl<'a> SentenceIter<'a> {
    /// The character at which sentences end.
    pub closed spec fn spec_delimiter(&self) -> char {
        self.delimiter
    }

    /// A walk over the sentences of `s` that end at `delimiter`. The borrow
    /// of `s` lasts as long as the text itself: the walk keeps its own place
    /// in the text and leaves `s` as it is.
    pub fn new(s: &'a mut &'a str, delimiter: char) -> (iter: Self)
        ensures
            iter@ == (*old(s))@,
            iter.spec_delimiter() == delimiter,
            *final(s) == *old(s),
    {
        Self { rest: *s, delimiter }
    }

    /// The next sentence, if any is left, and moves on behind it.
    pub fn next(&mut self) -> (sentence: Option<&'a str>)
        ensures
            final(self).spec_delimiter() == old(self).spec_delimiter(),
            final(self)@ == first_sentence(old(self)@, old(self).spec_delimiter()).1,
            match sentence {
                Some(found) => first_sentence(old(self)@, old(self).spec_delimiter()).0 == Some(
                    found@,
                ),
                None => first_sentence(old(self)@, old(self).spec_delimiter()).0 is None,
            },
    {
        let text: &'a str = self.rest;
        let delimiter = self.delimiter;
        let total = text.as_bytes().len();
        // How far the walk has come, in bytes.
        let mut offset: usize = 0;
        // Whether a character that is no white space was met, where the first
        // such character begins and where the last one ends, in bytes.
        let mut seen = false;
        let mut from: usize = 0;
        let mut to: usize = 0;
        let ghost whole = text@;
        let ghost mut from_at: int = 0;
        let ghost mut to_at: int = 0;
        proof {
            lemma_offset_ends(whole);
        }
        for c in it: text.chars()
            invariant
                it.seq() == whole,
                text@ == whole,
                old(self)@ == whole,
                old(self).spec_delimiter() == delimiter,
                self.delimiter == delimiter,
                total == encode_utf8(whole).len(),
                offset == offset_of(whole, it.index() as int),
                offset <= total,
                forall|i: int| 0 <= i < it.index() ==> whole[i] != delimiter,
                !seen ==> forall|i: int| 0 <= i < it.index() ==> is_white_space(whole[i]),
                seen ==> {
                    &&& 0 <= from_at < to_at <= it.index()
                    &&& from == offset_of(whole, from_at)
                    &&& to == offset_of(whole, to_at)
                    &&& !is_white_space(whole[from_at])
                    &&& !is_white_space(whole[to_at - 1])
                    &&& forall|i: int| 0 <= i < from_at ==> is_white_space(whole[i])
                    &&& forall|i: int| to_at <= i < it.index() ==> is_white_space(whole[i])
                },
        {
            let ghost at = it.index() as int;
            assert(c == whole[at]);
            proof {
                lemma_offset_step(whole, at);
            }
            let width = char_len(c);
            if !is_space(c) {
                if !seen {
                    seen = true;
                    from = offset;
                    proof {
                        from_at = at;
                    }
                }
                to = offset + width;
                proof {
                    to_at = at + 1;
                }
            }
            offset = offset + width;
            if c == delimiter {
                let ghost first = whole.take(at + 1);
                proof {
                    lemma_first_index_is(whole, delimiter, at);
                    lemma_offset_ends(whole);
                    assert(whole.subrange(at + 1, whole.len() as int) =~= whole.skip(at + 1));
                }
                self.rest = slice(text, offset, total, Ghost(at + 1), Ghost(whole.len() as int));
                if seen {
                    proof {
                        lemma_trimmed(first, from_at, to_at);
                        assert(first.subrange(from_at, to_at) =~= whole.subrange(from_at, to_at));
                    }
                    return Some(slice(text, from, to, Ghost(from_at), Ghost(to_at)));
                } else {
                    proof {
                        lemma_trimmed_blank(first);
                        assert(whole.subrange(at + 1, at + 1) =~= trimmed(first));
                    }
                    return Some(slice(text, offset, offset, Ghost(at + 1), Ghost(at + 1)));
                }
            }
        }
        proof {
            lemma_first_index_is(whole, delimiter, whole.len() as int);
            reveal_strlit("");
            assert(""@ =~= Seq::<char>::empty());
        }
        self.rest = "";
        if seen {
            proof {
                lemma_trimmed(whole, from_at, to_at);
            }
            Some(slice(text, from, to, Ghost(from_at), Ghost(to_at)))
        } else {
            proof {
                lemma_trimmed_blank(whole);
            }
            None
        }
    }

    /// All sentences that are left, in their order.
    pub fn collect(self) -> (all: Vec<&'a str>)
        ensures
            texts(all@) == sentences_of(self@, self.spec_delimiter()),
    {
        let ghost whole = self@;
        let ghost delimiter = self.spec_delimiter();
        let mut walk = self;
        let mut all: Vec<&'a str> = Vec::new();
        assert(texts(all@) + sentences_of(whole, delimiter) =~= sentences_of(whole, delimiter));
        loop
            invariant
                whole == self@,
                delimiter == self.spec_delimiter(),
                walk.spec_delimiter() == delimiter,
                sentences_of(whole, delimiter) == texts(all@) + sentences_of(walk@, delimiter),
            decreases walk@.len(),
        {
            let ghost left = walk@;
            let ghost before = texts(all@);
            proof {
                lemma_first_index(left, delimiter);
            }
            match walk.next() {
                Some(sentence) => {
                    all.push(sentence);
                    proof {
                        assert(texts(all@) =~= before + seq![sentence@]);
                        assert(sentences_of(whole, delimiter) =~= texts(all@) + sentences_of(
                            walk@,
                            delimiter,
                        ));
                    }
                },
                None => {
                    assert(sentences_of(whole, delimiter) =~= texts(all@));
                    return all;
                },
            }
        }
    }
}

} // verus!
