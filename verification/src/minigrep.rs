//! A line search: the lines of a text in which a query stands.

use vstd::prelude::*;
use vstd::utf8::encode_utf8;
use crate::slices::{char_len, lemma_offset_ends, lemma_offset_step, offset_of, slice};
use crate::text::{
    chars_of, contains, contains_text, first_index, lemma_first_index, lemma_first_index_is,
    lower_text, lowered, texts,
};

verus! {

/// A line without the carriage return at its end, if it has one.
pub open spec fn without_return(line: Seq<char>) -> Seq<char> {
    if line.len() > 0 && line.last() == '\r' {
        line.drop_last()
    } else {
        line
    }
}

/// The lines of `text`. A line ends at a line feed, or at a carriage return
/// with a line feed behind it; neither belongs to the line. What follows the
/// last line feed is a line too, unless it is empty.
pub open spec fn lines_of(text: Seq<char>) -> Seq<Seq<char>>
    decreases text.len(),
{
    if text.len() == 0 {
        Seq::empty()
    } else {
        let end = first_index(text, '\n');
        if end >= text.len() {
            seq![text]
        } else {
            proof {
                lemma_first_index(text, '\n');
            }
            seq![without_return(text.take(end))] + lines_of(text.skip(end + 1))
        }
    }
}

/// The lines of `text` in which `query` stands, in their order.
pub open spec fn matching_lines(query: Seq<char>, text: Seq<char>) -> Seq<Seq<char>> {
    lines_of(text).filter(|line: Seq<char>| contains_text(line, query))
}

/// The lines of `text` in which `query` stands when upper and lower case of
/// ASCII letters count as the same, in their order.
pub open spec fn matching_lines_any_case(query: Seq<char>, text: Seq<char>) -> Seq<Seq<char>> {
    lines_of(text).filter(
        |line: Seq<char>| contains_text(lower_text(line), lower_text(query)),
    )
}

/// The lines of `text`, as slices of it.
pub fn lines<'a>(text: &'a str) -> (found: Vec<&'a str>)
    ensures
        texts(found@) == lines_of(text@),
{
    let total = text.as_bytes().len();
    let mut found: Vec<&'a str> = Vec::new();
    // Where the line at hand begins, and how far the walk has come, in bytes.
    let mut start: usize = 0;
    let mut offset: usize = 0;
    // Whether the line at hand has a character, and whether its last is a carriage return.
    let mut pending = false;
    let mut after_return = false;
    let ghost mut first: int = 0;
    proof {
        lemma_offset_ends(text@);
        assert(text@.skip(0) =~= text@);
    }
    for c in it: text.chars()
        invariant
            it.seq() == text@,
            total == encode_utf8(text@).len(),
            0 <= first <= it.index() <= text@.len(),
            start == offset_of(text@, first),
            offset == offset_of(text@, it.index() as int),
            offset <= total,
            forall|i: int| first <= i < it.index() ==> text@[i] != '\n',
            pending == (it.index() > first),
            after_return == (it.index() > first && text@[it.index() - 1] == '\r'),
            lines_of(text@) == texts(found@) + lines_of(text@.skip(first)),
    {
        let ghost at = it.index() as int;
        let ghost rest = text@.skip(first);
        let ghost before = texts(found@);
        assert(c == text@[at]);
        proof {
            lemma_offset_step(text@, at);
        }
        let width = char_len(c);
        if c == '\n' {
            let ghost stop = if after_return {
                at - 1
            } else {
                at
            };
            let end = if after_return {
                proof {
                    lemma_offset_step(text@, at - 1);
                }
                offset - 1
            } else {
                offset
            };
            let line = slice(text, start, end, Ghost(first), Ghost(stop));
            found.push(line);
            proof {
                lemma_first_index_is(rest, '\n', at - first);
                lemma_first_index(rest, '\n');
                assert(rest.take(at - first) =~= text@.subrange(first, at));
                assert(line@ =~= without_return(rest.take(at - first)));
                assert(rest.skip(at - first + 1) =~= text@.skip(at + 1));
                assert(texts(found@) =~= before + seq![line@]);
                assert(lines_of(text@) =~= texts(found@) + lines_of(text@.skip(at + 1)));
                first = at + 1;
            }
            start = offset + width;
            pending = false;
            after_return = false;
        } else {
            pending = true;
            after_return = c == '\r';
        }
        offset = offset + width;
    }
    let ghost rest = text@.skip(first);
    let ghost before = texts(found@);
    if pending {
        let line = slice(text, start, offset, Ghost(first), Ghost(text@.len() as int));
        found.push(line);
        proof {
            lemma_first_index_is(rest, '\n', rest.len() as int);
            assert(line@ =~= rest);
            assert(texts(found@) =~= before + seq![rest]);
        }
    }
    assert(lines_of(text@) =~= texts(found@));
    found
}

/// The lines of `contents` in which `query` stands.
pub fn search<'a>(query: &str, contents: &'a str) -> (found: Vec<&'a str>)
    ensures
        texts(found@) == matching_lines(query@, contents@),
{
    let wanted = chars_of(query);
    let all = lines(contents);
    let mut found: Vec<&'a str> = Vec::new();
    let ghost keep = |line: Seq<char>| contains_text(line, query@);
    let mut i: usize = 0;
    assert(texts(all@).take(0).filter(keep) =~= Seq::<Seq<char>>::empty()) by {
        reveal(Seq::filter);
    }
    while i < all.len()
        invariant
            i <= all.len(),
            wanted@ == query@,
            keep == |line: Seq<char>| contains_text(line, query@),
            texts(found@) == texts(all@).take(i as int).filter(keep),
        decreases all.len() - i,
    {
        let line = all[i];
        let ghost before = texts(found@);
        if contains(&chars_of(line), &wanted) {
            found.push(line);
        }
        proof {
            let seen = texts(all@).take(i + 1);
            assert(seen.drop_last() =~= texts(all@).take(i as int));
            assert(seen.last() == line@);
            reveal(Seq::filter);
            assert(texts(found@) =~= seen.filter(keep));
        }
        i += 1;
    }
    assert(texts(all@).take(all.len() as int) =~= texts(all@));
    found
}

/// The lines of `contents` in which `query` stands, upper and lower case of
/// ASCII letters counting as the same.
pub fn search_case_insensitive<'a>(query: &str, contents: &'a str) -> (found: Vec<&'a str>)
    ensures
        texts(found@) == matching_lines_any_case(query@, contents@),
{
    let wanted = lowered(&chars_of(query));
    let all = lines(contents);
    let mut found: Vec<&'a str> = Vec::new();
    let ghost keep = |line: Seq<char>| contains_text(lower_text(line), lower_text(query@));
    let mut i: usize = 0;
    assert(texts(all@).take(0).filter(keep) =~= Seq::<Seq<char>>::empty()) by {
        reveal(Seq::filter);
    }
    while i < all.len()
        invariant
            i <= all.len(),
            wanted@ == lower_text(query@),
            keep == |line: Seq<char>| contains_text(lower_text(line), lower_text(query@)),
            texts(found@) == texts(all@).take(i as int).filter(keep),
        decreases all.len() - i,
    {
        let line = all[i];
        if contains(&lowered(&chars_of(line)), &wanted) {
            found.push(line);
        }
        proof {
            let seen = texts(all@).take(i + 1);
            assert(seen.drop_last() =~= texts(all@).take(i as int));
            assert(seen.last() == line@);
            reveal(Seq::filter);
            assert(texts(found@) =~= seen.filter(keep));
        }
        i += 1;
    }
    assert(texts(all@).take(all.len() as int) =~= texts(all@));
    found
}

/// What to search for, where, and how.
pub struct Config {
    query: String,
    filename: String,
    case_sensitive: bool,
}

/// The message for too few arguments.
pub open spec fn too_few_arguments() -> Seq<char> {
    "Not enough arguments"@
}

impl Config {
    /// The configuration that the command line `args` gives: the program's
    /// name, the query and the file name, in this order; what follows is
    /// ignored. With fewer than three arguments there is none.
    pub fn new(args: &Vec<String>, case_sensitive: bool) -> (config: Result<Config, &'static str>)
        ensures
            match config {
                Ok(made) => {
                    &&& args@.len() >= 3
                    &&& made.spec_query() == args@[1]@
                    &&& made.spec_filename() == args@[2]@
                    &&& made.spec_case_sensitive() == case_sensitive
                },
                Err(message) => args@.len() < 3 && message@ == too_few_arguments(),
            },
    {
        if args.len() < 3 {
            return Err("Not enough arguments");
        }
        Ok(Config { query: args[1].clone(), filename: args[2].clone(), case_sensitive })
    }

    /// The text to search for.
    pub closed spec fn spec_query(&self) -> Seq<char> {
        self.query@
    }

    /// The name of the file to search in.
    pub closed spec fn spec_filename(&self) -> Seq<char> {
        self.filename@
    }

    /// Whether upper and lower case differ.
    pub closed spec fn spec_case_sensitive(&self) -> bool {
        self.case_sensitive
    }

    /// The name of the file to search in.
    pub fn filename(&self) -> (name: &str)
        ensures
            name@ == self.spec_filename(),
    {
        self.filename.as_str()
    }

    /// The lines of `contents` that the configuration asks for: those in
    /// which the query stands, with or without regard to case.
    pub fn matches<'a>(&self, contents: &'a str) -> (found: Vec<&'a str>)
        ensures
            texts(found@) == if self.spec_case_sensitive() {
                matching_lines(self.spec_query(), contents@)
            } else {
                matching_lines_any_case(self.spec_query(), contents@)
            },
    {
        if self.case_sensitive {
            search(self.query.as_str(), contents)
        } else {
            search_case_insensitive(self.query.as_str(), contents)
        }
    }
}

} // verus!
