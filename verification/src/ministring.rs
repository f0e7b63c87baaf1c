//! A string that keeps short texts inline and longer ones on the heap.

use vstd::prelude::*;
use vstd::slice::slice_subrange;
use crate::slices::lemma_encode_utf8_concat;
use vstd::string::{StringExecFns, StringSliceAdditionalSpecFns};
use vstd::utf8::{
    decode_utf8, decode_utf8_encode_utf8, encode_utf8, encode_utf8_decode_utf8,
    encode_utf8_valid_utf8, valid_utf8,
};

verus! {

/// The number of bytes that fit inline.
pub const MINI_STRING_MAX_LEN: usize = 30;

/// A text of at most `MINI_STRING_MAX_LEN` bytes, held inline. Its view is
/// the text.
pub struct MiniString {
    len: u8,
    data: [u8; MINI_STRING_MAX_LEN],
}

/// A text, held inline while it is short enough. Its view is the text.
pub enum MyString {
    Inline(MiniString),
    Standard(String),
}

/// `std::str::from_utf8`: the text that `bytes` encode, if they are UTF-8.
#[verifier::external_body]
fn text_of(bytes: &[u8]) -> (text: Option<&str>)
    ensures
        match text {
            Some(found) => valid_utf8(bytes@) && found.spec_bytes() == bytes@,
            None => !valid_utf8(bytes@),
        },
{
    std::str::from_utf8(bytes).ok()
}

impl MiniString {
    /// The bytes in use.
    pub closed spec fn bytes(&self) -> Seq<u8> {
        self.data@.take(self.len as int)
    }

    /// The invariant: the bytes in use fit and are UTF-8.
    pub closed spec fn wf(&self) -> bool {
        self.len <= MINI_STRING_MAX_LEN && valid_utf8(self.bytes())
    }

    /// The bytes in use are those of the text.
    pub proof fn lemma_bytes(&self)
        requires
            self.wf(),
        ensures
            self.bytes() == encode_utf8(self@),
            self.bytes().len() <= MINI_STRING_MAX_LEN,
    {
        decode_utf8_encode_utf8(self.bytes());
    }

    /// The inline string that holds `v`, which must fit.
    pub fn new(v: &str) -> (s: MiniString)
        requires
            v.spec_bytes().len() <= MINI_STRING_MAX_LEN,
        ensures
            s.wf(),
            s@ == v@,
    {
        let bytes = v.as_bytes();
        let len = bytes.len();
        let mut data = [0u8; MINI_STRING_MAX_LEN];
        let mut i: usize = 0;
        while i < len
            invariant
                i <= len == bytes@.len() <= MINI_STRING_MAX_LEN,
                data@.take(i as int) == bytes@.take(i as int),
            decreases len - i,
        {
            data[i] = bytes[i];
            i += 1;
            assert(data@.take(i as int) =~= bytes@.take(i as int));
        }
        proof {
            assert(bytes@.take(len as int) =~= bytes@);
            encode_utf8_valid_utf8(v@);
            encode_utf8_decode_utf8(v@);
        }
        MiniString { len: len as u8, data }
    }

    /// The number of bytes in use.
    pub fn len(&self) -> (n: usize)
        requires
            self.wf(),
        ensures
            n == encode_utf8(self@).len(),
            n <= MINI_STRING_MAX_LEN,
    {
        proof {
            self.lemma_bytes();
        }
        self.len as usize
    }

    /// The text.
    pub fn as_str(&self) -> (text: &str)
        requires
            self.wf(),
        ensures
            text@ == self@,
    {
        let used = slice_subrange(self.data.as_slice(), 0, self.len as usize);
        assert(used@ =~= self.bytes());
        match text_of(used) {
            Some(text) => {
                proof {
                    encode_utf8_decode_utf8(text@);
                }
                text
            },
            None => "",
        }
    }
}

impl View for MiniString {
    type V = Seq<char>;

    closed spec fn view(&self) -> Seq<char> {
        decode_utf8(self.bytes())
    }
}

impl View for MyString {
    type V = Seq<char>;

    open spec fn view(&self) -> Seq<char> {
        match self {
            MyString::Inline(s) => s@,
            MyString::Standard(s) => s@,
        }
    }
}

impl MyString {
    /// The invariant: an inline text is well formed.
    pub open spec fn wf(&self) -> bool {
        match self {
            MyString::Inline(s) => s.wf(),
            MyString::Standard(_) => true,
        }
    }

    /// The string that holds `s`: inline if it fits.
    pub fn from_str(s: &str) -> (text: MyString)
        ensures
            text.wf(),
            text@ == s@,
            text is Inline <==> s.spec_bytes().len() <= MINI_STRING_MAX_LEN,
    {
        if s.as_bytes().len() > MINI_STRING_MAX_LEN {
            MyString::Standard(s.to_owned())
        } else {
            MyString::Inline(MiniString::new(s))
        }
    }

    /// The string that holds `s`: inline if it fits, else `s` itself.
    pub fn from_string(s: String) -> (text: MyString)
        ensures
            text.wf(),
            text@ == s@,
            text is Inline <==> encode_utf8(s@).len() <= MINI_STRING_MAX_LEN,
    {
        if s.as_str().as_bytes().len() > MINI_STRING_MAX_LEN {
            MyString::Standard(s)
        } else {
            MyString::Inline(MiniString::new(s.as_str()))
        }
    }

    /// The text.
    pub fn as_str(&self) -> (text: &str)
        requires
            self.wf(),
        ensures
            text@ == self@,
    {
        match self {
            MyString::Inline(s) => s.as_str(),
            MyString::Standard(s) => s.as_str(),
        }
    }

    /// Appends `sstr`. An inline text stays inline as long as the whole fits
    /// in `MINI_STRING_MAX_LEN` bytes; once it does not, the text moves to
    /// the heap and stays there.
    pub fn push_str(&mut self, sstr: &str)
        requires
            old(self).wf(),
        ensures
            final(self).wf(),
            final(self)@ == old(self)@ + sstr@,
            *final(self) is Inline <==> *old(self) is Inline && encode_utf8(old(self)@ + sstr@).len()
                <= MINI_STRING_MAX_LEN,
    {
        proof {
            lemma_encode_utf8_concat(self@, sstr@);
        }
        match self {
            MyString::Standard(s) => {
                s.append(sstr);
            },
            MyString::Inline(s) => {
                let added = sstr.as_bytes();
                let len = added.len();
                proof {
                    s.lemma_bytes();
                }
                if len > MINI_STRING_MAX_LEN - s.len as usize {
                    let mut new_s = s.as_str().to_owned();
                    new_s.append(sstr);
                    *self = MyString::Standard(new_s);
                } else {
                    let start_idx = s.len as usize;
                    let ghost before = s.bytes();
                    let mut i: usize = 0;
                    while i < len
                        invariant
                            i <= len == added@.len(),
                            start_idx + len <= MINI_STRING_MAX_LEN,
                            s.len == start_idx,
                            before.len() == start_idx,
                            s.data@.take(start_idx + i) == before + added@.take(i as int),
                        decreases len - i,
                    {
                        let ghost prev = s.data@;
                        s.data[start_idx + i] = added[i];
                        proof {
                            let now = s.data@.take(start_idx + i + 1);
                            let want = before + added@.take(i + 1);
                            assert forall|j: int| 0 <= j < now.len() implies now[j] == want[j] by {
                                if j < start_idx + i {
                                    assert(prev.take(start_idx + i)[j] == prev[j]);
                                    assert((before + added@.take(i as int))[j] == want[j]);
                                }
                            }
                            assert(now =~= want);
                        }
                        i += 1;
                    }
                    s.len = (start_idx + len) as u8;
                    proof {
                        assert(added@.take(len as int) =~= added@);
                        assert(s.bytes() == encode_utf8(old(self)@ + sstr@));
                        encode_utf8_valid_utf8(old(self)@ + sstr@);
                        encode_utf8_decode_utf8(old(self)@ + sstr@);
                    }
                }
            },
        }
    }
}

} // verus!
