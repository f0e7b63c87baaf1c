//! Percent-encoding of URLs, done by the `percent-encoding` crate.
//!
//! The two calls into the crate are trusted: their contracts state what its
//! source shows. That decoding undoes encoding is proved from them.

use vstd::prelude::*;
use vstd::utf8::{
    decode_utf8, decode_utf8_encode_utf8, encode_utf8, encode_utf8_decode_utf8,
    encode_utf8_valid_utf8, is_ascii_chars, is_ascii_chars_encode_utf8, valid_utf8,
};

verus! {

/// The byte `%`.
pub const PERCENT: u8 = 0x25;

/// The value of an ASCII hexadecimal digit, in either case.
pub open spec fn hex_value(digit: u8) -> Option<u8> {
    if 0x30 <= digit <= 0x39 {
        Some((digit - 0x30) as u8)
    } else if 0x41 <= digit <= 0x46 {
        Some((digit - 0x41 + 10) as u8)
    } else if 0x61 <= digit <= 0x66 {
        Some((digit - 0x61 + 10) as u8)
    } else {
        None
    }
}

/// The ASCII hexadecimal digit of a value below 16, a letter in upper case.
pub open spec fn hex_digit(value: u8) -> u8 {
    if value < 10 {
        (0x30 + value) as u8
    } else {
        (0x41 + value - 10) as u8
    }
}

/// Whether `bytes` begin with an escape: `%` and two hexadecimal digits.
pub open spec fn begins_with_escape(bytes: Seq<u8>) -> bool {
    &&& bytes.len() >= 3
    &&& bytes[0] == PERCENT
    &&& hex_value(bytes[1]) is Some
    &&& hex_value(bytes[2]) is Some
}

/// `bytes` with every escape replaced by the byte that it stands for. A `%`
/// that begins no escape stays as it is.
pub open spec fn unescaped(bytes: Seq<u8>) -> Seq<u8>
    decreases bytes.len(),
{
    if bytes.len() == 0 {
        Seq::empty()
    } else if begins_with_escape(bytes) {
        seq![(hex_value(bytes[1])->0 * 16 + hex_value(bytes[2])->0) as u8] + unescaped(
            bytes.skip(3),
        )
    } else {
        seq![bytes[0]] + unescaped(bytes.skip(1))
    }
}

/// Whether a byte is an ASCII letter or digit.
pub open spec fn is_alphanumeric(byte: u8) -> bool {
    0x30 <= byte <= 0x39 || 0x41 <= byte <= 0x5a || 0x61 <= byte <= 0x7a
}

/// What stands for one byte in an encoded text: an ASCII letter or digit
/// itself, any other byte its escape.
pub open spec fn escaped_byte(byte: u8) -> Seq<u8> {
    if is_alphanumeric(byte) {
        seq![byte]
    } else {
        seq![PERCENT, hex_digit(byte / 16), hex_digit(byte % 16)]
    }
}

/// `bytes` with every byte but the ASCII letters and digits escaped.
pub open spec fn escaped(bytes: Seq<u8>) -> Seq<u8>
    decreases bytes.len(),
{
    if bytes.len() == 0 {
        Seq::empty()
    } else {
        escaped_byte(bytes[0]) + escaped(bytes.skip(1))
    }
}

/// The text that `String::from_utf8_lossy` makes of bytes that are no UTF-8:
/// each invalid sequence in them is replaced by U+FFFD.
pub uninterp spec fn lossy_text(bytes: Seq<u8>) -> Seq<char>;

/// The text of `bytes`: the text that they encode if they are UTF-8, else the
/// lossy text.
pub open spec fn text_of_bytes(bytes: Seq<u8>) -> Seq<char> {
    if valid_utf8(bytes) {
        decode_utf8(bytes)
    } else {
        lossy_text(bytes)
    }
}

/// The text that `text` stands for: its bytes unescaped, as text.
pub open spec fn percent_decoded_lossy(text: Seq<char>) -> Seq<char> {
    text_of_bytes(unescaped(encode_utf8(text)))
}

/// The text that stands for `text`: its bytes escaped, all but the ASCII
/// letters and digits.
pub open spec fn percent_encoded(text: Seq<char>) -> Seq<char> {
    decode_utf8(escaped(encode_utf8(text)))
}

/// `percent_decode_str(text).decode_utf8_lossy()`, as an owned string: every
/// `%` with two hexadecimal digits behind it is decoded to one byte, and the
/// bytes are read as UTF-8, lossily where they are none. It fails on no text.
#[verifier::external_body]
pub(crate) fn percent_decode_lossy(text: &str) -> (decoded: String)
    ensures
        ({
            let bytes = unescaped(encode_utf8(text@));
            decoded@ == if valid_utf8(bytes) {
                decode_utf8(bytes)
            } else {
                lossy_text(bytes)
            }
        }),
{
    percent_encoding::percent_decode_str(text).decode_utf8_lossy().into_owned()
}

/// `percent_encode(text.as_bytes(), NON_ALPHANUMERIC)`, as an owned string:
/// every byte that is no ASCII letter or digit is written as `%` and its two
/// hexadecimal digits in upper case.
#[verifier::external_body]
pub(crate) fn percent_encode_all(text: &str) -> (encoded: String)
    ensures
        encoded@ == percent_encoded(text@),
{
    percent_encoding::percent_encode(text.as_bytes(), percent_encoding::NON_ALPHANUMERIC).to_string()
}

/// Unescaping undoes escaping.
pub proof fn lemma_unescaped_escaped(bytes: Seq<u8>)
    ensures
        unescaped(escaped(bytes)) == bytes,
    decreases bytes.len(),
{
    if bytes.len() > 0 {
        let first = bytes[0];
        let rest = bytes.skip(1);
        let written = escaped(bytes);
        lemma_unescaped_escaped(rest);
        if is_alphanumeric(first) {
            assert(written.skip(1) =~= escaped(rest));
        } else {
            assert(written.skip(3) =~= escaped(rest));
            assert(hex_value(written[1]) == Some((first / 16) as u8));
            assert(hex_value(written[2]) == Some((first % 16) as u8));
            assert((first / 16) * 16 + first % 16 == first);
        }
        assert(unescaped(written) =~= seq![first] + rest);
        assert(seq![first] + rest =~= bytes);
    }
}

/// Escaped bytes are ASCII.
pub proof fn lemma_escaped_is_ascii(bytes: Seq<u8>)
    ensures
        forall|i: int| 0 <= i < escaped(bytes).len() ==> escaped(bytes)[i] < 0x80,
    decreases bytes.len(),
{
    if bytes.len() > 0 {
        lemma_escaped_is_ascii(bytes.skip(1));
        let head = escaped_byte(bytes[0]);
        let tail = escaped(bytes.skip(1));
        assert forall|i: int| 0 <= i < escaped(bytes).len() implies escaped(bytes)[i] < 0x80 by {
            if i >= head.len() {
                assert(escaped(bytes)[i] == tail[i - head.len()]);
            }
        }
    }
}

/// ASCII bytes are UTF-8.
pub proof fn lemma_ascii_is_utf8(bytes: Seq<u8>)
    requires
        forall|i: int| 0 <= i < bytes.len() ==> bytes[i] < 0x80,
    ensures
        valid_utf8(bytes),
{
    let chars = Seq::new(bytes.len(), |i: int| bytes[i] as char);
    assert(is_ascii_chars(chars));
    is_ascii_chars_encode_utf8(chars);
    assert(encode_utf8(chars) =~= bytes);
    encode_utf8_valid_utf8(chars);
}

/// Decoding undoes encoding: the text that stands for `text` stands for
/// nothing else.
pub proof fn lemma_decoded_encoded(text: Seq<char>)
    ensures
        percent_decoded_lossy(percent_encoded(text)) == text,
{
    let bytes = encode_utf8(text);
    let written = escaped(bytes);
    lemma_escaped_is_ascii(bytes);
    lemma_ascii_is_utf8(written);
    decode_utf8_encode_utf8(written);
    lemma_unescaped_escaped(bytes);
    encode_utf8_valid_utf8(text);
    encode_utf8_decode_utf8(text);
}

} // verus!
