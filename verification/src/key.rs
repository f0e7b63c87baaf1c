//! Cache keys: a 64-bit digest of the source URL.

use vstd::prelude::*;
use vstd::std_specs::hash::DefaultHasherAdditionalSpecFns;
use vstd::string::StringSliceAdditionalSpecFns;
use vstd::utf8::{encode_utf8, encode_utf8_decode_utf8};
use std::collections::hash_map::DefaultHasher;
use std::hash::Hasher;

verus! {

/// A cache key: 64 bits derived from a source URL.
pub type CacheKey = u64;

/// The byte that ends the digest's input: it occurs in no UTF-8 text, so no
/// two texts give the same input.
pub const TEXT_END: u8 = 0xff;

/// What the hasher is fed for a source URL: the URL's bytes, then the end
/// mark.
pub open spec fn digest_input(source: Seq<char>) -> Seq<Seq<u8>> {
    seq![encode_utf8(source), seq![TEXT_END]]
}

/// The key of a source URL: the digest that the standard library's default
/// hasher gives for the URL's bytes followed by the end mark.
pub open spec fn key_of(source: Seq<char>) -> CacheKey {
    DefaultHasher::spec_finish(digest_input(source))
}

/// Different URLs are hashed from different inputs: where two keys collide,
/// the digest has collided, not what it was fed.
pub proof fn lemma_different_urls_feed_different_inputs(first: Seq<char>, second: Seq<char>)
    requires
        first != second,
    ensures
        digest_input(first) != digest_input(second),
{
    encode_utf8_decode_utf8(first);
    encode_utf8_decode_utf8(second);
    assert(digest_input(first)[0] == encode_utf8(first));
    assert(digest_input(second)[0] == encode_utf8(second));
}

/// Derives the cache key of a source URL. Equal URLs have equal keys.
pub fn derive_key(source: &str) -> (key: CacheKey)
    ensures
        key == key_of(source@),
{
    let mut hasher = DefaultHasher::new();
    hasher.write(source.as_bytes());
    let end: [u8; 1] = [TEXT_END];
    let mark = end.as_slice();
    assert(mark@ =~= seq![TEXT_END]);
    hasher.write(mark);
    assert(hasher@ =~= seq![source.spec_bytes(), seq![TEXT_END]]);
    hasher.finish()
}

} // verus!
