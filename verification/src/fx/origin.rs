//! The identity of a clip and its cache key.

use crate::digest::{
    hex_lower, is_hex_digest, lemma_hex_lower_injective, lemma_hex_lower_is_hex, md5_compute,
    md5_digest, to_hex,
};
use vstd::bytes::{
    lemma_auto_spec_u64_to_from_le_bytes, spec_u64_from_le_bytes, spec_u64_to_le_bytes,
    u64_to_le_bytes,
};
use vstd::prelude::*;
use vstd::string::StrSliceExecFns;
use vstd::utf8::{decode_utf8, encode_utf8, encode_utf8_decode_utf8};

verus! {

/// The identity of a clip: where the media comes from, and which window of it is wanted.
#[derive(Clone, Debug)]
pub struct MediaOrigin {
    /// Where the media is fetched from.
    pub url: String,
    /// Where the clip starts, in whole seconds from the start of the media.
    pub start: u64,
    /// How long the clip is, in whole seconds.
    pub length: u64,
}

impl MediaOrigin {
    /// The canonical encoding: the UTF-8 bytes of the locator, then the start and the length,
    /// each as 8 bytes, low byte first.
    pub open spec fn spec_canonical_bytes(&self) -> Seq<u8> {
        encode_utf8(self.url@) + spec_u64_to_le_bytes(self.start) + spec_u64_to_le_bytes(
            self.length,
        )
    }

    /// The cache key: the MD5 digest of the canonical encoding, in lower-case hexadecimal.
    pub open spec fn spec_cache_key(&self) -> Seq<char> {
        hex_lower(md5_digest(self.spec_canonical_bytes()))
    }

    /// Encodes the origin canonically.
    pub fn canonical_bytes(&self) -> (bytes: Vec<u8>)
        ensures
            bytes@ == self.spec_canonical_bytes(),
    {
        let mut bytes = self.url.as_str().as_bytes_vec();
        let mut start = u64_to_le_bytes(self.start);
        let mut length = u64_to_le_bytes(self.length);
        bytes.append(&mut start);
        bytes.append(&mut length);
        bytes
    }

    /// The key under which the clip is cached: 32 lower-case hexadecimal digits.
    pub fn cache_key(&self) -> (key: String)
        ensures
            key@ == self.spec_cache_key(),
            key@.len() == 32,
            is_hex_digest(key@),
    {
        let bytes = self.canonical_bytes();
        let digest = md5_compute(bytes.as_slice());
        proof {
            lemma_hex_lower_is_hex(digest@);
        }
        to_hex(digest.as_slice())
    }
}

/// Origins with equal fields have equal cache keys.
pub proof fn lemma_equal_origins_have_equal_keys(a: MediaOrigin, b: MediaOrigin)
    requires
        a.url@ == b.url@,
        a.start == b.start,
        a.length == b.length,
    ensures
        a.spec_cache_key() == b.spec_cache_key(),
{
}

/// Origins that differ in any field differ in their canonical encoding: nothing is cut off.
pub proof fn lemma_canonical_bytes_tell_origins_apart(a: MediaOrigin, b: MediaOrigin)
    requires
        a.spec_canonical_bytes() == b.spec_canonical_bytes(),
    ensures
        a.url@ == b.url@,
        a.start == b.start,
        a.length == b.length,
{
    lemma_auto_spec_u64_to_from_le_bytes();
    let bytes = a.spec_canonical_bytes();
    let url_a = encode_utf8(a.url@);
    let url_b = encode_utf8(b.url@);
    let n = url_a.len() as int;
    assert(bytes.len() == url_a.len() + 16);
    assert(bytes.len() == url_b.len() + 16);
    assert(url_a =~= bytes.subrange(0, n));
    assert(url_b =~= bytes.subrange(0, n));
    assert(spec_u64_to_le_bytes(a.start) =~= bytes.subrange(n, n + 8));
    assert(spec_u64_to_le_bytes(b.start) =~= bytes.subrange(n, n + 8));
    assert(spec_u64_to_le_bytes(a.length) =~= bytes.subrange(n + 8, n + 16));
    assert(spec_u64_to_le_bytes(b.length) =~= bytes.subrange(n + 8, n + 16));
    assert(a.start == spec_u64_from_le_bytes(spec_u64_to_le_bytes(a.start)));
    assert(b.start == spec_u64_from_le_bytes(spec_u64_to_le_bytes(b.start)));
    assert(a.length == spec_u64_from_le_bytes(spec_u64_to_le_bytes(a.length)));
    assert(b.length == spec_u64_from_le_bytes(spec_u64_to_le_bytes(b.length)));
    encode_utf8_decode_utf8(a.url@);
    encode_utf8_decode_utf8(b.url@);
    assert(decode_utf8(url_a) == a.url@);
    assert(decode_utf8(url_b) == b.url@);
}

/// The hexadecimal form loses nothing: two origins share a cache key only if the digests of
/// their canonical encodings are the same.
pub proof fn lemma_keys_collide_only_with_digests(a: MediaOrigin, b: MediaOrigin)
    requires
        a.spec_cache_key() == b.spec_cache_key(),
    ensures
        md5_digest(a.spec_canonical_bytes()) == md5_digest(b.spec_canonical_bytes()),
{
    lemma_hex_lower_injective(
        md5_digest(a.spec_canonical_bytes()),
        md5_digest(b.spec_canonical_bytes()),
    );
}

/// Origins that differ in a field have different cache keys, unless the digests of their
/// canonical encodings collide.
pub proof fn lemma_distinct_origins_have_distinct_keys(a: MediaOrigin, b: MediaOrigin)
    requires
        a.url@ != b.url@ || a.start != b.start || a.length != b.length,
        md5_digest(a.spec_canonical_bytes()) != md5_digest(b.spec_canonical_bytes()),
    ensures
        a.spec_canonical_bytes() != b.spec_canonical_bytes(),
        a.spec_cache_key() != b.spec_cache_key(),
{
    if a.spec_cache_key() == b.spec_cache_key() {
        lemma_keys_collide_only_with_digests(a, b);
    }
}

} // verus!
