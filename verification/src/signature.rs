//! The gateway's message-authentication primitive, bridged to an outside
//! implementation.

use vstd::prelude::*;

verus! {

/// Longest input, in bytes, that the MAC primitive accepts.
pub const MAX_MAC_INPUT: u64 = 0x2000000000000000;

/// The twenty-byte legacy MAC of a message under a key: a function of the two
/// alone, computed by an outside implementation.
pub uninterp spec fn hmac_sha1(key: Seq<u8>, data: Seq<u8>) -> Seq<u8>;

/// Relies on ring's hmac::sign with HMAC_SHA1_FOR_LEGACY_USE_ONLY (and
/// hmac::Key::new): the tag depends on key and data alone and is twenty bytes
/// long; inputs beyond the digest's limit are excluded.
#[verifier::external_body]
pub fn hmac_sha1_sign(key: &[u8], data: &[u8]) -> (r: Vec<u8>)
    requires
        key@.len() < MAX_MAC_INPUT,
        data@.len() < MAX_MAC_INPUT,
    ensures
        r@ == hmac_sha1(key@, data@),
        r@.len() == 20,
{
    let k = ring::hmac::Key::new(ring::hmac::HMAC_SHA1_FOR_LEGACY_USE_ONLY, key);
    ring::hmac::sign(&k, data).as_ref().to_vec()
}

/// Relies on ring's hmac::verify (and hmac::Key::new): it succeeds exactly
/// when the tag equals the MAC of the data under the key, compared in
/// constant time.
#[verifier::external_body]
pub fn hmac_sha1_verify(key: &[u8], data: &[u8], tag: &[u8]) -> (r: bool)
    requires
        key@.len() < MAX_MAC_INPUT,
        data@.len() < MAX_MAC_INPUT,
    ensures
        r <==> tag@ == hmac_sha1(key@, data@),
{
    let k = ring::hmac::Key::new(ring::hmac::HMAC_SHA1_FOR_LEGACY_USE_ONLY, key);
    ring::hmac::verify(&k, data, tag).is_ok()
}

} // verus!
