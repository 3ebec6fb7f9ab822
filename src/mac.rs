//! The keyed-hash primitive: HMAC-SHA-256 from the `hmac` and `sha2` crates.
//!
//! A MAC instance is opaque here. Its behaviour is described by two names for
//! what an instance holds (the key it was initialised with and the bytes it has
//! absorbed since) and one name for the tag that HMAC-SHA-256 produces.
//! The SHA-256 type is a deep stack of `digest` and `typenum` generics that
//! Verus cannot declare, so the instance sits in a private field of an opaque
//! struct of this crate.

use hmac::{KeyInit, Mac, SimpleHmac};
use sha2::Sha256;
use vstd::prelude::*;

verus! {

/// Number of bytes in an HMAC-SHA-256 tag.
pub const MAC_OUTPUT_SIZE: usize = 32;

/// An HMAC-SHA-256 instance (`hmac::SimpleHmac<sha2::Sha256>`).
#[verifier::external_body]
pub struct HmacSha256 {
    inner: SimpleHmac<Sha256>,
}

/// The MAC implementations that a derivation can run on. It is sealed: only
/// this crate's instance type implements it.
pub trait HmacImpl: crate::sealed::Sealed {}

impl HmacImpl for HmacSha256 {}

/// HMAC-SHA-256 of `msg` under `key`, as defined by RFC 2104 over SHA-256.
pub uninterp spec fn hmac_sha256(key: Seq<u8>, msg: Seq<u8>) -> Seq<u8>;

/// The key that an HMAC instance was initialised with.
pub uninterp spec fn mac_key(m: HmacSha256) -> Seq<u8>;

/// The bytes that an HMAC instance has absorbed since it was keyed, in order.
pub uninterp spec fn mac_absorbed(m: HmacSha256) -> Seq<u8>;

/// Relies on `KeyInit::new_from_slice` for `SimpleHmac`: it accepts a key of any
/// length (it never returns an error) and yields an instance keyed with it that
/// has absorbed nothing.
#[verifier::external_body]
pub(crate) fn mac_new(key: &[u8]) -> (r: HmacSha256)
    ensures
        mac_key(r) == key@,
        mac_absorbed(r) == Seq::<u8>::empty(),
{
    HmacSha256 { inner: <SimpleHmac<Sha256> as KeyInit>::new_from_slice(key).unwrap() }
}

/// Relies on `Mac::update`: appends `data` to what the instance has absorbed.
#[verifier::external_body]
pub(crate) fn mac_update(m: &mut HmacSha256, data: &[u8])
    ensures
        mac_key(*final(m)) == mac_key(*old(m)),
        mac_absorbed(*final(m)) == mac_absorbed(*old(m)) + data@,
{
    Mac::update(&mut m.inner, data)
}

/// Relies on `Mac::finalize`: the HMAC-SHA-256 tag of everything absorbed, under
/// the instance's key.
#[verifier::external_body]
pub(crate) fn mac_finalize(m: HmacSha256) -> (r: [u8; 32])
    ensures
        r@ == hmac_sha256(mac_key(m), mac_absorbed(m)),
{
    m.inner.finalize().into_bytes().into()
}

/// Relies on the derived `Clone` of `SimpleHmac`: the copy holds the same hash
/// state and outer key, so it continues from the same key and absorbed bytes.
#[verifier::external_body]
pub(crate) fn mac_clone(m: &HmacSha256) -> (r: HmacSha256)
    ensures
        mac_key(r) == mac_key(*m),
        mac_absorbed(r) == mac_absorbed(*m),
{
    HmacSha256 { inner: m.inner.clone() }
}

} // verus!
