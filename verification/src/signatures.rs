//! Calls into `k256` for Schnorr (BIP-340) and ECDSA signatures over
//! secp256k1. The library keeps keys and signatures as plain bytes; each
//! wrapper below turns its byte arguments into the crate's types and makes one
//! call.

use vstd::prelude::*;
use k256::ecdsa::signature::{Signer, Verifier};

verus! {

/// Whether `k256::schnorr::Signature::try_from` accepts `sig`.
pub uninterp spec fn schnorr_signature_parses(sig: Seq<u8>) -> bool;

/// Whether `k256::schnorr::VerifyingKey::from_bytes` accepts `key`.
pub uninterp spec fn schnorr_key_parses(key: Seq<u8>) -> bool;

/// Whether Schnorr verification of `sig` over `msg` with `key` succeeds.
pub uninterp spec fn schnorr_verifies(key: Seq<u8>, msg: Seq<u8>, sig: Seq<u8>) -> bool;

/// The verifying key (32 bytes) of the Schnorr signing key `secret`, if
/// `k256::schnorr::SigningKey::from_bytes` accepts `secret`.
pub uninterp spec fn schnorr_public_key(secret: Seq<u8>) -> Option<Seq<u8>>;

/// The Schnorr signature of `msg` with `secret`, if signing succeeds.
pub uninterp spec fn schnorr_signature(secret: Seq<u8>, msg: Seq<u8>) -> Option<Seq<u8>>;

/// Whether `k256::ecdsa::Signature::from_der` accepts `der`.
pub uninterp spec fn ecdsa_signature_parses(der: Seq<u8>) -> bool;

/// Whether `k256::ecdsa::VerifyingKey::from_sec1_bytes` accepts `key`.
pub uninterp spec fn ecdsa_key_parses(key: Seq<u8>) -> bool;

/// Whether ECDSA verification of `der` over `msg` with `key` succeeds.
pub uninterp spec fn ecdsa_verifies(key: Seq<u8>, msg: Seq<u8>, der: Seq<u8>) -> bool;

/// The SEC1 verifying key of the ECDSA signing key `secret`, if
/// `k256::ecdsa::SigningKey::from_slice` accepts `secret`.
pub uninterp spec fn ecdsa_public_key(secret: Seq<u8>) -> Option<Seq<u8>>;

/// The DER-encoded ECDSA signature of `msg` with `secret`, if signing
/// succeeds.
pub uninterp spec fn ecdsa_signature(secret: Seq<u8>, msg: Seq<u8>) -> Option<Seq<u8>>;

/// Calls `<k256::schnorr::Signature as TryFrom<&[u8]>>::try_from`. The crate
/// splits the input at byte 32 (which panics on shorter input) and parses
/// both halves as 32-byte values, so an accepted input has 64 bytes.
#[verifier::external_body]
pub(crate) fn schnorr_signature_check(sig: &[u8]) -> (r: bool)
    requires
        sig@.len() >= 32,
    ensures
        r == schnorr_signature_parses(sig@),
        r ==> sig@.len() == 64,
{
    k256::schnorr::Signature::try_from(sig).is_ok()
}

/// Calls `k256::schnorr::VerifyingKey::from_bytes`, which reads the input as
/// a 32-byte x-coordinate (and panics on any other length).
#[verifier::external_body]
pub(crate) fn schnorr_key_check(key: &[u8]) -> (r: bool)
    requires
        key@.len() == 32,
    ensures
        r == schnorr_key_parses(key@),
{
    k256::schnorr::VerifyingKey::from_bytes(key).is_ok()
}

/// Calls `<k256::schnorr::VerifyingKey as Verifier>::verify` on the key and
/// signature that the two parsing calls above accept.
#[verifier::external_body]
pub(crate) fn schnorr_verify(key: &[u8], msg: &[u8], sig: &[u8]) -> (r: bool)
    requires
        key@.len() == 32,
        schnorr_key_parses(key@),
        sig@.len() >= 32,
        schnorr_signature_parses(sig@),
    ensures
        r == schnorr_verifies(key@, msg@, sig@),
{
    let key = k256::schnorr::VerifyingKey::from_bytes(key).unwrap();
    let sig = k256::schnorr::Signature::try_from(sig).unwrap();
    key.verify(msg, &sig).is_ok()
}

/// Calls `k256::schnorr::SigningKey::from_bytes` and returns the bytes of
/// the signing key's verifying key (`verifying_key().to_bytes()`). The
/// contract claims that these are 32 bytes that `VerifyingKey::from_bytes`
/// accepts again (the key is kept with an even y).
#[verifier::external_body]
pub(crate) fn schnorr_public_key_of(secret: &[u8]) -> (r: Option<Vec<u8>>)
    ensures
        r is Some <==> schnorr_public_key(secret@) is Some,
        r matches Some(pk) ==> {
            &&& pk@ == schnorr_public_key(secret@)->0
            &&& pk@.len() == 32
            &&& schnorr_key_parses(pk@)
        },
{
    match k256::schnorr::SigningKey::from_bytes(secret) {
        Ok(k) => Some(k.verifying_key().to_bytes().to_vec()),
        Err(_) => None,
    }
}

/// Calls `<k256::schnorr::SigningKey as Signer>::try_sign` and returns the
/// signature's bytes. The contract claims that a signature is 64 bytes that
/// `Signature::try_from` accepts and that verify with the signing key's
/// verifying key over the same message: the crate's `sign_raw` checks exactly
/// that in debug builds before it returns.
#[verifier::external_body]
pub(crate) fn schnorr_sign(secret: &[u8], msg: &[u8]) -> (r: Option<Vec<u8>>)
    requires
        schnorr_public_key(secret@) is Some,
    ensures
        r is Some <==> schnorr_signature(secret@, msg@) is Some,
        r matches Some(sig) ==> {
            &&& sig@ == schnorr_signature(secret@, msg@)->0
            &&& sig@.len() == 64
            &&& schnorr_signature_parses(sig@)
            &&& schnorr_verifies(schnorr_public_key(secret@)->0, msg@, sig@)
        },
{
    let key = k256::schnorr::SigningKey::from_bytes(secret).unwrap();
    let sig: Result<k256::schnorr::Signature, _> = key.try_sign(msg);
    sig.ok().map(|s| s.to_bytes().to_vec())
}

/// Calls `k256::ecdsa::Signature::from_der`.
#[verifier::external_body]
pub(crate) fn ecdsa_signature_check(der: &[u8]) -> (r: bool)
    ensures
        r == ecdsa_signature_parses(der@),
{
    k256::ecdsa::Signature::from_der(der).is_ok()
}

/// Calls `k256::ecdsa::VerifyingKey::from_sec1_bytes`.
#[verifier::external_body]
pub(crate) fn ecdsa_key_check(key: &[u8]) -> (r: bool)
    ensures
        r == ecdsa_key_parses(key@),
{
    k256::ecdsa::VerifyingKey::from_sec1_bytes(key).is_ok()
}

/// Calls `<k256::ecdsa::VerifyingKey as Verifier>::verify` on the key and
/// signature that the two parsing calls above accept.
#[verifier::external_body]
pub(crate) fn ecdsa_verify(key: &[u8], msg: &[u8], der: &[u8]) -> (r: bool)
    requires
        ecdsa_key_parses(key@),
        ecdsa_signature_parses(der@),
    ensures
        r == ecdsa_verifies(key@, msg@, der@),
{
    let key = k256::ecdsa::VerifyingKey::from_sec1_bytes(key).unwrap();
    let sig = k256::ecdsa::Signature::from_der(der).unwrap();
    key.verify(msg, &sig).is_ok()
}

/// Calls `k256::ecdsa::SigningKey::from_slice` and returns the SEC1 bytes of
/// its verifying key (`verifying_key().to_sec1_bytes()`). The contract claims
/// that k256 compresses points, so the key has 33 bytes, and that
/// `VerifyingKey::from_sec1_bytes` accepts it again.
#[verifier::external_body]
pub(crate) fn ecdsa_public_key_of(secret: &[u8]) -> (r: Option<Vec<u8>>)
    ensures
        r is Some <==> ecdsa_public_key(secret@) is Some,
        r matches Some(pk) ==> {
            &&& pk@ == ecdsa_public_key(secret@)->0
            &&& pk@.len() == 33
            &&& ecdsa_key_parses(pk@)
        },
{
    match k256::ecdsa::SigningKey::from_slice(secret) {
        Ok(k) => Some(k.verifying_key().to_sec1_bytes().to_vec()),
        Err(_) => None,
    }
}

/// Calls `<k256::ecdsa::SigningKey as Signer>::try_sign` and returns the DER
/// encoding of the signature (`to_der()`). The contract claims that the DER
/// signature takes at most 72 bytes (a two-byte sequence header and two
/// integers below the group order, each at most 33 bytes with its two-byte
/// header), that `Signature::from_der` accepts it, and that it verifies with
/// the signing key's verifying key over the same message.
#[verifier::external_body]
pub(crate) fn ecdsa_sign(secret: &[u8], msg: &[u8]) -> (r: Option<Vec<u8>>)
    requires
        ecdsa_public_key(secret@) is Some,
    ensures
        r is Some <==> ecdsa_signature(secret@, msg@) is Some,
        r matches Some(der) ==> {
            &&& der@ == ecdsa_signature(secret@, msg@)->0
            &&& der@.len() <= 72
            &&& ecdsa_signature_parses(der@)
            &&& ecdsa_verifies(ecdsa_public_key(secret@)->0, msg@, der@)
        },
{
    let key = k256::ecdsa::SigningKey::from_slice(secret).unwrap();
    let sig: Result<k256::ecdsa::Signature, _> = key.try_sign(msg);
    sig.ok().map(|s| s.to_der().as_bytes().to_vec())
}

} // verus!
