//! Authenticated encryption with AES-256-GCM, through the `aes-gcm` crate.

use vstd::prelude::*;
use aes_gcm::aead::{AeadInPlace, KeyInit};

verus! {

/// Largest plaintext and associated data that AES-GCM accepts (`2^36` bytes).
pub const GCM_MAX: u64 = 68719476736;

/// The associated data and the plaintext are short enough for AES-GCM.
pub open spec fn gcm_lengths_ok(ad: Seq<u8>, plaintext: Seq<u8>) -> bool {
    plaintext.len() <= GCM_MAX && ad.len() <= GCM_MAX
}

/// The ciphertext followed by the 16-byte tag that AES-256-GCM produces.
pub uninterp spec fn aes256_gcm_ciphertext(key: Seq<u8>, nonce: Seq<u8>, ad: Seq<u8>, plaintext: Seq<u8>) -> Seq<u8>;

/// Calls `<Aes256Gcm as AeadInPlace>::encrypt_in_place` on a buffer holding
/// `plaintext`. The contract claims that it fails only when the plaintext or the associated data exceed `2^36` bytes,
/// and that the result is the ciphertext (as long as the plaintext) followed
/// by the 16-byte tag. Key and nonce of any other length panic in the crate.
#[verifier::external_body]
pub(crate) fn aes256_gcm_encrypt(key: &[u8], nonce: &[u8], ad: &[u8], plaintext: &[u8]) -> (r: Option<Vec<u8>>)
    requires
        key@.len() == 32,
        nonce@.len() == 12,
    ensures
        r is Some <==> gcm_lengths_ok(ad@, plaintext@),
        r matches Some(c) ==> {
            &&& c@ == aes256_gcm_ciphertext(key@, nonce@, ad@, plaintext@)
            &&& c@.len() == plaintext@.len() + 16
        },
{
    let cipher = aes_gcm::Aes256Gcm::new(aes_gcm::Key::<aes_gcm::Aes256Gcm>::from_slice(key));
    let mut buffer = plaintext.to_vec();
    match cipher.encrypt_in_place(aes_gcm::Nonce::from_slice(nonce), ad, &mut buffer) {
        Ok(()) => Some(buffer),
        Err(_) => None,
    }
}

} // verus!
