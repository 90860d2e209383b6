//! What the trip through the shared-memory region keeps: the reader cuts the
//! zero-padded fields back to the lengths the writer stored, so a message
//! that passes the native check before the trip passes it after.

use vstd::prelude::*;
use vstd::utf8::{
    is_char_boundary_iff_not_is_continuation_byte,
    is_char_boundary_start_end_of_seq, is_continuation_byte, valid_utf8,
};
use crate::datastructs::{zero_padded, SIGN_SIZE, STRING_SIZE};
use crate::native_verification::{
    schnorr_outcome, truncated, truncation_allowed, NativeVerifyError,
};
use crate::native_verification_ecdsa::ecdsa_outcome;
use crate::native_verification_schoor::{schnorr_item_outcome, SCHNORR_KEY_SIZE};
use crate::serdes::StatusFromWasm;
use crate::shmem::lemma_padded_text_valid;

verus! {

/// Cutting a zero-padded field at the length of what was stored gives back
/// what was stored, and for UTF-8 text the cut lies on a character boundary
/// (so `String::truncate` accepts it).
pub proof fn lemma_padding_then_truncation(t: Seq<u8>)
    requires
        t.len() <= STRING_SIZE,
    ensures
        truncated(zero_padded(t), t.len() as int) == t,
        valid_utf8(t) ==> truncation_allowed(zero_padded(t), t.len() as int),
{
    let p = zero_padded(t);
    assert(p.subrange(0, t.len() as int) =~= t);
    if valid_utf8(t) {
        lemma_padded_text_valid(t);
        if t.len() < STRING_SIZE {
            assert(p[t.len() as int] == 0u8);
            assert(!is_continuation_byte(0u8));
            is_char_boundary_iff_not_is_continuation_byte(p, t.len() as int);
        } else {
            assert(p =~= t);
            is_char_boundary_start_end_of_seq(p);
        }
    }
}

/// An ECDSA message that passes the native check still passes it after the
/// trip through the region: its hex text and its 33-byte key, padded with
/// zeros and cut back to the stored text length and `SIGN_SIZE` bytes.
pub proof fn lemma_ecdsa_check_survives_region(text: Seq<u8>, key: Seq<u8>, msg: Seq<u8>)
    requires
        text.len() <= STRING_SIZE,
        key.len() == SIGN_SIZE,
        ecdsa_outcome(text, key, msg) == Ok::<(), NativeVerifyError>(()),
    ensures
        ecdsa_outcome(
            truncated(zero_padded(text), text.len() as int),
            truncated(zero_padded(key), SIGN_SIZE as int),
            msg,
        ) == Ok::<(), NativeVerifyError>(()),
{
    lemma_padding_then_truncation(text);
    lemma_padding_then_truncation(key);
}

/// A Schnorr message that passes the native check still passes it after the
/// trip through the region: its hex text and its 32-byte key, padded with
/// zeros and cut back to the stored text length and 32 bytes.
pub proof fn lemma_schnorr_check_survives_region(text: Seq<u8>, key: Seq<u8>, msg: Seq<u8>)
    requires
        text.len() <= STRING_SIZE,
        key.len() == SCHNORR_KEY_SIZE,
        schnorr_outcome(text, key, msg) == Ok::<(), StatusFromWasm>(()),
    ensures
        schnorr_item_outcome(
            truncated(zero_padded(text), text.len() as int),
            truncated(zero_padded(key), SCHNORR_KEY_SIZE as int),
            msg,
        ) == Ok::<(), NativeVerifyError>(()),
{
    lemma_padding_then_truncation(text);
    lemma_padding_then_truncation(key);
}

} // verus!
