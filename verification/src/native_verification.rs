//! Checking signed messages natively: hex-decode the signature, parse it and
//! the verifying key, and verify the signature over the message.

use vstd::prelude::*;
use vstd::slice::slice_subrange;
use vstd::utf8::{encode_utf8, is_char_boundary};
use crate::client::Answer;
use crate::hexcodec::{hex_decode, hex_decode_spec, hex_decodes};
use crate::serdes::StatusFromWasm;
use crate::signatures::{
    schnorr_key_check, schnorr_key_parses, schnorr_signature_check, schnorr_signature_parses,
    schnorr_verifies, schnorr_verify,
};

verus! {

/// What checking the Schnorr signature in hex text `text` over `msg` with the
/// verifying key `key` gives: `Error` when something does not decode,
/// `NotValid` when the signature does not verify.
pub open spec fn schnorr_outcome(text: Seq<u8>, key: Seq<u8>, msg: Seq<u8>) -> Result<(), StatusFromWasm> {
    if !hex_decodes(text) {
        Err(StatusFromWasm::Error)
    } else if !schnorr_signature_parses(hex_decode_spec(text)) {
        Err(StatusFromWasm::Error)
    } else if !schnorr_key_parses(key) {
        Err(StatusFromWasm::Error)
    } else if schnorr_verifies(key, msg, hex_decode_spec(text)) {
        Ok(())
    } else {
        Err(StatusFromWasm::NotValid)
    }
}

/// What the Schnorr check means: it accepts exactly a signature text that
/// decodes to a signature that parses and verifies over `msg` under a key that
/// parses; it answers `NotValid` exactly when all of them decode and parse but
/// the signature does not verify, and `Error` exactly when the text, the
/// signature or the key does not decode.
pub proof fn lemma_schnorr_outcome_meaning(text: Seq<u8>, key: Seq<u8>, msg: Seq<u8>)
    ensures
        schnorr_outcome(text, key, msg) is Ok <==> {
            &&& hex_decodes(text)
            &&& schnorr_signature_parses(hex_decode_spec(text))
            &&& schnorr_key_parses(key)
            &&& schnorr_verifies(key, msg, hex_decode_spec(text))
        },
        schnorr_outcome(text, key, msg) == Err::<(), StatusFromWasm>(StatusFromWasm::NotValid) <==> {
            &&& hex_decodes(text)
            &&& schnorr_signature_parses(hex_decode_spec(text))
            &&& schnorr_key_parses(key)
            &&& !schnorr_verifies(key, msg, hex_decode_spec(text))
        },
        schnorr_outcome(text, key, msg) == Err::<(), StatusFromWasm>(StatusFromWasm::Error) <==> !{
            &&& hex_decodes(text)
            &&& schnorr_signature_parses(hex_decode_spec(text))
            &&& schnorr_key_parses(key)
        },
{
}

/// The inputs on which the Schnorr check does not panic: the decoded
/// signature has at least 32 bytes and, once it parses, the key has 32 bytes.
pub open spec fn schnorr_inputs_safe(text: Seq<u8>, key: Seq<u8>) -> bool {
    hex_decodes(text) ==> {
        &&& hex_decode_spec(text).len() >= 32
        &&& schnorr_signature_parses(hex_decode_spec(text)) ==> key.len() == 32
    }
}

/// Checks one Schnorr-signed message.
pub fn verify_message_natively(
    encoded_signed_msg: &String,
    encoded_vkey: &Vec<u8>,
    _testmessage: &String,
) -> (r: Result<(), StatusFromWasm>)
    requires
        schnorr_inputs_safe(encode_utf8(encoded_signed_msg@), encoded_vkey@),
    ensures
        r == schnorr_outcome(
            encode_utf8(encoded_signed_msg@),
            encoded_vkey@,
            encode_utf8(_testmessage@),
        ),
        ({
            let text = encode_utf8(encoded_signed_msg@);
            let sig = hex_decode_spec(text);
            let decodes = hex_decodes(text) && schnorr_signature_parses(sig) && schnorr_key_parses(
                encoded_vkey@,
            );
            &&& r is Ok <==> decodes && schnorr_verifies(encoded_vkey@, encode_utf8(_testmessage@), sig)
            &&& r == Err::<(), StatusFromWasm>(StatusFromWasm::NotValid) <==> decodes && !schnorr_verifies(
                encoded_vkey@,
                encode_utf8(_testmessage@),
                sig,
            )
            &&& r == Err::<(), StatusFromWasm>(StatusFromWasm::Error) <==> !decodes
        }),
{
    let text = encoded_signed_msg.as_str().as_bytes();
    let sig = match hex_decode(text) {
        Some(sig) => sig,
        None => {
            return Err(StatusFromWasm::Error);
        },
    };
    if !schnorr_signature_check(sig.as_slice()) {
        return Err(StatusFromWasm::Error);
    }
    if !schnorr_key_check(encoded_vkey.as_slice()) {
        return Err(StatusFromWasm::Error);
    }
    if schnorr_verify(encoded_vkey.as_slice(), _testmessage.as_str().as_bytes(), sig.as_slice()) {
        Ok(())
    } else {
        Err(StatusFromWasm::NotValid)
    }
}

/// Whether the Schnorr check can run on these inputs without a panic.
pub fn schnorr_inputs_checkable(text: &[u8], key: &[u8]) -> (b: bool)
    ensures
        b == schnorr_inputs_safe(text@, key@),
{
    match hex_decode(text) {
        None => true,
        Some(sig) => {
            if sig.len() < 32 {
                false
            } else if schnorr_signature_check(sig.as_slice()) {
                key.len() == 32
            } else {
                true
            }
        },
    }
}

/// Runs `verify_message_natively` where its inputs can be checked, and
/// answers `None` where they cannot (a decoded signature shorter than 32
/// bytes, or a key other than 32 bytes next to a signature that parses).
pub fn try_verify_message_natively(
    encoded_signed_msg: &String,
    encoded_vkey: &Vec<u8>,
    _testmessage: &String,
) -> (r: Option<Result<(), StatusFromWasm>>)
    ensures
        r is Some <==> schnorr_inputs_safe(encode_utf8(encoded_signed_msg@), encoded_vkey@),
        r matches Some(v) ==> v == schnorr_outcome(
            encode_utf8(encoded_signed_msg@),
            encoded_vkey@,
            encode_utf8(_testmessage@),
        ),
{
    if schnorr_inputs_checkable(encoded_signed_msg.as_str().as_bytes(), encoded_vkey.as_slice()) {
        Some(verify_message_natively(encoded_signed_msg, encoded_vkey, _testmessage))
    } else {
        None
    }
}

/// A signature that verified nowhere.
#[derive(Debug, Clone, Copy, PartialEq, Eq, Structural)]
pub struct VerificationFailed;

/// The inputs on which `test_validity` does not panic: the signature text
/// decodes to a signature that parses, and the key parses.
pub open spec fn validity_inputs_ok(key: Seq<u8>, text: Seq<u8>) -> bool {
    &&& hex_decodes(text)
    &&& hex_decode_spec(text).len() >= 32
    &&& schnorr_signature_parses(hex_decode_spec(text))
    &&& key.len() == 32
    &&& schnorr_key_parses(key)
}

/// Checks one Schnorr-signed message whose parts are known to decode.
pub fn test_validity(encoded_vkey: &[u8], encoded_signed_msg: &str, _testmessage: &str) -> (r: Result<
    (),
    VerificationFailed,
>)
    requires
        validity_inputs_ok(encoded_vkey@, encode_utf8(encoded_signed_msg@)),
    ensures
        r is Ok <==> schnorr_verifies(
            encoded_vkey@,
            encode_utf8(_testmessage@),
            hex_decode_spec(encode_utf8(encoded_signed_msg@)),
        ),
{
    let sig = match hex_decode(encoded_signed_msg.as_bytes()) {
        Some(sig) => sig,
        None => {
            assert(false);
            return Err(VerificationFailed);
        },
    };
    if schnorr_verify(encoded_vkey, _testmessage.as_bytes(), sig.as_slice()) {
        Ok(())
    } else {
        Err(VerificationFailed)
    }
}

/// Runs `test_validity` where its inputs decode, and answers `None` where
/// the signature text or the key does not decode.
pub fn try_test_validity(encoded_vkey: &[u8], encoded_signed_msg: &str, _testmessage: &str) -> (r:
    Option<Result<(), VerificationFailed>>)
    ensures
        r is Some <==> validity_inputs_ok(encoded_vkey@, encode_utf8(encoded_signed_msg@)),
        r matches Some(v) ==> (v is Ok <==> schnorr_verifies(
            encoded_vkey@,
            encode_utf8(_testmessage@),
            hex_decode_spec(encode_utf8(encoded_signed_msg@)),
        )),
{
    let sig = match hex_decode(encoded_signed_msg.as_bytes()) {
        Some(sig) => sig,
        None => {
            return None;
        },
    };
    if sig.len() < 32 || !schnorr_signature_check(sig.as_slice()) {
        return None;
    }
    if encoded_vkey.len() != 32 || !schnorr_key_check(encoded_vkey) {
        return None;
    }
    Some(test_validity(encoded_vkey, encoded_signed_msg, _testmessage))
}

/// Why a batch check stopped.
#[derive(Debug, Clone, Copy, PartialEq, Eq, Structural)]
pub enum NativeVerifyError {
    /// The signature text is not hex.
    BadEncoding,
    /// The decoded signature does not parse.
    BadSignature,
    /// The verifying key does not parse.
    BadKey,
    /// The signature does not verify.
    NotVerified,
}

/// `s` cut to its first `n` bytes (unchanged when it is shorter).
pub open spec fn truncated(s: Seq<u8>, n: int) -> Seq<u8> {
    if n < s.len() {
        s.subrange(0, n)
    } else {
        s
    }
}

/// `String::truncate(n)` does not panic on a string with these bytes.
pub open spec fn truncation_allowed(s: Seq<u8>, n: int) -> bool {
    n >= s.len() || is_char_boundary(s, n)
}

/// Message `i` of a batch is checked against the answer taken from the end:
/// the `i`-th one counted from the back.
pub open spec fn batch_answer(answers: Seq<Answer>, i: int) -> Answer {
    answers[answers.len() - 1 - i]
}

/// The signature text of message `i` of a batch, cut to the length the
/// matching answer recorded.
pub open spec fn batch_text(signed: Seq<String>, answers: Seq<Answer>, i: int) -> Seq<u8> {
    truncated(encode_utf8(signed[i]@), batch_answer(answers, i).e_len as int)
}

/// The message text that message `i` of a batch must have been signed over.
pub open spec fn batch_msg(answers: Seq<Answer>, i: int) -> Seq<u8> {
    encode_utf8(batch_answer(answers, i).msg@)
}

/// The inputs of a batch of `n` messages are there, and each signature text
/// can be cut where its answer says.
pub open spec fn batch_inputs_ok(signed: Seq<String>, keys: Seq<Vec<u8>>, answers: Seq<Answer>, n: int) -> bool {
    &&& signed.len() >= n
    &&& keys.len() >= n
    &&& answers.len() >= n
    &&& forall|i: int|
        0 <= i < n ==> truncation_allowed(
            encode_utf8(#[trigger] signed[i]@),
            batch_answer(answers, i).e_len as int,
        )
}

/// Whether each message of a batch of `n` is there and can be cut where its
/// answer says.
pub fn batch_inputs_present(signed: &Vec<String>, keys: &Vec<Vec<u8>>, answers: &Vec<Answer>, n: u32) -> (b: bool)
    ensures
        b == batch_inputs_ok(signed@, keys@, answers@, n as int),
{
    if signed.len() < n as usize || keys.len() < n as usize || answers.len() < n as usize {
        return false;
    }
    let mut i: usize = 0;
    while i < n as usize
        invariant
            signed@.len() >= n,
            keys@.len() >= n,
            answers@.len() >= n,
            i <= n,
            forall|j: int|
                0 <= j < i ==> truncation_allowed(
                    encode_utf8(#[trigger] signed@[j]@),
                    batch_answer(answers@, j).e_len as int,
                ),
        decreases n - i,
    {
        let s = signed[i].as_str();
        let e_len = answers[answers.len() - 1 - i].e_len;
        assert(e_len == batch_answer(answers@, i as int).e_len);
        assert(s@ == signed@[i as int]@);
        let len = s.as_bytes().len();
        assert(len == encode_utf8(signed@[i as int]@).len());
        if !(e_len >= len || s.is_char_boundary(e_len)) {
            assert(!truncation_allowed(encode_utf8(signed@[i as int]@), batch_answer(answers@, i as int).e_len as int));
            return false;
        }
        i = i + 1;
    }
    true
}

/// `text` cut to `n` bytes, as `String::truncate` cuts a string.
pub fn truncate_bytes(text: &[u8], n: usize) -> (r: &[u8])
    ensures
        r@ == truncated(text@, n as int),
{
    if n < text.len() {
        slice_subrange(text, 0, n)
    } else {
        text
    }
}

} // verus!
