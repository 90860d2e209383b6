//! Checking a batch of Schnorr-signed messages natively.

use vstd::prelude::*;
use vstd::utf8::encode_utf8;
use crate::client::Answer;
use crate::datastructs::{MESSAGES_NUMBER, SIGN_SIZE};
use crate::hexcodec::{hex_decode, hex_decode_spec, hex_decodes};
use crate::native_verification::{
    batch_inputs_ok, batch_inputs_present, batch_msg, batch_text, schnorr_inputs_checkable,
    schnorr_inputs_safe, truncate_bytes, truncated, NativeVerifyError,
};
use crate::signatures::{
    schnorr_key_check, schnorr_key_parses, schnorr_signature_check, schnorr_signature_parses,
    schnorr_verifies, schnorr_verify,
};

pub use crate::native_verification::test_validity;

verus! {

/// Length of a Schnorr verifying key: one byte less than `SIGN_SIZE`.
pub const SCHNORR_KEY_SIZE: usize = 32;

/// What checking the Schnorr signature in hex text `text` over `msg` with
/// the 32-byte key `key` gives, by the cause of failure.
pub open spec fn schnorr_item_outcome(text: Seq<u8>, key: Seq<u8>, msg: Seq<u8>) -> Result<(), NativeVerifyError> {
    if !hex_decodes(text) {
        Err(NativeVerifyError::BadEncoding)
    } else if !schnorr_signature_parses(hex_decode_spec(text)) {
        Err(NativeVerifyError::BadSignature)
    } else if !schnorr_key_parses(key) {
        Err(NativeVerifyError::BadKey)
    } else if schnorr_verifies(key, msg, hex_decode_spec(text)) {
        Ok(())
    } else {
        Err(NativeVerifyError::NotVerified)
    }
}

/// What the Schnorr check of one message means: it accepts exactly a
/// signature text that decodes to a signature that parses and verifies over
/// the whole of `msg` under a key that parses, whatever the length of `msg`;
/// it answers `NotVerified` exactly when all of them decode and parse but the
/// signature does not verify.
pub proof fn lemma_schnorr_item_outcome_meaning(text: Seq<u8>, key: Seq<u8>, msg: Seq<u8>)
    ensures
        schnorr_item_outcome(text, key, msg) is Ok <==> schnorr_item_accepted(text, key, msg),
        schnorr_item_outcome(text, key, msg) == Err::<(), NativeVerifyError>(
            NativeVerifyError::NotVerified,
        ) <==> {
            &&& hex_decodes(text)
            &&& schnorr_signature_parses(hex_decode_spec(text))
            &&& schnorr_key_parses(key)
            &&& !schnorr_verifies(key, msg, hex_decode_spec(text))
        },
{
}

/// A Schnorr-signed message is accepted: the text decodes to a signature
/// that parses, the key parses, and the signature verifies over `msg`.
pub open spec fn schnorr_item_accepted(text: Seq<u8>, key: Seq<u8>, msg: Seq<u8>) -> bool {
    &&& hex_decodes(text)
    &&& schnorr_signature_parses(hex_decode_spec(text))
    &&& schnorr_key_parses(key)
    &&& schnorr_verifies(key, msg, hex_decode_spec(text))
}

/// The outcome for message `i` of a batch: its text cut to the recorded
/// length, its key cut to 32 bytes.
pub open spec fn schnorr_batch_item(
    signed: Seq<String>,
    keys: Seq<Vec<u8>>,
    answers: Seq<Answer>,
    i: int,
) -> Result<(), NativeVerifyError> {
    schnorr_item_outcome(
        batch_text(signed, answers, i),
        truncated(keys[i]@, SCHNORR_KEY_SIZE as int),
        batch_msg(answers, i),
    )
}

/// Every message of a batch passes its check exactly when each one is
/// accepted.
pub proof fn lemma_schnorr_batch_accepted(signed: Seq<String>, keys: Seq<Vec<u8>>, answers: Seq<Answer>, n: int)
    ensures
        (forall|i: int| 0 <= i < n ==> #[trigger] schnorr_batch_item(signed, keys, answers, i) is Ok)
            <==> (forall|i: int|
            0 <= i < n ==> schnorr_item_accepted(
                #[trigger] batch_text(signed, answers, i),
                truncated(keys[i]@, SCHNORR_KEY_SIZE as int),
                batch_msg(answers, i),
            )),
{
    if forall|i: int| 0 <= i < n ==> #[trigger] schnorr_batch_item(signed, keys, answers, i) is Ok {
        assert forall|i: int| 0 <= i < n implies schnorr_item_accepted(
            #[trigger] batch_text(signed, answers, i),
            truncated(keys[i]@, SCHNORR_KEY_SIZE as int),
            batch_msg(answers, i),
        ) by {
            assert(schnorr_batch_item(signed, keys, answers, i) is Ok);
            lemma_schnorr_item_outcome_meaning(
                batch_text(signed, answers, i),
                truncated(keys[i]@, SCHNORR_KEY_SIZE as int),
                batch_msg(answers, i),
            );
        }
    }
    if forall|i: int|
        0 <= i < n ==> schnorr_item_accepted(
            #[trigger] batch_text(signed, answers, i),
            truncated(keys[i]@, SCHNORR_KEY_SIZE as int),
            batch_msg(answers, i),
        ) {
        assert forall|i: int| 0 <= i < n implies #[trigger] schnorr_batch_item(signed, keys, answers, i) is Ok by {
            assert(schnorr_item_accepted(
                batch_text(signed, answers, i),
                truncated(keys[i]@, SCHNORR_KEY_SIZE as int),
                batch_msg(answers, i),
            ));
            lemma_schnorr_item_outcome_meaning(
                batch_text(signed, answers, i),
                truncated(keys[i]@, SCHNORR_KEY_SIZE as int),
                batch_msg(answers, i),
            );
        }
    }
}

/// Every message that the batch reaches (all earlier ones verified) can be
/// checked without a panic.
pub open spec fn schnorr_batch_safe(signed: Seq<String>, keys: Seq<Vec<u8>>, answers: Seq<Answer>, n: int) -> bool {
    forall|i: int|
        0 <= i < n ==> (forall|j: int| 0 <= j < i ==> schnorr_batch_item(signed, keys, answers, j) is Ok)
            ==> schnorr_inputs_safe(
            #[trigger] batch_text(signed, answers, i),
            truncated(keys[i]@, SCHNORR_KEY_SIZE as int),
        )
}

/// Checks one message: its signature text and key are cut first.
fn check_schnorr_item(signed: &String, key: &Vec<u8>, answer: &Answer) -> (r: Result<(), NativeVerifyError>)
    requires
        schnorr_inputs_safe(
            truncated(encode_utf8(signed@), answer.e_len as int),
            truncated(key@, SCHNORR_KEY_SIZE as int),
        ),
    ensures
        r == schnorr_item_outcome(
            truncated(encode_utf8(signed@), answer.e_len as int),
            truncated(key@, SCHNORR_KEY_SIZE as int),
            encode_utf8(answer.msg@),
        ),
        r is Ok <==> schnorr_item_accepted(
            truncated(encode_utf8(signed@), answer.e_len as int),
            truncated(key@, SCHNORR_KEY_SIZE as int),
            encode_utf8(answer.msg@),
        ),
{
    let text = truncate_bytes(signed.as_str().as_bytes(), answer.e_len);
    let key = truncate_bytes(key.as_slice(), SIGN_SIZE - 1);
    let sig = match hex_decode(text) {
        Some(sig) => sig,
        None => {
            return Err(NativeVerifyError::BadEncoding);
        },
    };
    if !schnorr_signature_check(sig.as_slice()) {
        return Err(NativeVerifyError::BadSignature);
    }
    if !schnorr_key_check(key) {
        return Err(NativeVerifyError::BadKey);
    }
    if schnorr_verify(key, answer.msg.as_str().as_bytes(), sig.as_slice()) {
        Ok(())
    } else {
        Err(NativeVerifyError::NotVerified)
    }
}

/// Checks the `MESSAGES_NUMBER` Schnorr-signed messages received from the
/// region, in order, against the answers taken from the end of
/// `right_messages`; stops at the first message that fails. On success
/// returns the number of valid messages.
pub fn verify_message_natively_schoor(
    recv_sig_msg: Vec<String>,
    recv_ver_key: Vec<Vec<u8>>,
    right_messages: Vec<Answer>,
) -> (r: Result<u32, NativeVerifyError>)
    requires
        batch_inputs_ok(recv_sig_msg@, recv_ver_key@, right_messages@, MESSAGES_NUMBER as int),
        schnorr_batch_safe(recv_sig_msg@, recv_ver_key@, right_messages@, MESSAGES_NUMBER as int),
    ensures
        r is Ok <==> forall|i: int|
            0 <= i < MESSAGES_NUMBER ==> #[trigger] schnorr_batch_item(
                recv_sig_msg@,
                recv_ver_key@,
                right_messages@,
                i,
            ) is Ok,
        r is Ok ==> r->Ok_0 == MESSAGES_NUMBER,
        r is Ok <==> forall|i: int|
            0 <= i < MESSAGES_NUMBER ==> schnorr_item_accepted(
                #[trigger] batch_text(recv_sig_msg@, right_messages@, i),
                truncated(recv_ver_key@[i]@, SCHNORR_KEY_SIZE as int),
                batch_msg(right_messages@, i),
            ),
        r matches Err(e) ==> exists|i: int|
            0 <= i < MESSAGES_NUMBER && #[trigger] schnorr_batch_item(
                recv_sig_msg@,
                recv_ver_key@,
                right_messages@,
                i,
            ) == Err::<(), NativeVerifyError>(e) && forall|j: int|
                0 <= j < i ==> schnorr_batch_item(
                    recv_sig_msg@,
                    recv_ver_key@,
                    right_messages@,
                    j,
                ) is Ok,
{
    proof {
        lemma_schnorr_batch_accepted(recv_sig_msg@, recv_ver_key@, right_messages@, MESSAGES_NUMBER as int);
    }
    let mut r_answers: u32 = 0;
    let n_answers = right_messages.len();
    while r_answers < MESSAGES_NUMBER
        invariant
            batch_inputs_ok(recv_sig_msg@, recv_ver_key@, right_messages@, MESSAGES_NUMBER as int),
            schnorr_batch_safe(recv_sig_msg@, recv_ver_key@, right_messages@, MESSAGES_NUMBER as int),
            n_answers == right_messages@.len(),
            r_answers <= MESSAGES_NUMBER,
            forall|j: int|
                0 <= j < r_answers ==> #[trigger] schnorr_batch_item(
                    recv_sig_msg@,
                    recv_ver_key@,
                    right_messages@,
                    j,
                ) is Ok,
        decreases MESSAGES_NUMBER - r_answers,
    {
        let i = r_answers as usize;
        let answer = &right_messages[n_answers - 1 - i];
        assert(schnorr_inputs_safe(
            batch_text(recv_sig_msg@, right_messages@, i as int),
            truncated(recv_ver_key@[i as int]@, SCHNORR_KEY_SIZE as int),
        ));
        let outcome = check_schnorr_item(&recv_sig_msg[i], &recv_ver_key[i], answer);
        assert(outcome == schnorr_batch_item(recv_sig_msg@, recv_ver_key@, right_messages@, i as int));
        match outcome {
            Ok(()) => {
                r_answers = r_answers + 1;
            },
            Err(e) => {
                return Err(e);
            },
        }
    }
    Ok(r_answers)
}

/// Runs `verify_message_natively_schoor` where every message it reaches can
/// be checked, and answers `None` where the batch would stop on a message
/// that cannot (a missing message, a cut off a character boundary, a decoded
/// signature shorter than 32 bytes, or a key other than 32 bytes next to a
/// signature that parses).
pub fn try_verify_message_natively_schoor(
    recv_sig_msg: Vec<String>,
    recv_ver_key: Vec<Vec<u8>>,
    right_messages: Vec<Answer>,
) -> (r: Option<Result<u32, NativeVerifyError>>)
    ensures
        r is Some <==> batch_inputs_ok(recv_sig_msg@, recv_ver_key@, right_messages@, MESSAGES_NUMBER as int)
            && schnorr_batch_safe(recv_sig_msg@, recv_ver_key@, right_messages@, MESSAGES_NUMBER as int),
        r matches Some(v) ==> (v is Ok <==> forall|i: int|
            0 <= i < MESSAGES_NUMBER ==> #[trigger] schnorr_batch_item(
                recv_sig_msg@,
                recv_ver_key@,
                right_messages@,
                i,
            ) is Ok),
        r matches Some(v) ==> (v is Ok ==> v->Ok_0 == MESSAGES_NUMBER),
        r matches Some(v) ==> (v is Ok <==> forall|i: int|
            0 <= i < MESSAGES_NUMBER ==> schnorr_item_accepted(
                #[trigger] batch_text(recv_sig_msg@, right_messages@, i),
                truncated(recv_ver_key@[i]@, SCHNORR_KEY_SIZE as int),
                batch_msg(right_messages@, i),
            )),
        r matches Some(v) ==> (v matches Err(e) ==> exists|i: int|
            0 <= i < MESSAGES_NUMBER && #[trigger] schnorr_batch_item(
                recv_sig_msg@,
                recv_ver_key@,
                right_messages@,
                i,
            ) == Err::<(), NativeVerifyError>(e) && forall|j: int|
                0 <= j < i ==> schnorr_batch_item(
                    recv_sig_msg@,
                    recv_ver_key@,
                    right_messages@,
                    j,
                ) is Ok),
{
    if !batch_inputs_present(&recv_sig_msg, &recv_ver_key, &right_messages, MESSAGES_NUMBER) {
        return None;
    }
    let ghost signed = recv_sig_msg@;
    let ghost keys = recv_ver_key@;
    let ghost answers = right_messages@;
    let n_answers = right_messages.len();
    let mut k: u32 = 0;
    let mut failed = false;
    while k < MESSAGES_NUMBER && !failed
        invariant
            signed == recv_sig_msg@,
            keys == recv_ver_key@,
            answers == right_messages@,
            batch_inputs_ok(signed, keys, answers, MESSAGES_NUMBER as int),
            n_answers == answers.len(),
            k <= MESSAGES_NUMBER,
            !failed ==> forall|j: int| 0 <= j < k ==> #[trigger] schnorr_batch_item(signed, keys, answers, j) is Ok,
            failed ==> exists|j: int| 0 <= j < k && !(#[trigger] schnorr_batch_item(signed, keys, answers, j) is Ok),
            forall|i: int|
                0 <= i < k ==> (forall|j: int| 0 <= j < i ==> schnorr_batch_item(signed, keys, answers, j) is Ok)
                    ==> schnorr_inputs_safe(
                    #[trigger] batch_text(signed, answers, i),
                    truncated(keys[i]@, SCHNORR_KEY_SIZE as int),
                ),
        decreases MESSAGES_NUMBER - k,
    {
        let i = k as usize;
        let answer = &right_messages[n_answers - 1 - i];
        let text = truncate_bytes(recv_sig_msg[i].as_str().as_bytes(), answer.e_len);
        let key = truncate_bytes(recv_ver_key[i].as_slice(), SCHNORR_KEY_SIZE);
        if !schnorr_inputs_checkable(text, key) {
            assert(!schnorr_inputs_safe(
                batch_text(signed, answers, i as int),
                truncated(keys[i as int]@, SCHNORR_KEY_SIZE as int),
            ));
            assert(!schnorr_batch_safe(signed, keys, answers, MESSAGES_NUMBER as int));
            return None;
        }
        let outcome = check_schnorr_item(&recv_sig_msg[i], &recv_ver_key[i], answer);
        assert(outcome == schnorr_batch_item(signed, keys, answers, i as int));
        if outcome.is_err() {
            failed = true;
        }
        k = k + 1;
    }
    assert(schnorr_batch_safe(signed, keys, answers, MESSAGES_NUMBER as int)) by {
        assert forall|i: int|
            0 <= i < MESSAGES_NUMBER && (forall|j: int|
                0 <= j < i ==> schnorr_batch_item(signed, keys, answers, j) is Ok) implies schnorr_inputs_safe(
            #[trigger] batch_text(signed, answers, i),
            truncated(keys[i]@, SCHNORR_KEY_SIZE as int),
        ) by {
            if i >= k {
                assert(failed);
                let j = choose|j: int| 0 <= j < k && !(#[trigger] schnorr_batch_item(signed, keys, answers, j) is Ok);
                assert(schnorr_batch_item(signed, keys, answers, j) is Ok);
            }
        }
    }
    Some(verify_message_natively_schoor(recv_sig_msg, recv_ver_key, right_messages))
}

} // verus!
