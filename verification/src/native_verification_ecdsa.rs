//! Checking a batch of ECDSA-signed messages natively.

use vstd::prelude::*;
use vstd::utf8::encode_utf8;
use crate::client::Answer;
use crate::datastructs::{MESSAGES_NUMBER, SIGN_SIZE};
use crate::hexcodec::{hex_decode, hex_decode_spec, hex_decodes};
use crate::native_verification::{
    batch_inputs_ok, batch_msg, batch_text, truncate_bytes, truncated,
    NativeVerifyError,
};
use crate::signatures::{
    ecdsa_key_check, ecdsa_key_parses, ecdsa_signature_check, ecdsa_signature_parses,
    ecdsa_verifies, ecdsa_verify,
};

verus! {

/// What checking the DER signature in hex text `text` over `msg` with the
/// SEC1 key `key` gives.
pub open spec fn ecdsa_outcome(text: Seq<u8>, key: Seq<u8>, msg: Seq<u8>) -> Result<(), NativeVerifyError> {
    if !hex_decodes(text) {
        Err(NativeVerifyError::BadEncoding)
    } else if !ecdsa_signature_parses(hex_decode_spec(text)) {
        Err(NativeVerifyError::BadSignature)
    } else if !ecdsa_key_parses(key) {
        Err(NativeVerifyError::BadKey)
    } else if ecdsa_verifies(key, msg, hex_decode_spec(text)) {
        Ok(())
    } else {
        Err(NativeVerifyError::NotVerified)
    }
}

/// The outcome for message `i` of a batch: its text cut to the recorded
/// length, its key cut to `SIGN_SIZE` bytes.
pub open spec fn ecdsa_batch_item(
    signed: Seq<String>,
    keys: Seq<Vec<u8>>,
    answers: Seq<Answer>,
    i: int,
) -> Result<(), NativeVerifyError> {
    ecdsa_outcome(
        batch_text(signed, answers, i),
        truncated(keys[i]@, SIGN_SIZE as int),
        batch_msg(answers, i),
    )
}

/// An ECDSA-signed message is accepted: the text decodes to a DER signature
/// that parses, the SEC1 key parses, and the signature verifies over `msg`.
pub open spec fn ecdsa_item_accepted(text: Seq<u8>, key: Seq<u8>, msg: Seq<u8>) -> bool {
    &&& hex_decodes(text)
    &&& ecdsa_signature_parses(hex_decode_spec(text))
    &&& ecdsa_key_parses(key)
    &&& ecdsa_verifies(key, msg, hex_decode_spec(text))
}

/// What the ECDSA check of one message means: it accepts exactly a
/// signature that decodes, parses and verifies over `msg` under a key that
/// parses; it answers `NotVerified` exactly when all of them decode and parse
/// but the signature does not verify.
pub proof fn lemma_ecdsa_outcome_meaning(text: Seq<u8>, key: Seq<u8>, msg: Seq<u8>)
    ensures
        ecdsa_outcome(text, key, msg) is Ok <==> ecdsa_item_accepted(text, key, msg),
        ecdsa_outcome(text, key, msg) == Err::<(), NativeVerifyError>(NativeVerifyError::NotVerified)
            <==> {
            &&& hex_decodes(text)
            &&& ecdsa_signature_parses(hex_decode_spec(text))
            &&& ecdsa_key_parses(key)
            &&& !ecdsa_verifies(key, msg, hex_decode_spec(text))
        },
{
}

/// Every message of a batch passes its check exactly when each one, its
/// text cut to the recorded length and its key to `SIGN_SIZE` bytes, is
/// accepted: a batch passes only if every signature verifies under its own
/// key over its own expected message.
pub proof fn lemma_ecdsa_batch_accepted(signed: Seq<String>, keys: Seq<Vec<u8>>, answers: Seq<Answer>, n: int)
    ensures
        (forall|i: int| 0 <= i < n ==> #[trigger] ecdsa_batch_item(signed, keys, answers, i) is Ok)
            <==> (forall|i: int|
            0 <= i < n ==> ecdsa_item_accepted(
                #[trigger] batch_text(signed, answers, i),
                truncated(keys[i]@, SIGN_SIZE as int),
                batch_msg(answers, i),
            )),
{
    if forall|i: int| 0 <= i < n ==> #[trigger] ecdsa_batch_item(signed, keys, answers, i) is Ok {
        assert forall|i: int| 0 <= i < n implies ecdsa_item_accepted(
            #[trigger] batch_text(signed, answers, i),
            truncated(keys[i]@, SIGN_SIZE as int),
            batch_msg(answers, i),
        ) by {
            assert(ecdsa_batch_item(signed, keys, answers, i) is Ok);
            lemma_ecdsa_outcome_meaning(
                batch_text(signed, answers, i),
                truncated(keys[i]@, SIGN_SIZE as int),
                batch_msg(answers, i),
            );
        }
    }
    if forall|i: int|
        0 <= i < n ==> ecdsa_item_accepted(
            #[trigger] batch_text(signed, answers, i),
            truncated(keys[i]@, SIGN_SIZE as int),
            batch_msg(answers, i),
        ) {
        assert forall|i: int| 0 <= i < n implies #[trigger] ecdsa_batch_item(signed, keys, answers, i) is Ok by {
            assert(ecdsa_item_accepted(
                batch_text(signed, answers, i),
                truncated(keys[i]@, SIGN_SIZE as int),
                batch_msg(answers, i),
            ));
            lemma_ecdsa_outcome_meaning(
                batch_text(signed, answers, i),
                truncated(keys[i]@, SIGN_SIZE as int),
                batch_msg(answers, i),
            );
        }
    }
}

/// Checks one message: its signature text and key are cut first.
fn check_ecdsa_item(signed: &String, key: &Vec<u8>, answer: &Answer) -> (r: Result<(), NativeVerifyError>)
    ensures
        r == ecdsa_outcome(
            truncated(encode_utf8(signed@), answer.e_len as int),
            truncated(key@, SIGN_SIZE as int),
            encode_utf8(answer.msg@),
        ),
        r is Ok <==> ecdsa_item_accepted(
            truncated(encode_utf8(signed@), answer.e_len as int),
            truncated(key@, SIGN_SIZE as int),
            encode_utf8(answer.msg@),
        ),
{
    let text = truncate_bytes(signed.as_str().as_bytes(), answer.e_len);
    let key = truncate_bytes(key.as_slice(), SIGN_SIZE);
    let sig = match hex_decode(text) {
        Some(sig) => sig,
        None => {
            return Err(NativeVerifyError::BadEncoding);
        },
    };
    if !ecdsa_signature_check(sig.as_slice()) {
        return Err(NativeVerifyError::BadSignature);
    }
    if !ecdsa_key_check(key) {
        return Err(NativeVerifyError::BadKey);
    }
    if ecdsa_verify(key, answer.msg.as_str().as_bytes(), sig.as_slice()) {
        Ok(())
    } else {
        Err(NativeVerifyError::NotVerified)
    }
}

/// Checks the `MESSAGES_NUMBER` ECDSA-signed messages received from the
/// region, in order, against the answers taken from the end of
/// `right_messages`; stops at the first message that fails. On success
/// returns the number of valid messages.
pub fn verify_message_natively_ecdsa(
    recv_sig_msg: Vec<String>,
    recv_ver_key: Vec<Vec<u8>>,
    right_messages: Vec<Answer>,
) -> (r: Result<u32, NativeVerifyError>)
    requires
        batch_inputs_ok(recv_sig_msg@, recv_ver_key@, right_messages@, MESSAGES_NUMBER as int),
    ensures
        r is Ok <==> forall|i: int|
            0 <= i < MESSAGES_NUMBER ==> #[trigger] ecdsa_batch_item(
                recv_sig_msg@,
                recv_ver_key@,
                right_messages@,
                i,
            ) is Ok,
        r is Ok ==> r->Ok_0 == MESSAGES_NUMBER,
        r is Ok <==> forall|i: int|
            0 <= i < MESSAGES_NUMBER ==> ecdsa_item_accepted(
                #[trigger] batch_text(recv_sig_msg@, right_messages@, i),
                truncated(recv_ver_key@[i]@, SIGN_SIZE as int),
                batch_msg(right_messages@, i),
            ),
        r matches Err(e) ==> exists|i: int|
            0 <= i < MESSAGES_NUMBER && #[trigger] ecdsa_batch_item(
                recv_sig_msg@,
                recv_ver_key@,
                right_messages@,
                i,
            ) == Err::<(), NativeVerifyError>(e) && forall|j: int|
                0 <= j < i ==> ecdsa_batch_item(
                    recv_sig_msg@,
                    recv_ver_key@,
                    right_messages@,
                    j,
                ) is Ok,
{
    proof {
        lemma_ecdsa_batch_accepted(recv_sig_msg@, recv_ver_key@, right_messages@, MESSAGES_NUMBER as int);
    }
    let mut r_answers: u32 = 0;
    let n_answers = right_messages.len();
    while r_answers < MESSAGES_NUMBER
        invariant
            batch_inputs_ok(recv_sig_msg@, recv_ver_key@, right_messages@, MESSAGES_NUMBER as int),
            n_answers == right_messages@.len(),
            r_answers <= MESSAGES_NUMBER,
            forall|j: int|
                0 <= j < r_answers ==> #[trigger] ecdsa_batch_item(
                    recv_sig_msg@,
                    recv_ver_key@,
                    right_messages@,
                    j,
                ) is Ok,
        decreases MESSAGES_NUMBER - r_answers,
    {
        let i = r_answers as usize;
        let answer = &right_messages[n_answers - 1 - i];
        let outcome = check_ecdsa_item(&recv_sig_msg[i], &recv_ver_key[i], answer);
        assert(outcome == ecdsa_batch_item(recv_sig_msg@, recv_ver_key@, right_messages@, i as int));
        match outcome {
            Ok(()) => {
                r_answers = r_answers + 1;
            },
            Err(e) => {
                return Err(e);
            },
        }
    }
    Ok(r_answers)
}

} // verus!
