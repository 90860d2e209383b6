use k256::ecdsa::signature::{Signer, Verifier};
use wasm_rpc::client::{
    check_initial_response, choose_message_kind, construct_message, Answer, BaseRequest, Cmd1,
    ConnectError, Message, Runner, UnknownMessageKind, STREAM_NAME, verifier_for, VerifierKind,
};
use wasm_rpc::native_verification::{
    test_validity, truncate_bytes, try_test_validity, verify_message_natively, NativeVerifyError,
    VerificationFailed,
};
use wasm_rpc::native_verification_ecdsa::verify_message_natively_ecdsa;
use wasm_rpc::native_verification_schoor::verify_message_natively_schoor;
use wasm_rpc::serdes::StatusFromWasm;
use wasm_rpc::native_verification::{batch_inputs_present, try_verify_message_natively};
use wasm_rpc::server::Timestamp;
use wasm_rpc::native_verification_schoor::try_verify_message_natively_schoor;

const SECRET: [u8; 32] = [1u8; 32];
const OTHER_SECRET: [u8; 32] = [2u8; 32];

fn schnorr_parts(secret: &[u8], msg: &str) -> (String, Vec<u8>) {
    let key = k256::schnorr::SigningKey::from_bytes(secret).unwrap();
    let sig: k256::schnorr::Signature = key.sign(msg.as_bytes());
    (hex::encode(sig.to_bytes()), key.verifying_key().to_bytes().to_vec())
}

fn ecdsa_parts(secret: &[u8], msg: &str) -> (String, Vec<u8>) {
    let key = k256::ecdsa::SigningKey::from_slice(secret).unwrap();
    let sig: k256::ecdsa::Signature = key.sign(msg.as_bytes());
    (hex::encode(sig.to_der().as_bytes()), key.verifying_key().to_sec1_bytes().to_vec())
}

#[test]
fn message_kind_from_number() {
    assert_eq!(Message::try_from(0), Ok(Message::Shnoor));
    assert_eq!(Message::try_from(1), Ok(Message::Ecdsa));
    assert_eq!(Message::try_from(2), Err(UnknownMessageKind));
    assert_eq!(Message::try_from(2).unwrap_err().to_string(), "cant make into");
}

#[test]
fn message_kind_choice() {
    assert_eq!(choose_message_kind(1, 6), Message::Ecdsa);
    assert_eq!(choose_message_kind(0, 7), Message::Shnoor);
    assert_eq!(choose_message_kind(2, 6), Message::Shnoor);
    assert_eq!(choose_message_kind(2, 7), Message::Ecdsa);
}

#[test]
fn runner_from_argument() {
    assert_eq!(Runner::from_arg(0), Runner::Wasmtime);
    assert_eq!(Runner::from_arg(1), Runner::Wasm3);
    assert_eq!(Runner::from_arg(2), Runner::Native);
    assert_eq!(Runner::from_arg(3), Runner::Replace);
    assert_eq!(Runner::from_arg(9), Runner::Native);
}

#[test]
fn requests_of_the_client() {
    let now = Timestamp { seconds: 1_700_000_000, nanos: 7 };
    let r = BaseRequest::construct(Cmd1::Establish, now);
    assert_eq!(r.command, 0);
    assert_eq!(r.payload.as_deref(), Some(STREAM_NAME));
    assert_eq!(r.serial, 0);
    assert_eq!(r.timestamp, Some(now));
    let r = BaseRequest::construct(Cmd1::Sending("s".to_string()), now);
    assert_eq!(r.command, 1);
    assert_eq!(r.payload.as_deref(), Some("s"));
    assert_eq!(r.serial, 0);
    assert_eq!(r.timestamp, Some(now));
}

#[test]
fn initial_response_check() {
    assert_eq!(check_initial_response(0), Ok(()));
    assert_eq!(check_initial_response(1), Err(ConnectError::Refused));
    assert_eq!(check_initial_response(2), Err(ConnectError::Refused));
    assert_eq!(check_initial_response(7), Err(ConnectError::UnknownStatus));
}

#[test]
fn construct_schnorr_message() {
    let (sig_hex, key) = schnorr_parts(&SECRET, "Tarodin");
    let (signed, unique_key, msg, len, kind) =
        construct_message(Message::Shnoor, &SECRET, "Tarodin".to_string()).unwrap();
    assert_eq!(signed, sig_hex);
    assert_eq!(unique_key, key);
    assert_eq!(unique_key.len(), 32);
    assert_eq!(msg, "Tarodin");
    assert_eq!(len, 128);
    assert_eq!(kind, Message::Shnoor);
    assert_eq!(verify_message_natively(&signed, &unique_key, &msg), Ok(()));
}

#[test]
fn construct_ecdsa_message() {
    let (sig_hex, key) = ecdsa_parts(&SECRET, "Velmora");
    let (signed, unique_key, msg, len, kind) =
        construct_message(Message::Ecdsa, &SECRET, "Velmora".to_string()).unwrap();
    assert_eq!(signed, sig_hex);
    assert_eq!(unique_key, key);
    assert_eq!(unique_key.len(), 33);
    assert_eq!(len, signed.len());
    assert!(len <= 144);
    assert_eq!(kind, Message::Ecdsa);
    let vk = k256::ecdsa::VerifyingKey::from_sec1_bytes(&unique_key).unwrap();
    let sig = k256::ecdsa::Signature::from_der(&hex::decode(&signed).unwrap()).unwrap();
    assert!(vk.verify(msg.as_bytes(), &sig).is_ok());
}

#[test]
fn construct_refuses_zero_key() {
    assert!(construct_message(Message::Shnoor, &[0u8; 32], "x".to_string()).is_none());
    assert!(construct_message(Message::Ecdsa, &[0u8; 32], "x".to_string()).is_none());
}

#[test]
fn native_check_outcomes() {
    let (sig_hex, key) = schnorr_parts(&SECRET, "Aldren");
    assert_eq!(verify_message_natively(&sig_hex, &key, &"Aldren".to_string()), Ok(()));
    assert_eq!(
        verify_message_natively(&sig_hex, &key, &"Aldrem".to_string()),
        Err(StatusFromWasm::NotValid)
    );
    assert_eq!(
        verify_message_natively(&"zz".to_string(), &key, &"Aldren".to_string()),
        Err(StatusFromWasm::Error)
    );
    let (_, other_key) = schnorr_parts(&OTHER_SECRET, "Aldren");
    assert_eq!(
        verify_message_natively(&sig_hex, &other_key, &"Aldren".to_string()),
        Err(StatusFromWasm::NotValid)
    );
    // a 64-byte signature whose first half is zero does not parse
    let zero_sig = "00".repeat(64);
    assert_eq!(
        verify_message_natively(&zero_sig, &key, &"Aldren".to_string()),
        Err(StatusFromWasm::Error)
    );
}

#[test]
fn validity_test_and_checked_variant() {
    let (sig_hex, key) = schnorr_parts(&SECRET, "Brennick");
    assert_eq!(test_validity(&key, &sig_hex, "Brennick"), Ok(()));
    assert_eq!(test_validity(&key, &sig_hex, "Brennic"), Err(VerificationFailed));
    assert_eq!(try_test_validity(&key, &sig_hex, "Brennick"), Some(Ok(())));
    assert_eq!(try_test_validity(&key, "nothex", "Brennick"), None);
    assert_eq!(try_test_validity(&key[..31], &sig_hex, "Brennick"), None);
    assert_eq!(wasm_rpc::native_verification_schoor::test_validity(&key, &sig_hex, "Brennick"), Ok(()));
}

#[test]
fn truncation_of_bytes() {
    assert_eq!(truncate_bytes(b"abcdef", 3), b"abc");
    assert_eq!(truncate_bytes(b"ab", 3), b"ab");
}

fn padded(s: &str) -> String {
    let mut t = s.to_string();
    while t.len() < 512 {
        t.push('\0');
    }
    t
}

fn padded_key(k: &[u8]) -> Vec<u8> {
    let mut v = k.to_vec();
    v.resize(512, 0);
    v
}

#[test]
fn ecdsa_batch_valid_and_failures() {
    let (s1, k1) = ecdsa_parts(&SECRET, "Corvin");
    let (s2, k2) = ecdsa_parts(&OTHER_SECRET, "Delphine");
    // message i is checked against the answer i-th from the end
    let answers = || {
        vec![
            Answer::new("Delphine".to_string(), s2.len(), Message::Ecdsa),
            Answer::new("Corvin".to_string(), s1.len(), Message::Ecdsa),
        ]
    };
    let signed = vec![padded(&s1), padded(&s2)];
    let keys = vec![padded_key(&k1), padded_key(&k2)];
    assert_eq!(verify_message_natively_ecdsa(signed.clone(), keys.clone(), answers()), Ok(2));
    let swapped = vec![padded(&s2), padded(&s1)];
    assert_eq!(
        verify_message_natively_ecdsa(swapped, keys.clone(), answers()),
        Err(NativeVerifyError::NotVerified)
    );
    let bad_text = vec![padded("xyz"), padded(&s2)];
    let answers_short = vec![
        Answer::new("Delphine".to_string(), s2.len(), Message::Ecdsa),
        Answer::new("Corvin".to_string(), 3, Message::Ecdsa),
    ];
    assert_eq!(
        verify_message_natively_ecdsa(bad_text, keys.clone(), answers_short),
        Err(NativeVerifyError::BadEncoding)
    );
    let not_der = vec![padded("0011"), padded(&s2)];
    let answers_der = vec![
        Answer::new("Delphine".to_string(), s2.len(), Message::Ecdsa),
        Answer::new("Corvin".to_string(), 4, Message::Ecdsa),
    ];
    assert_eq!(
        verify_message_natively_ecdsa(not_der, keys.clone(), answers_der),
        Err(NativeVerifyError::BadSignature)
    );
    let bad_keys = vec![vec![0u8; 512], padded_key(&k2)];
    assert_eq!(
        verify_message_natively_ecdsa(signed, bad_keys, answers()),
        Err(NativeVerifyError::BadKey)
    );
}

#[test]
fn schnorr_batch_valid_and_failure() {
    let (s1, k1) = schnorr_parts(&SECRET, "Eamon");
    let (s2, k2) = schnorr_parts(&OTHER_SECRET, "Fiora");
    let answers = || {
        vec![
            Answer::new("Fiora".to_string(), s2.len(), Message::Shnoor),
            Answer::new("Eamon".to_string(), s1.len(), Message::Shnoor),
        ]
    };
    let keys = vec![padded_key(&k1), padded_key(&k2)];
    assert_eq!(
        verify_message_natively_schoor(vec![padded(&s1), padded(&s2)], keys.clone(), answers()),
        Ok(2)
    );
    assert_eq!(
        verify_message_natively_schoor(vec![padded(&s1), padded(&s1)], keys, answers()),
        Err(NativeVerifyError::NotVerified)
    );
}

#[test]
fn checked_native_variants() {
    let (s1, k1) = schnorr_parts(&SECRET, "Ilse");
    assert_eq!(try_verify_message_natively(&s1, &k1, &"Ilse".to_string()), Some(Ok(())));
    assert_eq!(try_verify_message_natively(&"00".repeat(8), &k1, &"Ilse".to_string()), None);
    assert_eq!(try_verify_message_natively(&s1, &k1[..31].to_vec(), &"Ilse".to_string()), None);
    assert_eq!(
        try_verify_message_natively(&"q".to_string(), &vec![], &"Ilse".to_string()),
        Some(Err(StatusFromWasm::Error))
    );
    let (s2, k2) = schnorr_parts(&OTHER_SECRET, "Jorah");
    let answers = || {
        vec![
            Answer::new("Jorah".to_string(), s2.len(), Message::Shnoor),
            Answer::new("Ilse".to_string(), s1.len(), Message::Shnoor),
        ]
    };
    let keys = vec![padded_key(&k1), padded_key(&k2)];
    let signed = vec![padded(&s1), padded(&s2)];
    assert!(batch_inputs_present(&signed, &keys, &answers(), 2));
    assert!(!batch_inputs_present(&signed[..1].to_vec(), &keys, &answers(), 2));
    assert_eq!(try_verify_message_natively_schoor(signed.clone(), keys.clone(), answers()), Some(Ok(2)));
    let short_key = vec![vec![1u8; 31], padded_key(&k2)];
    assert_eq!(try_verify_message_natively_schoor(signed.clone(), short_key, answers()), None);
    let wrong = vec![padded(&s2), padded(&s2)];
    assert_eq!(
        try_verify_message_natively_schoor(wrong, keys, answers()),
        Some(Err(NativeVerifyError::NotVerified))
    );
}

#[test]
fn verifier_of_each_runner() {
    assert_eq!(verifier_for(Runner::Wasmtime, 0), VerifierKind::Wasmtime);
    assert_eq!(verifier_for(Runner::Wasm3, 1), VerifierKind::Wasm3);
    assert_eq!(verifier_for(Runner::Native, 0), VerifierKind::NativeSchnorr);
    assert_eq!(verifier_for(Runner::Native, 1), VerifierKind::NativeEcdsa);
    assert_eq!(verifier_for(Runner::Replace, 1), VerifierKind::Unimplemented);
}
