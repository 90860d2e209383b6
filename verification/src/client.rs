//! The client side: kinds of signed messages, the expected answers it keeps
//! for later checking, and how it builds a signed message.

use vstd::prelude::*;
use vstd::utf8::encode_utf8;
use crate::hexcodec::{hex_encode, hex_encode_spec, lemma_hex_round_trip, lemma_hex_text_bytes};
use crate::native_verification::schnorr_outcome;
use crate::native_verification_ecdsa::ecdsa_outcome;
use crate::native_verification::NativeVerifyError;
use crate::serdes::StatusFromWasm;
use crate::server::{ClientCommand, ClientRequest, StatusMsg, Timestamp};
use crate::signatures::{
    ecdsa_public_key, ecdsa_public_key_of, ecdsa_sign, ecdsa_signature, schnorr_public_key,
    schnorr_public_key_of, schnorr_sign, schnorr_signature,
};

verus! {

/// The signature scheme of a message.
#[derive(Debug, Clone, Copy, PartialEq, Eq, Structural)]
pub enum Message {
    Shnoor,
    Ecdsa,
}

/// A number that names no message kind. It is reported as an I/O error of
/// kind `Other` whose text is `to_string()`.
#[derive(Debug, Clone, Copy, PartialEq, Eq, Structural)]
pub struct UnknownMessageKind;

impl UnknownMessageKind {
    /// The text of the error: `cant make into`.
    pub fn to_string(&self) -> (s: String)
        ensures
            s@ == "cant make into"@,
    {
        "cant make into".to_string()
    }
}

impl Message {
    /// `0` is Schnorr, `1` is ECDSA; any other number is refused.
    pub fn try_from(v: u32) -> (r: Result<Message, UnknownMessageKind>)
        ensures
            v == 0 ==> r == Ok::<Message, UnknownMessageKind>(Message::Shnoor),
            v == 1 ==> r == Ok::<Message, UnknownMessageKind>(Message::Ecdsa),
            v > 1 ==> r == Err::<Message, UnknownMessageKind>(UnknownMessageKind),
    {
        if v == 0 {
            Ok(Message::Shnoor)
        } else if v == 1 {
            Ok(Message::Ecdsa)
        } else {
            Err(UnknownMessageKind)
        }
    }
}

/// What the client remembers of a message it sent: the message text, the
/// length of the hex-encoded signature, and the signature scheme.
pub struct Answer {
    pub msg: String,
    pub e_len: usize,
    pub mtype: Message,
}

impl Answer {
    pub fn new(msg: String, e_len: usize, mtype: Message) -> (r: Self)
        ensures
            r.msg == msg,
            r.e_len == e_len,
            r.mtype == mtype,
    {
        Self { msg, e_len, mtype }
    }
}

/// Which scheme the client signs with: 0 Schnorr, 1 ECDSA, 2 a random
/// choice per message.
pub const TEST_MODE: u32 = 1;

/// The scheme of the next message: fixed by `test_mode` 0 (Schnorr) or 1
/// (ECDSA), otherwise taken from the parity of the random number `random`.
pub fn choose_message_kind(test_mode: u32, random: u32) -> (r: Message)
    ensures
        test_mode == 1 ==> r == Message::Ecdsa,
        test_mode == 0 ==> r == Message::Shnoor,
        test_mode > 1 ==> r == (if random % 2 == 0 { Message::Shnoor } else { Message::Ecdsa }),
{
    if test_mode == 1 {
        Message::Ecdsa
    } else if test_mode == 0 {
        Message::Shnoor
    } else {
        match Message::try_from(random % 2) {
            Ok(m) => m,
            Err(_) => {
                assert(false);
                Message::Shnoor
            },
        }
    }
}

/// Where the client verifies the messages it reads back.
#[derive(Debug, Clone, Copy, PartialEq, Eq, Structural)]
pub enum Runner {
    Wasmtime,
    Wasm3,
    Native,
    Replace,
}

impl Runner {
    /// The runner chosen by the command-line number: 0 wasmtime, 1 wasm3,
    /// 2 native, 3 wasmtime with a module swap; any other number is native.
    pub fn from_arg(runner: u32) -> (r: Runner)
        ensures
            runner == 0 ==> r == Runner::Wasmtime,
            runner == 1 ==> r == Runner::Wasm3,
            runner == 2 ==> r == Runner::Native,
            runner == 3 ==> r == Runner::Replace,
            runner > 3 ==> r == Runner::Native,
    {
        match runner {
            0 => Runner::Wasmtime,
            1 => Runner::Wasm3,
            2 => Runner::Native,
            3 => Runner::Replace,
            _ => Runner::Native,
        }
    }
}

/// What verifies the messages read back: a wasmtime guest, a wasm3 guest,
/// native Schnorr or native ECDSA checks, or nothing (a runner that has no
/// verifier).
#[derive(Debug, Clone, Copy, PartialEq, Eq, Structural)]
pub enum VerifierKind {
    Wasmtime,
    Wasm3,
    NativeSchnorr,
    NativeEcdsa,
    Unimplemented,
}

/// The verifier a runner uses: the native one follows `test_mode` (0 is
/// Schnorr, anything else ECDSA); the swap runner has no verifier of its own.
pub fn verifier_for(runner: Runner, test_mode: u32) -> (r: VerifierKind)
    ensures
        runner == Runner::Wasmtime ==> r == VerifierKind::Wasmtime,
        runner == Runner::Wasm3 ==> r == VerifierKind::Wasm3,
        runner == Runner::Native && test_mode == 0 ==> r == VerifierKind::NativeSchnorr,
        runner == Runner::Native && test_mode != 0 ==> r == VerifierKind::NativeEcdsa,
        runner == Runner::Replace ==> r == VerifierKind::Unimplemented,
{
    match runner {
        Runner::Wasmtime => VerifierKind::Wasmtime,
        Runner::Native => if test_mode == 0 {
            VerifierKind::NativeSchnorr
        } else {
            VerifierKind::NativeEcdsa
        },
        Runner::Wasm3 => VerifierKind::Wasm3,
        Runner::Replace => VerifierKind::Unimplemented,
    }
}

/// Name of the stream in which the client stores its signed messages.
pub const STREAM_NAME: &'static str = "stream_storage";

/// The requests the client sends: open the connection, or announce that the
/// messages of a stream are ready.
pub enum Cmd1 {
    Establish,
    Sending(String),
}

/// Builds the client's requests.
pub struct BaseRequest {}

impl BaseRequest {
    /// `Establish` asks to connect, naming the message stream; `Sending(s)`
    /// announces the stream `s`. The serial is always 0 and the request is
    /// stamped with `now`, the time the client read when it made it.
    pub fn construct(pattern: Cmd1, now: Timestamp) -> (r: ClientRequest)
        ensures
            r.timestamp == Some(now),
            r.serial == 0,
            pattern is Establish ==> r.command == 0 && r.payload is Some && r.payload->0@ == STREAM_NAME@,
            pattern matches Cmd1::Sending(s) ==> r.command == 1 && r.payload == Some(s),
    {
        match pattern {
            Cmd1::Establish => ClientRequest {
                command: ClientCommand::Connect.to_i32(),
                timestamp: Some(now),
                payload: Some(STREAM_NAME.to_owned()),
                serial: 0,
            },
            Cmd1::Sending(s) => ClientRequest {
                command: ClientCommand::Sending.to_i32(),
                timestamp: Some(now),
                payload: Some(s),
                serial: 0,
            },
        }
    }
}

/// Why the client gives up after its first request.
#[derive(Debug, Clone, Copy, PartialEq, Eq, Structural)]
pub enum ConnectError {
    /// The server answered with a status other than `Proceed`.
    Refused,
    /// The server's status number names no status.
    UnknownStatus,
}

/// The client goes on only when the server answered `Proceed`.
pub fn check_initial_response(msg_status: i32) -> (r: Result<(), ConnectError>)
    ensures
        msg_status == 0 ==> r is Ok,
        (msg_status == 1 || msg_status == 2) ==> r == Err::<(), ConnectError>(ConnectError::Refused),
        !(0 <= msg_status <= 2) ==> r == Err::<(), ConnectError>(ConnectError::UnknownStatus),
{
    match StatusMsg::from_i32(msg_status) {
        Some(StatusMsg::Proceed) => Ok(()),
        Some(_) => Err(ConnectError::Refused),
        None => Err(ConnectError::UnknownStatus),
    }
}

/// The signature that `construct_message` makes of `msg` with `secret`.
pub open spec fn message_signature(type_msg: Message, secret: Seq<u8>, msg: Seq<u8>) -> Option<Seq<u8>> {
    match type_msg {
        Message::Shnoor => schnorr_signature(secret, msg),
        Message::Ecdsa => ecdsa_signature(secret, msg),
    }
}

/// The verifying key that `construct_message` hands out for `secret`.
pub open spec fn message_public_key(type_msg: Message, secret: Seq<u8>) -> Option<Seq<u8>> {
    match type_msg {
        Message::Shnoor => schnorr_public_key(secret),
        Message::Ecdsa => ecdsa_public_key(secret),
    }
}

/// Signs `msg` with the signing key `secret` (32 big-endian bytes) of the
/// given scheme. Returns the hex text of the signature (Schnorr: its 64
/// bytes; ECDSA: its DER encoding), the verifying key (Schnorr: the 32-byte
/// x-coordinate; ECDSA: the 33-byte compressed SEC1 point), the message, the
/// length of the hex text and the scheme; `None` when the key or the signing
/// is refused. What it makes passes the native check of its scheme.
pub fn construct_message(type_msg: Message, secret: &[u8], msg: String) -> (r: Option<
    (String, Vec<u8>, String, usize, Message),
>)
    ensures
        r is Some <==> message_public_key(type_msg, secret@) is Some
            && message_signature(type_msg, secret@, encode_utf8(msg@)) is Some,
        r matches Some(t) ==> {
            &&& t.0@ == hex_encode_spec(message_signature(type_msg, secret@, encode_utf8(msg@))->0)
            &&& t.1@ == message_public_key(type_msg, secret@)->0
            &&& t.2 == msg
            &&& t.3 == encode_utf8(t.0@).len()
            &&& t.4 == type_msg
        },
        type_msg == Message::Shnoor ==> (r matches Some(t) ==> {
            &&& t.3 == 128
            &&& t.1@.len() == 32
            &&& schnorr_outcome(encode_utf8(t.0@), t.1@, encode_utf8(t.2@)) == Ok::<(), StatusFromWasm>(())
        }),
        type_msg == Message::Ecdsa ==> (r matches Some(t) ==> {
            &&& t.3 <= 144
            &&& t.1@.len() == 33
            &&& ecdsa_outcome(encode_utf8(t.0@), t.1@, encode_utf8(t.2@)) == Ok::<(), NativeVerifyError>(())
        }),
{
    let msg_bytes = msg.as_str().as_bytes();
    match type_msg {
        Message::Shnoor => {
            let unique_key = match schnorr_public_key_of(secret) {
                Some(k) => k,
                None => {
                    return None;
                },
            };
            let sig = match schnorr_sign(secret, msg_bytes) {
                Some(s) => s,
                None => {
                    return None;
                },
            };
            let signed_msg = hex_encode(sig.as_slice());
            proof {
                lemma_hex_text_bytes(sig@);
                lemma_hex_round_trip(sig@);
            }
            let smsg_len = signed_msg.as_str().len();
            Some((signed_msg, unique_key, msg, smsg_len, Message::Shnoor))
        },
        Message::Ecdsa => {
            let unique_key = match ecdsa_public_key_of(secret) {
                Some(k) => k,
                None => {
                    return None;
                },
            };
            let sig = match ecdsa_sign(secret, msg_bytes) {
                Some(s) => s,
                None => {
                    return None;
                },
            };
            let signed_msg = hex_encode(sig.as_slice());
            proof {
                lemma_hex_text_bytes(sig@);
                lemma_hex_round_trip(sig@);
            }
            let smsg_len = signed_msg.as_str().len();
            Some((signed_msg, unique_key, msg, smsg_len, Message::Ecdsa))
        },
    }
}

} // verus!
