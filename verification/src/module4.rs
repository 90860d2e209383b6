//! The decision of the guest function `verify_message` of the Schnorr
//! verifying module.

use vstd::prelude::*;
use vstd::utf8::encode_utf8;
use crate::native_verification::{
    schnorr_inputs_checkable, schnorr_inputs_safe, schnorr_outcome, verify_message_natively,
};
use crate::serdes::{Operation, StatusFromWasm, WasmDataRecv, WasmDataSend};
use crate::hexcodec::{hex_decode_spec, hex_decodes};
use crate::signatures::{schnorr_key_parses, schnorr_signature_parses, schnorr_verifies};

verus! {

/// Answers a `WasmDataSend`: for `Operation::One` it checks the Schnorr
/// signature and answers `Valid` or `NotValid` with payload `"Ok"`, or
/// `Error` with payload `"Error"` when something does not decode; for any
/// other operation it answers `Error` with payload `"11111"`.
pub fn verify_message(inputstruct: &WasmDataSend) -> (r: WasmDataRecv)
    requires
        inputstruct.oper == Operation::One ==> schnorr_inputs_safe(
            encode_utf8(inputstruct.smessage@),
            inputstruct.vkey@,
        ),
    ensures
        inputstruct.oper == Operation::One ==> {
            let outcome = schnorr_outcome(
                encode_utf8(inputstruct.smessage@),
                inputstruct.vkey@,
                encode_utf8(inputstruct.rmessage@),
            );
            &&& outcome == Ok::<(), StatusFromWasm>(()) ==> r.status == StatusFromWasm::Valid
                && r.payload_back@ == "Ok"@
            &&& outcome == Err::<(), StatusFromWasm>(StatusFromWasm::NotValid) ==> r.status
                == StatusFromWasm::NotValid && r.payload_back@ == "Ok"@
            &&& outcome == Err::<(), StatusFromWasm>(StatusFromWasm::Error) ==> r.status
                == StatusFromWasm::Error && r.payload_back@ == "Error"@
        },
        inputstruct.oper == Operation::One ==> {
            let text = encode_utf8(inputstruct.smessage@);
            let sig = hex_decode_spec(text);
            let key = inputstruct.vkey@;
            let decodes = hex_decodes(text) && schnorr_signature_parses(sig) && schnorr_key_parses(key);
            &&& r.status == StatusFromWasm::Valid <==> decodes && schnorr_verifies(
                key,
                encode_utf8(inputstruct.rmessage@),
                sig,
            )
            &&& r.status == StatusFromWasm::NotValid <==> decodes && !schnorr_verifies(
                key,
                encode_utf8(inputstruct.rmessage@),
                sig,
            )
            &&& r.status == StatusFromWasm::Error <==> !decodes
        },
        inputstruct.oper != Operation::One ==> r.status == StatusFromWasm::Error
            && r.payload_back@ == "11111"@,
{
    match inputstruct.oper {
        Operation::One => {
            match verify_message_natively(&inputstruct.smessage, &inputstruct.vkey, &inputstruct.rmessage) {
                Ok(()) => WasmDataRecv { payload_back: "Ok".to_owned(), status: StatusFromWasm::Valid },
                Err(StatusFromWasm::NotValid) => WasmDataRecv {
                    payload_back: "Ok".to_owned(),
                    status: StatusFromWasm::NotValid,
                },
                Err(_) => WasmDataRecv {
                    payload_back: "Error".to_owned(),
                    status: StatusFromWasm::Error,
                },
            }
        },
        _ => WasmDataRecv { payload_back: "11111".to_owned(), status: StatusFromWasm::Error },
    }
}

/// Runs `verify_message` where its inputs can be checked, and answers `None`
/// for an `Operation::One` whose signature decodes to fewer than 32 bytes or
/// whose key is not 32 bytes long next to a signature that parses.
pub fn try_verify_message(inputstruct: &WasmDataSend) -> (r: Option<WasmDataRecv>)
    ensures
        r is Some <==> (inputstruct.oper == Operation::One ==> schnorr_inputs_safe(
            encode_utf8(inputstruct.smessage@),
            inputstruct.vkey@,
        )),
        r matches Some(reply) ==> inputstruct.oper != Operation::One ==> reply.status
            == StatusFromWasm::Error && reply.payload_back@ == "11111"@,
        r matches Some(reply) ==> inputstruct.oper == Operation::One ==> {
            let outcome = schnorr_outcome(
                encode_utf8(inputstruct.smessage@),
                inputstruct.vkey@,
                encode_utf8(inputstruct.rmessage@),
            );
            &&& outcome == Ok::<(), StatusFromWasm>(()) ==> reply.status == StatusFromWasm::Valid
                && reply.payload_back@ == "Ok"@
            &&& outcome == Err::<(), StatusFromWasm>(StatusFromWasm::NotValid) ==> reply.status
                == StatusFromWasm::NotValid && reply.payload_back@ == "Ok"@
            &&& outcome == Err::<(), StatusFromWasm>(StatusFromWasm::Error) ==> reply.status
                == StatusFromWasm::Error && reply.payload_back@ == "Error"@
        },
{
    if inputstruct.oper == Operation::One && !schnorr_inputs_checkable(
        inputstruct.smessage.as_str().as_bytes(),
        inputstruct.vkey.as_slice(),
    ) {
        return None;
    }
    Some(verify_message(inputstruct))
}

} // verus!
