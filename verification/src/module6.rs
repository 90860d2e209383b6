//! The decision of the guest function `verify_message` of the ECDSA
//! verifying module.

use vstd::prelude::*;
use vstd::utf8::encode_utf8;
use crate::hexcodec::{hex_decode, hex_decode_spec, hex_decodes};
use crate::serdes::{Operation, StatusFromWasm, WasmDataRecv, WasmDataSend};
use crate::signatures::{
    ecdsa_key_check, ecdsa_key_parses, ecdsa_signature_check, ecdsa_signature_parses, ecdsa_verify,
};

verus! {

/// The ECDSA signature text and key of `input` both decode.
pub open spec fn ecdsa_inputs_decode(text: Seq<u8>, key: Seq<u8>) -> bool {
    &&& hex_decodes(text)
    &&& ecdsa_signature_parses(hex_decode_spec(text))
    &&& ecdsa_key_parses(key)
}

/// Answers a `WasmDataSend`: for `Operation::One` it decodes the DER
/// signature and the SEC1 key and runs the ECDSA verification, then answers
/// `NotValid` with payload `"Ok"` whatever the verification says (this module
/// reports every decodable message as not valid), or `Error` with payload
/// `"Error"` when something does not decode; for any other operation it
/// answers `Error` with payload `"11111"`.
pub fn verify_message(inputstruct: &WasmDataSend) -> (r: WasmDataRecv)
    ensures
        inputstruct.oper == Operation::One && ecdsa_inputs_decode(
            encode_utf8(inputstruct.smessage@),
            inputstruct.vkey@,
        ) ==> r.status == StatusFromWasm::NotValid && r.payload_back@ == "Ok"@,
        inputstruct.oper == Operation::One && !ecdsa_inputs_decode(
            encode_utf8(inputstruct.smessage@),
            inputstruct.vkey@,
        ) ==> r.status == StatusFromWasm::Error && r.payload_back@ == "Error"@,
        inputstruct.oper != Operation::One ==> r.status == StatusFromWasm::Error
            && r.payload_back@ == "11111"@,
{
    let bad_msg = WasmDataRecv { payload_back: "Error".to_owned(), status: StatusFromWasm::Error };
    match inputstruct.oper {
        Operation::One => {
            let sig = match hex_decode(inputstruct.smessage.as_str().as_bytes()) {
                Some(sig) => sig,
                None => {
                    return bad_msg;
                },
            };
            if !ecdsa_signature_check(sig.as_slice()) {
                return bad_msg;
            }
            if !ecdsa_key_check(inputstruct.vkey.as_slice()) {
                return bad_msg;
            }
            if ecdsa_verify(
                inputstruct.vkey.as_slice(),
                inputstruct.rmessage.as_str().as_bytes(),
                sig.as_slice(),
            ) {
                WasmDataRecv { payload_back: "Ok".to_owned(), status: StatusFromWasm::NotValid }
            } else {
                WasmDataRecv { payload_back: "Ok".to_owned(), status: StatusFromWasm::NotValid }
            }
        },
        _ => WasmDataRecv { payload_back: "11111".to_owned(), status: StatusFromWasm::Error },
    }
}

} // verus!
