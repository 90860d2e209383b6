//! The decision of the guest function `serdes_example`.

use vstd::prelude::*;
use crate::cipher::aes256_gcm_encrypt;
use crate::serdes::{Operation, StructRecv, StructSend};

verus! {

/// Answers a `StructSend`: for `Operation::One` the guest first encrypts a
/// sample plaintext with AES-256-GCM under `key` (the ciphertext is not
/// used) and answers `"Heheh"`; for any other operation it answers `"11111"`.
pub fn serdes_example(inputstruct: &StructSend, key: &[u8]) -> (r: StructRecv)
    requires
        key@.len() == 32,
    ensures
        inputstruct.oper == Operation::One ==> r.payload_back@ == "Heheh"@,
        inputstruct.oper != Operation::One ==> r.payload_back@ == "11111"@,
{
    match inputstruct.oper {
        Operation::One => {
            // the bytes of "unique nonce" and "plaintext message"
            let nonce: [u8; 12] = [117, 110, 105, 113, 117, 101, 32, 110, 111, 110, 99, 101];
            let plaintext: [u8; 17] = [112, 108, 97, 105, 110, 116, 101, 120, 116, 32, 109, 101, 115, 115, 97, 103, 101];
            let no_ad: [u8; 0] = [];
            let sealed = aes256_gcm_encrypt(key, nonce.as_slice(), no_ad.as_slice(), plaintext.as_slice());
            assert(sealed is Some);
            StructRecv { payload_back: "Heheh".to_owned() }
        },
        _ => StructRecv { payload_back: "11111".to_owned() },
    }
}

} // verus!
