//! Values exchanged between the host and the WebAssembly guests.

use vstd::prelude::*;

verus! {

/// A name handed to a guest to be hashed.
#[derive(Debug, PartialEq, Eq)]
pub struct PersonSend {
    pub first_name: String,
}

/// A name with the hash a guest computed for it.
#[derive(Debug, PartialEq, Eq)]
pub struct PersonHashedRecv {
    pub first_name: String,
    pub hash: u64,
}

/// The operation a guest is asked to perform.
#[derive(Debug, Clone, Copy, PartialEq, Eq, Structural)]
pub enum Operation {
    One,
    Two,
    Three,
}

/// A payload handed to a guest.
#[derive(Debug, PartialEq, Eq)]
pub struct StructSend {
    pub payload: String,
    pub id: i32,
    pub oper: Operation,
}

/// What a guest answers to a `StructSend`.
#[derive(Debug, PartialEq, Eq)]
pub struct StructRecv {
    pub payload_back: String,
}

/// Outcome of checking one signed message.
#[derive(Debug, Clone, Copy, PartialEq, Eq, Structural)]
pub enum StatusFromWasm {
    /// The signature verifies.
    Valid,
    /// The inputs decode but the signature does not verify.
    NotValid,
    /// The inputs could not be decoded.
    Error,
}

/// A signed message handed to a verifying guest: the message text, the
/// verifying key, the hex-encoded signature, an id and the operation.
#[derive(Debug, PartialEq, Eq)]
pub struct WasmDataSend {
    pub rmessage: String,
    pub vkey: Vec<u8>,
    pub smessage: String,
    pub id: i32,
    pub oper: Operation,
}

/// What a verifying guest answers.
#[derive(Debug, PartialEq, Eq)]
pub struct WasmDataRecv {
    pub payload_back: String,
    pub status: StatusFromWasm,
}

} // verus!
