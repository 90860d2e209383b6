//! Verified core of a client/server pipeline that signs short messages,
//! moves them through a shared-memory region and verifies them natively or
//! inside waPC WebAssembly guests.

pub mod datastructs;
pub mod hexcodec;
pub mod shmem;
pub mod serdes;
pub mod signatures;
pub mod client;
pub mod native_verification;
pub mod native_verification_ecdsa;
pub mod native_verification_schoor;
pub mod cipher;
pub mod module3;
pub mod module4;
pub mod module6;
pub mod wasm_lib;
pub mod wasm_processing;
pub mod server;
pub mod filler_shmem;
pub mod pipeline;
