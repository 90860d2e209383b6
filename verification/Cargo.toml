[package]
name = "wasm_rpc"
version = "0.1.0"
edition = "2021"
publish = false

[dependencies]
hex = "=0.4.3"
k256 = { version = "=0.13.4", features = ["ecdsa", "schnorr"] }
base64 = "=0.21.7"
aes-gcm = { version = "=0.10.3", features = ["heapless"] }
anyhow = "=1.0.104"
wapc = "=2.2.0"
wasmtime-provider = { version = "=2.20.0", default-features = false }
wapc-codec = "=1.1.0"
wapc-guest = "1"
bincode = "=1.3.3"
serde = { version = "=1.0.229", features = ["derive"] }
serde_with = "=3.24.0"
crossbeam-channel = "=0.5.17"
project-root = "=0.2.2"
console = "=0.15.11"
log = "=0.4.35"
env_logger = "=0.10.2"
structopt = "=0.3.26"
rand_core = { version = "=0.6.4", features = ["getrandom"] }
