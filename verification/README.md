# wasm_rpc

A verified core for a small pipeline in which a client signs short messages
(Schnorr or ECDSA over secp256k1), a server writes them into a shared-memory
region, and the client reads them back and verifies them, either natively or
inside waPC WebAssembly guests run by wasmtime.

`src/` is the library, checked by Verus:

- `datastructs`: the record type and its byte layout (bincode's layout).
- `shmem`, `filler_shmem`: the region's header, writing and reading records,
  and the proof that what the writer stores the reader gets back.
- `hexcodec`, `signatures`, `cipher`: the calls into `hex`, `k256` and
  `aes-gcm`, each with its contract.
- `native_verification*`, `module3`, `module4`, `module6`: the checks of signed
  messages, natively and as the guests decide them.
- `client`, `server`, `wasm_lib`, `wasm_processing`, `pipeline`: the client's
  and server's decisions, the waPC host, and the runs through the guests. The
  host keeps a ghost record of every guest call and module swap; the runs are
  stated over it (which payload each call hands over, and that the module
  swapped in half-way serves the calls after the swap).

`app/` runs the whole pipeline in one process, with a file standing for the
shared-memory region. `tests/` exercise the library on concrete values.
