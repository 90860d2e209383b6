use wasm_rpc::datastructs::MESSAGES_NUMBER;
use wasm_rpc::serdes::{Operation, StatusFromWasm, WasmDataRecv};
use wasm_rpc::wasm_lib::{host_callback, Engine, HostProvider};
use wasm_rpc::wasm_processing::{
    build_filler_requests, build_wasm_requests, checked_filler_requests, count_valid,
    replaces_module_before, MSG_LIMIT,
};

const EMPTY_MODULE: [u8; 8] = [0x00, 0x61, 0x73, 0x6d, 0x01, 0x00, 0x00, 0x00];

#[test]
fn engine_refuses_garbage() {
    assert!(Engine::new(b"not a module").is_err());
}

#[test]
fn engine_builds_but_host_needs_wapc_exports() {
    let engine = Engine::new(&EMPTY_MODULE);
    assert!(engine.is_ok());
    assert!(HostProvider::assign(engine.unwrap()).is_err());
}

#[test]
fn host_callback_answers_empty() {
    assert!(host_callback(1, "binding", "ns", "op", &[1, 2]).is_empty());
}

#[test]
fn wasm_requests_pair_messages() {
    assert_eq!(MESSAGES_NUMBER, 2);
    let long = "a".repeat(200);
    let signed = vec![long.clone(), "bb".to_string()];
    let keys = vec![vec![1u8; 40], vec![2u8; 10]];
    let right = vec!["first".to_string(), "second".to_string()];
    let reqs = build_wasm_requests(signed, keys, right);
    assert_eq!(reqs.len(), 2);
    assert_eq!(reqs[0].rmessage, "first");
    assert_eq!(reqs[0].smessage, "bb");
    assert_eq!(reqs[0].vkey, vec![2u8; 10]);
    assert_eq!(reqs[0].id, 0);
    assert_eq!(reqs[0].oper, Operation::One);
    assert_eq!(reqs[1].rmessage, "second");
    assert_eq!(reqs[1].smessage, "a".repeat(MSG_LIMIT));
    assert_eq!(reqs[1].vkey, vec![1u8; 33]);
    assert_eq!(reqs[1].id, 1);
}

#[test]
fn module_swapped_half_way() {
    assert!(!replaces_module_before(0));
    assert!(replaces_module_before(1));
    assert!(!replaces_module_before(2));
}

#[test]
fn valid_answers_are_counted() {
    let replies = vec![
        WasmDataRecv { payload_back: "Ok".to_string(), status: StatusFromWasm::Valid },
        WasmDataRecv { payload_back: "Ok".to_string(), status: StatusFromWasm::NotValid },
        WasmDataRecv { payload_back: "Ok".to_string(), status: StatusFromWasm::Valid },
        WasmDataRecv { payload_back: "Error".to_string(), status: StatusFromWasm::Error },
    ];
    assert_eq!(count_valid(&replies), 2);
    assert_eq!(count_valid(&vec![]), 0);
}

fn schnorr_key() -> Vec<u8> {
    k256::schnorr::SigningKey::from_bytes(&[1u8; 32]).unwrap().verifying_key().to_bytes().to_vec()
}

#[test]
fn filler_requests_checked() {
    let keys = vec![schnorr_key(), schnorr_key()];
    let signed = vec!["aGVsbG8=".to_string(), "d29ybGQ=".to_string()];
    let reqs = checked_filler_requests(signed.clone(), keys.clone()).unwrap();
    assert_eq!(reqs[0].payload, "d29ybGQ=");
    assert_eq!(reqs[1].payload, "aGVsbG8=");
    assert_eq!(reqs[0].oper, Operation::Two);
    assert_eq!(reqs[0].id, 0);
    let direct = build_filler_requests(signed, keys.clone());
    assert_eq!(direct, reqs);
    assert!(checked_filler_requests(vec!["!!".to_string(), "d29ybGQ=".to_string()], keys.clone()).is_none());
    let mut long_key = schnorr_key();
    long_key.push(0);
    assert!(checked_filler_requests(vec!["aGVsbG8=".to_string(), "d29ybGQ=".to_string()], vec![long_key, schnorr_key()]).is_none());
}
