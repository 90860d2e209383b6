use wasm_rpc::datastructs::RECORD_SIZE;
use wasm_rpc::module3::serdes_example;
use wasm_rpc::module4;
use wasm_rpc::module6;
use wasm_rpc::serdes::{
    Operation, StatusFromWasm, StructRecv, StructSend, WasmDataRecv, WasmDataSend,
};
use wasm_rpc::server::{
    store_messages, ClientCommand, ClientRequest, RpcServiceServer, ServerResponse, ServerStep,
    StatusMsg, Timestamp,
};
use wasm_rpc::shmem::{is_ready, read_shmem, written_count};
use k256::ecdsa::signature::Signer;
use wasm_rpc::server::messages_fit_region;

const NOW: Timestamp = Timestamp { seconds: 1_700_000_000, nanos: 5 };

fn request(command: i32, payload: Option<&str>) -> ClientRequest {
    ClientRequest { command, timestamp: None, payload: payload.map(|s| s.to_string()), serial: 0 }
}

#[test]
fn server_answers_connect() {
    let server = RpcServiceServer::default();
    assert_eq!(
        server.establish_connection(request(0, Some("stream_storage")), NOW),
        ServerStep::Reply(ServerResponse { server_answer: None, msg_status: StatusMsg::Proceed, timestamp: Some(NOW) })
    );
    assert_eq!(
        server.establish_connection(request(0, None), NOW),
        ServerStep::Reply(ServerResponse { server_answer: None, msg_status: StatusMsg::Error, timestamp: Some(NOW) })
    );
}

#[test]
fn server_answers_sending_and_unknown() {
    let server = RpcServiceServer::default();
    assert_eq!(
        server.establish_connection(request(1, Some("s")), NOW),
        ServerStep::StoreThenReply(Some("s".to_string()))
    );
    assert_eq!(
        server.establish_connection(request(5, Some("s")), NOW),
        ServerStep::Reply(ServerResponse { server_answer: None, msg_status: StatusMsg::Error, timestamp: Some(NOW) })
    );
    assert_eq!(
        server.stored_reply(Some("s".to_string()), NOW),
        ServerResponse { server_answer: Some("s".to_string()), msg_status: StatusMsg::Okay, timestamp: Some(NOW) }
    );
}

#[test]
fn wire_numbers() {
    assert_eq!(ClientCommand::from_i32(0), Some(ClientCommand::Connect));
    assert_eq!(ClientCommand::from_i32(1), Some(ClientCommand::Sending));
    assert_eq!(ClientCommand::from_i32(2), None);
    assert_eq!(ClientCommand::Sending.to_i32(), 1);
    assert_eq!(StatusMsg::from_i32(2), Some(StatusMsg::Error));
    assert_eq!(StatusMsg::from_i32(3), None);
    assert_eq!(StatusMsg::Okay.to_i32(), 1);
}

#[test]
fn stored_messages_reach_the_reader() {
    let mut region = vec![0u8; 5 + 3 * RECORD_SIZE + 4];
    let entries = vec![
        ("aa11".to_string(), vec![1u8, 2]),
        ("bb22".to_string(), vec![3u8]),
        ("cc33".to_string(), vec![]),
    ];
    store_messages(&mut region, Some(entries));
    assert!(is_ready(&region));
    assert_eq!(written_count(&region), 3);
    let (msgs, keys) = read_shmem(&mut region, 3);
    assert_eq!(msgs[0].trim_end_matches('\0'), "aa11");
    assert_eq!(msgs[1].trim_end_matches('\0'), "bb22");
    assert_eq!(msgs[2].trim_end_matches('\0'), "cc33");
    assert_eq!(&keys[0][..3], &[1, 2, 0]);
    assert_eq!(&keys[1][..2], &[3, 0]);
    assert!(keys[2].iter().all(|b| *b == 0));
}

#[test]
fn nothing_fetched_leaves_region() {
    let mut region = vec![0u8; 5 + RECORD_SIZE + 4];
    store_messages(&mut region, None);
    assert!(region.iter().all(|b| *b == 0));
}

#[test]
fn serdes_example_answers() {
    let key = [3u8; 32];
    let one = StructSend { payload: "p".to_string(), id: 0, oper: Operation::One };
    assert_eq!(serdes_example(&one, &key), StructRecv { payload_back: "Heheh".to_string() });
    let two = StructSend { payload: "p".to_string(), id: 0, oper: Operation::Two };
    assert_eq!(serdes_example(&two, &key), StructRecv { payload_back: "11111".to_string() });
}

fn wasm_request(smessage: String, vkey: Vec<u8>, rmessage: &str, oper: Operation) -> WasmDataSend {
    WasmDataSend { rmessage: rmessage.to_string(), vkey, smessage, id: 0, oper }
}

#[test]
fn schnorr_guest_answers() {
    let key = k256::schnorr::SigningKey::from_bytes(&[1u8; 32]).unwrap();
    let sig: k256::schnorr::Signature = key.sign(b"Gareth");
    let text = hex::encode(sig.to_bytes());
    let vkey = key.verifying_key().to_bytes().to_vec();
    let ok = module4::verify_message(&wasm_request(text.clone(), vkey.clone(), "Gareth", Operation::One));
    assert_eq!(ok, WasmDataRecv { payload_back: "Ok".to_string(), status: StatusFromWasm::Valid });
    let bad = module4::verify_message(&wasm_request(text.clone(), vkey.clone(), "Garet", Operation::One));
    assert_eq!(bad, WasmDataRecv { payload_back: "Ok".to_string(), status: StatusFromWasm::NotValid });
    let err = module4::verify_message(&wasm_request("q".to_string(), vkey.clone(), "Gareth", Operation::One));
    assert_eq!(err, WasmDataRecv { payload_back: "Error".to_string(), status: StatusFromWasm::Error });
    let other = module4::verify_message(&wasm_request(text, vkey, "Gareth", Operation::Three));
    assert_eq!(other, WasmDataRecv { payload_back: "11111".to_string(), status: StatusFromWasm::Error });
}

#[test]
fn ecdsa_guest_answers() {
    let key = k256::ecdsa::SigningKey::from_slice(&[1u8; 32]).unwrap();
    let sig: k256::ecdsa::Signature = key.sign(b"Halden");
    let text = hex::encode(sig.to_der().as_bytes());
    let vkey = key.verifying_key().to_sec1_bytes().to_vec();
    let valid = module6::verify_message(&wasm_request(text.clone(), vkey.clone(), "Halden", Operation::One));
    assert_eq!(valid, WasmDataRecv { payload_back: "Ok".to_string(), status: StatusFromWasm::NotValid });
    let err = module6::verify_message(&wasm_request("0011".to_string(), vkey.clone(), "Halden", Operation::One));
    assert_eq!(err, WasmDataRecv { payload_back: "Error".to_string(), status: StatusFromWasm::Error });
    let bad_key = module6::verify_message(&wasm_request(text.clone(), vec![9u8; 33], "Halden", Operation::One));
    assert_eq!(bad_key, WasmDataRecv { payload_back: "Error".to_string(), status: StatusFromWasm::Error });
    let other = module6::verify_message(&wasm_request(text, vkey, "Halden", Operation::Two));
    assert_eq!(other, WasmDataRecv { payload_back: "11111".to_string(), status: StatusFromWasm::Error });
}

#[test]
fn fit_of_messages() {
    let region = vec![0u8; 5 + 2 * RECORD_SIZE];
    let two = vec![("a".to_string(), vec![1u8]), ("b".to_string(), vec![2u8])];
    assert!(messages_fit_region(&region, &two));
    let three = vec![
        ("a".to_string(), vec![1u8]),
        ("b".to_string(), vec![2u8]),
        ("c".to_string(), vec![3u8]),
    ];
    assert!(!messages_fit_region(&region, &three));
    let long = vec![("x".repeat(513), vec![1u8])];
    assert!(!messages_fit_region(&region, &long));
    assert!(messages_fit_region(&region, &vec![]));
    assert!(!messages_fit_region(&[0u8; 3], &vec![]));
}

#[test]
fn schnorr_guest_checked() {
    let req = wasm_request("00".repeat(10), vec![1u8; 32], "x", Operation::One);
    assert!(module4::try_verify_message(&req).is_none());
    let other = wasm_request("00".repeat(10), vec![1u8; 32], "x", Operation::Two);
    assert_eq!(
        module4::try_verify_message(&other),
        Some(WasmDataRecv { payload_back: "11111".to_string(), status: StatusFromWasm::Error })
    );
}
