use wasm_rpc::datastructs::{InterData, RECORD_SIZE, STRING_SIZE};
use wasm_rpc::filler_shmem;
use wasm_rpc::shmem::{fill_sh_memory, is_ready, read_shmem, write_complite, written_count};
use wasm_rpc::shmem::records_check;

fn region(len: usize) -> Vec<u8> {
    vec![0u8; len]
}

#[test]
fn new_record_is_zeroed() {
    let d = InterData::new();
    let serial = d.serial;
    assert_eq!(serial, 0);
    assert!(d.bytes1.iter().all(|b| *b == 0));
    assert!(d.bytes2.iter().all(|b| *b == 0));
}

#[test]
fn increment_serial_sets_serial() {
    let mut d = InterData::new();
    d.increment_serial(7);
    let serial = d.serial;
    assert_eq!(serial, 7);
    d.increment_serial(3);
    let serial = d.serial;
    assert_eq!(serial, 3);
}

#[test]
fn assign_bytes_copy_prefix() {
    let mut d = InterData::new();
    d.assign_bytes0(b"abc");
    d.assign_bytes1(&[9, 8]);
    assert_eq!(&d.bytes1[..4], &[b'a', b'b', b'c', 0]);
    assert_eq!(&d.bytes2[..3], &[9, 8, 0]);
    d.assign_bytes0(b"x");
    assert_eq!(&d.bytes1[..4], &[b'x', b'b', b'c', 0]);
}

#[test]
fn serialize_matches_bincode_layout() {
    let mut d = InterData::new();
    d.increment_serial(0x01020304);
    d.assign_bytes0(b"hello");
    d.assign_bytes1(&[1, 2, 3]);
    let ours = d.serialize();
    assert_eq!(ours.len(), RECORD_SIZE);
    let expected = bincode::serialize(&(0x01020304u32, &d.bytes1[..], &d.bytes2[..])).unwrap();
    assert_eq!(ours, expected);
    assert_eq!(&ours[0..4], &[4, 3, 2, 1]);
    assert_eq!(&ours[4..12], &[0, 2, 0, 0, 0, 0, 0, 0]);
}

#[test]
fn deserialize_reads_back_serialize() {
    let mut d = InterData::new();
    d.increment_serial(42);
    d.assign_bytes0(b"signed text");
    d.assign_bytes1(&[7u8; 33]);
    let mut bytes = d.serialize();
    bytes.extend_from_slice(&[0, 0, 0, 0]);
    let back = InterData::deserialize(&bytes);
    let serial = back.serial;
    assert_eq!(serial, 42);
    assert_eq!(back.bytes1[..], d.bytes1[..]);
    assert_eq!(back.bytes2[..], d.bytes2[..]);
}

#[test]
fn fill_writes_record_and_count() {
    let mut r = region(5 + 3 * RECORD_SIZE);
    fill_sh_memory(&mut r, "abcd".to_string(), vec![1, 2, 3], 0);
    assert_eq!(r[0], 0);
    assert_eq!(written_count(&r), 1);
    assert_eq!(&r[5..9], &[0, 0, 0, 0]);
    assert_eq!(&r[5 + 12..5 + 16], b"abcd");
    assert_eq!(&r[5 + 532..5 + 535], &[1, 2, 3]);
    fill_sh_memory(&mut r, "ef".to_string(), vec![4], 1);
    assert_eq!(written_count(&r), 2);
    assert_eq!(&r[5 + RECORD_SIZE..5 + RECORD_SIZE + 4], &[1, 0, 0, 0]);
    assert!(!is_ready(&r));
    write_complite(&mut r);
    assert!(is_ready(&r));
}

#[test]
fn what_is_filled_is_read_back() {
    let mut r = region(5 + 2 * RECORD_SIZE + 4);
    fill_sh_memory(&mut r, "first".to_string(), vec![0xaa; 33], 0);
    fill_sh_memory(&mut r, "second".to_string(), vec![0xbb; 32], 1);
    write_complite(&mut r);
    let (msgs, keys) = read_shmem(&mut r, 2);
    assert_eq!(msgs.len(), 2);
    assert!(msgs[0].starts_with("first"));
    assert_eq!(msgs[0].len(), STRING_SIZE);
    assert_eq!(msgs[0].trim_end_matches('\0'), "first");
    assert_eq!(msgs[1].trim_end_matches('\0'), "second");
    assert_eq!(&keys[0][..33], &[0xaa; 33][..]);
    assert_eq!(keys[0][33], 0);
    assert_eq!(keys[1].len(), STRING_SIZE);
    assert_eq!(&keys[1][..32], &[0xbb; 32][..]);
    assert_eq!(r[0], 0);
    assert_eq!(written_count(&r), 0);
}

#[test]
fn filler_reads_without_clearing() {
    let mut r = region(5 + RECORD_SIZE + 4);
    fill_sh_memory(&mut r, "only".to_string(), vec![5], 0);
    write_complite(&mut r);
    let (records, texts) = filler_shmem::read_shmem(&r, 1);
    let serial = records[0].serial;
    assert_eq!(serial, 0);
    assert_eq!(texts[0].trim_end_matches('\0'), "only");
    assert!(is_ready(&r));
    assert_eq!(written_count(&r), 1);
}

#[test]
fn records_check_reports_readability() {
    let mut r = region(5 + 2 * RECORD_SIZE + 4);
    assert!(!records_check(&r, 1));
    fill_sh_memory(&mut r, "t".to_string(), vec![1], 0);
    assert!(records_check(&r, 1));
    assert!(!records_check(&r, 2));
    assert!(records_check(&r, 0));
    r[5 + 12] = 0xff;
    assert!(!records_check(&r, 1));
}
