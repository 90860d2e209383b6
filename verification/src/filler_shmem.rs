//! The filler's look at the shared-memory region: it reads records without
//! clearing the region.

use vstd::prelude::*;
use vstd::utf8::encode_utf8;
use crate::datastructs::{record_bytes1, record_bytes2, record_serial, InterData, STRING_SIZE};
use crate::shmem::{
    read_record, records_readable, records_text_valid, region_ready, region_record, str_from_utf8,
    HEADER_SIZE,
};

verus! {

/// Reads records `0..n_msg` of the region, with the text of each `bytes1`,
/// once the writer has marked the region complete.
pub fn read_shmem(region: &[u8], n_msg: u32) -> (r: (Vec<InterData<STRING_SIZE>>, Vec<String>))
    requires
        region@.len() >= HEADER_SIZE,
        region_ready(region@),
        records_readable(region@, n_msg as int),
        records_text_valid(region@, n_msg as int),
    ensures
        r.0@.len() == n_msg,
        r.1@.len() == n_msg,
        forall|k: int|
            0 <= k < n_msg ==> {
                &&& (#[trigger] r.0@[k]).serial == record_serial(region_record(region@, k))
                &&& r.0@[k].bytes1@ == record_bytes1(region_record(region@, k))
                &&& r.0@[k].bytes2@ == record_bytes2(region_record(region@, k))
                &&& encode_utf8(r.1@[k]@) == record_bytes1(region_record(region@, k))
            },
{
    let mut records: Vec<InterData<STRING_SIZE>> = Vec::new();
    let mut texts: Vec<String> = Vec::new();
    let mut k: u32 = 0;
    while k < n_msg
        invariant
            records_readable(region@, n_msg as int),
            records_text_valid(region@, n_msg as int),
            k <= n_msg,
            records@.len() == k,
            texts@.len() == k,
            forall|j: int|
                0 <= j < k ==> {
                    &&& (#[trigger] records@[j]).serial == record_serial(region_record(region@, j))
                    &&& records@[j].bytes1@ == record_bytes1(region_record(region@, j))
                    &&& records@[j].bytes2@ == record_bytes2(region_record(region@, j))
                    &&& encode_utf8(texts@[j]@) == record_bytes1(region_record(region@, j))
                },
        decreases n_msg - k,
    {
        assert(crate::datastructs::record_well_formed(region_record(region@, k as int)));
        assert(vstd::utf8::valid_utf8(record_bytes1(region_record(region@, k as int))));
        let data = read_record(region, k);
        let text = match str_from_utf8(data.bytes1.as_slice()) {
            Some(t) => t,
            None => {
                assert(false);
                ""
            },
        };
        texts.push(text.to_owned());
        records.push(data);
        k = k + 1;
    }
    (records, texts)
}

} // verus!
